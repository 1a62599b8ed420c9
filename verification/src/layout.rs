//! Where the panes are: workspaces hold tabs, tabs hold panes, and each pane shows
//! one terminal.

use crate::sequences::first_match;
use crate::terminal::{AgentState, TerminalTable, TerminalView};
use crate::text::same;
use vstd::prelude::*;

verus! {

/// The number by which a pane goes inside the program.
pub type PaneId = u32;

#[derive(Debug, Clone, PartialEq, Eq)]
pub struct PaneState {
    pub pane_id: PaneId,
    pub attached_terminal_id: String,
}

#[derive(Debug, Clone, PartialEq, Eq)]
pub struct Tab {
    pub panes: Vec<PaneState>,
}

#[derive(Debug, Clone, PartialEq, Eq)]
pub struct Workspace {
    pub id: String,
    pub tabs: Vec<Tab>,
}

/// The name by which a pane goes outside the program.
#[derive(Debug, Clone, PartialEq, Eq)]
pub struct PublicPane {
    pub public_id: String,
    pub workspace_index: usize,
    pub pane_id: PaneId,
}

#[derive(Debug, Clone, PartialEq, Eq)]
pub struct Layout {
    pub workspaces: Vec<Workspace>,
    pub public_panes: Vec<PublicPane>,
}

/// A pane with the place of its workspace.
#[derive(Debug, Clone, PartialEq, Eq)]
pub struct PlacedPane {
    pub workspace_index: usize,
    pub pane_id: PaneId,
    pub terminal_id: String,
}

#[verifier::ext_equal]
pub struct PaneView {
    pub pane_id: PaneId,
    pub terminal_id: Seq<char>,
}

#[verifier::ext_equal]
pub struct PublicPaneView {
    pub public_id: Seq<char>,
    pub workspace_index: usize,
    pub pane_id: PaneId,
}

#[verifier::ext_equal]
pub struct PlacedPaneView {
    pub workspace_index: usize,
    pub pane_id: PaneId,
    pub terminal_id: Seq<char>,
}

/// Workspaces as sequences of tabs, tabs as sequences of panes.
#[verifier::ext_equal]
pub struct LayoutView {
    pub workspaces: Seq<Seq<Seq<PaneView>>>,
    pub public_panes: Seq<PublicPaneView>,
}

impl View for PaneState {
    type V = PaneView;

    open spec fn view(&self) -> PaneView {
        PaneView { pane_id: self.pane_id, terminal_id: self.attached_terminal_id@ }
    }
}

impl View for Tab {
    type V = Seq<PaneView>;

    open spec fn view(&self) -> Seq<PaneView> {
        self.panes@.map_values(|p: PaneState| p@)
    }
}

impl View for Workspace {
    type V = Seq<Seq<PaneView>>;

    open spec fn view(&self) -> Seq<Seq<PaneView>> {
        self.tabs@.map_values(|t: Tab| t@)
    }
}

impl View for PublicPane {
    type V = PublicPaneView;

    open spec fn view(&self) -> PublicPaneView {
        PublicPaneView {
            public_id: self.public_id@,
            workspace_index: self.workspace_index,
            pane_id: self.pane_id,
        }
    }
}

impl View for PlacedPane {
    type V = PlacedPaneView;

    open spec fn view(&self) -> PlacedPaneView {
        PlacedPaneView {
            workspace_index: self.workspace_index,
            pane_id: self.pane_id,
            terminal_id: self.terminal_id@,
        }
    }
}

impl View for Layout {
    type V = LayoutView;

    open spec fn view(&self) -> LayoutView {
        LayoutView {
            workspaces: self.workspaces@.map_values(|w: Workspace| w@),
            public_panes: self.public_panes@.map_values(|p: PublicPane| p@),
        }
    }
}

/// The pane with the given number in the first tab that has one.
pub open spec fn pane_in_tabs(tabs: Seq<Seq<PaneView>>, pane_id: PaneId) -> Option<PaneView>
    decreases tabs.len(),
{
    if tabs.len() == 0 {
        None
    } else if let Some(pane) = first_match(tabs.first(), |p: PaneView| p.pane_id == pane_id) {
        Some(pane)
    } else {
        pane_in_tabs(tabs.drop_first(), pane_id)
    }
}

/// The panes of one tab, each with the place of its workspace.
pub open spec fn placed_in_tab(tab: Seq<PaneView>, workspace_index: usize) -> Seq<PlacedPaneView> {
    tab.map_values(
        |p: PaneView|
            PlacedPaneView { workspace_index, pane_id: p.pane_id, terminal_id: p.terminal_id },
    )
}

/// The panes of some tabs, tab after tab.
pub open spec fn placed_in_tabs(tabs: Seq<Seq<PaneView>>, workspace_index: usize) -> Seq<
    PlacedPaneView,
>
    decreases tabs.len(),
{
    if tabs.len() == 0 {
        Seq::empty()
    } else {
        placed_in_tabs(tabs.drop_last(), workspace_index) + placed_in_tab(
            tabs.last(),
            workspace_index,
        )
    }
}

/// The panes of all workspaces, workspace after workspace.
pub open spec fn placed_panes(workspaces: Seq<Seq<Seq<PaneView>>>) -> Seq<PlacedPaneView>
    decreases workspaces.len(),
{
    if workspaces.len() == 0 {
        Seq::empty()
    } else {
        placed_panes(workspaces.drop_last()) + placed_in_tabs(
            workspaces.last(),
            (workspaces.len() - 1) as usize,
        )
    }
}

impl LayoutView {
    /// The pane that goes by a public name.
    pub open spec fn find_public(self, public_id: Seq<char>) -> Option<PublicPaneView> {
        first_match(self.public_panes, |p: PublicPaneView| p.public_id == public_id)
    }

    /// The pane that goes by a public name, with the terminal that it shows, if its
    /// workspace still holds it.
    pub open spec fn resolve(self, public_id: Seq<char>) -> Option<PlacedPaneView> {
        match self.find_public(public_id) {
            Some(public) if public.workspace_index < self.workspaces.len() => match pane_in_tabs(
                self.workspaces[public.workspace_index as int],
                public.pane_id,
            ) {
                Some(pane) => Some(
                    PlacedPaneView {
                        workspace_index: public.workspace_index,
                        pane_id: public.pane_id,
                        terminal_id: pane.terminal_id,
                    },
                ),
                None => None,
            },
            _ => None,
        }
    }

    /// Some pane shows a terminal whose agent is working.
    pub open spec fn has_working_pane(self, terminals: Map<Seq<char>, TerminalView>) -> bool {
        exists|i: int|
            0 <= i < placed_panes(self.workspaces).len() && shows_working(
                #[trigger] placed_panes(self.workspaces)[i],
                terminals,
            )
    }
}

pub open spec fn shows_working(
    pane: PlacedPaneView,
    terminals: Map<Seq<char>, TerminalView>,
) -> bool {
    terminals.contains_key(pane.terminal_id) && terminals[pane.terminal_id].state
        == AgentState::Working
}

impl Workspace {
    /// The pane with the given number.
    pub fn pane_state(&self, pane_id: PaneId) -> (r: Option<&PaneState>)
        ensures
            match r {
                Some(pane) => pane_in_tabs(self@, pane_id) == Some(pane@),
                None => pane_in_tabs(self@, pane_id) is None,
            },
    {
        let ghost test = |p: PaneView| p.pane_id == pane_id;
        let mut t: usize = 0;
        assert(self@.skip(0) =~= self@);
        while t < self.tabs.len()
            invariant
                t <= self.tabs@.len(),
                test == (|p: PaneView| p.pane_id == pane_id),
                pane_in_tabs(self@, pane_id) == pane_in_tabs(self@.skip(t as int), pane_id),
            decreases self.tabs@.len() - t,
        {
            let panes = &self.tabs[t].panes;
            let ghost tab = self.tabs@[t as int]@;
            assert(self@.skip(t as int).first() == tab);
            assert(self@.skip(t as int).drop_first() =~= self@.skip(t + 1));
            let mut i: usize = 0;
            assert(tab.skip(0) =~= tab);
            while i < panes.len()
                invariant
                    t < self.tabs@.len(),
                    i <= panes@.len(),
                    panes == self.tabs@[t as int].panes,
                    tab == self.tabs@[t as int]@,
                    tab.len() == panes@.len(),
                    test == (|p: PaneView| p.pane_id == pane_id),
                    first_match(tab, test) == first_match(tab.skip(i as int), test),
                    pane_in_tabs(self@, pane_id) == pane_in_tabs(self@.skip(t as int), pane_id),
                    self@.skip(t as int).len() > 0,
                    self@.skip(t as int).first() == tab,
                decreases panes@.len() - i,
            {
                assert(tab[i as int] == panes@[i as int]@);
                assert(tab.skip(i as int).first() == panes@[i as int]@);
                assert(tab.skip(i as int).drop_first() =~= tab.skip(i + 1));
                if panes[i].pane_id == pane_id {
                    return Some(&panes[i]);
                }
                i = i + 1;
            }
            t = t + 1;
        }
        None
    }
}

impl Layout {
    /// The workspace and the number of the pane that goes by a public name.
    pub fn parse_pane_id(&self, public_id: &str) -> (r: Option<(usize, PaneId)>)
        ensures
            r == match self@.find_public(public_id@) {
                Some(p) => Some((p.workspace_index, p.pane_id)),
                None => None,
            },
    {
        let ghost test = |p: PublicPaneView| p.public_id == public_id@;
        let ghost names = self@.public_panes;
        let mut i: usize = 0;
        assert(names.skip(0) =~= names);
        while i < self.public_panes.len()
            invariant
                i <= self.public_panes@.len(),
                names == self@.public_panes,
                test == (|p: PublicPaneView| p.public_id == public_id@),
                first_match(names, test) == first_match(names.skip(i as int), test),
            decreases self.public_panes@.len() - i,
        {
            let entry = &self.public_panes[i];
            assert(names.skip(i as int).first() == entry@);
            assert(names.skip(i as int).drop_first() =~= names.skip(i + 1));
            if same(entry.public_id.as_str(), public_id) {
                return Some((entry.workspace_index, entry.pane_id));
            }
            i = i + 1;
        }
        None
    }

    /// The pane that goes by a public name, with the terminal that it shows.
    pub fn resolve(&self, public_id: &str) -> (r: Option<PlacedPane>)
        ensures
            match r {
                Some(pane) => self@.resolve(public_id@) == Some(pane@),
                None => self@.resolve(public_id@) is None,
            },
    {
        let (workspace_index, pane_id) = match self.parse_pane_id(public_id) {
            Some(found) => found,
            None => {
                return None;
            },
        };
        if workspace_index >= self.workspaces.len() {
            return None;
        }
        assert(self@.workspaces[workspace_index as int] == self.workspaces@[workspace_index as int]@);
        match self.workspaces[workspace_index].pane_state(pane_id) {
            Some(pane) => Some(
                PlacedPane {
                    workspace_index,
                    pane_id,
                    terminal_id: pane.attached_terminal_id.clone(),
                },
            ),
            None => None,
        }
    }

    /// The public name of a pane.
    pub fn public_pane_id(&self, workspace_index: usize, pane_id: PaneId) -> (r: Option<String>)
        ensures
            match (
                r,
                first_match(
                    self@.public_panes,
                    |p: PublicPaneView|
                        p.workspace_index == workspace_index && p.pane_id == pane_id,
                ),
            ) {
                (Some(name), Some(p)) => name@ == p.public_id,
                (None, None) => true,
                _ => false,
            },
    {
        let ghost test = |p: PublicPaneView|
            p.workspace_index == workspace_index && p.pane_id == pane_id;
        let ghost names = self@.public_panes;
        let mut i: usize = 0;
        assert(names.skip(0) =~= names);
        while i < self.public_panes.len()
            invariant
                i <= self.public_panes@.len(),
                names == self@.public_panes,
                test == (|p: PublicPaneView|
                    p.workspace_index == workspace_index && p.pane_id == pane_id),
                first_match(names, test) == first_match(names.skip(i as int), test),
            decreases self.public_panes@.len() - i,
        {
            let entry = &self.public_panes[i];
            assert(names.skip(i as int).first() == entry@);
            assert(names.skip(i as int).drop_first() =~= names.skip(i + 1));
            if entry.workspace_index == workspace_index && entry.pane_id == pane_id {
                return Some(entry.public_id.clone());
            }
            i = i + 1;
        }
        None
    }

    /// Every pane with the place of its workspace, in order.
    pub fn placed_panes(&self) -> (r: Vec<PlacedPane>)
        ensures
            r@.map_values(|p: PlacedPane| p@) == placed_panes(self@.workspaces),
    {
        let mut placed: Vec<PlacedPane> = Vec::new();
        let ghost all = self@.workspaces;
        let ghost seen = placed@.map_values(|p: PlacedPane| p@);
        assert(seen =~= placed_panes(all.take(0)));
        let mut w: usize = 0;
        while w < self.workspaces.len()
            invariant
                w <= self.workspaces@.len(),
                all == self@.workspaces,
                placed@.map_values(|p: PlacedPane| p@) == placed_panes(all.take(w as int)),
            decreases self.workspaces@.len() - w,
        {
            let tabs = &self.workspaces[w].tabs;
            let ghost tab_views = self.workspaces@[w as int]@;
            let ghost before = placed@.map_values(|p: PlacedPane| p@);
            assert(all[w as int] == tab_views);
            assert(before =~= before + placed_in_tabs(tab_views.take(0), w));
            let mut t: usize = 0;
            while t < tabs.len()
                invariant
                    w < self.workspaces@.len(),
                    t <= tabs@.len(),
                    tabs == self.workspaces@[w as int].tabs,
                    tab_views == self.workspaces@[w as int]@,
                    tab_views.len() == tabs@.len(),
                    placed@.map_values(|p: PlacedPane| p@) == before + placed_in_tabs(
                        tab_views.take(t as int),
                        w,
                    ),
                decreases tabs@.len() - t,
            {
                let panes = &tabs[t].panes;
                let ghost tab = tabs@[t as int]@;
                let ghost upto = placed@.map_values(|p: PlacedPane| p@);
                assert(tab_views[t as int] == tab);
                assert(upto =~= upto + placed_in_tab(tab, w).take(0));
                let mut i: usize = 0;
                while i < panes.len()
                    invariant
                        w < self.workspaces@.len(),
                        t < tabs@.len(),
                        i <= panes@.len(),
                        panes == tabs@[t as int].panes,
                        tab == tabs@[t as int]@,
                        tab.len() == panes@.len(),
                        placed@.map_values(|p: PlacedPane| p@) == upto + placed_in_tab(
                            tab,
                            w,
                        ).take(i as int),
                    decreases panes@.len() - i,
                {
                    let pane = PlacedPane {
                        workspace_index: w,
                        pane_id: panes[i].pane_id,
                        terminal_id: panes[i].attached_terminal_id.clone(),
                    };
                    let ghost earlier = placed@;
                    assert(tab[i as int] == panes@[i as int]@);
                    assert(placed_in_tab(tab, w)[i as int] == pane@);
                    placed.push(pane);
                    assert(placed@.map_values(|p: PlacedPane| p@) =~= earlier.map_values(
                        |p: PlacedPane| p@,
                    ).push(pane@));
                    assert(placed_in_tab(tab, w).take(i + 1) =~= placed_in_tab(tab, w).take(
                        i as int,
                    ).push(pane@));
                    i = i + 1;
                }
                assert(placed_in_tab(tab, w).take(i as int) =~= placed_in_tab(tab, w));
                assert(tab_views.take(t + 1).drop_last() =~= tab_views.take(t as int));
                assert(before + placed_in_tabs(tab_views.take(t + 1), w) =~= upto + placed_in_tab(
                    tab,
                    w,
                ));
                t = t + 1;
            }
            assert(tab_views.take(t as int) =~= tab_views);
            assert(all.take(w + 1).drop_last() =~= all.take(w as int));
            w = w + 1;
        }
        assert(all.take(w as int) =~= all);
        placed
    }

    /// Whether some pane shows a terminal whose agent is working.
    pub fn has_working_pane(&self, terminals: &TerminalTable) -> (r: bool)
        requires
            terminals.wf(),
        ensures
            r == self@.has_working_pane(terminals@),
    {
        let placed = self.placed_panes();
        let ghost panes = placed_panes(self@.workspaces);
        assert(panes.len() == placed@.len());
        let mut i: usize = 0;
        while i < placed.len()
            invariant
                i <= placed@.len(),
                terminals.wf(),
                panes == placed_panes(self@.workspaces),
                panes == placed@.map_values(|p: PlacedPane| p@),
                forall|k: int| 0 <= k < i ==> !shows_working(#[trigger] panes[k], terminals@),
            decreases placed@.len() - i,
        {
            assert(panes[i as int] == placed@[i as int]@);
            if let Some(terminal) = terminals.get(placed[i].terminal_id.as_str()) {
                if terminal.state == AgentState::Working {
                    assert(shows_working(panes[i as int], terminals@));
                    return true;
                }
            }
            i = i + 1;
        }
        false
    }
}

} // verus!
