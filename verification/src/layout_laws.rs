//! What holds of the layout as a whole.

use crate::layout::{
    pane_in_tabs, placed_in_tab, placed_in_tabs, placed_panes, Layout, LayoutView, PaneId, PaneView,
    PlacedPaneView, PublicPaneView,
};
use crate::sequences::{first_match, first_match_is_first};
use crate::terminal::{AgentState, TerminalView};
use vstd::prelude::*;

verus! {

/// There is a pane in place `p` of tab `t` of workspace `w`.
pub open spec fn has_place(workspaces: Seq<Seq<Seq<PaneView>>>, w: int, t: int, p: int) -> bool {
    &&& 0 <= w < workspaces.len()
    &&& 0 <= t < workspaces[w].len()
    &&& 0 <= p < workspaces[w][t].len()
}

/// How many panes some tabs hold.
pub open spec fn panes_in(tabs: Seq<Seq<PaneView>>) -> nat
    decreases tabs.len(),
{
    if tabs.len() == 0 {
        0
    } else {
        panes_in(tabs.drop_last()) + tabs.last().len()
    }
}

/// How many panes some workspaces hold.
pub open spec fn panes_of(workspaces: Seq<Seq<Seq<PaneView>>>) -> nat
    decreases workspaces.len(),
{
    if workspaces.len() == 0 {
        0
    } else {
        panes_of(workspaces.drop_last()) + panes_in(workspaces.last())
    }
}

/// The place among all panes of the one in place `p` of tab `t` of workspace `w`: behind
/// those of the workspaces before it, and of the tabs before its own.
pub open spec fn place_of(workspaces: Seq<Seq<Seq<PaneView>>>, w: int, t: int, p: int) -> int {
    panes_of(workspaces.take(w)) + panes_in(workspaces[w].take(t)) + p
}

proof fn tabs_are_placed(tabs: Seq<Seq<PaneView>>, workspace_index: usize, t: int, p: int)
    ensures
        placed_in_tabs(tabs, workspace_index).len() == panes_in(tabs),
        0 <= t < tabs.len() && 0 <= p < tabs[t].len() ==> {
            &&& 0 <= panes_in(tabs.take(t)) + p < panes_in(tabs)
            &&& placed_in_tabs(tabs, workspace_index)[panes_in(tabs.take(t)) + p] == (
            PlacedPaneView {
                workspace_index,
                pane_id: tabs[t][p].pane_id,
                terminal_id: tabs[t][p].terminal_id,
            })
        },
    decreases tabs.len(),
{
    if tabs.len() > 0 {
        let front = tabs.drop_last();
        tabs_are_placed(front, workspace_index, t, p);
        if 0 <= t < front.len() {
            assert(front.take(t) =~= tabs.take(t));
            assert(front[t] == tabs[t]);
        } else if t == front.len() {
            assert(tabs.take(t) =~= front);
        }
    }
}

/// Every pane is listed once, workspace after workspace, tab after tab, with the place of
/// its workspace, its number and the terminal that it shows.
pub proof fn every_pane_is_listed(workspaces: Seq<Seq<Seq<PaneView>>>, w: int, t: int, p: int)
    requires
        workspaces.len() <= usize::MAX,
    ensures
        placed_panes(workspaces).len() == panes_of(workspaces),
        has_place(workspaces, w, t, p) ==> {
            let i = place_of(workspaces, w, t, p);
            &&& 0 <= i < placed_panes(workspaces).len()
            &&& placed_panes(workspaces)[i] == (PlacedPaneView {
                workspace_index: w as usize,
                pane_id: workspaces[w][t][p].pane_id,
                terminal_id: workspaces[w][t][p].terminal_id,
            })
        },
    decreases workspaces.len(),
{
    if workspaces.len() > 0 {
        let front = workspaces.drop_last();
        let index = (workspaces.len() - 1) as usize;
        every_pane_is_listed(front, w, t, p);
        tabs_are_placed(workspaces.last(), index, t, p);
        if has_place(workspaces, w, t, p) {
            if w < front.len() {
                assert(front[w] == workspaces[w]);
                assert(front.take(w) =~= workspaces.take(w));
                assert(has_place(front, w, t, p));
            } else {
                assert(workspaces.take(w) =~= front);
                assert(workspaces[w] == workspaces.last());
            }
        }
    }
}

proof fn tab_holds(tabs: Seq<Seq<PaneView>>, workspace_index: usize, i: int)
    requires
        0 <= i < placed_in_tabs(tabs, workspace_index).len(),
    ensures
        exists|t: int, p: int|
            {
                &&& 0 <= t < tabs.len()
                &&& 0 <= p < tabs[t].len()
                &&& placed_in_tabs(tabs, workspace_index)[i] == (PlacedPaneView {
                    workspace_index,
                    pane_id: (#[trigger] tabs[t][p]).pane_id,
                    terminal_id: tabs[t][p].terminal_id,
                })
            },
    decreases tabs.len(),
{
    if tabs.len() > 0 {
        let front = tabs.drop_last();
        let n = placed_in_tabs(front, workspace_index).len();
        if i < n {
            tab_holds(front, workspace_index, i);
            let (t, p) = choose|t: int, p: int|
                {
                    &&& 0 <= t < front.len()
                    &&& 0 <= p < front[t].len()
                    &&& placed_in_tabs(front, workspace_index)[i] == (PlacedPaneView {
                        workspace_index,
                        pane_id: (#[trigger] front[t][p]).pane_id,
                        terminal_id: front[t][p].terminal_id,
                    })
                };
            assert(tabs[t][p] == front[t][p]);
        } else {
            let t = tabs.len() - 1;
            assert(placed_in_tab(tabs.last(), workspace_index)[i - n] == (PlacedPaneView {
                workspace_index,
                pane_id: tabs[t][i - n].pane_id,
                terminal_id: tabs[t][i - n].terminal_id,
            }));
        }
    }
}

/// Nothing is listed that is no pane of the layout.
pub proof fn listed_pane_has_a_place(workspaces: Seq<Seq<Seq<PaneView>>>, i: int)
    requires
        workspaces.len() <= usize::MAX,
        0 <= i < placed_panes(workspaces).len(),
    ensures
        exists|w: int, t: int, p: int|
            {
                &&& #[trigger] has_place(workspaces, w, t, p)
                &&& placed_panes(workspaces)[i] == (PlacedPaneView {
                    workspace_index: w as usize,
                    pane_id: workspaces[w][t][p].pane_id,
                    terminal_id: workspaces[w][t][p].terminal_id,
                })
            },
    decreases workspaces.len(),
{
    if workspaces.len() > 0 {
        let front = workspaces.drop_last();
        let n = placed_panes(front).len();
        if i < n {
            listed_pane_has_a_place(front, i);
            let (w, t, p) = choose|w: int, t: int, p: int|
                {
                    &&& #[trigger] has_place(front, w, t, p)
                    &&& placed_panes(front)[i] == (PlacedPaneView {
                        workspace_index: w as usize,
                        pane_id: front[w][t][p].pane_id,
                        terminal_id: front[w][t][p].terminal_id,
                    })
                };
            assert(has_place(workspaces, w, t, p));
        } else {
            let w = workspaces.len() - 1;
            let tabs = workspaces.last();
            tab_holds(tabs, w as usize, i - n);
            let (t, p) = choose|t: int, p: int|
                {
                    &&& 0 <= t < tabs.len()
                    &&& 0 <= p < tabs[t].len()
                    &&& placed_in_tabs(tabs, w as usize)[i - n] == (PlacedPaneView {
                        workspace_index: w as usize,
                        pane_id: (#[trigger] tabs[t][p]).pane_id,
                        terminal_id: tabs[t][p].terminal_id,
                    })
                };
            assert(has_place(workspaces, w, t, p));
        }
    }
}

/// An agent is at work on the screen exactly if some pane shows a terminal whose agent is
/// working.
pub proof fn working_pane_is_seen(
    layout: LayoutView,
    terminals: Map<Seq<char>, TerminalView>,
)
    requires
        layout.workspaces.len() <= usize::MAX,
    ensures
        layout.has_working_pane(terminals) <==> exists|w: int, t: int, p: int|
            {
                &&& #[trigger] has_place(layout.workspaces, w, t, p)
                &&& terminals.contains_key(layout.workspaces[w][t][p].terminal_id)
                &&& terminals[layout.workspaces[w][t][p].terminal_id].state == AgentState::Working
            },
{
    let workspaces = layout.workspaces;
    let placed = placed_panes(workspaces);
    if layout.has_working_pane(terminals) {
        let i = choose|i: int|
            0 <= i < placed.len() && crate::layout::shows_working(#[trigger] placed[i], terminals);
        listed_pane_has_a_place(workspaces, i);
    }
    if exists|w: int, t: int, p: int|
        {
            &&& #[trigger] has_place(workspaces, w, t, p)
            &&& terminals.contains_key(workspaces[w][t][p].terminal_id)
            &&& terminals[workspaces[w][t][p].terminal_id].state == AgentState::Working
        } {
        let (w, t, p) = choose|w: int, t: int, p: int|
            {
                &&& #[trigger] has_place(workspaces, w, t, p)
                &&& terminals.contains_key(workspaces[w][t][p].terminal_id)
                &&& terminals[workspaces[w][t][p].terminal_id].state == AgentState::Working
            };
        every_pane_is_listed(workspaces, w, t, p);
        let i = place_of(workspaces, w, t, p);
        assert(crate::layout::shows_working(placed[i], terminals));
    }
}

proof fn pane_is_found_in_tabs(tabs: Seq<Seq<PaneView>>, pane_id: PaneId, t: int, p: int)
    ensures
        0 <= t < tabs.len() && 0 <= p < tabs[t].len() && tabs[t][p].pane_id == pane_id && (forall|
            u: int,
            q: int,
        |
            0 <= u < tabs.len() && 0 <= q < tabs[u].len() && (u < t || u == t && q < p) ==> (
            #[trigger] tabs[u][q]).pane_id != pane_id) ==> pane_in_tabs(tabs, pane_id) == Some(
            tabs[t][p],
        ),
        (forall|u: int, q: int|
            0 <= u < tabs.len() && 0 <= q < tabs[u].len() ==> (#[trigger] tabs[u][q]).pane_id
                != pane_id) <==> pane_in_tabs(tabs, pane_id) is None,
    decreases tabs.len(),
{
    if tabs.len() > 0 {
        let rest = tabs.drop_first();
        let test = |pane: PaneView| pane.pane_id == pane_id;
        pane_is_found_in_tabs(rest, pane_id, t - 1, p);
        first_match_is_first(tabs.first(), test);
        assert(tabs[0] == tabs.first());
        assert(forall|u: int| 0 <= u < rest.len() ==> #[trigger] rest[u] == tabs[u + 1]);
        if 0 <= t < tabs.len() && 0 <= p < tabs[t].len() && tabs[t][p].pane_id == pane_id && (
        forall|u: int, q: int|
            0 <= u < tabs.len() && 0 <= q < tabs[u].len() && (u < t || u == t && q < p) ==> (
            #[trigger] tabs[u][q]).pane_id != pane_id) {
            if t == 0 {
                assert(test(tabs.first()[p]));
                assert forall|q: int| 0 <= q < p implies !test(#[trigger] tabs.first()[q]) by {
                    assert(tabs[0][q].pane_id != pane_id);
                }
            } else {
                assert forall|q: int| 0 <= q < tabs.first().len() implies !test(
                    #[trigger] tabs.first()[q],
                ) by {
                    assert(tabs[0][q].pane_id != pane_id);
                }
                assert(rest[t - 1][p] == tabs[t][p]);
                assert forall|u: int, q: int|
                    0 <= u < rest.len() && 0 <= q < rest[u].len() && (u < t - 1 || u == t - 1 && q
                        < p) implies (#[trigger] rest[u][q]).pane_id != pane_id by {
                    assert(tabs[u + 1][q].pane_id != pane_id);
                }
            }
        }
        if forall|u: int, q: int|
            0 <= u < tabs.len() && 0 <= q < tabs[u].len() ==> (#[trigger] tabs[u][q]).pane_id
                != pane_id {
            assert forall|q: int| 0 <= q < tabs.first().len() implies !test(
                #[trigger] tabs.first()[q],
            ) by {
                assert(tabs[0][q].pane_id != pane_id);
            }
            assert forall|u: int, q: int|
                0 <= u < rest.len() && 0 <= q < rest[u].len() implies (
            #[trigger] rest[u][q]).pane_id != pane_id by {
                assert(tabs[u + 1][q].pane_id != pane_id);
            }
        }
        if pane_in_tabs(tabs, pane_id) is None {
            assert forall|u: int, q: int|
                0 <= u < tabs.len() && 0 <= q < tabs[u].len() implies (
            #[trigger] tabs[u][q]).pane_id != pane_id by {
                if u == 0 {
                    assert(!test(tabs.first()[q]));
                } else {
                    assert(rest[u - 1][q].pane_id != pane_id);
                }
            }
        }
    }
}

/// A pane is found by its public name, with its own terminal: the name that stands first
/// counts, and in its workspace the first pane with that number.
pub proof fn pane_is_found_by_its_name(layout: LayoutView, i: int, t: int, p: int)
    requires
        0 <= i < layout.public_panes.len(),
        forall|k: int|
            0 <= k < i ==> (#[trigger] layout.public_panes[k]).public_id
                != layout.public_panes[i].public_id,
        has_place(layout.workspaces, layout.public_panes[i].workspace_index as int, t, p),
        ({
            let public = layout.public_panes[i];
            let tabs = layout.workspaces[public.workspace_index as int];
            &&& tabs[t][p].pane_id == public.pane_id
            &&& forall|u: int, q: int|
                0 <= u < tabs.len() && 0 <= q < tabs[u].len() && (u < t || u == t && q < p) ==> (
                #[trigger] tabs[u][q]).pane_id != public.pane_id
        }),
    ensures
        ({
            let public = layout.public_panes[i];
            layout.resolve(public.public_id) == Some(
                PlacedPaneView {
                    workspace_index: public.workspace_index,
                    pane_id: public.pane_id,
                    terminal_id: layout.workspaces[public.workspace_index as int][t][p].terminal_id,
                },
            )
        }),
{
    let public = layout.public_panes[i];
    let tabs = layout.workspaces[public.workspace_index as int];
    let test = |pane: PublicPaneView| pane.public_id == public.public_id;
    first_match_is_first(layout.public_panes, test);
    assert(test(layout.public_panes[i]));
    assert forall|k: int| 0 <= k < i implies !test(#[trigger] layout.public_panes[k]) by {}
    assert(first_match(layout.public_panes, test) == Some(public));
    pane_is_found_in_tabs(tabs, public.pane_id, t, p);
}

/// A name leads to no pane exactly if nothing goes by it, or if what goes by it first is
/// in no workspace or is a pane that its workspace does not hold.
pub proof fn pane_is_missing_for_a_reason(layout: LayoutView, public_id: Seq<char>)
    ensures
        (forall|k: int|
            0 <= k < layout.public_panes.len() ==> (#[trigger] layout.public_panes[k]).public_id
                != public_id) ==> layout.resolve(public_id) is None,
        forall|i: int|
            {
                &&& 0 <= i < layout.public_panes.len()
                &&& (#[trigger] layout.public_panes[i]).public_id == public_id
                &&& forall|k: int|
                    0 <= k < i ==> (#[trigger] layout.public_panes[k]).public_id != public_id
            } ==> {
                let public = layout.public_panes[i];
                layout.resolve(public_id) is None <==> (public.workspace_index
                    >= layout.workspaces.len() || forall|t: int, p: int|
                    has_place(layout.workspaces, public.workspace_index as int, t, p) ==> (
                    #[trigger] layout.workspaces[public.workspace_index as int][t][p]).pane_id
                        != public.pane_id)
            },
{
    let test = |pane: PublicPaneView| pane.public_id == public_id;
    first_match_is_first(layout.public_panes, test);
    assert forall|i: int|
        {
            &&& 0 <= i < layout.public_panes.len()
            &&& (#[trigger] layout.public_panes[i]).public_id == public_id
            &&& forall|k: int|
                0 <= k < i ==> (#[trigger] layout.public_panes[k]).public_id != public_id
        } implies {
        let public = layout.public_panes[i];
        layout.resolve(public_id) is None <==> (public.workspace_index >= layout.workspaces.len()
            || forall|t: int, p: int|
            has_place(layout.workspaces, public.workspace_index as int, t, p) ==> (
            #[trigger] layout.workspaces[public.workspace_index as int][t][p]).pane_id
                != public.pane_id)
    } by {
        let public = layout.public_panes[i];
        assert(test(layout.public_panes[i]));
        assert forall|k: int| 0 <= k < i implies !test(#[trigger] layout.public_panes[k]) by {}
        assert(layout.find_public(public_id) == Some(public));
        if public.workspace_index < layout.workspaces.len() {
            pane_is_found_in_tabs(
                layout.workspaces[public.workspace_index as int],
                public.pane_id,
                0,
                0,
            );
        }
    }
}

/// The model of a layout holds every pane in its place, as it is.
pub proof fn layout_is_modelled_as_it_is(layout: Layout, w: int, t: int, p: int, i: int)
    ensures
        layout@.workspaces.len() == layout.workspaces@.len(),
        layout@.public_panes.len() == layout.public_panes@.len(),
        0 <= w < layout.workspaces@.len() ==> layout@.workspaces[w].len()
            == layout.workspaces@[w].tabs@.len(),
        0 <= w < layout.workspaces@.len() && 0 <= t < layout.workspaces@[w].tabs@.len()
            ==> layout@.workspaces[w][t].len() == layout.workspaces@[w].tabs@[t].panes@.len(),
        has_place(layout@.workspaces, w, t, p) ==> {
            let pane = layout.workspaces@[w].tabs@[t].panes@[p];
            &&& layout@.workspaces[w][t][p].pane_id == pane.pane_id
            &&& layout@.workspaces[w][t][p].terminal_id == pane.attached_terminal_id@
        },
        0 <= i < layout.public_panes@.len() ==> {
            let public = layout.public_panes@[i];
            &&& layout@.public_panes[i].public_id == public.public_id@
            &&& layout@.public_panes[i].workspace_index == public.workspace_index
            &&& layout@.public_panes[i].pane_id == public.pane_id
        },
{
}

} // verus!
