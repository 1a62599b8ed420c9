//! What a piece of raw input leads to.

use crate::app::App;
use vstd::prelude::*;

verus! {

#[derive(Debug, Clone, Copy, PartialEq, Eq, Structural)]
pub enum KeyKind {
    Press,
    Repeat,
    Release,
}

/// A piece of input, without what only the one who handles it reads.
#[derive(Debug, Clone, PartialEq, Eq)]
pub enum InputEvent {
    /// A key, by the name under which its repeats are known.
    Key { id: String, kind: KeyKind },
    Paste,
    Mouse,
    OuterFocusGained,
    OuterFocusLost,
    HostDefaultColor,
    HostColorSchemeChanged,
    Unsupported,
}

#[verifier::ext_equal]
pub enum InputEventView {
    Key { id: Seq<char>, kind: KeyKind },
    Paste,
    Mouse,
    OuterFocusGained,
    OuterFocusLost,
    HostDefaultColor,
    HostColorSchemeChanged,
    Unsupported,
}

impl View for InputEvent {
    type V = InputEventView;

    open spec fn view(&self) -> InputEventView {
        match self {
            InputEvent::Key { id, kind } => InputEventView::Key { id: id@, kind: *kind },
            InputEvent::Paste => InputEventView::Paste,
            InputEvent::Mouse => InputEventView::Mouse,
            InputEvent::OuterFocusGained => InputEventView::OuterFocusGained,
            InputEvent::OuterFocusLost => InputEventView::OuterFocusLost,
            InputEvent::HostDefaultColor => InputEventView::HostDefaultColor,
            InputEvent::HostColorSchemeChanged => InputEventView::HostColorSchemeChanged,
            InputEvent::Unsupported => InputEventView::Unsupported,
        }
    }
}

/// The state of the program when the input comes.
#[derive(Debug, Clone, Copy, PartialEq, Eq, Structural)]
pub struct InputContext {
    pub popup_open: bool,
    /// Keys go to the terminal in the focused pane.
    pub terminal_mode: bool,
    pub mouse_capture: bool,
    pub redraw_on_focus_gained: bool,
}

/// Something to be done with the input.
#[derive(Debug, Clone, Copy, PartialEq, Eq, Structural)]
pub enum InputAction {
    HandleKey,
    HandlePaste,
    HandleMouse,
    /// Hand the mouse event to the pane under it and nothing else.
    HandlePaneMouse,
    /// Tell the focused pane that the outer terminal has gained or lost the focus.
    SendOuterFocus { gained: bool },
    RequestFullRedraw,
    NoteOuterFocus { focused: bool },
    MarkActiveTabSeen,
    UpdateHostTheme,
    QueryHostTheme,
    SetHostAppearance,
    /// Let the input source follow the mode, which may have changed.
    SyncPrefixInputSource,
    /// Shut down the terminals that were taken out of the layout.
    ShutDownDetachedTerminals,
}

/// Whether the input has changed something that shows.
#[derive(Debug, Clone, Copy, PartialEq, Eq, Structural)]
pub enum InputChange {
    Yes,
    No,
    /// It has if the last handler before the closing actions says so.
    AsHandled,
}

/// What a piece of input leads to: actions in their order.
#[derive(Debug, Clone, PartialEq, Eq)]
pub struct InputPlan {
    pub actions: Vec<InputAction>,
    pub changed: InputChange,
}

impl InputContext {
    /// Keys go to a terminal or to a popup, not to the program.
    pub open spec fn keys_pass(self) -> bool {
        self.popup_open || self.terminal_mode
    }
}

/// The keys whose repeats are dropped, after a piece of input.
pub open spec fn suppressed_after(
    keys: Set<Seq<char>>,
    event: InputEventView,
    context: InputContext,
) -> Set<Seq<char>> {
    match event {
        InputEventView::Key { id, kind: KeyKind::Press } => if context.keys_pass() {
            keys.remove(id)
        } else {
            keys.insert(id)
        },
        InputEventView::Key { id, kind: KeyKind::Release } => keys.remove(id),
        _ => keys,
    }
}

/// What is done with a piece of input, before what is done after every one.
pub open spec fn handling(
    keys: Set<Seq<char>>,
    event: InputEventView,
    context: InputContext,
) -> Seq<InputAction> {
    match event {
        InputEventView::Key { id, kind } => match kind {
            KeyKind::Press => seq![InputAction::HandleKey],
            KeyKind::Repeat => if context.keys_pass() && !keys.contains(id) {
                seq![InputAction::HandleKey]
            } else {
                Seq::empty()
            },
            KeyKind::Release => Seq::empty(),
        },
        InputEventView::Paste => seq![InputAction::HandlePaste],
        InputEventView::Mouse => if context.popup_open || context.mouse_capture {
            seq![InputAction::HandleMouse]
        } else {
            seq![InputAction::HandlePaneMouse]
        },
        InputEventView::OuterFocusGained => seq![InputAction::SendOuterFocus { gained: true }] + (
        if context.redraw_on_focus_gained {
            seq![InputAction::RequestFullRedraw]
        } else {
            Seq::empty()
        }) + seq![InputAction::NoteOuterFocus { focused: true }, InputAction::MarkActiveTabSeen],
        InputEventView::OuterFocusLost => seq![
            InputAction::SendOuterFocus { gained: false },
            InputAction::NoteOuterFocus { focused: false },
        ],
        InputEventView::HostDefaultColor => seq![InputAction::UpdateHostTheme],
        InputEventView::HostColorSchemeChanged => seq![
            InputAction::QueryHostTheme,
            InputAction::SetHostAppearance,
        ],
        InputEventView::Unsupported => Seq::empty(),
    }
}

/// What is done after every piece of input.
pub open spec fn closing() -> Seq<InputAction> {
    seq![InputAction::SyncPrefixInputSource, InputAction::ShutDownDetachedTerminals]
}

/// Whether a piece of input changes something that shows.
pub open spec fn change(
    keys: Set<Seq<char>>,
    event: InputEventView,
    context: InputContext,
) -> InputChange {
    match event {
        InputEventView::HostDefaultColor | InputEventView::HostColorSchemeChanged =>
            InputChange::AsHandled,
        InputEventView::OuterFocusLost | InputEventView::Unsupported => InputChange::No,
        InputEventView::Key { .. } => if handling(keys, event, context).len() > 0 {
            InputChange::Yes
        } else {
            InputChange::No
        },
        _ => InputChange::Yes,
    }
}

impl App {
    /// Decides what is done with a piece of input, and keeps track of the keys whose
    /// repeats are dropped: a key that was pressed while it went to the program does not
    /// reach a terminal by being held down.
    pub fn handle_raw_input_event(&mut self, event: &InputEvent, context: InputContext) -> (plan:
        InputPlan)
        ensures
            *final(self) == (App {
                suppressed_repeat_keys: final(self).suppressed_repeat_keys,
                ..*old(self)
            }),
            final(self).suppressed_repeat_keys@ == suppressed_after(
                old(self).suppressed_repeat_keys@,
                event@,
                context,
            ),
            plan.actions@ == handling(old(self).suppressed_repeat_keys@, event@, context)
                + closing(),
            plan.changed == change(old(self).suppressed_repeat_keys@, event@, context),
    {
        let keys_pass = context.popup_open || context.terminal_mode;
        let mut actions: Vec<InputAction> = Vec::new();
        let changed = match event {
            InputEvent::Key { id, kind } => match kind {
                KeyKind::Press => {
                    if keys_pass {
                        self.suppressed_repeat_keys.remove(id.as_str());
                    } else {
                        self.suppressed_repeat_keys.insert(id.clone());
                    }
                    actions.push(InputAction::HandleKey);
                    InputChange::Yes
                },
                KeyKind::Repeat => {
                    if keys_pass && !self.suppressed_repeat_keys.contains(id.as_str()) {
                        actions.push(InputAction::HandleKey);
                        InputChange::Yes
                    } else {
                        InputChange::No
                    }
                },
                KeyKind::Release => {
                    self.suppressed_repeat_keys.remove(id.as_str());
                    InputChange::No
                },
            },
            InputEvent::Paste => {
                actions.push(InputAction::HandlePaste);
                InputChange::Yes
            },
            InputEvent::Mouse => {
                if context.popup_open || context.mouse_capture {
                    actions.push(InputAction::HandleMouse);
                } else {
                    actions.push(InputAction::HandlePaneMouse);
                }
                InputChange::Yes
            },
            InputEvent::OuterFocusGained => {
                actions.push(InputAction::SendOuterFocus { gained: true });
                if context.redraw_on_focus_gained {
                    actions.push(InputAction::RequestFullRedraw);
                }
                actions.push(InputAction::NoteOuterFocus { focused: true });
                actions.push(InputAction::MarkActiveTabSeen);
                InputChange::Yes
            },
            InputEvent::OuterFocusLost => {
                actions.push(InputAction::SendOuterFocus { gained: false });
                actions.push(InputAction::NoteOuterFocus { focused: false });
                InputChange::No
            },
            InputEvent::HostDefaultColor => {
                actions.push(InputAction::UpdateHostTheme);
                InputChange::AsHandled
            },
            InputEvent::HostColorSchemeChanged => {
                actions.push(InputAction::QueryHostTheme);
                actions.push(InputAction::SetHostAppearance);
                InputChange::AsHandled
            },
            InputEvent::Unsupported => InputChange::No,
        };
        assert(actions@ =~= handling(old(self).suppressed_repeat_keys@, event@, context));
        actions.push(InputAction::SyncPrefixInputSource);
        actions.push(InputAction::ShutDownDetachedTerminals);
        assert(actions@ =~= handling(old(self).suppressed_repeat_keys@, event@, context)
            + closing());
        InputPlan { actions, changed }
    }
}

/// A piece of input and the state in which it comes.
pub struct InputStep {
    pub event: InputEventView,
    pub context: InputContext,
}

/// The keys whose repeats are dropped, after some input.
pub open spec fn suppressed_after_all(keys: Set<Seq<char>>, steps: Seq<InputStep>) -> Set<Seq<char>>
    decreases steps.len(),
{
    if steps.len() == 0 {
        keys
    } else {
        suppressed_after(
            suppressed_after_all(keys, steps.drop_last()),
            steps.last().event,
            steps.last().context,
        )
    }
}

/// The key is let go, or pressed where keys do not go to the program.
pub open spec fn frees(step: InputStep, id: Seq<char>) -> bool {
    ||| step.event == (InputEventView::Key { id, kind: KeyKind::Release })
    ||| step.event == (InputEventView::Key { id, kind: KeyKind::Press }) && step.context.keys_pass()
}

/// A key that was pressed where it went to the program reaches nothing by being held
/// down, whatever comes between, until it is let go or pressed where it goes elsewhere.
pub proof fn held_key_is_dropped(
    keys: Set<Seq<char>>,
    id: Seq<char>,
    pressed_in: InputContext,
    between: Seq<InputStep>,
    repeated_in: InputContext,
)
    requires
        !pressed_in.keys_pass(),
        forall|i: int| 0 <= i < between.len() ==> !frees(#[trigger] between[i], id),
    ensures
        ({
            let pressed = suppressed_after(
                keys,
                InputEventView::Key { id, kind: KeyKind::Press },
                pressed_in,
            );
            let held = suppressed_after_all(pressed, between);
            let repeat = InputEventView::Key { id, kind: KeyKind::Repeat };
            &&& held.contains(id)
            &&& handling(held, repeat, repeated_in).len() == 0
            &&& change(held, repeat, repeated_in) == InputChange::No
        }),
    decreases between.len(),
{
    if between.len() > 0 {
        let before = between.drop_last();
        assert forall|i: int| 0 <= i < before.len() implies !frees(#[trigger] before[i], id) by {
            assert(before[i] == between[i]);
        }
        held_key_is_dropped(keys, id, pressed_in, before, repeated_in);
        assert(!frees(between[between.len() - 1], id));
    }
}

/// A key that is pressed where it goes to a terminal goes on reaching it while it is
/// held down, and so does one that is repeated without ever having been pressed.
pub proof fn held_key_reaches_the_terminal(
    keys: Set<Seq<char>>,
    id: Seq<char>,
    pressed_in: InputContext,
    repeated_in: InputContext,
)
    requires
        pressed_in.keys_pass(),
        repeated_in.keys_pass(),
    ensures
        ({
            let held = suppressed_after(
                keys,
                InputEventView::Key { id, kind: KeyKind::Press },
                pressed_in,
            );
            let repeat = InputEventView::Key { id, kind: KeyKind::Repeat };
            handling(held, repeat, repeated_in) == seq![InputAction::HandleKey]
        }),
        !keys.contains(id) ==> handling(
            keys,
            InputEventView::Key { id, kind: KeyKind::Repeat },
            repeated_in,
        ) == seq![InputAction::HandleKey],
{
}

/// Letting a key go leaves nothing of it behind, and no input touches what is known of
/// other keys.
pub proof fn keys_are_tracked_apart(
    keys: Set<Seq<char>>,
    event: InputEventView,
    context: InputContext,
    id: Seq<char>,
    other: Seq<char>,
)
    ensures
        !suppressed_after(
            keys,
            InputEventView::Key { id, kind: KeyKind::Release },
            context,
        ).contains(id),
        !(event matches InputEventView::Key { id: touched, .. } && touched == other)
            ==> suppressed_after(keys, event, context).contains(other) == keys.contains(other),
{
}

/// Every key press is handled, whatever it is, wherever keys go and whatever is known of
/// other keys. It counts as a change.
pub proof fn every_press_is_handled(keys: Set<Seq<char>>, id: Seq<char>, context: InputContext)
    ensures
        ({
            let press = InputEventView::Key { id, kind: KeyKind::Press };
            &&& handling(keys, press, context) == seq![InputAction::HandleKey]
            &&& change(keys, press, context) == InputChange::Yes
            &&& suppressed_after(keys, press, context).contains(id) <==> !context.popup_open
                && !context.terminal_mode
        }),
{
}

/// A key that is held down is handled exactly if keys go to a terminal or a popup and it
/// was not pressed where they went to the program. Letting a key go is never handled.
pub proof fn repeats_and_releases(keys: Set<Seq<char>>, id: Seq<char>, context: InputContext)
    ensures
        ({
            let repeat = InputEventView::Key { id, kind: KeyKind::Repeat };
            let release = InputEventView::Key { id, kind: KeyKind::Release };
            let passes = (context.popup_open || context.terminal_mode) && !keys.contains(id);
            &&& passes ==> handling(keys, repeat, context) == seq![InputAction::HandleKey]
            &&& passes ==> change(keys, repeat, context) == InputChange::Yes
            &&& !passes ==> handling(keys, repeat, context).len() == 0
            &&& !passes ==> change(keys, repeat, context) == InputChange::No
            &&& suppressed_after(keys, repeat, context) == keys
            &&& handling(keys, release, context).len() == 0
            &&& change(keys, release, context) == InputChange::No
            &&& suppressed_after(keys, release, context) == keys.remove(id)
        }),
{
}

/// Every other piece of input has its own handling, whatever is known of keys, and leaves
/// that as it is.
pub proof fn other_input_is_handled(
    keys: Set<Seq<char>>,
    event: InputEventView,
    context: InputContext,
)
    requires
        !(event is Key),
    ensures
        suppressed_after(keys, event, context) == keys,
        match event {
            InputEventView::Paste => {
                &&& handling(keys, event, context) == seq![InputAction::HandlePaste]
                &&& change(keys, event, context) == InputChange::Yes
            },
            InputEventView::Mouse => {
                &&& context.popup_open || context.mouse_capture ==> handling(keys, event, context)
                    == seq![InputAction::HandleMouse]
                &&& !context.popup_open && !context.mouse_capture ==> handling(
                    keys,
                    event,
                    context,
                ) == seq![InputAction::HandlePaneMouse]
                &&& change(keys, event, context) == InputChange::Yes
            },
            InputEventView::OuterFocusGained => {
                &&& context.redraw_on_focus_gained ==> handling(keys, event, context) == seq![
                    InputAction::SendOuterFocus { gained: true },
                    InputAction::RequestFullRedraw,
                    InputAction::NoteOuterFocus { focused: true },
                    InputAction::MarkActiveTabSeen,
                ]
                &&& !context.redraw_on_focus_gained ==> handling(keys, event, context) == seq![
                    InputAction::SendOuterFocus { gained: true },
                    InputAction::NoteOuterFocus { focused: true },
                    InputAction::MarkActiveTabSeen,
                ]
                &&& change(keys, event, context) == InputChange::Yes
            },
            InputEventView::OuterFocusLost => {
                &&& handling(keys, event, context) == seq![
                    InputAction::SendOuterFocus { gained: false },
                    InputAction::NoteOuterFocus { focused: false },
                ]
                &&& change(keys, event, context) == InputChange::No
            },
            InputEventView::HostDefaultColor => {
                &&& handling(keys, event, context) == seq![InputAction::UpdateHostTheme]
                &&& change(keys, event, context) == InputChange::AsHandled
            },
            InputEventView::HostColorSchemeChanged => {
                &&& handling(keys, event, context) == seq![
                    InputAction::QueryHostTheme,
                    InputAction::SetHostAppearance,
                ]
                &&& change(keys, event, context) == InputChange::AsHandled
            },
            _ => {
                &&& handling(keys, event, context).len() == 0
                &&& change(keys, event, context) == InputChange::No
            },
        },
{
    let with_redraw = seq![
        InputAction::SendOuterFocus { gained: true },
        InputAction::RequestFullRedraw,
        InputAction::NoteOuterFocus { focused: true },
        InputAction::MarkActiveTabSeen,
    ];
    let without_redraw = seq![
        InputAction::SendOuterFocus { gained: true },
        InputAction::NoteOuterFocus { focused: true },
        InputAction::MarkActiveTabSeen,
    ];
    if event is OuterFocusGained {
        if context.redraw_on_focus_gained {
            assert(handling(keys, event, context) =~= with_redraw);
        } else {
            assert(handling(keys, event, context) =~= without_redraw);
        }
    }
}

/// Whatever the input was, the input source then follows the mode, and after that the
/// terminals that were taken out are shut down.
pub proof fn input_is_closed_the_same_way()
    ensures
        closing().len() == 2,
        closing()[0] == InputAction::SyncPrefixInputSource,
        closing()[1] == InputAction::ShutDownDetachedTerminals,
{
}

/// The model of a piece of input tells what it is, and of a key which one it is and what
/// became of it.
pub proof fn input_is_modelled_as_it_is(event: InputEvent)
    ensures
        event matches InputEvent::Key { id, kind } ==> event@ == (InputEventView::Key {
            id: id@,
            kind,
        }),
        event is Key <==> event@ is Key,
        event is Paste <==> event@ is Paste,
        event is Mouse <==> event@ is Mouse,
        event is OuterFocusGained <==> event@ is OuterFocusGained,
        event is OuterFocusLost <==> event@ is OuterFocusLost,
        event is HostDefaultColor <==> event@ is HostDefaultColor,
        event is HostColorSchemeChanged <==> event@ is HostColorSchemeChanged,
        event is Unsupported <==> event@ is Unsupported,
{
}

} // verus!
