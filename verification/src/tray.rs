use vstd::prelude::*;
use vstd::string::StringExecFns;

verus! {

/// Visibility of the single managed window. The controller never caches it:
/// the caller reads the actual OS-reported visibility fresh at each toggle
/// decision point and passes it in.
#[derive(Clone, Copy, Debug, PartialEq, Eq, Structural)]
pub enum TrayVisibility {
    /// The window is hidden.
    Hidden,
    /// The window is shown.
    Visible,
}

/// The mouse button of a tray-icon click.
#[derive(Clone, Copy, Debug, PartialEq, Eq, Structural)]
pub enum TrayButton {
    Left,
    Right,
    Middle,
}

/// An OS-delivered tray event: a click on the icon, or the selection of a
/// context-menu item, as a tagged value dispatched by exhaustive matching.
#[derive(Debug)]
pub enum TrayEvent {
    /// A click on the tray icon with the given button.
    Click { button: TrayButton },
    /// Selection of the context-menu item with the given identifier.
    MenuSelect { id: String },
}

/// What the controller asks the surrounding window layer to do after an
/// event. Show, hide and focus are best-effort affordances: a failure of the
/// OS call is swallowed by the caller and never propagates.
#[derive(Clone, Copy, Debug, PartialEq, Eq, Structural)]
pub enum TrayAction {
    /// Hide the managed window.
    HideWindow,
    /// Show the managed window and request input focus for it.
    ShowAndFocus,
    /// Terminate the process with the given exit code; no further event is
    /// handled.
    ExitProcess { code: i32 },
    /// Do nothing.
    NoOp,
}

/// One transition of the tray state machine: the visibility after the event
/// and the action to perform.
#[derive(Clone, Copy, Debug, PartialEq, Eq, Structural)]
pub struct TrayStep {
    /// The window's visibility after the action is performed.
    pub next: TrayVisibility,
    /// The action the window layer is asked to perform.
    pub action: TrayAction,
}

/// The transition function of the tray state machine over {Hidden, Visible}:
/// a primary-button click toggles the window — hide when visible, show and
/// focus when hidden; any other button is a no-op; selecting the "quit" menu
/// item terminates the process with exit code 0 from either state; any other
/// menu selection is a no-op.
pub open spec fn spec_tray_step(current: TrayVisibility, event: TrayEvent) -> TrayStep {
    match event {
        TrayEvent::Click { button } => {
            if button == TrayButton::Left {
                match current {
                    TrayVisibility::Visible => TrayStep {
                        next: TrayVisibility::Hidden,
                        action: TrayAction::HideWindow,
                    },
                    TrayVisibility::Hidden => TrayStep {
                        next: TrayVisibility::Visible,
                        action: TrayAction::ShowAndFocus,
                    },
                }
            } else {
                TrayStep { next: current, action: TrayAction::NoOp }
            }
        },
        TrayEvent::MenuSelect { id } => {
            if id@ == "quit"@ {
                TrayStep { next: current, action: TrayAction::ExitProcess { code: 0 } }
            } else {
                TrayStep { next: current, action: TrayAction::NoOp }
            }
        },
    }
}

/// Decides the tray controller's reaction to one OS-delivered event, given
/// the window's current (freshly read) visibility: exactly the transition
/// that [`spec_tray_step`] gives.
pub fn handle_tray_event(current: TrayVisibility, event: &TrayEvent) -> (step: TrayStep)
    ensures
        step == spec_tray_step(current, *event),
{
    match event {
        TrayEvent::Click { button } => {
            if *button == TrayButton::Left {
                match current {
                    TrayVisibility::Visible => TrayStep {
                        next: TrayVisibility::Hidden,
                        action: TrayAction::HideWindow,
                    },
                    TrayVisibility::Hidden => TrayStep {
                        next: TrayVisibility::Visible,
                        action: TrayAction::ShowAndFocus,
                    },
                }
            } else {
                TrayStep { next: current, action: TrayAction::NoOp }
            }
        },
        TrayEvent::MenuSelect { id } => {
            let quit = String::from_str("quit");
            if id.eq(&quit) {
                TrayStep { next: current, action: TrayAction::ExitProcess { code: 0 } }
            } else {
                TrayStep { next: current, action: TrayAction::NoOp }
            }
        },
    }
}

/// Law: tray toggling. From `Visible` a left click hides the window and
/// moves to `Hidden`; from `Hidden` a left click shows the window, requests
/// focus, and moves back to `Visible`. A click of any other button changes
/// nothing. Selecting the "quit" menu item asks for process exit with code 0
/// from either state, and any other menu selection changes nothing.
pub proof fn lemma_tray_toggle()
    ensures
        spec_tray_step(TrayVisibility::Visible, TrayEvent::Click { button: TrayButton::Left }) == (
        TrayStep { next: TrayVisibility::Hidden, action: TrayAction::HideWindow }),
        spec_tray_step(TrayVisibility::Hidden, TrayEvent::Click { button: TrayButton::Left }) == (
        TrayStep { next: TrayVisibility::Visible, action: TrayAction::ShowAndFocus }),
        forall|s: TrayVisibility, b: TrayButton|
            b != TrayButton::Left ==> #[trigger] spec_tray_step(
                s,
                TrayEvent::Click { button: b },
            ) == (TrayStep { next: s, action: TrayAction::NoOp }),
        forall|s: TrayVisibility, id: String|
            id@ == "quit"@ ==> #[trigger] spec_tray_step(s, TrayEvent::MenuSelect { id }) == (
            TrayStep { next: s, action: TrayAction::ExitProcess { code: 0 } }),
        forall|s: TrayVisibility, id: String|
            id@ != "quit"@ ==> #[trigger] spec_tray_step(s, TrayEvent::MenuSelect { id }) == (
            TrayStep { next: s, action: TrayAction::NoOp }),
{
}

} // verus!
