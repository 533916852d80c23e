//! The display-server events the manager reacts to, the dispatch decision
//! for each kind, and the key-press action lookup.

use vstd::prelude::*;

use crate::keysyms::Keysym;

verus! {

/// A display-server notification, reduced to the values the handlers read:
/// the key code of a key press, or the window an event concerns, with the
/// pointer position for an enter event.
#[derive(Debug, Clone, Copy, PartialEq, Eq, Structural)]
pub enum XEvent {
    KeyPress { keysym: u32 },
    MapRequest { window: u32 },
    DestroyNotify { window: u32 },
    PropertyNotify { window: u32 },
    ConfigureRequest { window: u32 },
    EnterNotify { window: u32, root_x: i32, root_y: i32 },
    UnmapNotify { window: u32 },
}

/// What the consumer does with one event: run the named handler, ignore
/// the event, or leave it unhandled (a recognized kind with no behavior
/// yet).
#[derive(Debug, Clone, Copy, PartialEq, Eq, Structural)]
pub enum EventDisposition {
    RunKeyPress,
    RunMapRequest,
    RunDestroyNotify,
    RunEnterNotify,
    Ignored,
    Unhandled,
}

/// The dispatch decision for each event kind: key presses, map requests,
/// destroy and enter notifications each have a handler; property and unmap
/// notifications are ignored; configure requests are recognized but
/// unhandled.
pub open spec fn spec_dispatch(event: XEvent) -> EventDisposition {
    match event {
        XEvent::KeyPress { .. } => EventDisposition::RunKeyPress,
        XEvent::MapRequest { .. } => EventDisposition::RunMapRequest,
        XEvent::DestroyNotify { .. } => EventDisposition::RunDestroyNotify,
        XEvent::EnterNotify { .. } => EventDisposition::RunEnterNotify,
        XEvent::PropertyNotify { .. } => EventDisposition::Ignored,
        XEvent::UnmapNotify { .. } => EventDisposition::Ignored,
        XEvent::ConfigureRequest { .. } => EventDisposition::Unhandled,
    }
}

/// Decides which handler one event gets; every event kind is decided
/// explicitly, so a new kind cannot be forgotten silently.
pub fn dispatch(event: &XEvent) -> (r: EventDisposition)
    ensures
        r == spec_dispatch(*event),
{
    match event {
        XEvent::KeyPress { .. } => EventDisposition::RunKeyPress,
        XEvent::MapRequest { .. } => EventDisposition::RunMapRequest,
        XEvent::DestroyNotify { .. } => EventDisposition::RunDestroyNotify,
        XEvent::EnterNotify { .. } => EventDisposition::RunEnterNotify,
        XEvent::PropertyNotify { .. } => EventDisposition::Ignored,
        XEvent::UnmapNotify { .. } => EventDisposition::Ignored,
        XEvent::ConfigureRequest { .. } => EventDisposition::Unhandled,
    }
}

/// Every action a key binding can name.
#[derive(Debug, Clone, Copy, PartialEq, Eq, Structural)]
pub enum AvailableActions {
    Close,
    FocusLeft,
    FocusDown,
    FocusUp,
    FocusRight,
    MoveLeft,
    MoveDown,
    MoveUp,
    MoveRight,
    Reload,
    Workspace1,
    Workspace2,
    Workspace3,
    Workspace4,
    Workspace5,
    Workspace6,
    Workspace7,
    Workspace8,
    Workspace9,
    Workspace0,
}

/// One configured binding: a key symbol and the action it triggers.
#[derive(Debug, Clone, Copy, PartialEq, Eq, Structural)]
pub struct KeyBinding {
    pub key: Keysym,
    pub action: AvailableActions,
}

/// The action bound to a key symbol: the first binding whose key matches,
/// in configuration order.
pub open spec fn spec_action_for(bindings: Seq<KeyBinding>, keysym: Keysym) -> Option<
    AvailableActions,
>
    decreases bindings.len(),
{
    if bindings.len() == 0 {
        None
    } else if bindings[0].key == keysym {
        Some(bindings[0].action)
    } else {
        spec_action_for(bindings.drop_first(), keysym)
    }
}

/// Resolves key presses to configured actions.
#[derive(Debug, Clone, Copy, PartialEq, Eq, Structural)]
pub struct ActionHandler {}

impl Default for ActionHandler {
    fn default() -> (r: Self)
        ensures
            r == (ActionHandler {  }),
    {
        ActionHandler {  }
    }
}

impl ActionHandler {
    /// The action the pressed key triggers, if any binding names that key:
    /// the first matching binding wins. The caller performs the action.
    pub fn on_key_press(&self, keysym: &Keysym, bindings: &Vec<KeyBinding>) -> (r: Option<
        AvailableActions,
    >)
        ensures
            r == spec_action_for(bindings@, *keysym),
    {
        let mut i: usize = 0;
        proof {
            assert(bindings@.skip(0) =~= bindings@);
        }
        while i < bindings.len()
            invariant
                i <= bindings@.len(),
                spec_action_for(bindings@, *keysym) == spec_action_for(
                    bindings@.skip(i as int),
                    *keysym,
                ),
            decreases bindings@.len() - i,
        {
            if bindings[i].key.code() == keysym.code() {
                proof {
                    lemma_keysym_code_injective(bindings@[i as int].key, *keysym);
                    assert(bindings@.skip(i as int)[0] == bindings@[i as int]);
                }
                return Some(bindings[i].action);
            }
            proof {
                lemma_keysym_code_injective(bindings@[i as int].key, *keysym);
                assert(bindings@.skip(i as int)[0] == bindings@[i as int]);
                assert(bindings@.skip(i as int).drop_first() =~= bindings@.skip(i + 1));
            }
            i += 1;
        }
        proof {
            assert(bindings@.skip(i as int).len() == 0);
        }
        None
    }
}

/// Distinct key symbols have distinct protocol codes, so comparing codes
/// compares keys.
proof fn lemma_keysym_code_injective(a: Keysym, b: Keysym)
    ensures
        (crate::keysyms::spec_keysym_code(a) == crate::keysyms::spec_keysym_code(b)) <==> a == b,
{
}

} // verus!
