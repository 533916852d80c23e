use lucky::events::{
    dispatch, ActionHandler, AvailableActions, EventDisposition, KeyBinding, XEvent,
};
use lucky::keysyms::Keysym;

#[test]
fn every_event_kind_has_an_explicit_disposition() {
    assert_eq!(
        dispatch(&XEvent::KeyPress { keysym: 0x61 }),
        EventDisposition::RunKeyPress
    );
    assert_eq!(
        dispatch(&XEvent::MapRequest { window: 1 }),
        EventDisposition::RunMapRequest
    );
    assert_eq!(
        dispatch(&XEvent::DestroyNotify { window: 1 }),
        EventDisposition::RunDestroyNotify
    );
    assert_eq!(
        dispatch(&XEvent::EnterNotify { window: 1, root_x: 5, root_y: 6 }),
        EventDisposition::RunEnterNotify
    );
    assert_eq!(
        dispatch(&XEvent::PropertyNotify { window: 1 }),
        EventDisposition::Ignored
    );
    assert_eq!(
        dispatch(&XEvent::UnmapNotify { window: 1 }),
        EventDisposition::Ignored
    );
    assert_eq!(
        dispatch(&XEvent::ConfigureRequest { window: 1 }),
        EventDisposition::Unhandled
    );
}

#[test]
fn key_press_resolves_the_first_matching_binding() {
    let handler = ActionHandler::default();
    let bindings = vec![
        KeyBinding { key: Keysym::XK_q, action: AvailableActions::Close },
        KeyBinding { key: Keysym::XK_h, action: AvailableActions::FocusLeft },
        KeyBinding { key: Keysym::XK_q, action: AvailableActions::Reload },
    ];
    assert_eq!(
        handler.on_key_press(&Keysym::XK_q, &bindings),
        Some(AvailableActions::Close)
    );
    assert_eq!(
        handler.on_key_press(&Keysym::XK_h, &bindings),
        Some(AvailableActions::FocusLeft)
    );
    assert_eq!(handler.on_key_press(&Keysym::XK_x, &bindings), None);
    assert_eq!(handler.on_key_press(&Keysym::XK_q, &Vec::new()), None);
}
