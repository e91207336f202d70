use cfait::state::{debounce_is_current, keeps_context_menu, MessageKind};

#[test]
fn context_menu_closes_on_other_messages() {
    assert!(keeps_context_menu(MessageKind::Tick));
    assert!(keeps_context_menu(MessageKind::CursorMoved));
    assert!(keeps_context_menu(MessageKind::OpenContextMenu));
    assert!(!keeps_context_menu(MessageKind::Other));
}

#[test]
fn only_the_latest_debounce_runs() {
    assert!(debounce_is_current(7, 7));
    assert!(!debounce_is_current(6, 7));
}
