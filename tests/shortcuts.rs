use gia_gui::shortcuts::{shortcut_action, Action, Key};

#[test]
fn shortcuts() {
    assert_eq!(shortcut_action(Key::Enter, true, false), Some(Action::Send));
    assert_eq!(shortcut_action(Key::Enter, false, false), None);
    assert_eq!(shortcut_action(Key::R, true, true), Some(Action::SendWithAudio));
    assert_eq!(shortcut_action(Key::L, true, false), Some(Action::Clear));
    assert_eq!(shortcut_action(Key::C, true, false), None);
    assert_eq!(shortcut_action(Key::C, true, true), Some(Action::CopyResponse));
    assert_eq!(shortcut_action(Key::O, true, false), Some(Action::ShowConversation));
    assert_eq!(shortcut_action(Key::F1, false, false), Some(Action::ShowHelp));
    assert_eq!(shortcut_action(Key::Other, true, true), None);
}
