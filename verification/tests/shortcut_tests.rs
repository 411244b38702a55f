use xtreme::editor::shortcuts::{
    EditorAction, KeyCode, ModifierState, Modifiers, Shortcut, ShortcutManager,
};

#[test]
fn shortcuts_test_shortcut_display() {
    let shortcut = Shortcut::ctrl(KeyCode::S);
    assert_eq!(shortcut.display(), "Ctrl+S");

    let shortcut = Shortcut::ctrl_shift(KeyCode::Z);
    assert_eq!(shortcut.display(), "Ctrl+Shift+Z");
}

#[test]
fn shortcuts_test_default_bindings() {
    let manager = ShortcutManager::new();

    assert_eq!(
        manager.get_action(&Shortcut::ctrl(KeyCode::Z)),
        Some(EditorAction::Undo)
    );

    assert_eq!(
        manager.get_action(&Shortcut::key(KeyCode::W)),
        Some(EditorAction::MoveTool)
    );
}

#[test]
fn mod_test_shortcut_display() {
    let shortcut = Shortcut::ctrl(KeyCode::S);
    assert_eq!(shortcut.display(), "Ctrl+S");

    let shortcut = Shortcut::ctrl_shift(KeyCode::Z);
    assert_eq!(shortcut.display(), "Ctrl+Shift+Z");
}

#[test]
fn mod_test_default_bindings() {
    let manager = ShortcutManager::new();

    assert_eq!(
        manager.get_action(&Shortcut::ctrl(KeyCode::Z)),
        Some(EditorAction::Undo)
    );

    assert_eq!(
        manager.get_action(&Shortcut::key(KeyCode::W)),
        Some(EditorAction::MoveTool)
    );
}

#[test]
fn redo_keeps_only_its_last_default_shortcut() {
    let manager = ShortcutManager::new();
    assert_eq!(manager.get_action(&Shortcut::ctrl(KeyCode::Y)), Some(EditorAction::Redo));
    assert_eq!(manager.get_action(&Shortcut::ctrl_shift(KeyCode::Z)), None);
    assert_eq!(manager.get_shortcut_text(EditorAction::Redo), "Ctrl+Y");
    assert_eq!(manager.get_shortcut_text(EditorAction::ResetCamera), "");
    assert_eq!(manager.all_bindings().len(), 23);
}

#[test]
fn bind_replaces_both_directions() {
    let mut manager = ShortcutManager::new();
    // Give Undo a new shortcut that Save used to have.
    manager.bind(Shortcut::ctrl(KeyCode::S), EditorAction::Undo);
    assert_eq!(manager.get_action(&Shortcut::ctrl(KeyCode::S)), Some(EditorAction::Undo));
    assert_eq!(manager.get_action(&Shortcut::ctrl(KeyCode::Z)), None);
    assert_eq!(manager.get_shortcut(EditorAction::SaveScene), None);
    assert_eq!(manager.get_shortcut(EditorAction::Undo), Some(&Shortcut::ctrl(KeyCode::S)));
    manager.unbind(&Shortcut::ctrl(KeyCode::S));
    assert_eq!(manager.get_action(&Shortcut::ctrl(KeyCode::S)), None);
    assert_eq!(manager.get_shortcut(EditorAction::Undo), None);
    manager.unbind(&Shortcut::ctrl(KeyCode::S));
    assert_eq!(manager.all_bindings().len(), 21);
}

#[test]
fn rebuild_lookup_restores_reverse_map() {
    let mut manager = ShortcutManager::empty();
    manager.bind(Shortcut::key(KeyCode::F1), EditorAction::FrameAll);
    manager.bind(Shortcut::shift(KeyCode::Tab), EditorAction::TogglePlay);
    manager.rebuild_lookup();
    assert_eq!(manager.get_shortcut(EditorAction::FrameAll), Some(&Shortcut::key(KeyCode::F1)));
    assert_eq!(
        manager.get_shortcut_text(EditorAction::TogglePlay),
        "Shift+Tab"
    );
}

#[test]
fn triggered_actions_follow_modifiers() {
    let manager = ShortcutManager::new();
    let ctrl = ModifierState { alt: false, ctrl: true, shift: false, mac_cmd: false, command: true };
    let none = ModifierState { alt: false, ctrl: false, shift: false, mac_cmd: false, command: false };
    assert_eq!(manager.triggered_actions(&ctrl, &[KeyCode::S]), vec![EditorAction::SaveScene]);
    assert_eq!(manager.triggered_actions(&none, &[KeyCode::W]), vec![EditorAction::MoveTool]);
    assert!(manager.triggered_actions(&none, &[KeyCode::S]).is_empty());
    let mut both = manager.triggered_actions(&none, &[KeyCode::Q, KeyCode::E]);
    both.sort_by_key(|a| a.name());
    assert_eq!(both, vec![EditorAction::RotateTool, EditorAction::SelectTool]);
}

#[test]
fn modifiers_match_command_as_ctrl() {
    let cmd = ModifierState { alt: false, ctrl: false, shift: false, mac_cmd: true, command: true };
    assert!(Modifiers::ctrl().matches(&cmd));
    assert!(!Modifiers::none().matches(&cmd));
    let alt = ModifierState { alt: true, ctrl: false, shift: false, mac_cmd: false, command: false };
    assert!(Modifiers::alt().matches(&alt));
    assert!(!Modifiers::shift().matches(&alt));
    assert_eq!(Modifiers::default(), Modifiers::none());
}

#[test]
fn key_and_action_names() {
    assert_eq!(KeyCode::Num7.name(), "7");
    assert_eq!(KeyCode::PageDown.name(), "PgDn");
    assert_eq!(KeyCode::Delete.name(), "Del");
    assert_eq!(EditorAction::TogglePlay.name(), "Toggle Play Mode");
    assert_eq!(Shortcut::new(KeyCode::Escape, Modifiers { ctrl: true, shift: true, alt: true }).display(), "Ctrl+Shift+Alt+Esc");
    assert_eq!(Shortcut::shift(KeyCode::ArrowLeft).display(), "Shift+Left");
    assert_eq!(Shortcut::key(KeyCode::F12).display(), "F12");
}

#[test]
fn loaded_bindings_need_a_rebuilt_lookup() {
    let list = vec![
        (Shortcut::ctrl(KeyCode::S), EditorAction::SaveScene),
        (Shortcut::ctrl(KeyCode::Y), EditorAction::Redo),
        (Shortcut::ctrl(KeyCode::S), EditorAction::SaveSceneAs),
    ];
    let mut manager = ShortcutManager::from_bindings(list);
    assert_eq!(manager.all_bindings().len(), 2);
    assert_eq!(manager.get_action(&Shortcut::ctrl(KeyCode::S)), Some(EditorAction::SaveSceneAs));
    assert_eq!(manager.get_shortcut(EditorAction::Redo), None);
    manager.rebuild_lookup();
    assert_eq!(manager.get_shortcut(EditorAction::Redo), Some(&Shortcut::ctrl(KeyCode::Y)));
    assert_eq!(manager.get_shortcut_text(EditorAction::SaveSceneAs), "Ctrl+S");
    assert_eq!(manager.get_shortcut_text(EditorAction::SaveScene), "");
}
