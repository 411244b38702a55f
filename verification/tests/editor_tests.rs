use xtreme::editor::panels::console::{ConsoleSettings, LogCategory, LogLevel};
use xtreme::editor::panels::hierarchy::{HierarchyPanel, ObjectRow};
use xtreme::editor::panels::inspector::InspectorPanel;
use xtreme::editor::panels::toolbar::Tool;
use xtreme::editor::project::{default_bg_color, default_target_fps, default_vsync};
use xtreme::editor::scene::{SceneError, SceneManager};
use xtreme::editor::selection::Selection;

#[test]
fn test_scene_manager() {
    let mut manager = SceneManager::new();
    assert!(!manager.is_dirty());
    assert_eq!(manager.scene_name(), "Untitled");

    manager.mark_dirty();
    assert!(manager.is_dirty());

    manager.set_path("test_scene.ron".into());
    assert!(!manager.is_dirty());
    assert_eq!(manager.scene_name(), "test_scene");
}

#[test]
fn test_selection() {
    let mut sel = Selection::new();
    assert!(sel.is_empty());

    sel.select(1);
    assert!(sel.is_selected(1));
    assert_eq!(sel.count(), 1);

    sel.add(2);
    assert!(sel.is_selected(2));
    assert_eq!(sel.count(), 2);

    sel.toggle(1);
    assert!(!sel.is_selected(1));
    assert_eq!(sel.count(), 1);
}

#[test]
fn window_title_marks_unsaved_changes() {
    let mut manager = SceneManager::new();
    assert_eq!(manager.window_title(), "Untitled - Xtreme Editor");
    manager.set_path("levels/cave.json".to_string());
    assert_eq!(manager.current_path(), Some("levels/cave.json"));
    manager.mark_dirty();
    assert_eq!(manager.window_title(), "*cave - Xtreme Editor");
    manager.mark_clean();
    assert_eq!(manager.window_title(), "cave - Xtreme Editor");
    manager.new_scene();
    assert_eq!(manager.current_path(), None);
    assert_eq!(manager.scene_name(), "Untitled");
}

#[test]
fn scene_error_messages() {
    assert_eq!(SceneError::Io("gone".to_string()).message(), "IO error: gone");
    assert_eq!(SceneError::Serialize("a".to_string()).message(), "Serialize error: a");
    assert_eq!(SceneError::Deserialize("b".to_string()).message(), "Deserialize error: b");
}

#[test]
fn selection_keeps_order_and_uniqueness() {
    let mut sel = Selection::new();
    sel.add(5);
    sel.add(3);
    sel.add(5);
    assert_eq!(sel.all(), &[5, 3]);
    assert_eq!(sel.first(), Some(5));
    sel.toggle(5);
    sel.toggle(5);
    assert_eq!(sel.all(), &[3, 5]);
    sel.remove(9);
    assert_eq!(sel.count(), 2);
    sel.set_hovered(Some(3));
    assert_eq!(sel.hovered(), Some(3));
    sel.clear();
    assert!(sel.is_empty());
    assert_eq!(sel.first(), None);
    assert_eq!(sel.hovered(), Some(3));
}

#[test]
fn log_categories_by_target() {
    assert_eq!(LogCategory::from_target("xtreme::editor::scene"), LogCategory::Editor);
    assert_eq!(LogCategory::from_target("wgpu_core::device"), LogCategory::Render);
    assert_eq!(LogCategory::from_target("xtreme::render"), LogCategory::Render);
    assert_eq!(LogCategory::from_target("rodio"), LogCategory::Audio);
    assert_eq!(LogCategory::from_target("xtreme::scripting::lua"), LogCategory::Script);
    assert_eq!(LogCategory::from_target("xtreme::physics"), LogCategory::Engine);
    assert_eq!(LogCategory::from_target("hyper"), LogCategory::Other);
    assert_eq!(LogCategory::all().len(), 7);
    assert_eq!(LogCategory::User.name(), "User");
}

#[test]
fn console_level_filter() {
    let s = ConsoleSettings::default();
    assert!(s.show_level(LogLevel::Error));
    assert!(s.show_level(LogLevel::Warn));
    assert!(s.show_level(LogLevel::Info));
    assert!(!s.show_level(LogLevel::Debug));
    assert!(!s.show_level(LogLevel::Trace));
    assert_eq!(s.max_entries, 1000);
}

#[test]
fn hierarchy_toggles_expansion() {
    let mut panel = HierarchyPanel::new();
    assert!(!panel.is_expanded(4));
    panel.toggle_expanded(4);
    assert!(panel.is_expanded(4));
    panel.toggle_expanded(4);
    assert!(!panel.is_expanded(4));
}

#[test]
fn tools_and_defaults() {
    assert_eq!(Tool::default(), Tool::Select);
    assert_eq!(Tool::Rotate.name(), "Rotate");
    assert_eq!(Tool::Scale.shortcut(), "R");
    assert_eq!(Tool::Move.icon(), "\u{2725}");
    assert_eq!(default_bg_color(), [25, 25, 38]);
    assert_eq!(default_target_fps(), 60);
    assert!(default_vsync());
    let panel = InspectorPanel::new();
    assert!(panel.animator_expanded && panel.transform_expanded);
}

fn object(id: u32, parent: Option<u32>, visible: bool, name: &str) -> ObjectRow {
    ObjectRow { id, parent, visible, name: name.to_string() }
}

#[test]
fn hierarchy_rows_follow_the_tree() {
    let objects = vec![
        object(1, None, true, "Ground"),
        object(2, Some(1), true, "Rock"),
        object(3, None, true, "Player"),
        object(4, Some(3), false, "Hitbox"),
        object(5, Some(3), true, "Sword"),
        object(6, Some(5), true, "Glow"),
    ];
    let mut panel = HierarchyPanel::new();
    // Collapsed: only the roots.
    assert_eq!(panel.rows(&objects), vec![(0, 0), (2, 0)]);
    assert_eq!(panel.listed_count(&objects), 5);

    panel.toggle_expanded(3);
    assert_eq!(panel.rows(&objects), vec![(0, 0), (2, 0), (4, 1)]);
    panel.toggle_expanded(5);
    panel.toggle_expanded(1);
    assert_eq!(panel.rows(&objects), vec![(0, 0), (1, 1), (2, 0), (4, 1), (5, 2)]);

    panel.set_show_hidden(true);
    assert!(panel.show_hidden());
    assert_eq!(panel.listed_count(&objects), 6);
    assert_eq!(
        panel.rows(&objects),
        vec![(0, 0), (1, 1), (2, 0), (3, 1), (4, 1), (5, 2)]
    );

    // A search lists matching objects flat, whatever is expanded.
    panel.set_filter("O".to_string());
    assert_eq!(panel.filter(), "O");
    assert_eq!(panel.rows(&objects), vec![(0, 0), (1, 0), (3, 0), (4, 0), (5, 0)]);
    panel.set_show_hidden(false);
    assert_eq!(panel.rows(&objects), vec![(0, 0), (1, 0), (4, 0), (5, 0)]);
}

#[test]
fn hierarchy_cuts_branches_that_loop() {
    // Two objects share an id, so the branch under it repeats.
    let objects = vec![object(1, None, true, "A"), object(1, Some(1), true, "B")];
    let mut panel = HierarchyPanel::new();
    panel.toggle_expanded(1);
    assert_eq!(panel.rows(&objects), vec![(0, 0), (1, 1), (1, 2)]);
}
