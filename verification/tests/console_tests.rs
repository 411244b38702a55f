use xtreme::editor::panels::console::{
    ConsolePanel, ConsoleSettings, LogCategory, LogEntry, LogLevel,
};
use xtreme::editor::panels::toolbar::{tool_for_key, Tool, TransformSpace};
use xtreme::editor::shortcuts::KeyCode;

fn entry(level: LogLevel, target: &str, message: &str, ms: u64) -> LogEntry {
    LogEntry {
        level,
        message: message.to_string(),
        target: target.to_string(),
        category: LogCategory::from_target(target),
        timestamp_ms: ms,
    }
}

#[test]
fn console_counts_and_keeps_records() {
    let mut console = ConsolePanel::new();
    assert!(console.visible);
    assert!(console.entries().is_empty());
    console.poll(vec![
        entry(LogLevel::Error, "xtreme::render", "device lost", 1),
        entry(LogLevel::Warn, "xtreme::editor", "slow frame", 2),
        entry(LogLevel::Info, "xtreme", "started", 3),
        entry(LogLevel::Debug, "wgpu", "buffer mapped", 4),
        entry(LogLevel::Trace, "wgpu", "tick", 5),
    ]);
    assert_eq!(console.entries().len(), 5);
    assert_eq!(console.count(LogLevel::Error), 1);
    assert_eq!(console.count(LogLevel::Warn), 1);
    assert_eq!(console.count(LogLevel::Info), 1);
    assert_eq!(console.count(LogLevel::Debug), 2);
    assert_eq!(console.count(LogLevel::Trace), 2);
    assert_eq!(console.entries()[0].category, LogCategory::Render);

    console.clear();
    assert!(console.entries().is_empty());
    assert_eq!(console.count(LogLevel::Error), 0);
    assert_eq!(console.count(LogLevel::Debug), 0);
}

#[test]
fn console_buffer_drops_oldest_when_full() {
    let mut console = ConsolePanel::default();
    let mut settings = ConsoleSettings::default();
    settings.max_entries = 2;
    console.set_settings(settings);
    assert_eq!(console.settings().max_entries, 2);
    console.poll(vec![
        entry(LogLevel::Info, "a", "one", 1),
        entry(LogLevel::Info, "a", "two", 2),
        entry(LogLevel::Info, "a", "three", 3),
    ]);
    let kept: Vec<&str> = console.entries().iter().map(|e| e.message.as_str()).collect();
    assert_eq!(kept, vec!["two", "three"]);
    // Tallies count every record, kept or not.
    assert_eq!(console.count(LogLevel::Info), 3);

    let mut none = ConsoleSettings::default();
    none.max_entries = 0;
    console.set_settings(none);
    console.poll(vec![entry(LogLevel::Info, "a", "four", 4)]);
    console.poll(vec![entry(LogLevel::Info, "a", "five", 5)]);
    let kept: Vec<&str> = console.entries().iter().map(|e| e.message.as_str()).collect();
    assert_eq!(kept, vec!["four", "five"]);
}

#[test]
fn console_filters_by_level_and_text() {
    let mut console = ConsolePanel::new();
    console.poll(vec![
        entry(LogLevel::Error, "xtreme::render", "Device Lost", 1),
        entry(LogLevel::Debug, "xtreme::render", "device ok", 2),
        entry(LogLevel::Info, "xtreme::editor", "saved scene", 3),
        entry(LogLevel::Warn, "wgpu", "adapter fallback", 4),
    ]);
    // Debug records are hidden by default.
    assert_eq!(console.visible_entries(), vec![0, 2, 3]);

    console.set_filter("DEVICE".to_string());
    assert_eq!(console.filter(), "DEVICE");
    assert_eq!(console.visible_entries(), vec![0]);

    // The target is searched too, joined to the message by a space.
    console.set_filter("render device".to_string());
    assert_eq!(console.visible_entries(), vec![0]);
    console.set_filter("wgpu adapter".to_string());
    assert_eq!(console.visible_entries(), vec![3]);

    let mut settings = ConsoleSettings::default();
    settings.show_debug = true;
    settings.show_error = false;
    console.set_settings(settings);
    console.set_filter("device".to_string());
    assert_eq!(console.visible_entries(), vec![1]);

    console.set_filter(String::new());
    assert_eq!(console.visible_entries(), vec![1, 2, 3]);
}

#[test]
fn tool_keys() {
    assert_eq!(tool_for_key(KeyCode::Q), Some(Tool::Select));
    assert_eq!(tool_for_key(KeyCode::W), Some(Tool::Move));
    assert_eq!(tool_for_key(KeyCode::E), Some(Tool::Rotate));
    assert_eq!(tool_for_key(KeyCode::R), Some(Tool::Scale));
    assert_eq!(tool_for_key(KeyCode::T), None);
    assert_eq!(tool_for_key(KeyCode::Escape), None);
    for tool in [Tool::Select, Tool::Move, Tool::Rotate, Tool::Scale] {
        let key = match tool.shortcut() {
            "Q" => KeyCode::Q,
            "W" => KeyCode::W,
            "E" => KeyCode::E,
            _ => KeyCode::R,
        };
        assert_eq!(tool_for_key(key), Some(tool));
    }
    assert_eq!(TransformSpace::Local.toggled(), TransformSpace::World);
    assert_eq!(TransformSpace::World.toggled(), TransformSpace::Local);
}
