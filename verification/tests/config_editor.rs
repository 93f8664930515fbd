//! Configuration formats and errors, and the editor's text model.

use paramguard::config::{ConfigError, ConfigFormat, IoFailure};
use paramguard::editor::{Editor, EditorKey};
use paramguard::syntax::{BasicHighlighter, FileType};

#[test]
fn config_format_round_trips_extensions() {
    assert_eq!(ConfigFormat::from_extension("json"), Some(ConfigFormat::Json));
    assert_eq!(ConfigFormat::from_extension("yaml"), Some(ConfigFormat::Yaml));
    assert_eq!(ConfigFormat::from_extension("yml"), Some(ConfigFormat::Yaml));
    assert_eq!(ConfigFormat::from_extension("toml"), Some(ConfigFormat::Toml));
    assert_eq!(ConfigFormat::from_extension("ini"), Some(ConfigFormat::Ini));
    assert_eq!(ConfigFormat::from_extension("env"), Some(ConfigFormat::Env));
    assert_eq!(ConfigFormat::from_extension("cfg"), Some(ConfigFormat::Cfg));
    assert_eq!(ConfigFormat::from_extension("nix"), Some(ConfigFormat::Nix));
    assert_eq!(ConfigFormat::from_extension("JSON"), Some(ConfigFormat::Json));
    assert_eq!(ConfigFormat::from_extension("YmL"), Some(ConfigFormat::Yaml));
    assert_eq!(ConfigFormat::from_extension("invalid"), None);
    assert_eq!(ConfigFormat::from_extension(""), None);
}

#[test]
fn config_format_extensions_and_defaults() {
    assert_eq!(ConfigFormat::Json.as_extension(), "json");
    assert_eq!(ConfigFormat::Yaml.as_extension(), "yaml");
    assert_eq!(ConfigFormat::Nix.as_extension(), "nix");
    assert_eq!(ConfigFormat::Json.get_default_content(), "{}");
    assert_eq!(ConfigFormat::Yaml.get_default_content(), "---");
    assert_eq!(ConfigFormat::Toml.get_default_content(), "");
    assert_eq!(ConfigFormat::Cfg.get_default_content(), "# Configuration File");
    assert_eq!(ConfigFormat::Nix.get_default_content(), "{ }");
    assert!(ConfigFormat::is_valid_extension("json"));
    assert!(ConfigFormat::is_valid_extension("YAML"));
    assert!(!ConfigFormat::is_valid_extension("txt"));
    let extensions = ConfigFormat::supported_extensions();
    assert_eq!(
        extensions,
        vec!["json", "yaml", "yml", "toml", "ini", "env", "cfg", "nix"]
    );
    assert!(extensions.contains(&"json"));
    assert!(extensions.contains(&"yaml"));
}

#[test]
fn config_error_classification() {
    let perm = ConfigError::PermissionDenied("No write access".to_string());
    assert!(perm.is_permission_error());
    assert!(!perm.is_not_found_error());
    let read_perm = ConfigError::ReadError(IoFailure::PermissionDenied, "locked".to_string());
    assert!(read_perm.is_permission_error());
    let missing = ConfigError::ConfigNotFound("config.json".to_string());
    assert!(missing.is_not_found_error());
    assert!(!missing.is_permission_error());
    let read_missing = ConfigError::ReadError(IoFailure::NotFound, "gone".to_string());
    assert!(read_missing.is_not_found_error());
    let parse = ConfigError::ParseError("Invalid JSON".to_string());
    assert!(parse.is_format_error());
    assert!(ConfigError::InvalidFormat("bad".to_string()).is_format_error());
    assert!(!ConfigError::ValidationError("bad".to_string()).is_format_error());
}

#[test]
fn config_error_messages() {
    assert_eq!(
        ConfigError::ConfigNotFound("settings.json".to_string()).user_friendly_message(),
        "Configuration file 'settings.json' could not be found"
    );
    assert_eq!(
        ConfigError::ConfigExists("app".to_string()).user_friendly_message(),
        "Configuration 'app' already exists"
    );
    assert_eq!(
        ConfigError::ParseError("bad yaml".to_string()).user_friendly_message(),
        "Configuration content is not valid: bad yaml"
    );
    assert_eq!(
        ConfigError::PermissionDenied("no access".to_string()).user_friendly_message(),
        "Permission denied: no access"
    );
}

#[test]
fn file_type_from_path() {
    assert_eq!(FileType::from_path("a/b/config.json"), FileType::Json);
    assert_eq!(FileType::from_path("x.YAML"), FileType::Yaml);
    assert_eq!(FileType::from_path("x.yml"), FileType::Yaml);
    assert_eq!(FileType::from_path("schema.SQL"), FileType::Sql);
    assert_eq!(FileType::from_path("run.sh"), FileType::Bash);
    assert_eq!(FileType::from_path("run.bash"), FileType::Bash);
    assert_eq!(FileType::from_path("Cargo.toml"), FileType::Toml);
    assert_eq!(FileType::from_path("noext"), FileType::Plain);
    assert_eq!(FileType::from_path("archive.tar.gz"), FileType::Plain);
    let hl = BasicHighlighter::new(FileType::Json);
    assert_eq!(hl.file_type(), FileType::Json);
}

#[test]
fn editor_starts_at_the_end_of_the_buffer() {
    let ed = Editor::new("ab\ncd".to_string(), "notes.json");
    assert_eq!(ed.contents(), "ab\ncd");
    assert_eq!(ed.cursor(), 5);
    assert_eq!(ed.scroll(), 0);
    assert_eq!(ed.file_type(), FileType::Json);
}

#[test]
fn editor_line_queries() {
    let mut ed = Editor::new("ab\ncdef\ng".to_string(), "x.txt");
    // Cursor starts at position 9, on the third line.
    assert_eq!(ed.get_current_line_number(), 2);
    assert_eq!(ed.get_total_lines(), 3);
    assert_eq!(ed.get_current_line_start(), 8);
    assert_eq!(ed.get_current_line_end(), 9);
    assert_eq!(ed.get_column(), 1);
    ed.move_to_line_start();
    assert_eq!(ed.cursor(), 8);
    ed.move_to_line_end();
    assert_eq!(ed.cursor(), 9);
}

#[test]
fn editor_vertical_movement_clamps_the_column() {
    // Lines: "ab" (0..2), "cdef" (3..7), "g" (8..9).
    let mut ed = Editor::new("ab\ncdef\ng".to_string(), "x.txt");
    // From the end of "g" up into "cdef": column 1 is kept.
    ed.move_up();
    assert_eq!(ed.cursor(), 4);
    ed.apply_key(EditorKey::End, 10);
    assert_eq!(ed.cursor(), 7);
    // Up from the end of "cdef": "ab" is shorter, so the cursor lands
    // at its end.
    ed.move_up();
    assert_eq!(ed.cursor(), 2);
    // At the first line, up does nothing.
    ed.move_up();
    assert_eq!(ed.cursor(), 2);
    // Down again: the column is kept where it fits.
    ed.move_down();
    assert_eq!(ed.cursor(), 5);
    ed.move_down();
    assert_eq!(ed.cursor(), 9);
    // At the last line, down does nothing.
    ed.move_down();
    assert_eq!(ed.cursor(), 9);
}

#[test]
fn editor_keys_edit_the_buffer() {
    let mut ed = Editor::new("ac".to_string(), "x.txt");
    ed.apply_key(EditorKey::Left, 10);
    ed.apply_key(EditorKey::Char('b'), 10);
    assert_eq!(ed.contents(), "abc");
    assert_eq!(ed.cursor(), 2);
    ed.apply_key(EditorKey::Backspace, 10);
    assert_eq!(ed.contents(), "ac");
    assert_eq!(ed.cursor(), 1);
    ed.apply_key(EditorKey::Delete, 10);
    assert_eq!(ed.contents(), "a");
    ed.apply_key(EditorKey::Enter, 10);
    assert_eq!(ed.contents(), "a\n");
    assert_eq!(ed.cursor(), 2);
    ed.apply_key(EditorKey::Home, 10);
    assert_eq!(ed.cursor(), 2);
    // Backspace at the start of the buffer does nothing.
    let mut fresh = Editor::new(String::new(), "x.txt");
    fresh.apply_key(EditorKey::Backspace, 10);
    assert_eq!(fresh.contents(), "");
    // Delete at the end does nothing either.
    fresh.apply_key(EditorKey::Char('z'), 10);
    fresh.apply_key(EditorKey::Delete, 10);
    assert_eq!(fresh.contents(), "z");
}

#[test]
fn editor_pages_move_by_the_window_height() {
    let text = "l0\nl1\nl2\nl3\nl4\nl5";
    let mut ed = Editor::new(text.to_string(), "x.txt");
    assert_eq!(ed.get_current_line_number(), 5);
    ed.apply_key(EditorKey::PageUp, 3);
    assert_eq!(ed.get_current_line_number(), 2);
    ed.apply_key(EditorKey::PageUp, 3);
    assert_eq!(ed.get_current_line_number(), 0);
    ed.apply_key(EditorKey::PageDown, 2);
    assert_eq!(ed.get_current_line_number(), 2);
    ed.apply_key(EditorKey::PageDown, 100);
    assert_eq!(ed.get_current_line_number(), 5);
}

#[test]
fn editor_scroll_follows_the_cursor() {
    let text = "l0\nl1\nl2\nl3\nl4\nl5";
    let mut ed = Editor::new(text.to_string(), "x.txt");
    // Cursor on line 5, window of 3 lines: scroll to show lines 3..=5.
    ed.adjust_scroll(3);
    assert_eq!(ed.scroll(), 3);
    // Move to the top: the window follows up.
    for _ in 0..5 {
        ed.move_up();
    }
    ed.adjust_scroll(3);
    assert_eq!(ed.scroll(), 0);
}
