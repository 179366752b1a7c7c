use workbench::relay::{filter_log_line, service_line, ComponentLog, Stream};

#[test]
fn noise_is_dropped() {
    assert_eq!(filter_log_line("npm WARN deprecated inflight@1.0.6", false), None);
    assert_eq!(filter_log_line("  npm WARN peer dep conflict", false), None);
    assert_eq!(filter_log_line("package uses a deprecated API", false), None);
}

#[test]
fn error_lines_are_marked() {
    assert_eq!(
        filter_log_line("npm ERR! code EACCES ", false),
        Some("❌ npm ERR! code EACCES".to_string())
    );
}

#[test]
fn error_marker_comes_first() {
    assert_eq!(filter_log_line("added ERR!", false), Some("❌ added ERR!".to_string()));
    assert_eq!(
        filter_log_line(" npm ERR! added 2 ", false),
        Some("❌ npm ERR! added 2".to_string())
    );
    assert_eq!(
        filter_log_line("npm ERR! up to date", false),
        Some("❌ npm ERR! up to date".to_string())
    );
    assert_eq!(filter_log_line("npm ERR! deprecated", false), None);
}

#[test]
fn known_categories_are_marked() {
    assert_eq!(
        filter_log_line("added 312 packages in 9s", false),
        Some("📦 added 312 packages in 9s".to_string())
    );
    assert_eq!(
        filter_log_line("up to date, audited 12 packages", false),
        Some("✅ up to date, audited 12 packages".to_string())
    );
}

#[test]
fn plain_and_blank_lines() {
    assert_eq!(filter_log_line("  building  ", false), Some("building".to_string()));
    assert_eq!(filter_log_line("   ", false), None);
}

#[test]
fn verbose_passes_everything() {
    assert_eq!(
        filter_log_line("npm WARN deprecated x", true),
        Some("npm WARN deprecated x".to_string())
    );
    assert_eq!(filter_log_line("  ", true), Some("  ".to_string()));
}

#[test]
fn service_streams() {
    assert_eq!(service_line(Stream::Stdout, "listening"), "listening");
    assert_eq!(service_line(Stream::Stderr, "slow disk"), "⚠ slow disk");
    let log = ComponentLog::new("Ollama Server", "up".to_string());
    assert_eq!(log.component, "Ollama Server");
    assert_eq!(log.message, "up");
}
