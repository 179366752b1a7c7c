use workbench::pull::{
    model_list, progress_message, progress_percent, pull_command, pull_outcome, DownloadManager,
    DownloadSlot, ProgressFields, PullError, PullMonitor,
};

fn fields_of(line: &str) -> Option<ProgressFields> {
    let v: serde_json::Value = serde_json::from_str(line).ok()?;
    let o = v.as_object()?;
    Some(ProgressFields {
        status: o.get("status").and_then(|s| s.as_str()).map(|s| s.to_string()),
        completed: o.get("completed").and_then(|c| c.as_u64()),
        total: o.get("total").and_then(|t| t.as_u64()),
    })
}

#[test]
fn quarter_done_line() {
    let line = r#"{"completed":50,"total":200}"#;
    assert_eq!(
        progress_message(fields_of(line), line),
        Some("📦 Downloading model: 25% complete".to_string())
    );
}

#[test]
fn unreadable_line_gives_nothing() {
    let line = "some random text";
    assert!(fields_of(line).is_none());
    assert_eq!(progress_message(fields_of(line), line), None);
}

#[test]
fn status_and_marker_lines() {
    let line = r#"{"status":"verifying sha256 digest"}"#;
    assert_eq!(
        progress_message(fields_of(line), line),
        Some("📦 verifying sha256 digest".to_string())
    );
    let line = "pulling manifest";
    assert_eq!(progress_message(None, line), Some("📦 pulling manifest".to_string()));
    let line = "{}";
    assert_eq!(progress_message(fields_of(line), line), None);
}

#[test]
fn percent_values() {
    assert_eq!(progress_percent(50, 200), 25);
    assert_eq!(progress_percent(29, 100), 29);
    assert_eq!(progress_percent(1, 3), 33);
    assert_eq!(progress_percent(200, 200), 100);
    assert_eq!(progress_percent(300, 200), 100);
    assert_eq!(progress_percent(0, 0), 0);
    assert_eq!(progress_percent(5, 0), 100);
    assert_eq!(progress_percent(u64::MAX - 1, u64::MAX), 99);
}

#[test]
fn progress_is_rate_limited() {
    let mut m = PullMonitor::new(10_000);
    let line = r#"{"completed":1,"total":4}"#;
    assert_eq!(m.on_line(10_500, fields_of(line), line), None);
    assert!(m.progress_seen);
    assert_eq!(
        m.on_line(11_001, fields_of(line), line),
        Some("📦 Downloading model: 25% complete".to_string())
    );
    assert_eq!(m.last_emit_ms, 11_001);
    assert_eq!(m.on_line(11_900, fields_of(line), line), None);
    assert_eq!(m.on_line(12_001, fields_of(line), line), None);
    assert!(m.on_line(12_002, fields_of(line), line).is_some());
}

#[test]
fn finish_only_after_progress() {
    let mut m = PullMonitor::new(0);
    assert_eq!(m.finish("demo"), None);
    assert_eq!(m.on_line(5_000, None, "garbage"), None);
    assert_eq!(m.finish("demo"), None);
    assert_eq!(m.on_line(5_000, None, "pulling layer"), Some("📦 pulling layer".to_string()));
    assert_eq!(m.finish("demo"), Some("✅ Finished pulling 'demo'".to_string()));
}

#[test]
fn second_pull_is_refused() {
    let mut d: DownloadManager<u32> = DownloadManager::new();
    let t = d.begin("demo".to_string()).unwrap();
    assert_eq!(d.begin("demo".to_string()), Err(PullError::AlreadyDownloading));
    assert_eq!(d.attach(t, 77), None);
    assert_eq!(d.begin("demo".to_string()), Err(PullError::AlreadyDownloading));
    assert!(d.is_busy());
    match &d.slot {
        DownloadSlot::Active { target, handle, .. } => {
            assert_eq!(target, "demo");
            assert_eq!(*handle, 77);
        }
        _ => panic!("expected an active download"),
    }
}

#[test]
fn cancel_and_finish() {
    let mut d: DownloadManager<u32> = DownloadManager::new();
    assert_eq!(d.cancel(), Err(PullError::NoActiveDownload));
    let t = d.begin("a".to_string()).unwrap();
    assert_eq!(d.cancel(), Ok(None));
    assert_eq!(d.attach(t, 5), Some(5));
    assert!(!d.is_busy());
    let t2 = d.begin("b".to_string()).unwrap();
    assert_ne!(t, t2);
    assert_eq!(d.attach(t2, 6), None);
    assert_eq!(d.finish(t), None);
    assert!(d.is_busy());
    assert_eq!(d.finish(t2), Some(6));
    assert!(!d.is_busy());
    let t3 = d.begin("c".to_string()).unwrap();
    assert_eq!(d.attach(t3, 8), None);
    assert_eq!(d.cancel(), Ok(Some(8)));
    assert!(!d.is_busy());
}

#[test]
fn transport_choice() {
    let (prog, args) = pull_command(true, 11434, "/usr/bin/ollama", "demo");
    assert_eq!(prog, "curl");
    assert_eq!(
        args,
        vec![
            "-N",
            "-s",
            "-X",
            "POST",
            "http://localhost:11434/api/pull",
            "-H",
            "Content-Type: application/json",
            "-d",
            r#"{"name":"demo"}"#
        ]
    );
    let (prog, args) = pull_command(false, 11434, "/usr/bin/ollama", "demo");
    assert_eq!(prog, "/usr/bin/ollama");
    assert_eq!(args, vec!["pull", "demo"]);
}

#[test]
fn outcome_of_pull() {
    assert_eq!(
        pull_outcome("demo", true),
        Ok("✅ Model 'demo' pulled successfully.".to_string())
    );
    assert_eq!(pull_outcome("demo", false), Err(PullError::Interrupted));
    assert_eq!(
        PullError::Interrupted.message(),
        "❌ Model pull failed. 💡 Try the Repair Model Pull option."
    );
    assert_eq!(PullError::NoActiveDownload.message(), "ℹ No active download to cancel.");
}

#[test]
fn listing_of_models() {
    let out = "NAME            ID    SIZE\n  llama3:latest  abc  4.7 GB  \n\n   \nphi3:mini  def  2.2 GB\n";
    assert_eq!(model_list(out), vec!["llama3:latest".to_string(), "phi3:mini".to_string()]);
    assert!(model_list("NAME ID").is_empty());
    assert!(model_list("").is_empty());
    assert!(model_list("\n  \n").is_empty());
}

#[test]
fn request_body_is_escaped() {
    let name = "a\"b\\c\n\u{1}";
    let (_, args) = pull_command(true, 11434, "/usr/bin/ollama", name);
    let body = &args[8];
    assert_eq!(body, r#"{"name":"a\"b\\c\u000a\u0001"}"#);
    let v: serde_json::Value = serde_json::from_str(body).unwrap();
    assert_eq!(v.as_object().unwrap().len(), 1);
    assert_eq!(v["name"].as_str(), Some(name));
    let (_, args) = pull_command(true, 11434, "ollama", r#"x","extra":"1"#);
    let v: serde_json::Value = serde_json::from_str(&args[8]).unwrap();
    assert_eq!(v.as_object().unwrap().len(), 1);
    assert_eq!(v["name"].as_str(), Some(r#"x","extra":"1"#));
}
