use prview::gh::GitHub;
use prview::replies::Flow;
use prview::skip::{skip_file_path, SkipError};
use prview::text::{render_thread, reply_from_edit, reply_seed, split_lines};
use prview::{Comment, FetchError, ReplyQueue, SkipStore, Thread, Timestamp};

#[test]
fn timestamps_parse_rfc3339() {
    let t = Timestamp::parse("2024-01-01T00:00:00Z").unwrap();
    assert_eq!(t, Timestamp { secs: 1704067200, nanos: 0 });
    let t = Timestamp::parse("2024-01-01T02:00:00.5+02:00").unwrap();
    assert_eq!(t, Timestamp { secs: 1704067200, nanos: 500_000_000 });
    assert!(Timestamp::parse("yesterday").is_none());
    assert!(Timestamp { secs: 1, nanos: 5 }.before(&Timestamp { secs: 1, nanos: 6 }));
    assert!(!Timestamp { secs: 2, nanos: 0 }.before(&Timestamp { secs: 1, nanos: 9 }));
}

#[test]
fn comment_rejects_bad_timestamp() {
    let c = Comment::new("c".to_string(), 1, "a".to_string(), "b".to_string(), None, "not a date");
    assert!(matches!(c, Err(FetchError::BadTimestamp)));
}

#[test]
fn skip_store_loads_and_writes() {
    let s = SkipStore::load(None).unwrap();
    assert!(!s.contains(&"a".to_string()));
    let mut s = SkipStore::load(Some(r#"["a", "b", "a"]"#)).unwrap();
    assert!(s.contains(&"a".to_string()));
    assert!(s.contains(&"b".to_string()));
    assert_eq!(s.to_json().as_deref(), Some(r#"["a","b"]"#));
    assert!(!s.add("a".to_string()));
    assert!(s.add("c".to_string()));
    assert!(s.remove(&"a".to_string()));
    assert!(!s.remove(&"a".to_string()));
    assert_eq!(s.to_json().as_deref(), Some(r#"["b","c"]"#));
    assert!(matches!(SkipStore::load(Some("{\"a\": 1}")), Err(SkipError::Malformed)));
    assert!(matches!(SkipStore::load(Some("")), Err(SkipError::Malformed)));
}

#[test]
fn skip_file_location() {
    assert_eq!(skip_file_path(Some("/state"), Some("/home/u")).as_deref(), Some("/state/prview/skipped.json"));
    assert_eq!(
        skip_file_path(Some(""), Some("/home/u")).as_deref(),
        Some("/home/u/.local/state/prview/skipped.json")
    );
    assert_eq!(skip_file_path(None, Some("/h")).as_deref(), Some("/h/.local/state/prview/skipped.json"));
    assert_eq!(skip_file_path(None, None), None);
}

#[test]
fn queue_keeps_failed_reply_and_rest() {
    let mut q = ReplyQueue::new();
    for k in 1..=4u64 {
        q.enqueue(k, format!("reply {k}"));
    }
    assert_eq!(q.front().unwrap().target, 1);
    assert_eq!(q.published(true), Flow::Continue);
    assert_eq!(q.published(false), Flow::Stop);
    assert_eq!(q.len(), 3);
    let mut left = Vec::new();
    while let Some(r) = q.front() {
        left.push(r.target);
        if q.published(true) == Flow::Done {
            break;
        }
    }
    assert_eq!(left, vec![2, 3, 4]);
    assert!(q.is_empty());
}

#[test]
fn queue_first_publish_failing_keeps_all() {
    let mut q = ReplyQueue::new();
    q.enqueue(7, "x".to_string());
    q.enqueue(8, "y".to_string());
    assert_eq!(q.published(false), Flow::Stop);
    assert_eq!(q.len(), 2);
    assert_eq!(q.front().unwrap().body, "x");
}

#[test]
fn lines_split_at_line_feeds() {
    assert_eq!(split_lines("a\nb\n"), vec!["a", "b"]);
    assert!(split_lines("").is_empty());
    assert_eq!(split_lines("a\r\nb\r"), vec!["a", "b\r"]);
    assert_eq!(split_lines("x\r\n\r\ny"), vec!["x", "", "y"]);
    assert_eq!(split_lines("a\n\n"), vec!["a", ""]);
    assert_eq!(split_lines("héllo"), vec!["héllo"]);
}

fn sample() -> Thread {
    let c1 = Comment::new(
        "c1".to_string(),
        1,
        "alice".to_string(),
        "why?\nreally".to_string(),
        Some("@@ -1 +1 @@".to_string()),
        "2024-01-01T00:00:00Z",
    )
    .unwrap();
    let c2 = Comment::new("c2".to_string(), 2, "bob".to_string(), "because".to_string(), None, "2024-01-02T00:00:00Z")
        .unwrap();
    Thread::new("t".to_string(), "src/a.rs".to_string(), false, vec![c1, c2]).unwrap()
}

#[test]
fn thread_renders_as_lines() {
    let lines = render_thread(&sample());
    assert_eq!(
        lines,
        vec!["src/a.rs", "@@ -1 +1 @@", "", "alice:", "why?", "really", "", "bob:", "because", ""]
    );
}

#[test]
fn seed_quotes_the_thread() {
    let seed = reply_seed(&sample());
    assert_eq!(
        seed,
        "\n# Write the reply above. Lines starting with '#' are left out; an empty reply cancels.\n\
         # alice:\n# why?\n# really\n# \n# bob:\n# because\n# \n"
    );
    assert_eq!(reply_from_edit(&seed), None);
}

#[test]
fn edited_text_becomes_reply() {
    assert_eq!(reply_from_edit("  thanks\n# note\nfixed \n").as_deref(), Some("thanks\nfixed"));
    assert_eq!(reply_from_edit("\n\n# only\n  \n"), None);
    assert_eq!(reply_from_edit(""), None);
    assert_eq!(reply_from_edit("ok\r\n# note\r\n").as_deref(), Some("ok"));
    assert_eq!(reply_from_edit("\u{3000}done\u{a0}\t").as_deref(), Some("done"));
}

#[test]
fn pull_request_needs_every_part() {
    let p = GitHub::pull_request(Some("o".to_string()), Some("r".to_string()), Some(3)).unwrap();
    assert_eq!((p.owner.as_str(), p.repo.as_str(), p.number), ("o", "r", 3));
    assert!(GitHub::pull_request(None, Some("r".to_string()), Some(3)).is_none());
    assert!(GitHub::pull_request(Some("o".to_string()), Some("r".to_string()), None).is_none());
}
