use prview::app::Status;
use prview::input::{dispatch, page_step};
use prview::scroll::{scroll_by, visible_window, Window};
use prview::{App, Comment, Event, FetchError, Key, Modifiers, Scroll, SkipStore, Thread, Tick, View};

fn comment(id: &str, numeric_id: u64, body: &str, at: &str) -> Comment {
    Comment::new(id.to_string(), numeric_id, "octo".to_string(), body.to_string(), None, at).unwrap()
}

fn thread(id: &str, resolved: bool, at: &str) -> Thread {
    Thread::new(id.to_string(), "src/lib.rs".to_string(), resolved, vec![comment(id, 1, "looks odd", at)]).unwrap()
}

fn ids(app: &App, v: View) -> Vec<String> {
    let mut out = Vec::new();
    let mut k = 0;
    while let Some(t) = app.thread_at(v, k) {
        out.push(t.id.clone());
        k += 1;
    }
    out
}

fn current_id(app: &App) -> Option<String> {
    app.current().map(|t| t.id.clone())
}

fn three() -> Vec<Thread> {
    vec![
        thread("t1", false, "2024-01-01T10:00:00Z"),
        thread("t2", true, "2024-01-02T10:00:00Z"),
        thread("t3", false, "2024-01-03T10:00:00Z"),
    ]
}

fn key(c: char) -> Event {
    Event::Key(Key::Char(c), Modifiers { ctrl: false, alt: false, shift: false, other: false })
}

fn plain(k: Key) -> Event {
    Event::Key(k, Modifiers { ctrl: false, alt: false, shift: false, other: false })
}

#[test]
fn skip_and_unskip_scenario() {
    let mut app = App::new(three(), SkipStore::new()).unwrap();
    assert_eq!(app.view(), View::Unresolved);
    assert_eq!(ids(&app, View::Unresolved), vec!["t1", "t3"]);
    assert_eq!(app.skip(), Tick::Persist);
    assert_eq!(ids(&app, View::Unresolved), vec!["t3"]);
    assert_eq!(ids(&app, View::Skipped), vec!["t1"]);
    assert_eq!(ids(&app, View::Active), vec!["t3", "t2"]);
    app.advance_view();
    app.advance_view();
    assert_eq!(app.view(), View::Skipped);
    assert_eq!(current_id(&app).as_deref(), Some("t1"));
    assert_eq!(app.unskip(), Tick::Persist);
    assert_eq!(app.status(), Status::Unskipped);
    assert_eq!(ids(&app, View::Unresolved), vec!["t1", "t3"]);
    assert_eq!(ids(&app, View::Active), vec!["t1", "t3", "t2"]);
    assert!(ids(&app, View::Skipped).is_empty());
}

#[test]
fn active_and_skipped_split_the_fetch() {
    let mut skips = SkipStore::new();
    skips.add("t2".to_string());
    let app = App::new(three(), skips).unwrap();
    let active = ids(&app, View::Active);
    let skipped = ids(&app, View::Skipped);
    assert_eq!(active, vec!["t1", "t3"]);
    assert_eq!(skipped, vec!["t2"]);
    for a in &active {
        assert!(!skipped.contains(a));
    }
    assert_eq!(active.len() + skipped.len(), 3);
}

#[test]
fn unresolved_is_active_without_resolved() {
    let app = App::new(three(), SkipStore::new()).unwrap();
    let unresolved = ids(&app, View::Unresolved);
    let active = ids(&app, View::Active);
    assert_eq!(active, vec!["t1", "t3", "t2"]);
    assert_eq!(unresolved, vec!["t1", "t3"]);
}

#[test]
fn skip_then_unskip_of_resolved_thread_stays_out_of_unresolved() {
    let mut app = App::new(three(), SkipStore::new()).unwrap();
    app.advance_view();
    assert_eq!(app.view(), View::Active);
    app.next_thread();
    app.next_thread();
    assert_eq!(current_id(&app).as_deref(), Some("t2"));
    app.skip_current();
    assert_eq!(ids(&app, View::Skipped), vec!["t2"]);
    app.advance_view();
    app.skip_current();
    assert_eq!(ids(&app, View::Active), vec!["t1", "t3", "t2"]);
    assert_eq!(ids(&app, View::Unresolved), vec!["t1", "t3"]);
    assert!(app.thread_at(View::Active, 2).unwrap().resolved);
}

#[test]
fn cursor_clamps_after_skipping_last() {
    let mut app = App::new(three(), SkipStore::new()).unwrap();
    app.advance_view();
    app.prev_thread();
    assert_eq!(app.cursor_of(View::Active), 2);
    app.skip();
    assert_eq!(app.len_of(View::Active), 2);
    assert_eq!(app.cursor_of(View::Active), 1);
    app.skip();
    app.skip();
    assert_eq!(app.len_of(View::Active), 0);
    assert_eq!(app.cursor_of(View::Active), 0);
    assert_eq!(app.skip(), Tick::Noop);
    assert!(app.current().is_none());
}

#[test]
fn skip_is_refused_in_skipped_view() {
    let mut app = App::new(three(), SkipStore::new()).unwrap();
    assert_eq!(app.unskip(), Tick::Render);
    assert_eq!(app.status(), Status::UnskipRejected);
    app.advance_view();
    app.advance_view();
    assert_eq!(app.skip(), Tick::Render);
    assert_eq!(app.status(), Status::SkipRejected);
    assert_eq!(ids(&app, View::Active).len(), 3);
}

#[test]
fn next_thread_cycles_and_prev_wraps() {
    let mut app = App::new(three(), SkipStore::new()).unwrap();
    app.advance_view();
    app.next_thread();
    let start = app.cursor_of(View::Active);
    for _ in 0..app.len_of(View::Active) {
        assert_eq!(app.next_thread(), Tick::Render);
    }
    assert_eq!(app.cursor_of(View::Active), start);
    let mut app = App::new(three(), SkipStore::new()).unwrap();
    app.advance_view();
    assert_eq!(app.cursor_of(View::Active), 0);
    app.prev_thread();
    assert_eq!(app.cursor_of(View::Active), 2);
}

#[test]
fn navigation_on_empty_view_is_noop() {
    let mut app = App::new(Vec::new(), SkipStore::new()).unwrap();
    assert_eq!(app.next_thread(), Tick::Noop);
    assert_eq!(app.prev_thread(), Tick::Noop);
    assert!(app.reply_target().is_none());
    assert!(app.lines().is_empty());
}

#[test]
fn advance_view_cycles_and_resets_scroll() {
    let mut app = App::new(three(), SkipStore::new()).unwrap();
    app.scroll(5);
    assert_eq!(app.scroll_offset(), 5);
    app.advance_view();
    assert_eq!(app.view(), View::Active);
    assert_eq!(app.scroll_offset(), 0);
    assert_eq!(app.status(), Status::ViewChanged(View::Active));
    app.advance_view();
    app.advance_view();
    assert_eq!(app.view(), View::Unresolved);
}

#[test]
fn equal_keys_keep_fetch_order() {
    let threads = vec![
        thread("b", false, "2024-01-01T10:00:00Z"),
        thread("a", false, "2024-01-01T10:00:00Z"),
        thread("c", false, "2023-12-31T10:00:00Z"),
    ];
    let app = App::new(threads, SkipStore::new()).unwrap();
    assert_eq!(ids(&app, View::Active), vec!["c", "b", "a"]);
}

#[test]
fn sort_uses_subsecond_precision() {
    let threads = vec![
        thread("late", false, "2024-01-01T10:00:00.5Z"),
        thread("early", false, "2024-01-01T10:00:00.25Z"),
    ];
    let app = App::new(threads, SkipStore::new()).unwrap();
    assert_eq!(ids(&app, View::Active), vec!["early", "late"]);
}

#[test]
fn refresh_keeps_selection_by_identifier() {
    let mut app = App::new(three(), SkipStore::new()).unwrap();
    app.next_thread();
    assert_eq!(current_id(&app).as_deref(), Some("t3"));
    let fresh = vec![
        thread("t0", false, "2023-01-01T10:00:00Z"),
        thread("t3", false, "2024-01-03T10:00:00Z"),
        thread("t1", false, "2024-01-01T10:00:00Z"),
    ];
    assert_eq!(app.refresh(fresh), Ok(()));
    assert_eq!(app.status(), Status::Refreshed);
    assert_eq!(current_id(&app).as_deref(), Some("t3"));
    assert_eq!(app.cursor_of(View::Unresolved), 2);
}

#[test]
fn refresh_clamps_when_selection_is_gone() {
    let mut app = App::new(three(), SkipStore::new()).unwrap();
    app.next_thread();
    assert_eq!(app.refresh(vec![thread("t9", false, "2024-01-01T10:00:00Z")]), Ok(()));
    assert_eq!(app.cursor_of(View::Unresolved), 0);
    assert_eq!(current_id(&app).as_deref(), Some("t9"));
}

#[test]
fn refresh_rejects_thread_without_comments() {
    let mut app = App::new(three(), SkipStore::new()).unwrap();
    let bad = Thread { id: "x".to_string(), path: "p".to_string(), resolved: false, comments: Vec::new() };
    assert_eq!(app.refresh(vec![bad]), Err(FetchError::NoComments));
    assert_eq!(ids(&app, View::Unresolved), vec!["t1", "t3"]);
}

#[test]
fn new_rejects_thread_without_comments() {
    let bad = Thread { id: "x".to_string(), path: "p".to_string(), resolved: false, comments: Vec::new() };
    assert!(matches!(App::new(vec![bad], SkipStore::new()), Err(FetchError::NoComments)));
    assert!(matches!(
        Thread::new("x".to_string(), "p".to_string(), false, Vec::new()),
        Err(FetchError::NoComments)
    ));
}

#[test]
fn scroll_saturates_and_window_clamps() {
    let mut app = App::new(three(), SkipStore::new()).unwrap();
    assert_eq!(app.scroll(0), Tick::Noop);
    assert_eq!(app.scroll(isize::MIN), Tick::Render);
    assert_eq!(app.scroll_offset(), 0);
    app.scroll(isize::MAX);
    assert_eq!(app.window(10, 4), Some(Window { first: 6, end: 10 }));
    assert_eq!(app.scroll_offset(), 6);
    app.scroll(-3);
    assert_eq!(app.window(10, 4), Some(Window { first: 3, end: 7 }));
    assert_eq!(app.window(10, 0), None);
    assert_eq!(app.scroll_offset(), 3);
}

#[test]
fn window_never_empty_for_text() {
    for lines in 1..8usize {
        for height in 1..5usize {
            for offset in [0usize, 1, 3, 100, usize::MAX] {
                let w = visible_window(offset, lines, height).unwrap();
                assert!(w.first < w.end && w.end <= lines);
            }
        }
    }
    assert_eq!(visible_window(5, 0, 3), Some(Window { first: 0, end: 0 }));
    assert_eq!(visible_window(2, 3, 10), Some(Window { first: 0, end: 3 }));
}

#[test]
fn scroll_by_steps() {
    assert_eq!(scroll_by(5, -3), 2);
    assert_eq!(scroll_by(2, -3), 0);
    assert_eq!(scroll_by(usize::MAX - 1, 3), usize::MAX);
    assert_eq!(scroll_by(0, isize::MIN), 0);
    assert_eq!(page_step(Some(24)), 23);
    assert_eq!(page_step(Some(0)), 0);
    assert_eq!(page_step(None), 0);
}

#[test]
fn dispatch_orders_handlers() {
    let mut app = App::new(three(), SkipStore::new()).unwrap();
    let scroll = Scroll { height: Some(11) };
    let ctrl_c = Event::Key(Key::Char('c'), Modifiers { ctrl: true, alt: false, shift: false, other: false });
    assert_eq!(dispatch(&mut app, &scroll, &ctrl_c), Tick::Exit);
    assert_eq!(dispatch(&mut app, &scroll, &plain(Key::PageDown)), Tick::Render);
    assert_eq!(app.scroll_offset(), 10);
    assert_eq!(dispatch(&mut app, &scroll, &Event::WheelUp), Tick::Render);
    assert_eq!(app.scroll_offset(), 7);
    assert_eq!(dispatch(&mut app, &scroll, &plain(Key::Tab)), Tick::Render);
    assert_eq!(app.view(), View::Active);
    assert_eq!(dispatch(&mut app, &scroll, &key('n')), Tick::Render);
    assert_eq!(app.cursor_of(View::Active), 1);
    assert_eq!(dispatch(&mut app, &scroll, &key('s')), Tick::Persist);
    assert_eq!(dispatch(&mut app, &scroll, &key('r')), Tick::Compose);
    assert_eq!(dispatch(&mut app, &scroll, &key('P')), Tick::Publish);
    assert_eq!(dispatch(&mut app, &scroll, &key('R')), Tick::Refresh);
    assert_eq!(dispatch(&mut app, &scroll, &key('x')), Tick::Noop);
    assert_eq!(dispatch(&mut app, &scroll, &key('q')), Tick::Exit);
    assert_eq!(dispatch(&mut app, &scroll, &key('c')), Tick::Noop);
}

#[test]
fn reply_target_is_first_comment() {
    let t = Thread::new(
        "t".to_string(),
        "a.rs".to_string(),
        false,
        vec![comment("c1", 11, "one", "2024-01-01T00:00:00Z"), comment("c2", 12, "two", "2024-01-02T00:00:00Z")],
    )
    .unwrap();
    let app = App::new(vec![t], SkipStore::new()).unwrap();
    assert_eq!(app.reply_target(), Some(11));
}
