use pending_opens::{resolve_locators, take_pending_opens, OpenListener, PendingOpens};
use url::Url;

fn strings(items: &[&str]) -> Vec<String> {
    items.iter().map(|s| s.to_string()).collect()
}

fn urls(items: &[&str]) -> Vec<Url> {
    items.iter().map(|s| Url::parse(s).unwrap()).collect()
}

#[test]
fn drain_command_startup_race() {
    let mut pending = PendingOpens::new();
    let notice = OpenListener::Native.on_opened(
        &mut pending,
        &urls(&["file:///docs/a.txt", "file:///docs/b.txt"]),
    );
    // Nobody listens yet: the announcement is lost, the buffer keeps the paths.
    assert_eq!(notice, Some(strings(&["/docs/a.txt", "/docs/b.txt"])));
    assert_eq!(take_pending_opens(&mut pending), strings(&["/docs/a.txt", "/docs/b.txt"]));
    assert_eq!(take_pending_opens(&mut pending), Vec::<String>::new());
}

#[test]
fn drain_command_web_locator() {
    let mut pending = PendingOpens::new();
    let notice = OpenListener::Native.on_opened(&mut pending, &urls(&["https://example.com/page"]));
    assert_eq!(notice, None);
    assert_eq!(take_pending_opens(&mut pending), Vec::<String>::new());
}

#[test]
fn drain_command_after_live_consumer() {
    let mut pending = PendingOpens::new();
    let notice = OpenListener::Native.accept_resolved(&mut pending, &vec![Some("c.txt".to_string())]);
    // A consumer acting on the announcement does not consume the entry.
    assert_eq!(notice, Some(strings(&["c.txt"])));
    assert_eq!(take_pending_opens(&mut pending), strings(&["c.txt"]));
    assert_eq!(take_pending_opens(&mut pending), Vec::<String>::new());
}

#[test]
fn append_before_drain_is_seen_whole() {
    let mut pending = PendingOpens::new();
    pending.append(strings(&["x"]));
    assert_eq!(take_pending_opens(&mut pending), strings(&["x"]));
    assert_eq!(take_pending_opens(&mut pending), Vec::<String>::new());
}

#[test]
fn append_after_drain_waits_for_next_drain() {
    let mut pending = PendingOpens::new();
    assert_eq!(take_pending_opens(&mut pending), Vec::<String>::new());
    pending.append(strings(&["x"]));
    assert_eq!(take_pending_opens(&mut pending), strings(&["x"]));
    assert_eq!(take_pending_opens(&mut pending), Vec::<String>::new());
}

#[test]
fn history_hands_each_path_out_once() {
    let mut pending = PendingOpens::new();
    let mut handed_out: Vec<String> = Vec::new();
    pending.append(strings(&["a"]));
    handed_out.extend(take_pending_opens(&mut pending));
    pending.append(strings(&["b", "c"]));
    pending.append(strings(&["d"]));
    handed_out.extend(take_pending_opens(&mut pending));
    handed_out.extend(take_pending_opens(&mut pending));
    pending.append(strings(&["e"]));
    handed_out.extend(pending.drain());
    assert_eq!(handed_out, strings(&["a", "b", "c", "d", "e"]));
}

#[test]
fn resolve_locators_one_result_each() {
    let resolved = resolve_locators(&urls(&[
        "file:///tmp/one.txt",
        "https://example.com/two",
        "file:///tmp/with%20space.txt",
    ]));
    assert_eq!(
        resolved,
        vec![
            Some("/tmp/one.txt".to_string()),
            None,
            Some("/tmp/with space.txt".to_string()),
        ]
    );
}

#[test]
fn resolved_then_accepted_like_on_opened() {
    let locators = urls(&["file:///srv/a.txt", "mailto:someone@example.com"]);
    let mut pending = PendingOpens::new();
    let resolved = resolve_locators(&locators);
    let notice = OpenListener::Native.accept_resolved(&mut pending, &resolved);
    assert_eq!(notice, Some(strings(&["/srv/a.txt"])));
    assert_eq!(take_pending_opens(&mut pending), strings(&["/srv/a.txt"]));
}
