use voxium::model::{Message, MessageReaction, ReactionRow};
use voxium::reactions::{enrich_messages_with_reactions, reaction_query, summarize_reactions, text_less};

fn row(m: &str, e: &str, u: &str) -> ReactionRow {
    ReactionRow { message_id: m.to_string(), emoji: e.to_string(), user_id: u.to_string() }
}

fn message(id: &str) -> Message {
    Message {
        id: id.to_string(),
        room_id: "general".to_string(),
        user_id: "author".to_string(),
        username: "Author".to_string(),
        content: "hello".to_string(),
        reply_to_id: None,
        created_at: "2024-01-01T10:00:00".to_string(),
        image_url: None,
        pinned_at: None,
        pinned_by: None,
        avatar_url: None,
        reactions: Vec::new(),
    }
}

fn shape(s: &[MessageReaction]) -> Vec<(String, i64, Vec<String>)> {
    s.iter().map(|r| (r.emoji.clone(), r.count, r.user_ids.clone())).collect()
}

fn users(v: &[&str]) -> Vec<String> {
    v.iter().map(|s| s.to_string()).collect()
}

#[test]
fn ties_on_count_break_by_emoji() {
    let rows = vec![
        row("m", "👍", "a"),
        row("m", "😂", "a"),
        row("m", "😂", "b"),
        row("m", "😀", "c"),
        row("m", "😂", "c"),
        row("m", "😀", "a"),
        row("m", "😀", "b"),
    ];
    let s = summarize_reactions(&rows, &"m".to_string());
    assert_eq!(
        shape(&s),
        vec![
            ("😀".to_string(), 3, users(&["c", "a", "b"])),
            ("😂".to_string(), 3, users(&["a", "b", "c"])),
            ("👍".to_string(), 1, users(&["a"])),
        ]
    );
}

#[test]
fn more_users_rank_first() {
    let rows = vec![row("m", "a", "x"), row("m", "b", "x"), row("m", "b", "y")];
    let s = summarize_reactions(&rows, &"m".to_string());
    assert_eq!(shape(&s), vec![("b".to_string(), 2, users(&["x", "y"])), ("a".to_string(), 1, users(&["x"]))]);
}

#[test]
fn adding_the_same_reaction_twice_counts_once() {
    let once = vec![row("m", "😀", "a")];
    let twice = vec![row("m", "😀", "a"), row("m", "😀", "a")];
    let m = "m".to_string();
    assert_eq!(shape(&summarize_reactions(&once, &m)), shape(&summarize_reactions(&twice, &m)));
    assert_eq!(summarize_reactions(&twice, &m)[0].count, 1);
}

#[test]
fn add_then_remove_leaves_no_entry() {
    let mut rows = vec![row("m", "👍", "b")];
    rows.push(row("m", "😀", "a"));
    rows.retain(|r| !(r.message_id == "m" && r.emoji == "😀" && r.user_id == "a"));
    let s = summarize_reactions(&rows, &"m".to_string());
    assert_eq!(shape(&s), vec![("👍".to_string(), 1, users(&["b"]))]);
}

#[test]
fn fifty_distinct_users_all_counted() {
    let rows: Vec<ReactionRow> = (0..50).map(|i| row("m", "🎉", &format!("user{}", i))).collect();
    let s = summarize_reactions(&rows, &"m".to_string());
    assert_eq!(s.len(), 1);
    assert_eq!(s[0].count, 50);
    assert_eq!(s[0].user_ids.len(), 50);
    assert_eq!(s[0].user_ids[49], "user49");
}

#[test]
fn malformed_rows_are_skipped() {
    let rows = vec![row("m", "", "a"), row("m", "😀", ""), row("", "😀", "a"), row("m", "😀", "b")];
    let s = summarize_reactions(&rows, &"m".to_string());
    assert_eq!(shape(&s), vec![("😀".to_string(), 1, users(&["b"]))]);
}

#[test]
fn other_messages_rows_are_ignored() {
    let rows = vec![row("n", "😀", "a")];
    assert!(summarize_reactions(&rows, &"m".to_string()).is_empty());
}

#[test]
fn enrich_sets_each_message_summary() {
    let mut messages = vec![message("m1"), message("m2"), message("m3")];
    let rows = vec![row("m1", "😀", "a"), row("m3", "👍", "b"), row("m3", "👍", "c"), row("m3", "😀", "b")];
    enrich_messages_with_reactions(&mut messages, &rows);
    assert_eq!(messages.len(), 3);
    assert_eq!(messages[1].id, "m2");
    assert_eq!(shape(&messages[0].reactions), vec![("😀".to_string(), 1, users(&["a"]))]);
    assert!(messages[1].reactions.is_empty());
    assert_eq!(
        shape(&messages[2].reactions),
        vec![("👍".to_string(), 2, users(&["b", "c"])), ("😀".to_string(), 1, users(&["b"]))]
    );
    assert_eq!(messages[2].content, "hello");
}

#[test]
fn reaction_query_has_one_placeholder_per_message() {
    assert_eq!(
        reaction_query(3),
        "SELECT message_id, emoji, user_id FROM message_reactions WHERE message_id IN (?,?,?)"
    );
    assert!(reaction_query(1).ends_with("IN (?)"));
}

#[test]
fn text_less_is_lexicographic() {
    assert!(text_less("😀", "😂"));
    assert!(!text_less("😂", "😀"));
    assert!(text_less("ab", "abc"));
    assert!(!text_less("abc", "abc"));
    assert!(text_less("", "a"));
    assert!(text_less("B", "a"));
}
