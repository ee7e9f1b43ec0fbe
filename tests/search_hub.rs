use voxium::hub::BroadcastHub;
use voxium::model::{Claims, SearchQuery};
use voxium::presence::PresenceRegistry;
use voxium::search::{search_access, search_limit, search_plan, SqlParam};
use voxium::pipeline::ApiError;

fn query() -> SearchQuery {
    SearchQuery { q: None, author: None, room_id: None, from: None, to: None, limit: None }
}

fn texts(p: &[SqlParam]) -> Vec<String> {
    p.iter()
        .map(|x| match x {
            SqlParam::Text(s) => s.clone(),
            SqlParam::Int(n) => format!("#{}", n),
        })
        .collect()
}

const SELECT: &str = "SELECT m.id, m.room_id, m.user_id, m.username, m.content, m.reply_to_id, m.created_at, m.image_url, m.pinned_at, m.pinned_by, u.avatar_url FROM messages m LEFT JOIN users u ON m.user_id = u.id LEFT JOIN rooms r ON m.room_id = r.id WHERE 1=1";

#[test]
fn admin_search_without_filters() {
    let plan = search_plan(&"admin".to_string(), &query());
    assert_eq!(plan.sql, format!("{} ORDER BY m.created_at DESC LIMIT ?", SELECT));
    assert_eq!(texts(&plan.params), vec!["#80".to_string()]);
}

#[test]
fn member_search_with_every_filter() {
    let mut q = query();
    q.q = Some(" hello ".to_string());
    q.author = Some("bob".to_string());
    q.room_id = Some("general".to_string());
    q.from = Some("2024-01-01".to_string());
    q.to = Some(" 2024-01-31".to_string());
    q.limit = Some(10);
    let plan = search_plan(&"member".to_string(), &q);
    assert_eq!(
        plan.sql,
        format!(
            "{} AND (r.required_role = 'user' OR r.required_role = ?) AND m.room_id = ? AND m.content LIKE ? ESCAPE '\\' AND m.username LIKE ? ESCAPE '\\' AND m.created_at >= ? AND m.created_at <= ? ORDER BY m.created_at DESC LIMIT ?",
            SELECT
        )
    );
    assert_eq!(
        texts(&plan.params),
        vec!["member", "general", "%hello%", "%bob%", "2024-01-01T00:00:00", "2024-01-31T23:59:59", "#10"]
    );
}

#[test]
fn blank_filters_are_ignored() {
    let mut q = query();
    q.q = Some("   ".to_string());
    q.author = Some("".to_string());
    q.to = Some("2024-02-02".to_string());
    let plan = search_plan(&"admin".to_string(), &q);
    assert_eq!(plan.sql, format!("{} AND m.created_at <= ? ORDER BY m.created_at DESC LIMIT ?", SELECT));
    assert_eq!(texts(&plan.params), vec!["2024-02-02T23:59:59", "#80"]);
}

#[test]
fn search_limit_is_clamped() {
    assert_eq!(search_limit(None), 80);
    assert_eq!(search_limit(Some(0)), 1);
    assert_eq!(search_limit(Some(-5)), 1);
    assert_eq!(search_limit(Some(500)), 200);
    assert_eq!(search_limit(Some(200)), 200);
    assert_eq!(search_limit(Some(1)), 1);
}

#[test]
fn search_access_checks_named_room_only() {
    let member = Claims { sub: "u".to_string(), role: "member".to_string() };
    let mut q = query();
    assert_eq!(search_access(Some(&member), &q, None), Ok(()));
    assert_eq!(search_access(None, &q, None), Err(ApiError::Unauthenticated));
    q.room_id = Some("lounge".to_string());
    assert_eq!(search_access(Some(&member), &q, None), Err(ApiError::NotFound));
    assert_eq!(search_access(Some(&member), &q, Some(&"vip".to_string())), Err(ApiError::Forbidden));
    assert_eq!(search_access(Some(&member), &q, Some(&"member".to_string())), Ok(()));
}

#[test]
fn hub_delivers_to_every_connection_in_order() {
    let mut hub = BroadcastHub::new(4);
    let a = hub.register().unwrap();
    let b = hub.register().unwrap();
    assert_eq!(a, 0);
    assert_eq!(b, 1);
    hub.broadcast(&"one".to_string());
    hub.broadcast(&"two".to_string());
    assert_eq!(hub.drain(a), vec!["one".to_string(), "two".to_string()]);
    assert!(hub.drain(a).is_empty());
    hub.broadcast(&"three".to_string());
    assert_eq!(hub.drain(b), vec!["one".to_string(), "two".to_string(), "three".to_string()]);
    hub.unregister(a);
    assert!(hub.drain(a).is_empty());
}

#[test]
fn hub_drops_a_full_connection() {
    let mut hub = BroadcastHub::new(2);
    let slow = hub.register().unwrap();
    let fast = hub.register().unwrap();
    hub.broadcast(&"1".to_string());
    hub.broadcast(&"2".to_string());
    assert_eq!(hub.drain(fast).len(), 2);
    hub.broadcast(&"3".to_string());
    assert!(!hub.is_registered(slow));
    assert!(hub.is_registered(fast));
    assert!(hub.drain(slow).is_empty());
    assert_eq!(hub.drain(fast), vec!["3".to_string()]);
}

#[test]
fn presence_tracks_connected_users() {
    let mut reg = PresenceRegistry::new();
    reg.register(1, "alice".to_string());
    reg.register(2, "bob".to_string());
    reg.register(3, "alice".to_string());
    let mut online = reg.online_users();
    online.sort();
    assert_eq!(online, vec!["alice".to_string(), "bob".to_string()]);
    reg.unregister(2);
    assert_eq!(reg.online_users(), vec!["alice".to_string()]);
    reg.register(1, "carol".to_string());
    let mut online = reg.online_users();
    online.sort();
    assert_eq!(online, vec!["alice".to_string(), "carol".to_string()]);
    reg.unregister(1);
    reg.unregister(3);
    assert!(reg.online_users().is_empty());
}

#[test]
fn like_wildcards_in_filters_are_escaped() {
    let mut q = query();
    q.q = Some(" 50%_off\\ ".to_string());
    q.author = Some("a_b".to_string());
    let plan = search_plan(&"admin".to_string(), &q);
    assert_eq!(texts(&plan.params), vec!["%50\\%\\_off\\\\%", "%a\\_b%", "#80"]);
    assert!(plan.sql.contains("m.content LIKE ? ESCAPE '\\'"));
}
