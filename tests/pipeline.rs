use voxium::queries::{history_query, message_by_id_query, pins_query};
use voxium::model::{Claims, Message};
use voxium::pipeline::{
    delete_committed, delete_outcome, pin_outcome, purge_outcome, reaction_target, reaction_updated, require_admin,
    unpin_outcome, upload_path, ApiError, Event, MessageRoom,
};

fn claims(sub: &str, role: &str) -> Claims {
    Claims { sub: sub.to_string(), role: role.to_string() }
}

fn message_by(id: &str, author: &str, image: Option<&str>) -> Message {
    Message {
        id: id.to_string(),
        room_id: "general".to_string(),
        user_id: author.to_string(),
        username: author.to_string(),
        content: "hi".to_string(),
        reply_to_id: None,
        created_at: "2024-01-01T10:00:00".to_string(),
        image_url: image.map(|s| s.to_string()),
        pinned_at: None,
        pinned_by: None,
        avatar_url: None,
        reactions: Vec::new(),
    }
}

fn s(v: &str) -> String {
    v.to_string()
}

#[test]
fn deleting_anothers_message_needs_admin() {
    let msg = message_by("m1", "userB", Some("/uploads/pic.png"));
    let a = claims("userA", "member");
    let denied = delete_outcome(Some(&a), &s("m1"), Some(&msg));
    assert_eq!(denied.unwrap_err().status(), 403);

    let admin = claims("userA", "admin");
    let plan = delete_outcome(Some(&admin), &s("m1"), Some(&msg)).unwrap();
    assert_eq!(plan.image_path, Some(s("uploads/pic.png")));
    match plan.event {
        Event::MessageDeleted { id, room_id } => {
            assert_eq!(id, "m1");
            assert_eq!(room_id, "general");
        }
        other => panic!("unexpected event {:?}", other),
    }
}

#[test]
fn owner_deletes_own_message_without_image() {
    let msg = message_by("m2", "userA", None);
    let a = claims("userA", "member");
    let plan = delete_outcome(Some(&a), &s("m2"), Some(&msg)).unwrap();
    assert_eq!(plan.image_path, None);
}

#[test]
fn delete_errors() {
    let a = claims("userA", "member");
    let msg = message_by("m2", "userA", None);
    assert_eq!(delete_outcome(None, &s("m2"), Some(&msg)).unwrap_err(), ApiError::Unauthenticated);
    assert_eq!(delete_outcome(Some(&a), &s("m2"), None).unwrap_err(), ApiError::NotFound);
}

#[test]
fn upload_path_drops_leading_slashes() {
    assert_eq!(upload_path("//uploads/a.png"), "uploads/a.png");
    assert_eq!(upload_path("uploads/a.png"), "uploads/a.png");
    assert_eq!(upload_path("/"), "");
}

#[test]
fn pin_then_unpin_announces_the_room() {
    let admin = claims("boss", "admin");
    let room = s("general");
    let pinned = pin_outcome(Some(&admin), &s("m1"), Some(&room), &s("2024-05-01T00:00:00+00:00"), true).unwrap();
    match pinned {
        Event::MessagePinned { id, room_id, pinned_at, pinned_by } => {
            assert_eq!(id, "m1");
            assert_eq!(room_id, "general");
            assert_eq!(pinned_at, "2024-05-01T00:00:00+00:00");
            assert_eq!(pinned_by, "boss");
        }
        other => panic!("unexpected event {:?}", other),
    }
    let unpinned = unpin_outcome(Some(&admin), &s("m1"), Some(&room), true).unwrap();
    match unpinned {
        Event::MessageUnpinned { id, room_id } => {
            assert_eq!(id, "m1");
            assert_eq!(room_id, "general");
        }
        other => panic!("unexpected event {:?}", other),
    }
}

#[test]
fn pin_errors() {
    let admin = claims("boss", "admin");
    let member = claims("u", "member");
    let room = s("general");
    let now = s("t");
    assert_eq!(pin_outcome(None, &s("m1"), Some(&room), &now, true).unwrap_err(), ApiError::Unauthenticated);
    assert_eq!(pin_outcome(Some(&member), &s("m1"), Some(&room), &now, true).unwrap_err(), ApiError::Forbidden);
    assert_eq!(pin_outcome(Some(&admin), &s("m1"), None, &now, true).unwrap_err(), ApiError::NotFound);
    assert_eq!(pin_outcome(Some(&admin), &s("m1"), Some(&room), &now, false).unwrap_err(), ApiError::InternalFailure);
    assert_eq!(unpin_outcome(Some(&member), &s("m1"), Some(&room), true).unwrap_err(), ApiError::Forbidden);
    assert_eq!(unpin_outcome(Some(&admin), &s("m1"), None, true).unwrap_err(), ApiError::NotFound);
    assert_eq!(unpin_outcome(Some(&admin), &s("m1"), Some(&room), false).unwrap_err(), ApiError::InternalFailure);
}

#[test]
fn purge_reports_the_removed_count() {
    let admin = claims("boss", "admin");
    match purge_outcome(Some(&admin), &s("spammer"), Some(7)).unwrap() {
        Event::MessagesPurged { user_id, count } => {
            assert_eq!(user_id, "spammer");
            assert_eq!(count, 7);
        }
        other => panic!("unexpected event {:?}", other),
    }
    assert_eq!(purge_outcome(Some(&admin), &s("spammer"), None).unwrap_err(), ApiError::InternalFailure);
    assert_eq!(purge_outcome(Some(&claims("x", "vip")), &s("spammer"), Some(1)).unwrap_err(), ApiError::Forbidden);
    assert_eq!(require_admin(None), Err(ApiError::Unauthenticated));
}

#[test]
fn reaction_target_checks_in_order() {
    let member = claims("u", "member");
    let vip_room = MessageRoom { room_id: s("lounge"), required_role: Some(s("vip")) };
    let open_room = MessageRoom { room_id: s("general"), required_role: Some(s("user")) };
    let no_room_id = MessageRoom { room_id: s(""), required_role: Some(s("user")) };
    let missing_room_row = MessageRoom { room_id: s("gone"), required_role: None };
    assert_eq!(reaction_target(None, "😀", Some(&open_room)).unwrap_err(), ApiError::Unauthenticated);
    assert_eq!(reaction_target(Some(&member), "a b", Some(&vip_room)).unwrap_err(), ApiError::InvalidInput);
    assert_eq!(reaction_target(Some(&member), "😀", Some(&vip_room)).unwrap_err(), ApiError::Forbidden);
    assert_eq!(reaction_target(Some(&member), "😀", None).unwrap_err(), ApiError::NotFound);
    assert_eq!(reaction_target(Some(&member), "😀", Some(&no_room_id)).unwrap_err(), ApiError::NotFound);
    assert_eq!(reaction_target(Some(&member), "😀", Some(&missing_room_row)).unwrap_err(), ApiError::NotFound);
    let t = reaction_target(Some(&member), " 😀 ", Some(&open_room)).unwrap();
    assert_eq!(t.room_id, "general");
    assert_eq!(t.emoji, "😀");
    let admin = claims("boss", "admin");
    assert!(reaction_target(Some(&admin), "😀", Some(&vip_room)).is_ok());
}

#[test]
fn reaction_event_counts_users() {
    let member = claims("u", "member");
    let open_room = MessageRoom { room_id: s("general"), required_role: Some(s("user")) };
    let t = reaction_target(Some(&member), "👍", Some(&open_room)).unwrap();
    match reaction_updated(t, &s("m9"), vec![s("a"), s("u")]) {
        Event::MessageReactionUpdated { room_id, message_id, emoji, count, user_ids } => {
            assert_eq!(room_id, "general");
            assert_eq!(message_id, "m9");
            assert_eq!(emoji, "👍");
            assert_eq!(count, 2);
            assert_eq!(user_ids, vec![s("a"), s("u")]);
        }
        other => panic!("unexpected event {:?}", other),
    }
}

#[test]
fn failed_delete_writes_send_no_event() {
    let msg = message_by("m3", "userA", None);
    let a = claims("userA", "member");
    let plan = delete_outcome(Some(&a), &s("m3"), Some(&msg)).unwrap();
    assert_eq!(delete_committed(plan.clone(), false).unwrap_err(), ApiError::InternalFailure);
    match delete_committed(plan, true).unwrap() {
        Event::MessageDeleted { id, room_id } => {
            assert_eq!(id, "m3");
            assert_eq!(room_id, "general");
        }
        other => panic!("unexpected event {:?}", other),
    }
}

#[test]
fn history_and_pin_queries() {
    assert!(history_query().ends_with(" WHERE m.room_id = ? ORDER BY m.created_at ASC LIMIT 200"));
    assert!(history_query().starts_with("SELECT m.id, m.room_id"));
    assert!(pins_query().ends_with(" WHERE m.room_id = ? AND m.pinned_at IS NOT NULL ORDER BY m.pinned_at DESC LIMIT 50"));
    assert!(message_by_id_query().ends_with("LEFT JOIN users u ON m.user_id = u.id WHERE m.id = ?"));
}
