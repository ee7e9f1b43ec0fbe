use voxium::access::{can_access, text_eq};
use voxium::emoji::normalize_emoji;
use voxium::model::Claims;
use voxium::pipeline::{room_read_access, ApiError};

fn claims(sub: &str, role: &str) -> Claims {
    Claims { sub: sub.to_string(), role: role.to_string() }
}

#[test]
fn open_rooms_admit_every_role() {
    assert!(can_access("member", "user"));
    assert!(can_access("", "user"));
    assert!(can_access("vip", "user"));
}

#[test]
fn restricted_rooms_admit_admins_and_matching_roles_only() {
    assert!(can_access("admin", "vip"));
    assert!(can_access("vip", "vip"));
    assert!(!can_access("member", "vip"));
    assert!(!can_access("user", "vip"));
    assert!(!can_access("Admin", "vip"));
}

#[test]
fn text_eq_compares_characters() {
    assert!(text_eq("😀", "😀"));
    assert!(!text_eq("abc", "abd"));
    assert!(!text_eq("ab", "abc"));
    assert!(text_eq("", ""));
}

#[test]
fn member_reading_vip_room_is_forbidden_and_open_room_allowed() {
    let c = claims("u1", "member");
    let vip = "vip".to_string();
    let open = "user".to_string();
    let denied = room_read_access(Some(&c), Some(&vip));
    assert_eq!(denied, Err(ApiError::Forbidden));
    assert_eq!(ApiError::Forbidden.status(), 403);
    assert_eq!(room_read_access(Some(&c), Some(&open)), Ok(()));
}

#[test]
fn room_reads_without_claims_or_room() {
    let c = claims("u1", "member");
    let open = "user".to_string();
    assert_eq!(room_read_access(None, Some(&open)), Err(ApiError::Unauthenticated));
    assert_eq!(room_read_access(Some(&c), None), Err(ApiError::NotFound));
    assert_eq!(ApiError::Unauthenticated.status(), 401);
    assert_eq!(ApiError::NotFound.status(), 404);
    assert_eq!(ApiError::InvalidInput.status(), 400);
    assert_eq!(ApiError::InternalFailure.status(), 500);
}

#[test]
fn emoji_of_sixteen_characters_is_accepted() {
    let raw = "a".repeat(16);
    assert_eq!(normalize_emoji(&raw), Some(raw.clone()));
}

#[test]
fn emoji_of_seventeen_characters_is_rejected() {
    let raw = "a".repeat(17);
    assert_eq!(normalize_emoji(&raw), None);
    let wide = "😀".repeat(17);
    assert_eq!(normalize_emoji(&wide), None);
    let wide16 = "😀".repeat(16);
    assert_eq!(normalize_emoji(&wide16), Some(wide16.clone()));
}

#[test]
fn emoji_with_inner_space_is_rejected() {
    assert_eq!(normalize_emoji("😀 😂"), None);
    assert_eq!(normalize_emoji("a\u{3000}b"), None);
}

#[test]
fn emoji_is_trimmed() {
    assert_eq!(normalize_emoji("  😀\n"), Some("😀".to_string()));
    let padded = format!(" {} ", "b".repeat(16));
    assert_eq!(normalize_emoji(&padded), Some("b".repeat(16)));
}

#[test]
fn blank_emoji_is_rejected() {
    assert_eq!(normalize_emoji(""), None);
    assert_eq!(normalize_emoji("   \t"), None);
}

#[test]
fn emoji_with_control_character_is_rejected() {
    assert_eq!(normalize_emoji("a\u{7}"), None);
    assert_eq!(normalize_emoji("\u{9c}x"), None);
}
