//! The texts of the store reads and writes around messages; each `?` is bound
//! by the caller to the value that the accompanying doc comment names.
use vstd::prelude::*;

verus! {

/// The columns of a message, joined with its author's avatar.
pub const MESSAGE_SELECT: &'static str = "SELECT m.id, m.room_id, m.user_id, m.username, m.content, m.reply_to_id, m.created_at, m.image_url, m.pinned_at, m.pinned_by, u.avatar_url FROM messages m LEFT JOIN users u ON m.user_id = u.id";

/// A room's history (`?` = room id): oldest first, at most 200 messages.
pub const HISTORY_FILTER: &'static str = " WHERE m.room_id = ? ORDER BY m.created_at ASC LIMIT 200";

/// A room's pinned messages (`?` = room id): only pinned ones, most recently
/// pinned first, at most 50.
pub const PINS_FILTER: &'static str = " WHERE m.room_id = ? AND m.pinned_at IS NOT NULL ORDER BY m.pinned_at DESC LIMIT 50";

/// One message (`?` = message id).
pub const BY_ID_FILTER: &'static str = " WHERE m.id = ?";

/// Removes the reaction edges of every message of a user (`?` = user id).
pub const PURGE_REACTIONS: &'static str = "DELETE FROM message_reactions WHERE message_id IN (SELECT id FROM messages WHERE user_id = ?)";

/// Removes every message of a user (`?` = user id).
pub const PURGE_MESSAGES: &'static str = "DELETE FROM messages WHERE user_id = ?";

/// Removes the reaction edges of one message (`?` = message id).
pub const DELETE_REACTIONS: &'static str = "DELETE FROM message_reactions WHERE message_id = ?";

/// Removes one message (`?` = message id).
pub const DELETE_MESSAGE: &'static str = "DELETE FROM messages WHERE id = ?";

/// Pins one message (`?`s = pin time, pinning user id, message id).
pub const PIN_MESSAGE: &'static str = "UPDATE messages SET pinned_at = ?, pinned_by = ? WHERE id = ?";

/// Unpins one message, clearing both its pin time and pinning user
/// (`?` = message id).
pub const UNPIN_MESSAGE: &'static str = "UPDATE messages SET pinned_at = NULL, pinned_by = NULL WHERE id = ?";

fn message_query(filter: &str) -> (r: String)
    ensures
        r@ == MESSAGE_SELECT@ + filter@,
{
    let mut q = String::from_str(MESSAGE_SELECT);
    q.append(filter);
    q
}

/// The read of a room's history: oldest first, at most 200 messages.
pub fn history_query() -> (r: String)
    ensures
        r@ == MESSAGE_SELECT@ + HISTORY_FILTER@,
{
    message_query(HISTORY_FILTER)
}

/// The read of a room's pins: pinned messages only, newest pin first, at
/// most 50.
pub fn pins_query() -> (r: String)
    ensures
        r@ == MESSAGE_SELECT@ + PINS_FILTER@,
{
    message_query(PINS_FILTER)
}

/// The read of one message by id.
pub fn message_by_id_query() -> (r: String)
    ensures
        r@ == MESSAGE_SELECT@ + BY_ID_FILTER@,
{
    message_query(BY_ID_FILTER)
}

} // verus!
