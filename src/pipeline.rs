//! The decisions of the mutation pipeline: given the caller's claims and what
//! was looked up in the store, which error to answer or which write and event
//! to make. The caller performs the lookups, writes and broadcasts.
use vstd::prelude::*;
use crate::access::{admin_role, can_access, is_admin, spec_can_access};
use crate::emoji::{emoji_ok, normalize_emoji, trimmed};
use crate::model::{Claims, Message};

verus! {

/// The failures of an operation, each with its HTTP status.
#[derive(Debug, Clone, Copy, PartialEq, Eq, Structural)]
pub enum ApiError {
    Unauthenticated,
    Forbidden,
    NotFound,
    InvalidInput,
    InternalFailure,
}

impl ApiError {
    /// The HTTP status that answers this failure.
    pub fn status(&self) -> (r: u16)
        ensures
            r == match *self {
                ApiError::Unauthenticated => 401u16,
                ApiError::Forbidden => 403u16,
                ApiError::NotFound => 404u16,
                ApiError::InvalidInput => 400u16,
                ApiError::InternalFailure => 500u16,
            },
    {
        match self {
            ApiError::Unauthenticated => 401,
            ApiError::Forbidden => 403,
            ApiError::NotFound => 404,
            ApiError::InvalidInput => 400,
            ApiError::InternalFailure => 500,
        }
    }
}

/// A committed change, as broadcast to every live connection.
#[derive(Debug, Clone)]
pub enum Event {
    MessageDeleted { id: String, room_id: String },
    MessageReactionUpdated {
        room_id: String,
        message_id: String,
        emoji: String,
        count: usize,
        user_ids: Vec<String>,
    },
    MessagePinned { id: String, room_id: String, pinned_at: String, pinned_by: String },
    MessageUnpinned { id: String, room_id: String },
    MessagesPurged { user_id: String, count: u64 },
}

/// What deleting a message takes: the uploaded file to remove, if any, and
/// the event to broadcast once the rows are gone.
#[derive(Debug, Clone)]
pub struct DeletePlan {
    pub image_path: Option<String>,
    pub event: Event,
}

/// The room of a message, as joined from the store: `required_role` is
/// `None` when no room row matches the message's `room_id`.
#[derive(Debug, Clone)]
pub struct MessageRoom {
    pub room_id: String,
    pub required_role: Option<String>,
}

/// A validated reaction: the room it happens in and the normalized emoji.
#[derive(Debug, Clone)]
pub struct ReactionTarget {
    pub room_id: String,
    pub emoji: String,
}

/// The value behind an optional reference.
pub open spec fn owned<T>(o: Option<&T>) -> Option<T> {
    match o {
        Some(x) => Some(*x),
        None => None,
    }
}

/// The outcome of reading a room's messages, pins or search results:
/// `Unauthenticated` without claims, `NotFound` when the room does not exist
/// (`required_role` is `None`), `Forbidden` when the caller's role may not
/// access it.
pub open spec fn room_read_spec(claims: Option<Claims>, required_role: Option<String>) -> Result<(), ApiError> {
    match claims {
        None => Err(ApiError::Unauthenticated),
        Some(c) => match required_role {
            None => Err(ApiError::NotFound),
            Some(r) => if spec_can_access(c.role@, r@) {
                Ok(())
            } else {
                Err(ApiError::Forbidden)
            },
        },
    }
}

/// Decides a read of a room's messages from the caller's claims and the
/// room's required role, `None` when the room does not exist.
pub fn room_read_access(claims: Option<&Claims>, required_role: Option<&String>) -> (r: Result<(), ApiError>)
    ensures
        r == room_read_spec(owned(claims), owned(required_role)),
{
    match claims {
        None => Err(ApiError::Unauthenticated),
        Some(c) => match required_role {
            None => Err(ApiError::NotFound),
            Some(req) => if can_access(c.role.as_str(), req.as_str()) {
                Ok(())
            } else {
                Err(ApiError::Forbidden)
            },
        },
    }
}

/// Admin-only operations: `Unauthenticated` without claims, `Forbidden` for
/// any role but the administrator's.
pub open spec fn admin_spec(claims: Option<Claims>) -> Result<(), ApiError> {
    match claims {
        None => Err(ApiError::Unauthenticated),
        Some(c) => if c.role@ == admin_role() {
            Ok(())
        } else {
            Err(ApiError::Forbidden)
        },
    }
}

/// Decides whether the caller may pin, unpin or purge at all.
pub fn require_admin(claims: Option<&Claims>) -> (r: Result<(), ApiError>)
    ensures
        r == admin_spec(owned(claims)),
{
    match claims {
        None => Err(ApiError::Unauthenticated),
        Some(c) => if is_admin(c.role.as_str()) {
            Ok(())
        } else {
            Err(ApiError::Forbidden)
        },
    }
}

/// `s` without its leading slashes.
pub open spec fn strip_slashes(s: Seq<char>) -> Seq<char>
    decreases s.len(),
{
    if s.len() > 0 && s[0] == '/' {
        strip_slashes(s.drop_first())
    } else {
        s
    }
}

/// The local path of an uploaded file from its public URL: the URL without
/// its leading slashes.
pub fn upload_path(url: &str) -> (r: String)
    ensures
        r@ == strip_slashes(url@),
{
    let n = url.unicode_len();
    let mut i: usize = 0;
    assert(url@.skip(0) =~= url@);
    while i < n && url.get_char(i) == '/'
        invariant
            n == url@.len(),
            i <= n,
            strip_slashes(url@) == strip_slashes(url@.skip(i as int)),
        decreases n - i,
    {
        assert(url@.skip(i as int).drop_first() =~= url@.skip(i + 1));
        i = i + 1;
    }
    let rest = url.substring_char(i, n);
    assert(rest@ =~= url@.skip(i as int));
    String::from_str(rest)
}

/// The outcome of deleting `message_id`: `Unauthenticated` without claims,
/// `NotFound` when the message does not exist, `Forbidden` unless the caller
/// wrote it or is an administrator.
pub open spec fn delete_spec(claims: Option<Claims>, message: Option<Message>) -> Result<(), ApiError> {
    match claims {
        None => Err(ApiError::Unauthenticated),
        Some(c) => match message {
            None => Err(ApiError::NotFound),
            Some(m) => if m.user_id@ == c.sub@ || c.role@ == admin_role() {
                Ok(())
            } else {
                Err(ApiError::Forbidden)
            },
        },
    }
}

/// Decides the deletion of `message_id`, given the stored message if any.
/// When allowed, the plan removes the message's uploaded image and, once
/// `delete_committed` confirms the writes, announces `message_deleted` with
/// the message's room.
pub fn delete_outcome(claims: Option<&Claims>, message_id: &String, message: Option<&Message>) -> (r: Result<DeletePlan, ApiError>)
    ensures
        r is Ok <==> delete_spec(owned(claims), owned(message)) is Ok,
        r matches Err(e) ==> delete_spec(owned(claims), owned(message)) == Err::<(), ApiError>(e),
        r matches Ok(plan) ==> {
            let m = *message.unwrap();
            &&& plan.image_path is Some <==> m.image_url is Some
            &&& plan.image_path matches Some(p) ==> p@ == strip_slashes(m.image_url.unwrap()@)
            &&& plan.event matches Event::MessageDeleted { id, room_id }
                && id@ == message_id@ && room_id@ == m.room_id@
        },
{
    let c = match claims {
        None => return Err(ApiError::Unauthenticated),
        Some(c) => c,
    };
    let m = match message {
        None => return Err(ApiError::NotFound),
        Some(m) => m,
    };
    if !(m.user_id == c.sub) && !is_admin(c.role.as_str()) {
        return Err(ApiError::Forbidden);
    }
    let image_path = match &m.image_url {
        Some(url) => Some(upload_path(url.as_str())),
        None => None,
    };
    Ok(DeletePlan {
        image_path,
        event: Event::MessageDeleted { id: message_id.clone(), room_id: m.room_id.clone() },
    })
}

/// Finishes a deletion once the message's reaction edges and row were
/// deleted: the planned event when both writes succeeded, `InternalFailure`
/// and no event otherwise.
pub fn delete_committed(plan: DeletePlan, written: bool) -> (r: Result<Event, ApiError>)
    ensures
        written ==> r == Ok::<Event, ApiError>(plan.event),
        !written ==> r == Err::<Event, ApiError>(ApiError::InternalFailure),
{
    if written {
        Ok(plan.event)
    } else {
        Err(ApiError::InternalFailure)
    }
}

/// The outcome of a reaction request before its write: `Unauthenticated`
/// without claims, `InvalidInput` for an unacceptable emoji, `NotFound` when
/// the message or its room does not exist, `Forbidden` when the caller's role
/// may not access the room.
pub open spec fn reaction_spec(claims: Option<Claims>, raw_emoji: Seq<char>, room: Option<MessageRoom>) -> Result<(), ApiError> {
    match claims {
        None => Err(ApiError::Unauthenticated),
        Some(c) => if !emoji_ok(trimmed(raw_emoji)) {
            Err(ApiError::InvalidInput)
        } else {
            match room {
                None => Err(ApiError::NotFound),
                Some(rm) => if rm.room_id@.len() == 0 {
                    Err(ApiError::NotFound)
                } else {
                    match rm.required_role {
                        None => Err(ApiError::NotFound),
                        Some(req) => if spec_can_access(c.role@, req@) {
                            Ok(())
                        } else {
                            Err(ApiError::Forbidden)
                        },
                    }
                },
            }
        },
    }
}

/// Decides a reaction add or removal, given the message's joined room
/// (`None` when the message does not exist). On success it names the room and
/// the normalized emoji that the write and the event use.
pub fn reaction_target(claims: Option<&Claims>, raw_emoji: &str, room: Option<&MessageRoom>) -> (r: Result<ReactionTarget, ApiError>)
    ensures
        r is Ok <==> reaction_spec(owned(claims), raw_emoji@, owned(room)) is Ok,
        r matches Err(e) ==> reaction_spec(owned(claims), raw_emoji@, owned(room)) == Err::<(), ApiError>(e),
        r matches Ok(t) ==> t.room_id@ == (*room.unwrap()).room_id@ && t.emoji@ == trimmed(raw_emoji@),
{
    let c = match claims {
        None => return Err(ApiError::Unauthenticated),
        Some(c) => c,
    };
    let emoji = match normalize_emoji(raw_emoji) {
        None => return Err(ApiError::InvalidInput),
        Some(e) => e,
    };
    let rm = match room {
        None => return Err(ApiError::NotFound),
        Some(rm) => rm,
    };
    if rm.room_id.as_str().is_empty() {
        return Err(ApiError::NotFound);
    }
    let req = match &rm.required_role {
        None => return Err(ApiError::NotFound),
        Some(req) => req,
    };
    if !can_access(c.role.as_str(), req.as_str()) {
        return Err(ApiError::Forbidden);
    }
    Ok(ReactionTarget { room_id: rm.room_id.clone(), emoji })
}

/// The event after a reaction write: the users who now react with the emoji,
/// in the order the store returned them, and their number.
pub fn reaction_updated(target: ReactionTarget, message_id: &String, user_ids: Vec<String>) -> (r: Event)
    ensures
        r matches Event::MessageReactionUpdated { room_id, message_id: mid, emoji, count, user_ids: us }
            && room_id == target.room_id && mid@ == message_id@ && emoji == target.emoji
            && count == user_ids@.len() && us == user_ids,
{
    let count = user_ids.len();
    Event::MessageReactionUpdated {
        room_id: target.room_id,
        message_id: message_id.clone(),
        emoji: target.emoji,
        count,
        user_ids,
    }
}

/// The outcome of a pin or unpin, once the message's room was looked up
/// (`None` when the message does not exist) and, if it was, the row written.
pub open spec fn pin_spec(claims: Option<Claims>, room_id: Option<String>, written: bool) -> Result<(), ApiError> {
    match admin_spec(claims) {
        Err(e) => Err(e),
        Ok(_) => match room_id {
            None => Err(ApiError::NotFound),
            Some(_) => if written {
                Ok(())
            } else {
                Err(ApiError::InternalFailure)
            },
        },
    }
}

/// Decides a pin of `message_id` at time `pinned_at`: on success the event
/// names the message, its room, the time and the pinning administrator.
pub fn pin_outcome(
    claims: Option<&Claims>,
    message_id: &String,
    room_id: Option<&String>,
    pinned_at: &String,
    written: bool,
) -> (r: Result<Event, ApiError>)
    ensures
        r is Ok <==> pin_spec(owned(claims), owned(room_id), written) is Ok,
        r matches Err(e) ==> pin_spec(owned(claims), owned(room_id), written) == Err::<(), ApiError>(e),
        r matches Ok(ev) ==> ev matches Event::MessagePinned { id, room_id: rid, pinned_at: at, pinned_by: by }
            && id@ == message_id@ && rid@ == (*room_id.unwrap())@ && at@ == pinned_at@
            && by@ == (*claims.unwrap()).sub@,
{
    require_admin(claims)?;
    let c = claims.unwrap();
    let rid = match room_id {
        None => return Err(ApiError::NotFound),
        Some(rid) => rid,
    };
    if !written {
        return Err(ApiError::InternalFailure);
    }
    Ok(Event::MessagePinned {
        id: message_id.clone(),
        room_id: rid.clone(),
        pinned_at: pinned_at.clone(),
        pinned_by: c.sub.clone(),
    })
}

/// Decides an unpin of `message_id`: on success the event names the message
/// and its room.
pub fn unpin_outcome(claims: Option<&Claims>, message_id: &String, room_id: Option<&String>, written: bool) -> (r: Result<Event, ApiError>)
    ensures
        r is Ok <==> pin_spec(owned(claims), owned(room_id), written) is Ok,
        r matches Err(e) ==> pin_spec(owned(claims), owned(room_id), written) == Err::<(), ApiError>(e),
        r matches Ok(ev) ==> ev matches Event::MessageUnpinned { id, room_id: rid } && id@ == message_id@
            && rid@ == (*room_id.unwrap())@,
{
    require_admin(claims)?;
    let rid = match room_id {
        None => return Err(ApiError::NotFound),
        Some(rid) => rid,
    };
    if !written {
        return Err(ApiError::InternalFailure);
    }
    Ok(Event::MessageUnpinned { id: message_id.clone(), room_id: rid.clone() })
}

/// The outcome of purging a user's messages, once the delete ran: `deleted`
/// is the number of removed rows, `None` when the write failed.
pub open spec fn purge_spec(claims: Option<Claims>, deleted: Option<u64>) -> Result<(), ApiError> {
    match admin_spec(claims) {
        Err(e) => Err(e),
        Ok(_) => match deleted {
            None => Err(ApiError::InternalFailure),
            Some(_) => Ok(()),
        },
    }
}

/// Decides a purge of all messages of `user_id`: on success the event names
/// the user and the number of removed messages.
pub fn purge_outcome(claims: Option<&Claims>, user_id: &String, deleted: Option<u64>) -> (r: Result<Event, ApiError>)
    ensures
        r is Ok <==> purge_spec(owned(claims), deleted) is Ok,
        r matches Err(e) ==> purge_spec(owned(claims), deleted) == Err::<(), ApiError>(e),
        r matches Ok(ev) ==> ev matches Event::MessagesPurged { user_id: u, count } && u@ == user_id@
            && Some(count) == deleted,
{
    require_admin(claims)?;
    match deleted {
        None => Err(ApiError::InternalFailure),
        Some(n) => Ok(Event::MessagesPurged { user_id: user_id.clone(), count: n }),
    }
}

} // verus!
