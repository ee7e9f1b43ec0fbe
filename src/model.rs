//! The values that the chat core reads, computes and hands out.
use vstd::prelude::*;

verus! {

/// One emoji on one message: who reacted with it, and how many they are.
#[derive(Debug, Clone)]
pub struct MessageReaction {
    pub emoji: String,
    pub count: i64,
    pub user_ids: Vec<String>,
}

/// The mathematical value of a `MessageReaction`.
pub struct ReactionView {
    pub emoji: Seq<char>,
    pub count: int,
    pub user_ids: Seq<Seq<char>>,
}

/// The characters of each string of a list.
pub open spec fn texts(v: Seq<String>) -> Seq<Seq<char>> {
    v.map_values(|s: String| s@)
}

impl View for MessageReaction {
    type V = ReactionView;

    open spec fn view(&self) -> ReactionView {
        ReactionView { emoji: self.emoji@, count: self.count as int, user_ids: texts(self.user_ids@) }
    }
}

/// The views of a list of reaction summaries.
pub open spec fn reaction_views(v: Seq<MessageReaction>) -> Seq<ReactionView> {
    v.map_values(|r: MessageReaction| r@)
}

/// A chat message as clients see it; `reactions` is computed on each read.
#[derive(Debug, Clone)]
pub struct Message {
    pub id: String,
    pub room_id: String,
    pub user_id: String,
    pub username: String,
    pub content: String,
    pub reply_to_id: Option<String>,
    pub created_at: String,
    pub image_url: Option<String>,
    pub pinned_at: Option<String>,
    pub pinned_by: Option<String>,
    pub avatar_url: Option<String>,
    pub reactions: Vec<MessageReaction>,
}

/// `a` and `b` are the same message, whatever their reaction lists.
pub open spec fn same_but_reactions(a: Message, b: Message) -> bool {
    &&& a.id == b.id
    &&& a.room_id == b.room_id
    &&& a.user_id == b.user_id
    &&& a.username == b.username
    &&& a.content == b.content
    &&& a.reply_to_id == b.reply_to_id
    &&& a.created_at == b.created_at
    &&& a.image_url == b.image_url
    &&& a.pinned_at == b.pinned_at
    &&& a.pinned_by == b.pinned_by
    &&& a.avatar_url == b.avatar_url
}

/// The filters of a message search; absent or blank text filters are ignored.
#[derive(Debug, Clone)]
pub struct SearchQuery {
    pub q: Option<String>,
    pub author: Option<String>,
    pub room_id: Option<String>,
    pub from: Option<String>,
    pub to: Option<String>,
    pub limit: Option<i64>,
}

/// The body of a reaction request.
#[derive(Debug, Clone)]
pub struct ReactionInput {
    pub emoji: String,
}

/// The identity of the caller, already checked by the credential verifier.
#[derive(Debug, Clone)]
pub struct Claims {
    pub sub: String,
    pub role: String,
}

/// One stored reaction edge, as a row read back from the store.
#[derive(Debug, Clone)]
pub struct ReactionRow {
    pub message_id: String,
    pub emoji: String,
    pub user_id: String,
}

/// A reaction edge as (message id, emoji, user id).
pub type EdgeView = (Seq<char>, Seq<char>, Seq<char>);

impl View for ReactionRow {
    type V = EdgeView;

    open spec fn view(&self) -> EdgeView {
        (self.message_id@, self.emoji@, self.user_id@)
    }
}

/// The edges of a list of rows.
pub open spec fn edge_views(v: Seq<ReactionRow>) -> Seq<EdgeView> {
    v.map_values(|r: ReactionRow| r@)
}

} // verus!
