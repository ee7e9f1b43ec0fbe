//! Message search: the access decision and the query that composes one
//! predicate per given filter, with its matching parameter list.
use vstd::prelude::*;
use crate::access::{admin_role, is_admin};
use crate::emoji::{trim_white_space, trimmed};
use crate::model::{Claims, SearchQuery};
use crate::pipeline::{owned, room_read_access, room_read_spec, ApiError};

verus! {

/// A value bound to one placeholder of a query.
#[derive(Debug, Clone)]
pub enum SqlParam {
    Text(String),
    Int(i64),
}

/// The mathematical value of a `SqlParam`.
pub enum ParamView {
    Text(Seq<char>),
    Int(int),
}

impl View for SqlParam {
    type V = ParamView;

    open spec fn view(&self) -> ParamView {
        match self {
            SqlParam::Text(s) => ParamView::Text(s@),
            SqlParam::Int(n) => ParamView::Int(*n as int),
        }
    }
}

/// The views of a parameter list.
pub open spec fn param_views(v: Seq<SqlParam>) -> Seq<ParamView> {
    v.map_values(|p: SqlParam| p@)
}

/// A search query: its text and the values of its placeholders, in order.
#[derive(Debug, Clone)]
pub struct SearchPlan {
    pub sql: String,
    pub params: Vec<SqlParam>,
}

pub const DEFAULT_SEARCH_LIMIT: i64 = 80;

pub const MAX_SEARCH_LIMIT: i64 = 200;

pub const SEARCH_SELECT: &'static str = "SELECT m.id, m.room_id, m.user_id, m.username, m.content, m.reply_to_id, m.created_at, m.image_url, m.pinned_at, m.pinned_by, u.avatar_url FROM messages m LEFT JOIN users u ON m.user_id = u.id LEFT JOIN rooms r ON m.room_id = r.id WHERE 1=1";

pub const ROLE_FILTER: &'static str = " AND (r.required_role = 'user' OR r.required_role = ?)";

pub const ROOM_FILTER: &'static str = " AND m.room_id = ?";

pub const CONTENT_FILTER: &'static str = " AND m.content LIKE ? ESCAPE '\\'";

pub const AUTHOR_FILTER: &'static str = " AND m.username LIKE ? ESCAPE '\\'";

pub const FROM_FILTER: &'static str = " AND m.created_at >= ?";

pub const TO_FILTER: &'static str = " AND m.created_at <= ?";

pub const SEARCH_ORDER: &'static str = " ORDER BY m.created_at DESC LIMIT ?";

pub const DAY_START: &'static str = "T00:00:00";

pub const DAY_END: &'static str = "T23:59:59";

/// The number of results a search returns at most: the requested limit, or
/// the default, clamped to `1..=MAX_SEARCH_LIMIT`.
pub open spec fn limit_spec(limit: Option<i64>) -> int {
    let n = match limit {
        Some(n) => n as int,
        None => DEFAULT_SEARCH_LIMIT as int,
    };
    if n < 1 {
        1
    } else if n > MAX_SEARCH_LIMIT {
        MAX_SEARCH_LIMIT as int
    } else {
        n
    }
}

/// A text filter applies when it is given and not blank.
pub open spec fn filled(o: Option<String>) -> bool {
    o matches Some(v) && trimmed(v@).len() > 0
}

/// The trimmed value of a given filter.
pub open spec fn filled_text(o: Option<String>) -> Seq<char> {
    trimmed(o.unwrap()@)
}

/// `piece` when `b` holds, nothing otherwise.
pub open spec fn piece_if(b: bool, piece: Seq<char>) -> Seq<char> {
    if b {
        piece
    } else {
        Seq::empty()
    }
}

/// `[p]` when `b` holds, nothing otherwise.
pub open spec fn param_if(b: bool, p: ParamView) -> Seq<ParamView> {
    if b {
        seq![p]
    } else {
        Seq::empty()
    }
}

/// A character that a LIKE pattern reads as a wildcard, or the escape
/// character itself.
pub open spec fn like_special(c: char) -> bool {
    c == '%' || c == '_' || c == '\\'
}

/// `c` as it stands in a LIKE pattern: preceded by the escape character when
/// it is special.
pub open spec fn escaped_char(c: char) -> Seq<char> {
    if like_special(c) {
        seq!['\\', c]
    } else {
        seq![c]
    }
}

/// `s` with every special character escaped, so that it matches only itself.
pub open spec fn escape_like(s: Seq<char>) -> Seq<char>
    decreases s.len(),
{
    if s.len() == 0 {
        Seq::empty()
    } else {
        escape_like(s.drop_last()) + escaped_char(s.last())
    }
}

/// A substring pattern: the escaped text between two `%` wildcards.
#[verifier::opaque]
pub open spec fn like_pattern(t: Seq<char>) -> Seq<char> {
    seq!['%'] + escape_like(t) + seq!['%']
}

/// The search query text for a caller whose role is `role`: the role filter
/// unless the caller is an administrator, then one predicate per given filter.
pub open spec fn search_sql(role: Seq<char>, q: SearchQuery) -> Seq<char> {
    SEARCH_SELECT@ + piece_if(role != admin_role(), ROLE_FILTER@) + piece_if(q.room_id is Some, ROOM_FILTER@)
        + piece_if(filled(q.q), CONTENT_FILTER@) + piece_if(filled(q.author), AUTHOR_FILTER@)
        + piece_if(filled(q.from), FROM_FILTER@) + piece_if(filled(q.to), TO_FILTER@) + SEARCH_ORDER@
}

/// The parameters of `search_sql(role, q)`, one per placeholder in order;
/// date bounds are widened to the whole day.
pub open spec fn search_params(role: Seq<char>, q: SearchQuery) -> Seq<ParamView> {
    param_if(role != admin_role(), ParamView::Text(role))
        + param_if(q.room_id is Some, ParamView::Text(q.room_id.unwrap()@))
        + param_if(filled(q.q), ParamView::Text(like_pattern(filled_text(q.q))))
        + param_if(filled(q.author), ParamView::Text(like_pattern(filled_text(q.author))))
        + param_if(filled(q.from), ParamView::Text(filled_text(q.from) + DAY_START@))
        + param_if(filled(q.to), ParamView::Text(filled_text(q.to) + DAY_END@))
        + seq![ParamView::Int(limit_spec(q.limit))]
}

/// The number of results to return for a requested limit.
pub fn search_limit(limit: Option<i64>) -> (r: i64)
    ensures
        r as int == limit_spec(limit),
        1 <= r <= MAX_SEARCH_LIMIT,
{
    let n = match limit {
        Some(n) => n,
        None => DEFAULT_SEARCH_LIMIT,
    };
    if n < 1 {
        1
    } else if n > MAX_SEARCH_LIMIT {
        MAX_SEARCH_LIMIT
    } else {
        n
    }
}

fn filled_value(o: &Option<String>) -> (r: Option<&str>)
    ensures
        r is Some <==> filled(*o),
        r matches Some(t) ==> t@ == filled_text(*o),
{
    match o {
        None => None,
        Some(v) => {
            let t = trim_white_space(v.as_str());
            if t.is_empty() {
                None
            } else {
                Some(t)
            }
        },
    }
}

fn like_param(t: &str) -> (r: SqlParam)
    ensures
        r@ == ParamView::Text(like_pattern(t@)),
{
    let mut s = String::from_str("%");
    proof {
        reveal_strlit("%");
        reveal_strlit("\\");
        assert(t@.take(0) =~= Seq::<char>::empty());
        assert(s@ =~= seq!['%'] + escape_like(t@.take(0)));
    }
    let n = t.unicode_len();
    let mut i: usize = 0;
    while i < n
        invariant
            n == t@.len(),
            i <= n,
            s@ == seq!['%'] + escape_like(t@.take(i as int)),
        decreases n - i,
    {
        let ghost before = s@;
        let c = t.get_char(i);
        if c == '%' || c == '_' || c == '\\' {
            s.append("\\");
            proof {
                reveal_strlit("\\");
                assert("\\"@ =~= seq!['\\']);
            }
        }
        proof {
            if like_special(c) {
                assert(s@ =~= before + seq!['\\']);
            } else {
                assert(s@ == before);
            }
        }
        let piece = t.substring_char(i, i + 1);
        s.append(piece);
        proof {
            assert(piece@ =~= seq![c]);
            assert(t@.take(i + 1).drop_last() =~= t@.take(i as int));
            assert(t@.take(i + 1).last() == c);
            assert(s@ =~= before + escaped_char(c));
            assert(s@ =~= seq!['%'] + escape_like(t@.take(i + 1)));
        }
        i = i + 1;
    }
    s.append("%");
    proof {
        assert(t@.take(n as int) =~= t@);
        reveal(like_pattern);
        assert(s@ =~= like_pattern(t@));
    }
    SqlParam::Text(s)
}

fn day_param(t: &str, bound: &str) -> (r: SqlParam)
    ensures
        r@ == ParamView::Text(t@ + bound@),
{
    let mut s = String::from_str(t);
    s.append(bound);
    SqlParam::Text(s)
}

/// The query of a search by a caller with role `role`.
#[verifier::rlimit(40)]
pub fn search_plan(role: &String, query: &SearchQuery) -> (r: SearchPlan)
    ensures
        r.sql@ == search_sql(role@, *query),
        param_views(r.params@) == search_params(role@, *query),
{
    let admin = is_admin(role.as_str());
    let mut sql = String::from_str(SEARCH_SELECT);
    let mut params: Vec<SqlParam> = Vec::new();
    let ghost q = *query;
    let ghost mut want_sql = SEARCH_SELECT@;
    let ghost mut want_params: Seq<ParamView> = Seq::empty();
    assert(param_views(params@) =~= want_params);

    if !admin {
        sql.append(ROLE_FILTER);
        params.push(SqlParam::Text(role.clone()));
    }
    proof {
        want_sql = want_sql + piece_if(!admin, ROLE_FILTER@);
        want_params = want_params + param_if(!admin, ParamView::Text(role@));
        assert(sql@ =~= want_sql);
        assert(param_views(params@) =~= want_params);
    }

    if let Some(room_id) = &query.room_id {
        sql.append(ROOM_FILTER);
        params.push(SqlParam::Text(room_id.clone()));
    }
    proof {
        want_sql = want_sql + piece_if(q.room_id is Some, ROOM_FILTER@);
        want_params = want_params + param_if(q.room_id is Some, ParamView::Text(q.room_id.unwrap()@));
        assert(sql@ =~= want_sql);
        assert(param_views(params@) =~= want_params);
    }

    let text = filled_value(&query.q);
    if let Some(t) = text {
        sql.append(CONTENT_FILTER);
        params.push(like_param(t));
    }
    proof {
        want_sql = want_sql + piece_if(filled(q.q), CONTENT_FILTER@);
        want_params = want_params + param_if(filled(q.q), ParamView::Text(like_pattern(filled_text(q.q))));
        assert(sql@ =~= want_sql);
        assert(param_views(params@) =~= want_params);
    }

    let author = filled_value(&query.author);
    if let Some(t) = author {
        sql.append(AUTHOR_FILTER);
        params.push(like_param(t));
    }
    proof {
        want_sql = want_sql + piece_if(filled(q.author), AUTHOR_FILTER@);
        want_params = want_params + param_if(
            filled(q.author),
            ParamView::Text(like_pattern(filled_text(q.author))),
        );
        assert(sql@ =~= want_sql);
        assert(param_views(params@) =~= want_params);
    }

    let from = filled_value(&query.from);
    if let Some(t) = from {
        sql.append(FROM_FILTER);
        params.push(day_param(t, DAY_START));
    }
    proof {
        want_sql = want_sql + piece_if(filled(q.from), FROM_FILTER@);
        want_params = want_params + param_if(filled(q.from), ParamView::Text(filled_text(q.from) + DAY_START@));
        assert(sql@ =~= want_sql);
        assert(param_views(params@) =~= want_params);
    }

    let to = filled_value(&query.to);
    if let Some(t) = to {
        sql.append(TO_FILTER);
        params.push(day_param(t, DAY_END));
    }
    proof {
        want_sql = want_sql + piece_if(filled(q.to), TO_FILTER@);
        want_params = want_params + param_if(filled(q.to), ParamView::Text(filled_text(q.to) + DAY_END@));
        assert(sql@ =~= want_sql);
        assert(param_views(params@) =~= want_params);
    }

    sql.append(SEARCH_ORDER);
    params.push(SqlParam::Int(search_limit(query.limit)));
    proof {
        assert(sql@ =~= want_sql + SEARCH_ORDER@);
        assert(param_views(params@) =~= want_params + seq![ParamView::Int(limit_spec(q.limit))]);
    }
    SearchPlan { sql, params }
}

/// The outcome of a search before it runs: `Unauthenticated` without claims;
/// when the search names a room, the room's read decision.
pub open spec fn search_access_spec(claims: Option<Claims>, query: SearchQuery, required_role: Option<String>) -> Result<(), ApiError> {
    match claims {
        None => Err(ApiError::Unauthenticated),
        Some(_) => if query.room_id is Some {
            room_read_spec(claims, required_role)
        } else {
            Ok(())
        },
    }
}

/// Decides whether a search may run, given the named room's required role
/// (`None` when the room does not exist; unused when no room is named).
pub fn search_access(claims: Option<&Claims>, query: &SearchQuery, required_role: Option<&String>) -> (r: Result<(), ApiError>)
    ensures
        r == search_access_spec(owned(claims), *query, owned(required_role)),
{
    match claims {
        None => Err(ApiError::Unauthenticated),
        Some(_) => if query.room_id.is_some() {
            room_read_access(claims, required_role)
        } else {
            Ok(())
        },
    }
}

} // verus!
