//! The reaction aggregator: turns stored reaction edges into the sorted
//! per-message summaries that every read of messages returns.
use vstd::prelude::*;
use crate::model::{
    edge_views, reaction_views, same_but_reactions, texts, EdgeView, Message, MessageReaction,
    ReactionRow, ReactionView,
};

verus! {

/// An edge with an empty message id, emoji or user id is malformed and skipped.
pub open spec fn edge_usable(r: EdgeView) -> bool {
    r.0.len() > 0 && r.1.len() > 0 && r.2.len() > 0
}

/// The users who reacted to message `m` with emoji `e`, each once, in the
/// order of their first usable edge.
pub open spec fn users_of(rows: Seq<EdgeView>, m: Seq<char>, e: Seq<char>) -> Seq<Seq<char>>
    decreases rows.len(),
{
    if rows.len() == 0 {
        Seq::empty()
    } else {
        let prev = users_of(rows.drop_last(), m, e);
        let r = rows.last();
        if edge_usable(r) && r.0 == m && r.1 == e && !prev.contains(r.2) {
            prev.push(r.2)
        } else {
            prev
        }
    }
}

/// Lexicographic order of strings, character by character.
pub open spec fn text_lt(a: Seq<char>, b: Seq<char>) -> bool
    decreases a.len(),
{
    if a.len() == 0 {
        b.len() > 0
    } else if b.len() == 0 {
        false
    } else if a[0] != b[0] {
        (a[0] as int) < (b[0] as int)
    } else {
        text_lt(a.drop_first(), b.drop_first())
    }
}

/// `a` comes before `b` in a summary list: more users first, then the smaller emoji.
pub open spec fn ranks_before(a: ReactionView, b: ReactionView) -> bool {
    a.count > b.count || (a.count == b.count && text_lt(a.emoji, b.emoji))
}

/// Every entry comes before every later entry.
pub open spec fn ranked(s: Seq<ReactionView>) -> bool {
    forall|i: int, j: int| 0 <= i < j < s.len() ==> ranks_before(#[trigger] s[i], #[trigger] s[j])
}

/// The entry for emoji `v.emoji` on message `m` lists exactly its users.
pub open spec fn entry_of(rows: Seq<EdgeView>, m: Seq<char>, v: ReactionView) -> bool {
    &&& v.user_ids == users_of(rows, m, v.emoji)
    &&& v.count == v.user_ids.len()
    &&& v.user_ids.len() > 0
}

/// `s` is the reaction summary of message `m`: one entry per emoji that some
/// user reacted with, each with its users and their number, ranked.
pub open spec fn is_summary_of(rows: Seq<EdgeView>, m: Seq<char>, s: Seq<ReactionView>) -> bool {
    &&& forall|i: int| 0 <= i < s.len() ==> entry_of(rows, m, #[trigger] s[i])
    &&& forall|e: Seq<char>| #[trigger] users_of(rows, m, e).len() > 0
            ==> exists|i: int| 0 <= i < s.len() && (#[trigger] s[i]).emoji == e
    &&& ranked(s)
}

proof fn lemma_users_of_len(rows: Seq<EdgeView>, m: Seq<char>, e: Seq<char>)
    ensures
        users_of(rows, m, e).len() <= rows.len(),
    decreases rows.len(),
{
    if rows.len() > 0 {
        lemma_users_of_len(rows.drop_last(), m, e);
    }
}

proof fn lemma_text_lt_total(a: Seq<char>, b: Seq<char>)
    requires
        a != b,
    ensures
        text_lt(a, b) || text_lt(b, a),
    decreases a.len(),
{
    if a.len() == 0 {
        assert(b.len() > 0) by {
            if b.len() == 0 {
                assert(a =~= b);
            }
        }
    } else if b.len() == 0 {
    } else if a[0] != b[0] {
    } else {
        if a.drop_first() == b.drop_first() {
            assert(a =~= b) by {
                assert(a.drop_first().len() == b.drop_first().len());
                assert forall|i: int| 0 <= i < a.len() implies a[i] == b[i] by {
                    if i > 0 {
                        assert(a[i] == a.drop_first()[i - 1]);
                        assert(b[i] == b.drop_first()[i - 1]);
                    }
                }
            }
        }
        lemma_text_lt_total(a.drop_first(), b.drop_first());
    }
}

proof fn lemma_text_lt_asym(a: Seq<char>, b: Seq<char>)
    ensures
        !(text_lt(a, b) && text_lt(b, a)),
    decreases a.len(),
{
    if a.len() > 0 && b.len() > 0 && a[0] == b[0] {
        lemma_text_lt_asym(a.drop_first(), b.drop_first());
    }
}

proof fn lemma_text_lt_trans(a: Seq<char>, b: Seq<char>, c: Seq<char>)
    requires
        text_lt(a, b),
        text_lt(b, c),
    ensures
        text_lt(a, c),
    decreases a.len(),
{
    if a.len() > 0 && b.len() > 0 && c.len() > 0 && a[0] == b[0] && b[0] == c[0] {
        lemma_text_lt_trans(a.drop_first(), b.drop_first(), c.drop_first());
    }
}

proof fn lemma_ranks_total(a: ReactionView, b: ReactionView)
    requires
        a.emoji != b.emoji,
    ensures
        ranks_before(a, b) || ranks_before(b, a),
        !(ranks_before(a, b) && ranks_before(b, a)),
{
    lemma_text_lt_total(a.emoji, b.emoji);
    lemma_text_lt_asym(a.emoji, b.emoji);
}

proof fn lemma_ranks_trans(a: ReactionView, b: ReactionView, c: ReactionView)
    requires
        ranks_before(a, b),
        ranks_before(b, c),
    ensures
        ranks_before(a, c),
{
    if a.count == b.count && b.count == c.count {
        lemma_text_lt_trans(a.emoji, b.emoji, c.emoji);
    }
}

/// Lexicographic comparison of two strings, character by character.
pub fn text_less(a: &str, b: &str) -> (r: bool)
    ensures
        r == text_lt(a@, b@),
{
    let na = a.unicode_len();
    let nb = b.unicode_len();
    let mut i: usize = 0;
    assert(a@.skip(0) =~= a@);
    assert(b@.skip(0) =~= b@);
    while i < na && i < nb
        invariant
            na == a@.len(),
            nb == b@.len(),
            i <= na,
            i <= nb,
            text_lt(a@, b@) == text_lt(a@.skip(i as int), b@.skip(i as int)),
        decreases na - i,
    {
        let ca = a.get_char(i);
        let cb = b.get_char(i);
        assert(a@.skip(i as int)[0] == ca);
        assert(b@.skip(i as int)[0] == cb);
        if ca != cb {
            return ca < cb;
        }
        assert(a@.skip(i as int).drop_first() =~= a@.skip(i + 1));
        assert(b@.skip(i as int).drop_first() =~= b@.skip(i + 1));
        i = i + 1;
    }
    assert(a@.skip(i as int).len() == na - i);
    assert(b@.skip(i as int).len() == nb - i);
    i == na && i < nb
}

fn ranks_first(a: &MessageReaction, b: &MessageReaction) -> (r: bool)
    ensures
        r == ranks_before(a@, b@),
{
    a.count > b.count || (a.count == b.count && text_less(a.emoji.as_str(), b.emoji.as_str()))
}

/// Puts `g` into the ranked list `out`, keeping it ranked.
fn insert_ranked(out: &mut Vec<MessageReaction>, g: MessageReaction)
    requires
        ranked(reaction_views(old(out)@)),
        forall|i: int| 0 <= i < old(out)@.len() ==> (#[trigger] old(out)@[i]).emoji@ != g.emoji@,
    ensures
        ranked(reaction_views(final(out)@)),
        exists|p: int| 0 <= p <= old(out)@.len() && final(out)@ == old(out)@.insert(p, g),
{
    let ghost s = reaction_views(out@);
    let mut p: usize = 0;
    while p < out.len() && !ranks_first(&g, &out[p])
        invariant
            p <= out@.len(),
            s == reaction_views(out@),
            forall|i: int| 0 <= i < p ==> ranks_before(s[i], g@),
            forall|i: int| 0 <= i < out@.len() ==> (#[trigger] out@[i]).emoji@ != g.emoji@,
        decreases out@.len() - p,
    {
        proof {
            lemma_ranks_total(out@[p as int]@, g@);
        }
        p = p + 1;
    }
    let ghost before = out@;
    out.insert(p, g);
    proof {
        let t = reaction_views(out@);
        assert(t =~= s.insert(p as int, g@));
        assert forall|i: int, j: int| 0 <= i < j < t.len() implies ranks_before(
            #[trigger] t[i],
            #[trigger] t[j],
        ) by {
            if j < p {
            } else if i < p && j == p {
            } else if i < p {
                assert(ranks_before(s[i], s[j - 1]));
            } else if i == p {
                assert(ranks_before(g@, s[p as int]));
                if j - 1 > p {
                    lemma_ranks_trans(g@, s[p as int], s[j - 1]);
                }
            } else {
                assert(ranks_before(s[i - 1], s[j - 1]));
            }
        }
    }
}

pub(crate) fn has_text(v: &Vec<String>, s: &String) -> (r: bool)
    ensures
        r == texts(v@).contains(s@),
{
    let mut i: usize = 0;
    while i < v.len()
        invariant
            i <= v@.len(),
            forall|k: int| 0 <= k < i ==> (#[trigger] v@[k])@ != s@,
        decreases v@.len() - i,
    {
        if v[i] == *s {
            proof {
                assert(texts(v@)[i as int] == s@);
            }
            return true;
        }
        i = i + 1;
    }
    proof {
        if texts(v@).contains(s@) {
            let k = choose|k: int| 0 <= k < texts(v@).len() && texts(v@)[k] == s@;
            assert(v@[k]@ == s@);
        }
    }
    false
}

fn find_emoji(groups: &Vec<MessageReaction>, e: &String) -> (r: Option<usize>)
    ensures
        r matches Some(j) ==> j < groups@.len() && groups@[j as int].emoji@ == e@,
        r is None ==> forall|j: int| 0 <= j < groups@.len() ==> (#[trigger] groups@[j]).emoji@ != e@,
{
    let mut i: usize = 0;
    while i < groups.len()
        invariant
            i <= groups@.len(),
            forall|j: int| 0 <= j < i ==> (#[trigger] groups@[j]).emoji@ != e@,
        decreases groups@.len() - i,
    {
        if groups[i].emoji == *e {
            return Some(i);
        }
        i = i + 1;
    }
    None
}

/// The reaction summary of message `message_id` from the stored edges `rows`:
/// malformed and repeated edges are skipped, one entry per emoji, ranked by
/// number of users (most first), then by emoji.
pub fn summarize_reactions(rows: &Vec<ReactionRow>, message_id: &String) -> (r: Vec<MessageReaction>)
    requires
        rows@.len() <= i64::MAX,
    ensures
        is_summary_of(edge_views(rows@), message_id@, reaction_views(r@)),
{
    let ghost all = edge_views(rows@);
    let ghost m = message_id@;
    let mut groups: Vec<MessageReaction> = Vec::new();
    let mut k: usize = 0;
    while k < rows.len()
        invariant
            k <= rows@.len(),
            all == edge_views(rows@),
            m == message_id@,
            forall|j: int|
                0 <= j < groups@.len() ==> texts((#[trigger] groups@[j]).user_ids@) == users_of(
                    all.take(k as int),
                    m,
                    groups@[j].emoji@,
                ) && groups@[j].user_ids@.len() > 0,
            forall|j1: int, j2: int|
                0 <= j1 < j2 < groups@.len() ==> (#[trigger] groups@[j1]).emoji@ != (
                #[trigger] groups@[j2]).emoji@,
            forall|e: Seq<char>|
                #[trigger] users_of(all.take(k as int), m, e).len() > 0 ==> exists|j: int|
                    0 <= j < groups@.len() && (#[trigger] groups@[j]).emoji@ == e,
        decreases rows@.len() - k,
    {
        let row = &rows[k];
        let ghost pre = all.take(k as int);
        let ghost cur = all.take(k + 1);
        let ghost old_groups = groups@;
        let ghost mut at: int = -1;
        proof {
            assert(cur.drop_last() =~= pre);
            assert(cur.last() == row@);
        }
        if !row.message_id.as_str().is_empty() && !row.emoji.as_str().is_empty()
            && !row.user_id.as_str().is_empty() && row.message_id == *message_id {
            match find_emoji(&groups, &row.emoji) {
                Some(j) => {
                    proof {
                        at = j as int;
                    }
                    if !has_text(&groups[j].user_ids, &row.user_id) {
                        let mut g = groups.remove(j);
                        let ghost old_users = g.user_ids@;
                        g.user_ids.push(row.user_id.clone());
                        proof {
                            assert(texts(g.user_ids@) =~= texts(old_users).push(row.user_id@));
                        }
                        groups.insert(j, g);
                        proof {
                            assert(groups@ =~= old_groups.update(j as int, g));
                        }
                    }
                },
                None => {
                    let g = MessageReaction {
                        emoji: row.emoji.clone(),
                        count: 0,
                        user_ids: vec![row.user_id.clone()],
                    };
                    proof {
                        assert(texts(g.user_ids@) =~= Seq::<Seq<char>>::empty().push(row.user_id@));
                        assert(users_of(pre, m, row.emoji@).len() == 0);
                    }
                    groups.push(g);
                    proof {
                        at = groups@.len() - 1;
                    }
                },
            }
        }
        proof {
            assert forall|e: Seq<char>| #[trigger] users_of(cur, m, e).len() > 0 implies exists|j: int|
                0 <= j < groups@.len() && (#[trigger] groups@[j]).emoji@ == e by {
                if users_of(pre, m, e).len() > 0 {
                    let j = choose|j: int| 0 <= j < old_groups.len() && old_groups[j].emoji@ == e;
                    assert(groups@[j].emoji@ == e);
                } else {
                    assert(e == row.emoji@);
                    assert(groups@[at].emoji@ == e);
                }
            }
        }
        k = k + 1;
    }
    proof {
        assert(all.take(rows@.len() as int) =~= all);
    }
    let mut out: Vec<MessageReaction> = Vec::new();
    while groups.len() > 0
        invariant
            all == edge_views(rows@),
            m == message_id@,
            rows@.len() <= i64::MAX,
            forall|j: int|
                0 <= j < groups@.len() ==> texts((#[trigger] groups@[j]).user_ids@) == users_of(
                    all,
                    m,
                    groups@[j].emoji@,
                ) && groups@[j].user_ids@.len() > 0,
            forall|j1: int, j2: int|
                0 <= j1 < j2 < groups@.len() ==> (#[trigger] groups@[j1]).emoji@ != (
                #[trigger] groups@[j2]).emoji@,
            forall|j: int, i: int|
                0 <= j < groups@.len() && 0 <= i < out@.len() ==> (#[trigger] groups@[j]).emoji@
                    != (#[trigger] out@[i]).emoji@,
            ranked(reaction_views(out@)),
            forall|i: int| 0 <= i < out@.len() ==> entry_of(all, m, (#[trigger] out@[i])@),
            forall|e: Seq<char>|
                #[trigger] users_of(all, m, e).len() > 0 ==> (exists|j: int|
                    0 <= j < groups@.len() && (#[trigger] groups@[j]).emoji@ == e) || (exists|i: int|
                    0 <= i < out@.len() && (#[trigger] out@[i]).emoji@ == e),
        decreases groups@.len(),
    {
        let ghost old_groups = groups@;
        let ghost old_out = out@;
        let mut g = groups.pop().unwrap();
        proof {
            assert(old_groups[old_groups.len() - 1].emoji@ == g.emoji@);
            lemma_users_of_len(all, m, g.emoji@);
            assert(groups@ =~= old_groups.drop_last());
        }
        g.count = g.user_ids.len() as i64;
        assert(entry_of(all, m, g@));
        insert_ranked(&mut out, g);
        proof {
            let p = choose|p: int| 0 <= p <= old_out.len() && out@ == old_out.insert(p, g);
            assert forall|i: int| 0 <= i < out@.len() implies entry_of(all, m, (#[trigger] out@[i])@) by {
                if i < p {
                    assert(out@[i] == old_out[i]);
                } else if i > p {
                    assert(out@[i] == old_out[i - 1]);
                }
            }
            assert forall|j: int, i: int|
                0 <= j < groups@.len() && 0 <= i < out@.len() implies (#[trigger] groups@[j]).emoji@
                    != (#[trigger] out@[i]).emoji@ by {
                assert(groups@[j] == old_groups[j]);
                if i < p {
                    assert(out@[i] == old_out[i]);
                } else if i > p {
                    assert(out@[i] == old_out[i - 1]);
                } else {
                    assert(old_groups[old_groups.len() - 1].emoji@ == g.emoji@);
                }
            }
            assert forall|e: Seq<char>| #[trigger] users_of(all, m, e).len() > 0 implies (exists|j: int|
                0 <= j < groups@.len() && (#[trigger] groups@[j]).emoji@ == e) || (exists|i: int|
                0 <= i < out@.len() && (#[trigger] out@[i]).emoji@ == e) by {
                if exists|j: int| 0 <= j < old_groups.len() && (#[trigger] old_groups[j]).emoji@ == e {
                    let j = choose|j: int| 0 <= j < old_groups.len() && (#[trigger] old_groups[j]).emoji@ == e;
                    if j == old_groups.len() - 1 {
                        assert(out@[p].emoji@ == e);
                    } else {
                        assert(groups@[j].emoji@ == e);
                    }
                } else {
                    let i = choose|i: int| 0 <= i < old_out.len() && (#[trigger] old_out[i]).emoji@ == e;
                    if i < p {
                        assert(out@[i].emoji@ == e);
                    } else {
                        assert(out@[i + 1].emoji@ == e);
                    }
                }
            }
        }
    }
    proof {
        let s = reaction_views(out@);
        assert forall|i: int| 0 <= i < s.len() implies entry_of(all, m, #[trigger] s[i]) by {
            assert(s[i] == out@[i]@);
        }
        assert forall|e: Seq<char>| #[trigger] users_of(all, m, e).len() > 0 implies exists|i: int|
            0 <= i < s.len() && (#[trigger] s[i]).emoji == e by {
            let i = choose|i: int| 0 <= i < out@.len() && (#[trigger] out@[i]).emoji@ == e;
            assert(s[i].emoji == e);
        }
    }
    out
}

/// Sets the reaction summary of each message from the edges `rows`; every
/// other field of every message is kept, and a message without edges gets an
/// empty list.
pub fn enrich_messages_with_reactions(messages: &mut Vec<Message>, rows: &Vec<ReactionRow>)
    requires
        rows@.len() <= i64::MAX,
    ensures
        final(messages)@.len() == old(messages)@.len(),
        forall|i: int|
            0 <= i < old(messages)@.len() ==> same_but_reactions(
                #[trigger] final(messages)@[i],
                old(messages)@[i],
            ) && is_summary_of(
                edge_views(rows@),
                old(messages)@[i].id@,
                reaction_views(final(messages)@[i].reactions@),
            ),
{
    let ghost start = messages@;
    let mut i: usize = 0;
    while i < messages.len()
        invariant
            rows@.len() <= i64::MAX,
            messages@.len() == start.len(),
            i <= start.len(),
            forall|k: int| i <= k < start.len() ==> #[trigger] messages@[k] == start[k],
            forall|k: int|
                0 <= k < i ==> same_but_reactions(#[trigger] messages@[k], start[k])
                    && is_summary_of(
                    edge_views(rows@),
                    start[k].id@,
                    reaction_views(messages@[k].reactions@),
                ),
        decreases start.len() - i,
    {
        let mut msg = messages.remove(i);
        msg.reactions = summarize_reactions(rows, &msg.id);
        messages.insert(i, msg);
        i = i + 1;
    }
}

/// The text of the batched read of all reaction edges of `n` messages, with
/// one `?` placeholder per message id.
pub fn reaction_query(n: usize) -> (r: String)
    requires
        n > 0,
    ensures
        r@ == REACTION_QUERY_HEAD@ + placeholders(n as nat) + seq![')'],
{
    let mut q = String::from_str(REACTION_QUERY_HEAD);
    let ghost head = q@;
    let mut i: usize = 0;
    while i < n
        invariant
            i <= n,
            q@ == head + placeholders(i as nat),
            head == REACTION_QUERY_HEAD@,
        decreases n - i,
    {
        if i > 0 {
            q.append(",");
        }
        q.append("?");
        proof {
            reveal_strlit(",");
            reveal_strlit("?");
            if i > 0 {
                assert(placeholders((i + 1) as nat) =~= placeholders(i as nat) + seq![',', '?']);
            } else {
                assert(placeholders(1) =~= seq!['?']);
            }
        }
        i = i + 1;
    }
    q.append(")");
    proof {
        reveal_strlit(")");
    }
    q
}

/// The fixed start of the batched read of reaction edges.
pub const REACTION_QUERY_HEAD: &'static str =
    "SELECT message_id, emoji, user_id FROM message_reactions WHERE message_id IN (";

/// `n` placeholders separated by commas.
pub open spec fn placeholders(n: nat) -> Seq<char>
    decreases n,
{
    if n == 0 {
        Seq::empty()
    } else if n == 1 {
        seq!['?']
    } else {
        placeholders((n - 1) as nat) + seq![',', '?']
    }
}

/// The stored edges after removing every copy of edge `r`.
pub open spec fn without_edge(rows: Seq<EdgeView>, r: EdgeView) -> Seq<EdgeView>
    decreases rows.len(),
{
    if rows.len() == 0 {
        rows
    } else if rows.last() == r {
        without_edge(rows.drop_last(), r)
    } else {
        without_edge(rows.drop_last(), r).push(rows.last())
    }
}

/// One edge per user of `us`, all on message `m` with emoji `e`.
pub open spec fn edges_for(m: Seq<char>, e: Seq<char>, us: Seq<Seq<char>>) -> Seq<EdgeView> {
    us.map_values(|u: Seq<char>| (m, e, u))
}

proof fn lemma_stored_user_listed(rows: Seq<EdgeView>, r: EdgeView)
    requires
        rows.contains(r),
        edge_usable(r),
    ensures
        users_of(rows, r.0, r.1).contains(r.2),
    decreases rows.len(),
{
    let i = choose|i: int| 0 <= i < rows.len() && rows[i] == r;
    if i < rows.len() - 1 {
        assert(rows.drop_last()[i] == r);
        lemma_stored_user_listed(rows.drop_last(), r);
        let prev = users_of(rows.drop_last(), r.0, r.1);
        let k = choose|k: int| 0 <= k < prev.len() && prev[k] == r.2;
        assert(users_of(rows, r.0, r.1)[k] == r.2);
    } else {
        let prev = users_of(rows.drop_last(), r.0, r.1);
        if !prev.contains(r.2) {
            assert(users_of(rows, r.0, r.1) == prev.push(r.2));
            assert(users_of(rows, r.0, r.1)[prev.len() as int] == r.2);
        }
    }
}

/// Storing an edge that is already stored changes no user list and so no
/// reaction summary.
pub proof fn law_stored_edge_again(rows: Seq<EdgeView>, r: EdgeView)
    requires
        rows.contains(r),
    ensures
        forall|m: Seq<char>, e: Seq<char>| #[trigger] users_of(rows.push(r), m, e) == users_of(rows, m, e),
        forall|m: Seq<char>, s: Seq<ReactionView>|
            #[trigger] is_summary_of(rows.push(r), m, s) == is_summary_of(rows, m, s),
{
    assert forall|m: Seq<char>, e: Seq<char>| #[trigger] users_of(rows.push(r), m, e) == users_of(rows, m, e) by {
        assert(rows.push(r).drop_last() =~= rows);
        if edge_usable(r) && r.0 == m && r.1 == e {
            lemma_stored_user_listed(rows, r);
        }
    }
    assert forall|m: Seq<char>, s: Seq<ReactionView>|
        #[trigger] is_summary_of(rows.push(r), m, s) == is_summary_of(rows, m, s) by {
        lemma_same_users_same_summary(rows.push(r), rows, m, s);
    }
}

proof fn lemma_same_users_same_summary(
    a: Seq<EdgeView>,
    b: Seq<EdgeView>,
    m: Seq<char>,
    s: Seq<ReactionView>,
)
    requires
        forall|e: Seq<char>| #[trigger] users_of(a, m, e) == users_of(b, m, e),
    ensures
        is_summary_of(a, m, s) == is_summary_of(b, m, s),
{
    assert forall|i: int| 0 <= i < s.len() implies entry_of(a, m, #[trigger] s[i]) == entry_of(b, m, s[i]) by {
        assert(users_of(a, m, s[i].emoji) == users_of(b, m, s[i].emoji));
    }
    if is_summary_of(a, m, s) {
        assert forall|e: Seq<char>| #[trigger] users_of(b, m, e).len() > 0 implies exists|i: int|
            0 <= i < s.len() && (#[trigger] s[i]).emoji == e by {
            assert(users_of(a, m, e) == users_of(b, m, e));
        }
    }
    if is_summary_of(b, m, s) {
        assert forall|e: Seq<char>| #[trigger] users_of(a, m, e).len() > 0 implies exists|i: int|
            0 <= i < s.len() && (#[trigger] s[i]).emoji == e by {
            assert(users_of(a, m, e) == users_of(b, m, e));
        }
    }
}

/// Adding the same reaction edge twice gives the same summaries as adding it once.
pub proof fn law_add_reaction_idempotent(rows: Seq<EdgeView>, r: EdgeView)
    ensures
        forall|m: Seq<char>, s: Seq<ReactionView>|
            #[trigger] is_summary_of(rows.push(r).push(r), m, s) == is_summary_of(rows.push(r), m, s),
{
    assert(rows.push(r)[rows.len() as int] == r);
    law_stored_edge_again(rows.push(r), r);
}

proof fn lemma_removed_user_gone(rows: Seq<EdgeView>, m: Seq<char>, e: Seq<char>, u: Seq<char>)
    requires
        forall|i: int|
            0 <= i < rows.len() && edge_usable(#[trigger] rows[i]) && rows[i].0 == m && rows[i].1 == e
                ==> rows[i].2 == u,
    ensures
        users_of(without_edge(rows, (m, e, u)), m, e).len() == 0,
    decreases rows.len(),
{
    if rows.len() > 0 {
        let rest = rows.drop_last();
        assert forall|i: int|
            0 <= i < rest.len() && edge_usable(#[trigger] rest[i]) && rest[i].0 == m && rest[i].1 == e
                implies rest[i].2 == u by {
            assert(rest[i] == rows[i]);
        }
        lemma_removed_user_gone(rest, m, e, u);
        if rows.last() != (m, e, u) {
            let w = without_edge(rest, (m, e, u));
            assert(w.push(rows.last()).drop_last() =~= w);
            assert(rows.last() == rows[rows.len() - 1]);
        }
    }
}

/// When no other user reacted to message `m` with emoji `e`, user `u` adding
/// that reaction and then removing it leaves `m` with no entry for `e`.
pub proof fn law_add_then_remove_reaction(rows: Seq<EdgeView>, m: Seq<char>, e: Seq<char>, u: Seq<char>)
    requires
        forall|i: int|
            0 <= i < rows.len() && edge_usable(#[trigger] rows[i]) && rows[i].0 == m && rows[i].1 == e
                ==> rows[i].2 == u,
    ensures
        users_of(without_edge(rows.push((m, e, u)), (m, e, u)), m, e).len() == 0,
        forall|s: Seq<ReactionView>, i: int|
            is_summary_of(without_edge(rows.push((m, e, u)), (m, e, u)), m, s) && 0 <= i < s.len()
                ==> (#[trigger] s[i]).emoji != e,
{
    assert(rows.push((m, e, u)).drop_last() =~= rows);
    lemma_removed_user_gone(rows, m, e, u);
}

/// Distinct users each adding the same reaction to a message that had none of
/// it: every edge is counted once, none is lost.
pub proof fn law_distinct_users_all_counted(
    rows: Seq<EdgeView>,
    m: Seq<char>,
    e: Seq<char>,
    us: Seq<Seq<char>>,
)
    requires
        m.len() > 0,
        e.len() > 0,
        forall|i: int| 0 <= i < us.len() ==> (#[trigger] us[i]).len() > 0,
        us.no_duplicates(),
        users_of(rows, m, e).len() == 0,
    ensures
        users_of(rows + edges_for(m, e, us), m, e) == us,
        forall|s: Seq<ReactionView>, i: int|
            is_summary_of(rows + edges_for(m, e, us), m, s) && 0 <= i < s.len() && (#[trigger] s[i]).emoji
                == e ==> s[i].count == us.len(),
    decreases us.len(),
{
    if us.len() == 0 {
        assert(rows + edges_for(m, e, us) =~= rows);
        assert(users_of(rows, m, e) =~= us);
    } else {
        let front = us.drop_last();
        assert forall|i: int| 0 <= i < front.len() implies (#[trigger] front[i]).len() > 0 by {
            assert(front[i] == us[i]);
        }
        law_distinct_users_all_counted(rows, m, e, front);
        let all = rows + edges_for(m, e, us);
        assert(all.drop_last() =~= rows + edges_for(m, e, front));
        assert(all.last() == (m, e, us.last()));
        assert(!front.contains(us.last())) by {
            if front.contains(us.last()) {
                let k = choose|k: int| 0 <= k < front.len() && front[k] == us.last();
                assert(us[k] == us[us.len() - 1]);
            }
        }
        assert(front.push(us.last()) =~= us);
    }
}

} // verus!
