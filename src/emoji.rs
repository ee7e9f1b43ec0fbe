//! Validation of the emoji that a reaction carries.
use vstd::prelude::*;

verus! {

/// Unicode's White_Space property: the characters that Unicode lists as
/// white space.
pub open spec fn white_space(c: char) -> bool {
    let v = c as u32;
    (0x09 <= v <= 0x0D) || v == 0x20 || v == 0x85 || v == 0xA0 || v == 0x1680 || (0x2000 <= v
        <= 0x200A) || v == 0x2028 || v == 0x2029 || v == 0x202F || v == 0x205F || v == 0x3000
}

/// Unicode's general category Cc (control codes).
pub open spec fn control_code(c: char) -> bool {
    let v = c as u32;
    v <= 0x1F || (0x7F <= v <= 0x9F)
}

/// The longest emoji, in characters, that a reaction may carry.
pub const MAX_EMOJI_CHARS: usize = 16;

/// `s` without its leading White_Space characters.
pub open spec fn trim_start(s: Seq<char>) -> Seq<char>
    decreases s.len(),
{
    if s.len() > 0 && white_space(s[0]) {
        trim_start(s.drop_first())
    } else {
        s
    }
}

/// `s` without its trailing White_Space characters.
pub open spec fn trim_end(s: Seq<char>) -> Seq<char>
    decreases s.len(),
{
    if s.len() > 0 && white_space(s.last()) {
        trim_end(s.drop_last())
    } else {
        s
    }
}

/// `s` without White_Space at either end.
pub open spec fn trimmed(s: Seq<char>) -> Seq<char> {
    trim_end(trim_start(s))
}

/// A trimmed emoji is accepted when it is not empty, has at most
/// `MAX_EMOJI_CHARS` characters, and holds no control or white-space character.
pub open spec fn emoji_ok(t: Seq<char>) -> bool {
    &&& 0 < t.len() <= MAX_EMOJI_CHARS
    &&& forall|i: int| 0 <= i < t.len() ==> !control_code(#[trigger] t[i]) && !white_space(t[i])
}

/// Whether `c` has the White_Space property.
fn is_white_space(c: char) -> (r: bool)
    ensures
        r == white_space(c),
{
    let v = c as u32;
    (0x09 <= v && v <= 0x0D) || v == 0x20 || v == 0x85 || v == 0xA0 || v == 0x1680 || (0x2000 <= v
        && v <= 0x200A) || v == 0x2028 || v == 0x2029 || v == 0x202F || v == 0x205F || v == 0x3000
}

/// Whether `c` is in the general category Cc.
fn is_control_code(c: char) -> (r: bool)
    ensures
        r == control_code(c),
{
    let v = c as u32;
    v <= 0x1F || (0x7F <= v && v <= 0x9F)
}

/// Relies on str::trim: the slice without leading and trailing characters
/// that have the White_Space property (the same property that
/// `char::is_whitespace` tests).
#[verifier::external_body]
pub(crate) fn trim_white_space(s: &str) -> (r: &str)
    ensures
        r@ == trimmed(s@),
{
    s.trim()
}

/// Trims `raw` and returns it when it is an acceptable emoji; `None` otherwise.
pub fn normalize_emoji(raw: &str) -> (r: Option<String>)
    ensures
        r is Some <==> emoji_ok(trimmed(raw@)),
        r matches Some(e) ==> e@ == trimmed(raw@),
{
    let t = trim_white_space(raw);
    let n = t.unicode_len();
    if n == 0 || n > MAX_EMOJI_CHARS {
        return None;
    }
    let mut i: usize = 0;
    while i < n
        invariant
            n == t@.len(),
            t@ == trimmed(raw@),
            i <= n,
            forall|k: int| 0 <= k < i ==> !control_code(#[trigger] t@[k]) && !white_space(t@[k]),
        decreases n - i,
    {
        let c = t.get_char(i);
        if is_control_code(c) || is_white_space(c) {
            return None;
        }
        i = i + 1;
    }
    Some(String::from_str(t))
}

} // verus!
