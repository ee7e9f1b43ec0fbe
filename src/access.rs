//! The one authorization rule of the chat core: which roles may touch a room.
use vstd::prelude::*;

verus! {

/// The required role of a room that every signed-in user may use.
pub open spec fn open_role() -> Seq<char> {
    seq!['u', 's', 'e', 'r']
}

/// The role that passes every room check and every admin-only operation.
pub open spec fn admin_role() -> Seq<char> {
    seq!['a', 'd', 'm', 'i', 'n']
}

/// A user with `role` may read and react in a room that requires `required`.
pub open spec fn spec_can_access(role: Seq<char>, required: Seq<char>) -> bool {
    required == open_role() || role == admin_role() || role == required
}

/// Character-wise equality of two strings.
pub fn text_eq(a: &str, b: &str) -> (r: bool)
    ensures
        r == (a@ == b@),
{
    let n = a.unicode_len();
    if n != b.unicode_len() {
        return false;
    }
    let mut i: usize = 0;
    while i < n
        invariant
            n == a@.len(),
            n == b@.len(),
            i <= n,
            forall|k: int| 0 <= k < i ==> a@[k] == b@[k],
        decreases n - i,
    {
        if a.get_char(i) != b.get_char(i) {
            return false;
        }
        i = i + 1;
    }
    assert(a@ =~= b@);
    true
}

/// Whether `role` is the administrator role.
pub fn is_admin(role: &str) -> (r: bool)
    ensures
        r == (role@ == admin_role()),
{
    let admin = "admin";
    proof {
        reveal_strlit("admin");
        assert(admin@ =~= admin_role());
    }
    text_eq(role, admin)
}

/// Whether `required_role` is the role of rooms open to every signed-in user.
pub fn is_open_role(required_role: &str) -> (r: bool)
    ensures
        r == (required_role@ == open_role()),
{
    let open = "user";
    proof {
        reveal_strlit("user");
        assert(open@ =~= open_role());
    }
    text_eq(required_role, open)
}

/// Room access: granted when the room is open, the user is an admin, or the
/// user's role is exactly the role the room requires.
pub fn can_access(role: &str, required_role: &str) -> (r: bool)
    ensures
        r == spec_can_access(role@, required_role@),
{
    is_open_role(required_role) || is_admin(role) || text_eq(role, required_role)
}

} // verus!
