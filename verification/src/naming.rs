//! The naming contract for procedure keys and merge prefixes.
//!
//! A usable key is a non-empty string of ASCII letters, digits, `'.'` and
//! `'_'` that is not the literal `ws` and does not start with the reserved
//! prefixes `rpc.` or `rspc.`. The contract is enforced at every insertion
//! into a procedure store and on every merge prefix.

use vstd::prelude::*;
use vstd::string::StrSliceExecFns;

verus! {

/// A character the naming contract accepts: an ASCII letter, an ASCII
/// digit, `'.'` or `'_'`.
pub open spec fn is_name_char(c: char) -> bool {
    ('a' <= c && c <= 'z') || ('A' <= c && c <= 'Z') || ('0' <= c && c <= '9') || c == '.' || c
        == '_'
}

/// When a key or prefix is refused: it is empty, it is the literal `ws`,
/// it starts with `rpc.` or `rspc.`, or it holds a character outside the
/// accepted set.
pub open spec fn name_rejected(s: Seq<char>) -> bool {
    ||| s.len() == 0
    ||| (s.len() == 2 && s[0] == 'w' && s[1] == 's')
    ||| (s.len() >= 4 && s[0] == 'r' && s[1] == 'p' && s[2] == 'c' && s[3] == '.')
    ||| (s.len() >= 5 && s[0] == 'r' && s[1] == 's' && s[2] == 'p' && s[3] == 'c' && s[4] == '.')
    ||| exists|i: int| 0 <= i < s.len() && !is_name_char(s[i])
}

/// Character-for-character string equality, used by the key stores and
/// the registry for lookups and duplicate checks.
pub fn str_eq(a: &str, b: &str) -> (r: bool)
    ensures
        r == (a@ == b@),
{
    let n = a.unicode_len();
    if n != b.unicode_len() {
        return false;
    }
    let mut i: usize = 0;
    while i < n
        invariant
            n == a@.len(),
            n == b@.len(),
            i <= n,
            forall|j: int| 0 <= j < i ==> a@[j] == b@[j],
        decreases n - i,
    {
        if a.get_char(i) != b.get_char(i) {
            return false;
        }
        i += 1;
    }
    proof {
        assert(a@ =~= b@);
    }
    true
}

/// Decides the naming contract. Returns `true` when `s` violates it (the
/// name is then refused at registration and merge time), `false` when `s`
/// may serve as a procedure key.
pub fn is_valid_procedure_name(s: &str) -> (r: bool)
    ensures
        r == name_rejected(s@),
{
    let n = s.unicode_len();
    if n == 0 {
        return true;
    }
    let mut i: usize = 0;
    while i < n
        invariant
            n == s@.len(),
            i <= n,
            forall|j: int| 0 <= j < i ==> is_name_char(s@[j]),
        decreases n - i,
    {
        let c = s.get_char(i);
        let ok = ('a' <= c && c <= 'z') || ('A' <= c && c <= 'Z') || ('0' <= c && c <= '9') || c
            == '.' || c == '_';
        if !ok {
            assert(!is_name_char(s@[i as int]));
            return true;
        }
        i += 1;
    }
    if n == 2 && s.get_char(0) == 'w' && s.get_char(1) == 's' {
        return true;
    }
    if n >= 4 && s.get_char(0) == 'r' && s.get_char(1) == 'p' && s.get_char(2) == 'c'
        && s.get_char(3) == '.' {
        return true;
    }
    if n >= 5 && s.get_char(0) == 'r' && s.get_char(1) == 's' && s.get_char(2) == 'p'
        && s.get_char(3) == 'c' && s.get_char(4) == '.' {
        return true;
    }
    false
}

} // verus!
