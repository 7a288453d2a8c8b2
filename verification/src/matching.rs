//! Wildcard-aware permission matching.
//!
//! Two encodings coexist: the structured (resource, action) pair, and the
//! legacy single-string code `"resource:action"` with the wildcard forms
//! `"*"` (super access) and `"resource:*"` (all actions on one resource).
//! Both are evaluated here with exact, proved semantics.

use vstd::prelude::*;

verus! {

/// Character-exact equality of two string slices.
pub fn str_eq(a: &str, b: &str) -> (r: bool)
    ensures
        r == (a@ == b@),
{
    let la = a.unicode_len();
    let lb = b.unicode_len();
    if la != lb {
        proof {
            assert(a@.len() != b@.len());
        }
        return false;
    }
    let mut i: usize = 0;
    while i < la
        invariant
            la == lb,
            la as nat == a@.len(),
            lb as nat == b@.len(),
            i <= la,
            forall|j: int| 0 <= j < i ==> a@[j] == b@[j],
        decreases la - i,
    {
        let ca = a.get_char(i);
        let cb = b.get_char(i);
        if ca != cb {
            proof {
                assert(a@[i as int] != b@[i as int]);
            }
            return false;
        }
        i += 1;
    }
    proof {
        assert(a@ =~= b@);
    }
    true
}

/// Structured matching of a granted (resource, action) pair against a
/// required pair:
/// the grant ("admin", "*") matches everything; otherwise the resources
/// must be equal and the granted action must equal the required one or
/// be the wildcard "*".
pub open spec fn spec_matches(
    g_res: Seq<char>,
    g_act: Seq<char>,
    res: Seq<char>,
    act: Seq<char>,
) -> bool {
    ||| (g_res == "admin"@ && g_act == "*"@)
    ||| (g_res == res && (g_act == act || g_act == "*"@))
}

/// Whether the granted pair (`g_res`, `g_act`) covers the required pair
/// (`res`, `act`).
pub fn pair_matches(g_res: &str, g_act: &str, res: &str, act: &str) -> (r: bool)
    ensures
        r == spec_matches(g_res@, g_act@, res@, act@),
{
    if str_eq(g_res, "admin") && str_eq(g_act, "*") {
        return true;
    }
    if str_eq(g_res, res) {
        if str_eq(g_act, act) {
            return true;
        }
        if str_eq(g_act, "*") {
            return true;
        }
    }
    false
}

/// The index of the first ':' in `s`, or `s.len()` if there is none.
pub open spec fn spec_first_colon(s: Seq<char>) -> int
    decreases s.len(),
{
    if s.len() == 0 {
        0
    } else if s[0] == ':' {
        0
    } else {
        1 + spec_first_colon(s.subrange(1, s.len() as int))
    }
}

/// The prefix of a code up to (excluding) its first ':'.
pub open spec fn spec_code_prefix(s: Seq<char>) -> Seq<char> {
    s.take(spec_first_colon(s))
}

/// An index before which no ':' occurs, and which is either the length or
/// a ':' position, is exactly `spec_first_colon`.
proof fn lemma_first_colon_is(s: Seq<char>, k: int)
    requires
        0 <= k <= s.len(),
        forall|j: int| 0 <= j < k ==> s[j] != ':',
        k < s.len() ==> s[k] == ':',
    ensures
        spec_first_colon(s) == k,
    decreases s.len(),
{
    if s.len() == 0 {
    } else if s[0] == ':' {
        assert(k == 0);
    } else {
        assert(k >= 1);
        let t = s.subrange(1, s.len() as int);
        assert(forall|j: int| 0 <= j < k - 1 ==> t[j] == s[j + 1] && t[j] != ':');
        assert(k - 1 < t.len() ==> t[k - 1] == s[k]);
        lemma_first_colon_is(t, k - 1);
    }
}

/// Matching of a granted permission code against a required one:
/// exact equality, or the granted code is the bare "*", or the granted
/// code ends in ":*" and its head equals the required code's prefix up
/// to the first ':'.
pub open spec fn spec_code_matches(granted: Seq<char>, required: Seq<char>) -> bool {
    ||| granted == required
    ||| (granted.len() == 1 && granted[0] == '*')
    ||| (granted.len() >= 2 && granted[granted.len() - 1] == '*' && granted[granted.len()
        - 2] == ':' && spec_code_prefix(required) == granted.take(granted.len() - 2))
}

/// Whether the granted code covers the required code.
pub fn matches_code(granted: &str, required: &str) -> (r: bool)
    ensures
        r == spec_code_matches(granted@, required@),
{
    if str_eq(granted, required) {
        return true;
    }
    let gl = granted.unicode_len();
    if gl == 1 && granted.get_char(0) == '*' {
        return true;
    }
    if gl >= 2 && granted.get_char(gl - 1) == '*' && granted.get_char(gl - 2) == ':' {
        let rl = required.unicode_len();
        let mut k: usize = 0;
        while k < rl && required.get_char(k) != ':'
            invariant
                rl as nat == required@.len(),
                k <= rl,
                forall|j: int| 0 <= j < k ==> required@[j] != ':',
            decreases rl - k,
        {
            k += 1;
        }
        proof {
            lemma_first_colon_is(required@, k as int);
        }
        if k != gl - 2 {
            proof {
                assert(spec_first_colon(required@) == k as int);
                assert(spec_code_prefix(required@).len() == k as int);
                assert(granted@.take(gl - 2 as int).len() == gl - 2);
                assert(spec_code_prefix(required@) != granted@.take(gl - 2 as int));
            }
            return false;
        }
        let mut i: usize = 0;
        while i < k
            invariant
                gl as nat == granted@.len(),
                rl as nat == required@.len(),
                gl >= 2,
                k == gl - 2,
                k <= rl,
                i <= k,
                granted@ != required@,
                spec_first_colon(required@) == k as int,
                forall|j: int| 0 <= j < i ==> required@[j] == granted@[j],
            decreases k - i,
        {
            let cr = required.get_char(i);
            let cg = granted.get_char(i);
            if cr != cg {
                proof {
                    assert(required@.take(k as int)[i as int] != granted@.take(
                        gl - 2 as int)[i as int]);
                }
                return false;
            }
            i += 1;
        }
        proof {
            assert(required@.take(k as int) =~= granted@.take(gl - 2 as int));
        }
        return true;
    }
    false
}

/// A granted permission on the "admin" resource with the "*" action
/// matches every required resource/action pair.
pub proof fn lemma_admin_wildcard_matches_all(res: Seq<char>, act: Seq<char>)
    ensures
        spec_matches("admin"@, "*"@, res, act),
{
}

/// The bare "*" code matches every required code.
pub proof fn lemma_super_code_matches_all(required: Seq<char>)
    ensures
        spec_code_matches("*"@, required),
{
    reveal_strlit("*");
}

} // verus!

