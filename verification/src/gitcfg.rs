//! The guard over git configuration keys: a handful of keys and key
//! families can smuggle command execution into later git runs, so setting
//! them through the worker is refused.  The key is judged after trimming
//! and ASCII lower-casing, and a key that is empty or contains whitespace
//! is refused outright.

use crate::strutil::{is_ws, is_ws_spec, lower_char, lower_char_spec, lower_chars_spec};
use vstd::prelude::*;

verus! {

/// The key with leading whitespace removed.
pub open spec fn trim_start_spec(s: Seq<char>) -> Seq<char>
    decreases s.len(),
{
    if s.len() > 0 && is_ws_spec(s[0]) {
        trim_start_spec(s.drop_first())
    } else {
        s
    }
}

/// The key with trailing whitespace removed.
pub open spec fn trim_end_spec(s: Seq<char>) -> Seq<char>
    decreases s.len(),
{
    if s.len() > 0 && is_ws_spec(s.last()) {
        trim_end_spec(s.drop_last())
    } else {
        s
    }
}

/// The key with whitespace removed at both ends.
pub open spec fn trim_spec(s: Seq<char>) -> Seq<char> {
    trim_end_spec(trim_start_spec(s))
}

/// Dropping a whitespace prefix computes `trim_start_spec`.
proof fn lemma_trim_start(s: Seq<char>, a: int)
    requires
        0 <= a <= s.len(),
        forall|j: int| 0 <= j < a ==> is_ws_spec(#[trigger] s[j]),
        a == s.len() || !is_ws_spec(s[a]),
    ensures
        trim_start_spec(s) == s.skip(a),
    decreases a,
{
    if a == 0 {
        assert(s.skip(0) =~= s);
    } else {
        assert(is_ws_spec(s[0]));
        lemma_trim_start(s.drop_first(), a - 1);
        assert(s.drop_first().skip(a - 1) =~= s.skip(a));
    }
}

/// Dropping a whitespace suffix computes `trim_end_spec`.
proof fn lemma_trim_end(s: Seq<char>, b: int)
    requires
        0 <= b <= s.len(),
        forall|j: int| b <= j < s.len() ==> is_ws_spec(#[trigger] s[j]),
        b == 0 || !is_ws_spec(s[b - 1]),
    ensures
        trim_end_spec(s) == s.take(b),
    decreases s.len() - b,
{
    if b == s.len() {
        assert(s.take(b) =~= s);
    } else {
        assert(is_ws_spec(s.last()));
        lemma_trim_end(s.drop_last(), b);
        assert(s.drop_last().take(b) =~= s.take(b));
    }
}

/// The normalized form of a key: trimmed, then ASCII lower-cased.
pub open spec fn normalized_key_spec(key: Seq<char>) -> Seq<char> {
    lower_chars_spec(trim_spec(key))
}

/// Whether `p` starts `s`.
pub open spec fn chars_start_with(s: Seq<char>, p: Seq<char>) -> bool {
    p.len() <= s.len() && s.subrange(0, p.len() as int) == p
}

/// Whether the normalized key is refused: empty, holding whitespace, one of
/// the command-execution keys, or in one of the refused key families.
pub open spec fn disallowed_git_config_key_spec(key: Seq<char>) -> bool {
    let n = normalized_key_spec(key);
    ||| n.len() == 0
    ||| exists|i: int| 0 <= i < n.len() && is_ws_spec(#[trigger] n[i])
    ||| n == "core.hookspath"@
    ||| n == "core.sshcommand"@
    ||| n == "core.gitproxy"@
    ||| n == "credential.helper"@
    ||| chars_start_with(n, "credential.helper."@)
    ||| chars_start_with(n, "alias."@)
    ||| chars_start_with(n, "include."@)
    ||| chars_start_with(n, "includeif."@)
}

/// Whether the lower-cased window `s[a..b]` equals `t`.
#[verifier::loop_isolation(false)]
fn window_lower_eq(s: &str, a: usize, b: usize, t: &str) -> (r: bool)
    requires
        a <= b <= s@.len(),
        s@.len() <= usize::MAX,
    ensures
        r == (lower_chars_spec(s@.subrange(a as int, b as int)) == t@),
{
    let ghost w = lower_chars_spec(s@.subrange(a as int, b as int));
    if b - a != t.unicode_len() {
        return false;
    }
    let mut i: usize = 0;
    while i < b - a
        invariant
            0 <= i <= b - a,
            t@.len() == b - a,
            forall|j: int| 0 <= j < i ==> #[trigger] w[j] == t@[j],
        decreases b - a - i,
    {
        proof {
            assert(w[i as int] == lower_char_spec(s@[a + i]));
        }
        if lower_char(s.get_char(a + i)) != t.get_char(i) {
            proof {
                assert(w[i as int] != t@[i as int]);
            }
            return false;
        }
        i += 1;
    }
    proof {
        assert(w =~= t@);
    }
    true
}

/// Whether the lower-cased window `s[a..b]` starts with `t`.
#[verifier::loop_isolation(false)]
fn window_lower_starts(s: &str, a: usize, b: usize, t: &str) -> (r: bool)
    requires
        a <= b <= s@.len(),
        s@.len() <= usize::MAX,
    ensures
        r == chars_start_with(lower_chars_spec(s@.subrange(a as int, b as int)), t@),
{
    let ghost w = lower_chars_spec(s@.subrange(a as int, b as int));
    let tn = t.unicode_len();
    if b - a < tn {
        return false;
    }
    let mut i: usize = 0;
    while i < tn
        invariant
            0 <= i <= tn,
            tn == t@.len(),
            tn <= b - a,
            forall|j: int| 0 <= j < i ==> #[trigger] w[j] == t@[j],
        decreases tn - i,
    {
        proof {
            assert(w[i as int] == lower_char_spec(s@[a + i]));
        }
        if lower_char(s.get_char(a + i)) != t.get_char(i) {
            proof {
                if chars_start_with(w, t@) {
                    assert(w.subrange(0, t@.len() as int)[i as int] == t@[i as int]);
                }
            }
            return false;
        }
        i += 1;
    }
    proof {
        assert(w.subrange(0, t@.len() as int) =~= t@);
    }
    true
}

/// Whether setting this git configuration key through the worker is
/// refused.
#[verifier::loop_isolation(false)]
pub fn is_disallowed_git_config_key(key: &str) -> (r: bool)
    ensures
        r == disallowed_git_config_key_spec(key@),
{
    let n = key.unicode_len();
    let mut a: usize = 0;
    while a < n && is_ws(key.get_char(a))
        invariant
            0 <= a <= n,
            forall|j: int| 0 <= j < a ==> is_ws_spec(#[trigger] key@[j]),
        decreases n - a,
    {
        a += 1;
    }
    let mut b: usize = n;
    while b > a && is_ws(key.get_char(b - 1))
        invariant
            a <= b <= n,
            forall|j: int| b <= j < n ==> is_ws_spec(#[trigger] key@[j]),
        decreases b,
    {
        b -= 1;
    }
    proof {
        lemma_trim_start(key@, a as int);
        let sk = key@.skip(a as int);
        lemma_trim_end(sk, b - a);
        assert(sk.take(b - a) =~= key@.subrange(a as int, b as int));
        assert(trim_spec(key@) == key@.subrange(a as int, b as int));
    }
    let ghost norm = normalized_key_spec(key@);
    if b == a {
        proof {
            assert(norm.len() == 0);
        }
        return true;
    }
    // whitespace inside the trimmed key
    let mut i: usize = 0;
    while i < b - a
        invariant
            0 <= i <= b - a,
            forall|j: int| 0 <= j < i ==> !is_ws_spec(#[trigger] norm[j]),
        decreases b - a - i,
    {
        proof {
            assert(norm[i as int] == lower_char_spec(key@[a + i]));
        }
        if is_ws(lower_char(key.get_char(a + i))) {
            proof {
                assert(is_ws_spec(norm[i as int]));
            }
            return true;
        }
        i += 1;
    }
    proof {
        if exists|j: int| 0 <= j < norm.len() && is_ws_spec(#[trigger] norm[j]) {
            let j = choose|j: int| 0 <= j < norm.len() && is_ws_spec(#[trigger] norm[j]);
            assert(false);
        }
    }
    window_lower_eq(key, a, b, "core.hookspath") || window_lower_eq(key, a, b, "core.sshcommand")
        || window_lower_eq(key, a, b, "core.gitproxy") || window_lower_eq(
        key,
        a,
        b,
        "credential.helper",
    ) || window_lower_starts(key, a, b, "credential.helper.") || window_lower_starts(
        key,
        a,
        b,
        "alias.",
    ) || window_lower_starts(key, a, b, "include.") || window_lower_starts(key, a, b, "includeif.")
}

} // verus!
