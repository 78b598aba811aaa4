//! Parsing of `codex://` deep links into their routes.
//!
//! The scheme test is ASCII-case-insensitive; the scheme is then stripped —
//! repeatedly, and case-sensitively — and the remaining path is matched
//! against the known routes, again ignoring ASCII case, except for the
//! case-sensitive `local/` prefix whose remainder is the conversation
//! identifier.

use crate::strutil::{lower_char, lower_char_spec};
use vstd::prelude::*;

verus! {

/// Where a deep link leads.
pub enum DeepLinkRoute {
    Settings,
    Skills,
    Automations,
    NewThread,
    /// A locally stored conversation, by identifier.
    LocalConversation(String),
    /// A path no route claims; carried verbatim.
    Unknown(String),
}

/// The error of a link that does not carry the scheme.
pub enum DeepLinkParseError {
    /// The raw link, which did not start with the scheme.
    InvalidScheme(String),
}

impl DeepLinkParseError {
    /// The operator-facing description of the error.
    pub fn message(&self) -> (r: String)
        ensures
            self matches DeepLinkParseError::InvalidScheme(s) ==> r@
                == "invalid deep link scheme: "@ + s@,
    {
        match self {
            DeepLinkParseError::InvalidScheme(s) => {
                let mut r = String::from_str("invalid deep link scheme: ");
                r.append(s.as_str());
                r
            },
        }
    }
}

/// Whether the link starts with the scheme, ignoring ASCII case.
pub open spec fn has_scheme_ci(s: Seq<char>) -> bool {
    s.len() >= 8 && forall|i: int|
        0 <= i < 8 ==> lower_char_spec(#[trigger] s[i]) == "codex://"@[i]
}

/// Whether the scheme occurs, exactly and case-sensitively, at `start`.
pub open spec fn scheme_at(s: Seq<char>, start: int) -> bool {
    forall|k: int| 0 <= k < 8 ==> #[trigger] s[start + k] == "codex://"@[k]
}

/// The path after every leading exact occurrence of the scheme.
pub open spec fn strip_scheme_spec(s: Seq<char>) -> Seq<char>
    decreases s.len(),
{
    if s.len() >= 8 && scheme_at(s, 0) {
        strip_scheme_spec(s.skip(8))
    } else {
        s
    }
}

/// Equality of two character sequences ignoring ASCII case.
pub open spec fn ci_matches(a: Seq<char>, b: Seq<char>) -> bool {
    a.len() == b.len() && forall|i: int|
        0 <= i < a.len() ==> lower_char_spec(#[trigger] a[i]) == lower_char_spec(b[i])
}

/// Whether the path names a local conversation: a case-sensitive `local/`
/// prefix.
pub open spec fn has_local_prefix(s: Seq<char>) -> bool {
    s.len() >= 6 && forall|i: int| 0 <= i < 6 ==> #[trigger] s[i] == "local/"@[i]
}

/// Which route a stripped path resolves to.
pub open spec fn route_of_path_spec(path: Seq<char>, route: DeepLinkRoute) -> bool {
    if ci_matches(path, "settings"@) {
        route is Settings
    } else if ci_matches(path, "skills"@) {
        route is Skills
    } else if ci_matches(path, "automations"@) {
        route is Automations
    } else if ci_matches(path, "threads/new"@) {
        route is NewThread
    } else if has_local_prefix(path) {
        route matches DeepLinkRoute::LocalConversation(s) && s@ == path.skip(6)
    } else {
        route matches DeepLinkRoute::Unknown(s) && s@ == path
    }
}

/// Equality of two strings ignoring ASCII case.
#[verifier::loop_isolation(false)]
fn chars_ci_eq(a: &str, b: &str) -> (r: bool)
    ensures
        r == ci_matches(a@, b@),
{
    let n = a.unicode_len();
    if n != b.unicode_len() {
        return false;
    }
    let mut i: usize = 0;
    while i < n
        invariant
            0 <= i <= a@.len(),
            n == a@.len(),
            a@.len() == b@.len(),
            forall|j: int|
                0 <= j < i ==> lower_char_spec(#[trigger] a@[j]) == lower_char_spec(b@[j]),
        decreases a@.len() - i,
    {
        if lower_char(a.get_char(i)) != lower_char(b.get_char(i)) {
            return false;
        }
        i += 1;
    }
    true
}

/// Whether the link carries the scheme at its start, ignoring ASCII case.
#[verifier::loop_isolation(false)]
fn scheme_prefix_ci(raw: &str) -> (r: bool)
    ensures
        r == has_scheme_ci(raw@),
{
    proof {
        reveal_strlit("codex://");
    }
    let scheme = "codex://";
    let n = raw.unicode_len();
    if n < 8 {
        return false;
    }
    let mut j: usize = 0;
    while j < 8
        invariant
            0 <= j <= 8,
            8 <= raw@.len(),
            "codex://"@.len() == 8,
            forall|k: int|
                0 <= k < j ==> lower_char_spec(#[trigger] raw@[k]) == "codex://"@[k],
        decreases 8 - j,
    {
        if lower_char(raw.get_char(j)) != scheme.get_char(j) {
            proof {
                if has_scheme_ci(raw@) {
                    assert(lower_char_spec(raw@[j as int]) == "codex://"@[j as int]);
                }
            }
            return false;
        }
        j += 1;
    }
    true
}

/// Whether the scheme occurs, exactly, at offset `start`.
#[verifier::loop_isolation(false)]
fn scheme_matches_at(raw: &str, start: usize) -> (r: bool)
    requires
        start + 8 <= raw@.len(),
        raw@.len() <= usize::MAX,
    ensures
        r == scheme_at(raw@, start as int),
{
    proof {
        reveal_strlit("codex://");
    }
    let scheme = "codex://";
    let mut j: usize = 0;
    while j < 8
        invariant
            0 <= j <= 8,
            start + 8 <= raw@.len(),
            "codex://"@.len() == 8,
            forall|k: int| 0 <= k < j ==> #[trigger] raw@[start + k] == "codex://"@[k],
        decreases 8 - j,
    {
        if raw.get_char(start + j) != scheme.get_char(j) {
            proof {
                if scheme_at(raw@, start as int) {
                    assert(raw@[start as int + j] == "codex://"@[j as int]);
                }
            }
            return false;
        }
        proof {
            assert(raw@[start as int + j] == "codex://"@[j as int]);
        }
        j += 1;
    }
    true
}

/// Whether the path starts, case-sensitively, with `local/`.
#[verifier::loop_isolation(false)]
fn local_prefix_matches(path: &str) -> (r: bool)
    ensures
        r == has_local_prefix(path@),
{
    proof {
        reveal_strlit("local/");
    }
    let local = "local/";
    let n = path.unicode_len();
    if n < 6 {
        return false;
    }
    let mut j: usize = 0;
    while j < 6
        invariant
            0 <= j <= 6,
            6 <= path@.len(),
            "local/"@.len() == 6,
            forall|k: int| 0 <= k < j ==> #[trigger] path@[k] == "local/"@[k],
        decreases 6 - j,
    {
        if path.get_char(j) != local.get_char(j) {
            proof {
                if has_local_prefix(path@) {
                    assert(path@[j as int] == "local/"@[j as int]);
                }
            }
            return false;
        }
        j += 1;
    }
    true
}

/// Parses one deep link: rejects it when the scheme is missing, otherwise
/// strips the scheme and resolves the remaining path to its route.
#[verifier::loop_isolation(false)]
pub fn parse_deep_link(raw: &str) -> (r: Result<DeepLinkRoute, DeepLinkParseError>)
    ensures
        r is Ok <==> has_scheme_ci(raw@),
        r matches Err(e) ==> (e matches DeepLinkParseError::InvalidScheme(s) && s@ == raw@),
        r matches Ok(route) ==> route_of_path_spec(strip_scheme_spec(raw@), route),
{
    if !scheme_prefix_ci(raw) {
        return Err(DeepLinkParseError::InvalidScheme(raw.to_owned()));
    }
    let n = raw.unicode_len();
    // Strip every leading exact occurrence of the scheme.
    let mut start: usize = 0;
    let mut more = true;
    proof {
        assert(raw@.skip(0) =~= raw@);
    }
    while more
        invariant
            0 <= start <= n,
            raw@.len() == n,
            strip_scheme_spec(raw@.skip(start as int)) == strip_scheme_spec(raw@),
            !more ==> !(n - start >= 8 && scheme_at(raw@, start as int)),
        decreases n - start + (if more {
            1int
        } else {
            0int
        }),
    {
        if n - start < 8 {
            more = false;
        } else if scheme_matches_at(raw, start) {
            proof {
                let s = raw@.skip(start as int);
                assert(s.len() >= 8);
                assert forall|k: int| 0 <= k < 8 implies #[trigger] s[k] == "codex://"@[k] by {
                    assert(raw@[start + k] == "codex://"@[k]);
                }
                assert(scheme_at(s, 0));
                assert(strip_scheme_spec(s) == strip_scheme_spec(s.skip(8)));
                assert(s.skip(8) =~= raw@.skip(start + 8));
            }
            start = start + 8;
        } else {
            more = false;
        }
    }
    proof {
        let s = raw@.skip(start as int);
        if s.len() >= 8 && scheme_at(s, 0) {
            assert forall|k: int| 0 <= k < 8 implies #[trigger] raw@[start + k]
                == "codex://"@[k] by {
                assert(s[0 + k] == "codex://"@[k]);
            }
            assert(scheme_at(raw@, start as int));
            assert(false);
        }
        assert(strip_scheme_spec(s) == s);
    }
    let path = raw.substring_char(start, n);
    proof {
        assert(path@ =~= raw@.skip(start as int));
    }
    if chars_ci_eq(path, "settings") {
        Ok(DeepLinkRoute::Settings)
    } else if chars_ci_eq(path, "skills") {
        Ok(DeepLinkRoute::Skills)
    } else if chars_ci_eq(path, "automations") {
        Ok(DeepLinkRoute::Automations)
    } else if chars_ci_eq(path, "threads/new") {
        Ok(DeepLinkRoute::NewThread)
    } else if local_prefix_matches(path) {
        let path_len = path.unicode_len();
        let conversation_id = path.substring_char(6, path_len);
        proof {
            assert(conversation_id@ =~= path@.skip(6));
        }
        Ok(DeepLinkRoute::LocalConversation(conversation_id.to_owned()))
    } else {
        Ok(DeepLinkRoute::Unknown(path.to_owned()))
    }
}

} // verus!
