//! The captured local environment: which variables are ever exposed to the
//! UI, and how the preferred shell is chosen from them.

use crate::strutil::str_eq;
use vstd::prelude::*;

verus! {

/// The value of the first pair whose key is `k`.
pub open spec fn lookup_first(pairs: Seq<(Seq<char>, Seq<char>)>, k: Seq<char>) -> Option<
    Seq<char>,
>
    decreases pairs.len(),
{
    if pairs.len() == 0 {
        None
    } else if pairs[0].0 == k {
        Some(pairs[0].1)
    } else {
        lookup_first(pairs.drop_first(), k)
    }
}

/// The view of an environment overlay.
pub open spec fn env_view(env: Seq<(String, String)>) -> Seq<(Seq<char>, Seq<char>)> {
    env.map_values(|p: (String, String)| (p.0@, p.1@))
}

/// Looks `k` up in the overlay; the first matching pair wins.
#[verifier::loop_isolation(false)]
pub fn env_get(env: &Vec<(String, String)>, k: &str) -> (r: Option<String>)
    ensures
        match r {
            Some(v) => lookup_first(env_view(env@), k@) == Some(v@),
            None => lookup_first(env_view(env@), k@) is None,
        },
{
    let mut i: usize = 0;
    proof {
        assert(env_view(env@).skip(0) =~= env_view(env@));
    }
    while i < env.len()
        invariant
            0 <= i <= env@.len(),
            lookup_first(env_view(env@), k@) == lookup_first(
                env_view(env@).skip(i as int),
                k@,
            ),
        decreases env@.len() - i,
    {
        proof {
            assert(env_view(env@).skip(i as int)[0] == (env@[i as int].0@, env@[i as int].1@));
        }
        if str_eq(env[i].0.as_str(), k) {
            return Some(env[i].1.clone());
        }
        proof {
            assert(env_view(env@).skip(i as int).drop_first() =~= env_view(env@).skip(i + 1));
        }
        i += 1;
    }
    proof {
        assert(env_view(env@).skip(env@.len() as int) =~= Seq::<(Seq<char>, Seq<char>)>::empty());
    }
    None
}

/// The variables the host captures for the UI; nothing else from the
/// process environment is ever exposed.
pub fn local_env_allowlist() -> (r: Vec<String>)
    ensures
        r@.map_values(|s: String| s@) == seq![
            "SHELL"@,
            "ComSpec"@,
            "HOME"@,
            "USERPROFILE"@,
            "PATH"@,
            "TERM"@,
        ],
{
    let mut r: Vec<String> = Vec::new();
    r.push(String::from_str("SHELL"));
    r.push(String::from_str("ComSpec"));
    r.push(String::from_str("HOME"));
    r.push(String::from_str("USERPROFILE"));
    r.push(String::from_str("PATH"));
    r.push(String::from_str("TERM"));
    proof {
        assert(r@.map_values(|s: String| s@) =~= seq![
            "SHELL"@,
            "ComSpec"@,
            "HOME"@,
            "USERPROFILE"@,
            "PATH"@,
            "TERM"@,
        ]);
    }
    r
}

/// The shell reported for the local environment: `SHELL` when captured,
/// else `ComSpec`, else none.
pub fn preferred_shell(env: &Vec<(String, String)>) -> (r: Option<String>)
    ensures
        match lookup_first(env_view(env@), "SHELL"@) {
            Some(v) => r matches Some(s) && s@ == v,
            None => match lookup_first(env_view(env@), "ComSpec"@) {
                Some(v) => r matches Some(s) && s@ == v,
                None => r is None,
            },
        },
{
    match env_get(env, "SHELL") {
        Some(v) => Some(v),
        None => env_get(env, "ComSpec"),
    }
}

} // verus!
