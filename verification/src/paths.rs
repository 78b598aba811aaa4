//! The filesystem allow-list that guards every local capability reading
//! from disk: a requested path, resolved to its canonical absolute form, is
//! served only when it lies under one of the configured allowed roots.

use crate::router::HostResponse;
use crate::strutil::{all_ws_spec, is_blank, str_eq};
use vstd::prelude::*;

verus! {

/// A filesystem path reduced to what the allow-list reads: the components
/// of its canonical absolute form, in order.  The runtime resolves a raw
/// request path against the real filesystem and hands the result over in
/// this shape.
pub struct CanonicalPath {
    pub components: Vec<String>,
}

impl CanonicalPath {
    pub open spec fn view_components(self) -> Seq<Seq<char>> {
        self.components@.map_values(|s: String| s@)
    }
}

/// Whether `root` is a component-wise prefix of `path`.
pub open spec fn is_path_prefix(root: Seq<Seq<char>>, path: Seq<Seq<char>>) -> bool {
    root.len() <= path.len() && forall|j: int| 0 <= j < root.len() ==> root[j] == path[j]
}

/// The component views of a list of paths.
pub open spec fn roots_views(roots: Seq<CanonicalPath>) -> Seq<Seq<Seq<char>>> {
    roots.map_values(|p: CanonicalPath| p.view_components())
}

/// Whether the candidate lies under at least one allowed root.
pub open spec fn within_roots_spec(path: Seq<Seq<char>>, roots: Seq<Seq<Seq<char>>>) -> bool {
    exists|i: int| 0 <= i < roots.len() && is_path_prefix(#[trigger] roots[i], path)
}

/// Decides whether `root` starts `candidate`, component by component.
fn path_starts_with(candidate: &CanonicalPath, root: &CanonicalPath) -> (r: bool)
    ensures
        r == is_path_prefix(root.view_components(), candidate.view_components()),
{
    if root.components.len() > candidate.components.len() {
        return false;
    }
    let mut j: usize = 0;
    while j < root.components.len()
        invariant
            0 <= j <= root.components@.len(),
            root.components@.len() <= candidate.components@.len(),
            forall|k: int|
                0 <= k < j ==> root.view_components()[k] == candidate.view_components()[k],
        decreases root.components@.len() - j,
    {
        if !str_eq(root.components[j].as_str(), candidate.components[j].as_str()) {
            proof {
                assert(root.view_components()[j as int] == root.components@[j as int]@);
                assert(candidate.view_components()[j as int] == candidate.components@[j as int]@);
            }
            return false;
        }
        proof {
            assert(root.view_components()[j as int] == root.components@[j as int]@);
            assert(candidate.view_components()[j as int] == candidate.components@[j as int]@);
        }
        j += 1;
    }
    true
}

/// Whether the canonical candidate path is contained in one of the allowed
/// root directories.
pub fn is_within_allowed_roots(candidate: &CanonicalPath, allowed_roots: &Vec<CanonicalPath>) -> (r:
    bool)
    ensures
        r == within_roots_spec(
            candidate.view_components(),
            allowed_roots@.map_values(|p: CanonicalPath| p.view_components()),
        ),
{
    let ghost rootsv = allowed_roots@.map_values(|p: CanonicalPath| p.view_components());
    let mut i: usize = 0;
    while i < allowed_roots.len()
        invariant
            0 <= i <= allowed_roots@.len(),
            rootsv == allowed_roots@.map_values(|p: CanonicalPath| p.view_components()),
            forall|k: int|
                0 <= k < i ==> !is_path_prefix(#[trigger] rootsv[k], candidate.view_components()),
        decreases allowed_roots@.len() - i,
    {
        if path_starts_with(candidate, &allowed_roots[i]) {
            proof {
                assert(rootsv[i as int] == allowed_roots@[i as int].view_components());
            }
            return true;
        }
        proof {
            assert(rootsv[i as int] == allowed_roots@[i as int].view_components());
        }
        i += 1;
    }
    proof {
        if within_roots_spec(candidate.view_components(), rootsv) {
            let k = choose|k: int|
                0 <= k < rootsv.len() && is_path_prefix(#[trigger] rootsv[k],
                candidate.view_components());
        }
    }
    false
}

/// How a local file-read request is decided.
pub enum ReadFileDecision {
    /// The request named no path, or only whitespace.
    RejectEmpty,
    /// The path could not be canonicalized against the real filesystem.
    RejectIo,
    /// The canonical path lies outside every allowed root.
    RejectNotAllowed,
    /// The read may proceed on the canonical path.
    Allow,
}

/// Decides a file-read request: a blank path is rejected outright; a path
/// that did not canonicalize is an I/O failure; a canonical path outside
/// every configured root is rejected whether or not the file exists and is
/// readable — readability plays no part in the decision; only then is the
/// read allowed.
pub fn authorize_read_file(
    path_param: Option<&str>,
    canonical: Option<&CanonicalPath>,
    allowed_roots: &Vec<CanonicalPath>,
) -> (d: ReadFileDecision)
    ensures
        match path_param {
            None => d is RejectEmpty,
            Some(p) => {
                if all_ws_spec(p@) {
                    d is RejectEmpty
                } else {
                    match canonical {
                        None => d is RejectIo,
                        Some(c) => {
                            if within_roots_spec(
                                c.view_components(),
                                allowed_roots@.map_values(|p: CanonicalPath| p.view_components()),
                            ) {
                                d is Allow
                            } else {
                                d is RejectNotAllowed
                            }
                        },
                    }
                }
            },
        },
{
    match path_param {
        None => ReadFileDecision::RejectEmpty,
        Some(p) => {
            if is_blank(p) {
                ReadFileDecision::RejectEmpty
            } else {
                match canonical {
                    None => ReadFileDecision::RejectIo,
                    Some(c) => {
                        if is_within_allowed_roots(c, allowed_roots) {
                            ReadFileDecision::Allow
                        } else {
                            ReadFileDecision::RejectNotAllowed
                        }
                    },
                }
            }
        },
    }
}

/// The failure envelope for a rejected file read, carrying the code and
/// message of the rejection.
pub fn read_file_error_response(request_id: String, d: &ReadFileDecision) -> (r: HostResponse)
    requires
        !(d is Allow),
    ensures
        r.request_id@ == request_id@,
        r.ok == false,
        r.result is None,
        r.error matches Some(e) && e.details is None && match d {
            ReadFileDecision::RejectEmpty => e.code@ == "invalid_path"@ && e.message@
                == "path is required"@,
            ReadFileDecision::RejectIo => e.code@ == "io_error"@ && e.message@
                == "failed to read file"@,
            ReadFileDecision::RejectNotAllowed => e.code@ == "path_not_allowed"@ && e.message@
                == "requested path is outside configured allowed roots"@,
            ReadFileDecision::Allow => false,
        },
{
    match d {
        ReadFileDecision::RejectEmpty => HostResponse::err(
            request_id,
            String::from_str("invalid_path"),
            String::from_str("path is required"),
        ),
        ReadFileDecision::RejectIo => HostResponse::err(
            request_id,
            String::from_str("io_error"),
            String::from_str("failed to read file"),
        ),
        ReadFileDecision::RejectNotAllowed => HostResponse::err(
            request_id,
            String::from_str("path_not_allowed"),
            String::from_str("requested path is outside configured allowed roots"),
        ),
        ReadFileDecision::Allow => HostResponse::err(
            request_id,
            String::from_str("invalid_path"),
            String::from_str("path is required"),
        ),
    }
}

/// Keeps the first occurrence of each root and drops later duplicates, as
/// the allow-list is configured.
pub fn dedup_roots(roots: Vec<CanonicalPath>) -> (r: Vec<CanonicalPath>)
    ensures
        forall|i: int, j: int|
            0 <= i < j < r@.len() ==> r@[i].view_components() != r@[j].view_components(),
        forall|x: Seq<Seq<char>>|
            #[trigger] roots_views(r@).contains(x) == roots_views(roots@).contains(x),
{
    let ghost inv = roots_views(roots@);
    let mut r: Vec<CanonicalPath> = Vec::new();
    let mut i: usize = 0;
    while i < roots.len()
        invariant
            0 <= i <= roots@.len(),
            inv == roots_views(roots@),
            forall|a: int, b: int|
                0 <= a < b < r@.len() ==> r@[a].view_components() != r@[b].view_components(),
            forall|x: Seq<Seq<char>>|
                #[trigger] roots_views(r@).contains(x) == inv.subrange(0, i as int).contains(x),
        decreases roots@.len() - i,
    {
        let ghost rv_pre = roots_views(r@);
        let mut seen = false;
        let mut k: usize = 0;
        while k < r.len()
            invariant
                0 <= k <= r@.len(),
                i < roots@.len(),
                rv_pre == roots_views(r@),
                seen ==> rv_pre.contains(roots@[i as int].view_components()),
                !seen ==> forall|a: int|
                    0 <= a < k ==> rv_pre[a] != roots@[i as int].view_components(),
            decreases r@.len() - k,
        {
            if paths_equal(&r[k], &roots[i]) {
                proof {
                    assert(rv_pre[k as int] == r@[k as int].view_components());
                }
                seen = true;
                k = r.len();
            } else {
                proof {
                    assert(rv_pre[k as int] == r@[k as int].view_components());
                }
                k += 1;
            }
        }
        let ghost cur = roots@[i as int].view_components();
        if !seen {
            let root = &roots[i];
            r.push(CanonicalPath { components: crate::strutil::clone_strings(&root.components) });
            proof {
                broadcast use vstd::seq_lib::lemma_seq_contains_after_push;

                assert(r@[r@.len() - 1].view_components() == cur);
                assert(roots_views(r@) =~= rv_pre.push(cur));
                assert forall|a: int, b: int|
                    0 <= a < b < r@.len() implies r@[a].view_components()
                    != r@[b].view_components() by {
                    if b == r@.len() - 1 {
                        assert(rv_pre[a] == r@[a].view_components());
                    }
                }
            }
        }
        proof {
            broadcast use vstd::seq_lib::lemma_seq_contains_after_push;

            assert(inv.subrange(0, i + 1) =~= inv.subrange(0, i as int).push(cur));
            assert forall|x: Seq<Seq<char>>|
                #[trigger] roots_views(r@).contains(x) == inv.subrange(0, i + 1).contains(x) by {}
        }
        i += 1;
    }
    proof {
        assert(inv.subrange(0, inv.len() as int) =~= inv);
    }
    r
}

/// Whether two canonical paths have the same components.
pub fn paths_equal(a: &CanonicalPath, b: &CanonicalPath) -> (r: bool)
    ensures
        r == (a.view_components() == b.view_components()),
{
    if a.components.len() != b.components.len() {
        return false;
    }
    let mut j: usize = 0;
    while j < a.components.len()
        invariant
            0 <= j <= a.components@.len(),
            a.components@.len() == b.components@.len(),
            forall|k: int| 0 <= k < j ==> a.view_components()[k] == b.view_components()[k],
        decreases a.components@.len() - j,
    {
        if !str_eq(a.components[j].as_str(), b.components[j].as_str()) {
            proof {
                assert(a.view_components()[j as int] == a.components@[j as int]@);
                assert(b.view_components()[j as int] == b.components@[j as int]@);
            }
            return false;
        }
        proof {
            assert(a.view_components()[j as int] == a.components@[j as int]@);
            assert(b.view_components()[j as int] == b.components@[j as int]@);
        }
        j += 1;
    }
    proof {
        assert(a.view_components() =~= b.view_components());
    }
    true
}

} // verus!
