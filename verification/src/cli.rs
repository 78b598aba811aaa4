//! Locating the worker's command-line executable: the override from the
//! environment comes first, then each ancestor of the working directory is
//! tried with each vendored-binary suffix, and the first candidate that
//! actually exists on disk wins.  Enumerating and choosing are decided
//! here; reading the environment and probing the disk are the runtime's.

use vstd::prelude::*;

verus! {

/// One ancestor joined with each vendored suffix.
pub open spec fn suffix_row(a: Seq<char>, suffixes: Seq<Seq<char>>) -> Seq<Seq<char>> {
    suffixes.map_values(|x: Seq<char>| a + x)
}

/// Every ancestor joined with every suffix, ancestors outermost.
pub open spec fn candidates_product(anc: Seq<Seq<char>>, suffixes: Seq<Seq<char>>) -> Seq<
    Seq<char>,
>
    decreases anc.len(),
{
    if anc.len() == 0 {
        Seq::empty()
    } else {
        suffix_row(anc[0], suffixes) + candidates_product(anc.drop_first(), suffixes)
    }
}

/// The full candidate list: the environment override first, then the
/// ancestor-suffix products.
pub open spec fn candidates_spec(
    envp: Option<Seq<char>>,
    anc: Seq<Seq<char>>,
    suffixes: Seq<Seq<char>>,
) -> Seq<Seq<char>> {
    (match envp {
        Some(e) => seq![e],
        None => Seq::empty(),
    }) + candidates_product(anc, suffixes)
}

/// Extending the ancestor list appends that ancestor's row.
proof fn lemma_product_push(anc: Seq<Seq<char>>, a: Seq<char>, suffixes: Seq<Seq<char>>)
    ensures
        candidates_product(anc.push(a), suffixes) == candidates_product(anc, suffixes)
            + suffix_row(a, suffixes),
    decreases anc.len(),
{
    if anc.len() == 0 {
        assert(anc.push(a)[0] == a);
        assert(anc.push(a).drop_first() =~= Seq::<Seq<char>>::empty());
        assert(candidates_product(anc.push(a).drop_first(), suffixes) =~= Seq::<Seq<char>>::empty());
        assert(suffix_row(anc.push(a)[0], suffixes) =~= suffix_row(a, suffixes));
        assert(candidates_product(anc.push(a), suffixes) =~= candidates_product(anc, suffixes)
            + suffix_row(a, suffixes));
    } else {
        assert(anc.push(a)[0] == anc[0]);
        assert(anc.push(a).drop_first() =~= anc.drop_first().push(a));
        assert(suffix_row(anc.push(a)[0], suffixes) =~= suffix_row(anc[0], suffixes));
        lemma_product_push(anc.drop_first(), a, suffixes);
        assert(candidates_product(anc.push(a), suffixes) =~= candidates_product(anc, suffixes)
            + suffix_row(a, suffixes));
    }
}

/// Enumerates the candidate executable paths, in the order they are tried.
#[verifier::loop_isolation(false)]
pub fn codex_cli_candidate_paths(
    env_override: Option<String>,
    ancestors: &Vec<String>,
    vendor_suffixes: &Vec<String>,
) -> (r: Vec<String>)
    ensures
        r@.map_values(|s: String| s@) == candidates_spec(
            match env_override {
                Some(e) => Some(e@),
                None => None,
            },
            ancestors@.map_values(|s: String| s@),
            vendor_suffixes@.map_values(|s: String| s@),
        ),
{
    let ghost ancv = ancestors@.map_values(|s: String| s@);
    let ghost sufv = vendor_suffixes@.map_values(|s: String| s@);
    let ghost head: Seq<Seq<char>> = match &env_override {
        Some(e) => seq![e@],
        None => Seq::empty(),
    };
    let mut r: Vec<String> = Vec::new();
    match env_override {
        Some(e) => {
            r.push(e);
        },
        None => {},
    }
    proof {
        assert(r@.map_values(|s: String| s@) =~= head);
    }
    let mut i: usize = 0;
    while i < ancestors.len()
        invariant
            0 <= i <= ancestors@.len(),
            r@.map_values(|s: String| s@) == head + candidates_product(
                ancv.subrange(0, i as int),
                sufv,
            ),
        decreases ancestors@.len() - i,
    {
        let mut j: usize = 0;
        let ghost row_base = r@.map_values(|s: String| s@);
        while j < vendor_suffixes.len()
            invariant
                0 <= j <= vendor_suffixes@.len(),
                i < ancestors@.len(),
                row_base == head + candidates_product(ancv.subrange(0, i as int), sufv),
                r@.map_values(|s: String| s@) == row_base + suffix_row(
                    ancv[i as int],
                    sufv.subrange(0, j as int),
                ),
            decreases vendor_suffixes@.len() - j,
        {
            let ghost pre = r@.map_values(|s: String| s@);
            let mut c = ancestors[i].clone();
            c.append(vendor_suffixes[j].as_str());
            r.push(c);
            proof {
                assert(ancv[i as int] == ancestors@[i as int]@);
                assert(sufv[j as int] == vendor_suffixes@[j as int]@);
                assert(r@.map_values(|s: String| s@) =~= pre.push(ancv[i as int] + sufv[j as int]));
                assert(suffix_row(ancv[i as int], sufv.subrange(0, j + 1)) =~= suffix_row(
                    ancv[i as int],
                    sufv.subrange(0, j as int),
                ).push(ancv[i as int] + sufv[j as int]));
                assert(r@.map_values(|s: String| s@) =~= row_base + suffix_row(
                    ancv[i as int],
                    sufv.subrange(0, j + 1),
                ));
            }
            j += 1;
        }
        proof {
            assert(sufv.subrange(0, sufv.len() as int) =~= sufv);
            assert(ancv.subrange(0, i + 1) =~= ancv.subrange(0, i as int).push(ancv[i as int]));
            lemma_product_push(ancv.subrange(0, i as int), ancv[i as int], sufv);
            assert(r@.map_values(|s: String| s@) =~= head + candidates_product(
                ancv.subrange(0, i + 1),
                sufv,
            ));
        }
        i += 1;
    }
    proof {
        assert(ancv.subrange(0, ancv.len() as int) =~= ancv);
    }
    r
}

/// Picks the first candidate that exists on disk; `exists_flags[i]` reports
/// the runtime's probe of `candidates[i]`.
#[verifier::loop_isolation(false)]
pub fn resolve_codex_cli_path(candidates: &Vec<String>, exists_flags: &Vec<bool>) -> (r: Option<
    String,
>)
    requires
        candidates@.len() == exists_flags@.len(),
    ensures
        match r {
            Some(s) => exists|i: int|
                0 <= i < candidates@.len() && #[trigger] exists_flags@[i] && s@ == candidates@[i]@
                    && (forall|j: int| 0 <= j < i ==> !exists_flags@[j]),
            None => forall|i: int| 0 <= i < exists_flags@.len() ==> !exists_flags@[i],
        },
{
    let mut i: usize = 0;
    while i < candidates.len()
        invariant
            0 <= i <= candidates@.len(),
            forall|j: int| 0 <= j < i ==> !exists_flags@[j],
        decreases candidates@.len() - i,
    {
        if exists_flags[i] {
            return Some(candidates[i].clone());
        }
        i += 1;
    }
    None
}

} // verus!
