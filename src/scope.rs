use vstd::prelude::*;
use crate::path::{StorePath, is_prefix};

verus! {

/// Which store a command works on: the project's own (`Local`) or the user's (`Global`).
#[derive(PartialEq, Eq, Clone, Copy, Debug, Structural)]
pub enum VenvScope {
    Local,
    Global,
}

/// The value of a directory override variable, as read from the environment.
pub enum OverrideDir {
    /// The variable is unset or empty.
    Unset,
    /// The variable is set, but does not name a usable absolute path.
    Invalid,
    /// The variable names this directory, made absolute.
    Dir(StorePath),
}

/// What scope resolution reads from outside: the override variables, the
/// platform's user data directory, the working directory, and which of the
/// marker directories of `marker_candidates(cwd)` exist and can be read.
pub struct ScopeInputs {
    pub local_override: OverrideDir,
    pub global_override: OverrideDir,
    pub data_dir: Option<StorePath>,
    pub cwd: Option<StorePath>,
    pub local_found: Vec<StorePath>,
}

#[derive(PartialEq, Eq, Clone, Copy, Debug, Structural)]
pub enum ScopeError {
    InvalidLocalOverride,
    InvalidGlobalOverride,
    NoStateDir,
    NoWorkingDir,
}

pub open spec fn marker_name() -> Seq<char> {
    seq!['.', 'm', 'e', 'o', 'w', 'd', 'a']
}

pub open spec fn venvs_name() -> Seq<char> {
    seq!['v', 'e', 'n', 'v', 's']
}

pub open spec fn app_name() -> Seq<char> {
    seq!['m', 'e', 'o', 'w', 'd', 'a']
}

/// The marker directory `<dir>/.meowda/venvs`.
pub open spec fn marker_in(dir: Seq<Seq<char>>) -> Seq<Seq<char>> {
    dir.push(marker_name()).push(venvs_name())
}

pub open spec fn paths_view(v: Seq<StorePath>) -> Seq<Seq<Seq<char>>> {
    v.map_values(|p: StorePath| p@)
}

/// The marker directory of the `k`-th ancestor of `cwd` (`k == 0` is `cwd` itself).
pub open spec fn candidate_at(cwd: Seq<Seq<char>>, k: int) -> Seq<Seq<char>> {
    marker_in(cwd.subrange(0, cwd.len() - k))
}

/// The marker directories of `cwd` and each of its ancestors, nearest first.
pub open spec fn walk_candidates(cwd: Seq<Seq<char>>) -> Seq<Seq<Seq<char>>> {
    Seq::new((cwd.len() + 1) as nat, |k: int| candidate_at(cwd, k))
}

/// Each entry is deeper than every entry after it.
pub open spec fn nearest_first(s: Seq<Seq<Seq<char>>>) -> bool {
    forall|i: int, j: int| 0 <= i < j < s.len() ==> #[trigger] s[i].len() > #[trigger] s[j].len()
}

/// The candidates among `c` whose flag in `a` is set, in the order of `c`.
pub open spec fn kept(c: Seq<Seq<Seq<char>>>, a: Seq<bool>) -> Seq<Seq<Seq<char>>>
    decreases c.len(),
{
    if c.len() == 0 || a.len() == 0 {
        Seq::empty()
    } else {
        let rest = kept(c.drop_last(), a.drop_last());
        if a.last() {
            rest.push(c.last())
        } else {
            rest
        }
    }
}

/// The candidate directories of a scope, primary first.
pub open spec fn resolved(scope: Option<VenvScope>, inputs: &ScopeInputs) -> Result<
    Seq<Seq<Seq<char>>>,
    ScopeError,
> {
    if scope == Some(VenvScope::Local) {
        match inputs.local_override {
            OverrideDir::Dir(d) => Ok(seq![d@]),
            OverrideDir::Invalid => Err(ScopeError::InvalidLocalOverride),
            OverrideDir::Unset => if inputs.local_found@.len() > 0 {
                Ok(paths_view(inputs.local_found@))
            } else {
                match inputs.cwd {
                    Some(c) => Ok(seq![marker_in(c@)]),
                    None => Err(ScopeError::NoWorkingDir),
                }
            },
        }
    } else {
        match inputs.global_override {
            OverrideDir::Dir(d) => Ok(seq![d@]),
            OverrideDir::Invalid => Err(ScopeError::InvalidGlobalOverride),
            OverrideDir::Unset => match inputs.data_dir {
                Some(d) => Ok(seq![d@.push(app_name()).push(venvs_name())]),
                None => Err(ScopeError::NoStateDir),
            },
        }
    }
}

fn marker_dir_of(dir: &StorePath) -> (r: StorePath)
    ensures
        r@ == marker_in(dir@),
{
    proof {
        reveal_strlit(".meowda");
        reveal_strlit("venvs");
        assert(".meowda"@ =~= marker_name());
        assert("venvs"@ =~= venvs_name());
    }
    dir.join(".meowda").join("venvs")
}

/// The marker directories to probe when walking up from `cwd` to the root,
/// nearest first.
pub fn marker_candidates(cwd: &StorePath) -> (r: Vec<StorePath>)
    ensures
        r@.len() == cwd@.len() + 1,
        forall|k: int| 0 <= k < r@.len() ==> #[trigger] r@[k]@ == candidate_at(cwd@, k),
        paths_view(r@) == walk_candidates(cwd@),
{
    let mut r: Vec<StorePath> = Vec::new();
    let mut current = cwd.copy();
    loop
        invariant_except_break
            r@.len() <= cwd@.len(),
            current@ == cwd@.subrange(0, cwd@.len() - r@.len()),
        invariant
            forall|k: int| 0 <= k < r@.len() ==> #[trigger] r@[k]@ == candidate_at(cwd@, k),
        ensures
            r@.len() == cwd@.len() + 1,
        decreases current@.len(),
    {
        let m = marker_dir_of(&current);
        r.push(m);
        match current.parent() {
            Some(p) => {
                proof {
                    assert(p@ =~= cwd@.subrange(0, cwd@.len() - r@.len()));
                }
                current = p;
            },
            None => {
                break;
            },
        }
    }
    proof {
        assert(paths_view(r@) =~= walk_candidates(cwd@));
    }
    r
}

/// The candidates whose flag in `accessible` is set, in their order.
pub fn select_found(candidates: &Vec<StorePath>, accessible: &Vec<bool>) -> (r: Vec<StorePath>)
    requires
        candidates@.len() == accessible@.len(),
    ensures
        paths_view(r@) == kept(paths_view(candidates@), accessible@),
{
    let mut r: Vec<StorePath> = Vec::new();
    let mut i: usize = 0;
    while i < candidates.len()
        invariant
            i <= candidates@.len(),
            candidates@.len() == accessible@.len(),
            paths_view(r@) == kept(
                paths_view(candidates@.subrange(0, i as int)),
                accessible@.subrange(0, i as int),
            ),
        decreases candidates.len() - i,
    {
        proof {
            let c1 = paths_view(candidates@.subrange(0, i + 1));
            let a1 = accessible@.subrange(0, i + 1);
            assert(c1.drop_last() =~= paths_view(candidates@.subrange(0, i as int)));
            assert(a1.drop_last() =~= accessible@.subrange(0, i as int));
        }
        if accessible[i] {
            let p = candidates[i].copy();
            let ghost before = r@;
            r.push(p);
            proof {
                assert(paths_view(r@) =~= paths_view(before).push(p@));
            }
        }
        i = i + 1;
    }
    proof {
        assert(candidates@.subrange(0, candidates@.len() as int) =~= candidates@);
        assert(accessible@.subrange(0, accessible@.len() as int) =~= accessible@);
    }
    r
}

pub fn copy_paths(v: &Vec<StorePath>) -> (r: Vec<StorePath>)
    ensures
        paths_view(r@) == paths_view(v@),
{
    let mut r: Vec<StorePath> = Vec::new();
    let mut i: usize = 0;
    while i < v.len()
        invariant
            i <= v@.len(),
            paths_view(r@) == paths_view(v@.subrange(0, i as int)),
        decreases v.len() - i,
    {
        let p = v[i].copy();
        let ghost before = r@;
        r.push(p);
        proof {
            assert(paths_view(r@) =~= paths_view(before).push(p@));
            assert(paths_view(v@.subrange(0, i + 1)) =~= paths_view(v@.subrange(0, i as int)).push(
                v@[i as int]@,
            ));
        }
        i = i + 1;
    }
    proof {
        assert(v@.subrange(0, v@.len() as int) =~= v@);
    }
    r
}

fn one_path(p: &StorePath) -> (r: Vec<StorePath>)
    ensures
        paths_view(r@) == seq![p@],
{
    let mut r: Vec<StorePath> = Vec::new();
    r.push(p.copy());
    proof {
        assert(paths_view(r@) =~= seq![p@]);
    }
    r
}

/// The candidate directories of `scope`, primary first; no scope means `Global`.
pub fn resolve(scope: Option<VenvScope>, inputs: &ScopeInputs) -> (r: Result<
    Vec<StorePath>,
    ScopeError,
>)
    ensures
        match r {
            Ok(v) => resolved(scope, inputs) == Ok::<Seq<Seq<Seq<char>>>, ScopeError>(
                paths_view(v@),
            ),
            Err(e) => resolved(scope, inputs) == Err::<Seq<Seq<Seq<char>>>, ScopeError>(e),
        },
{
    let local = match scope {
        Some(VenvScope::Local) => true,
        _ => false,
    };
    if local {
        match &inputs.local_override {
            OverrideDir::Dir(d) => Ok(one_path(d)),
            OverrideDir::Invalid => Err(ScopeError::InvalidLocalOverride),
            OverrideDir::Unset => {
                if inputs.local_found.len() > 0 {
                    Ok(copy_paths(&inputs.local_found))
                } else {
                    match &inputs.cwd {
                        Some(c) => Ok(one_path(&marker_dir_of(c))),
                        None => Err(ScopeError::NoWorkingDir),
                    }
                }
            },
        }
    } else {
        match &inputs.global_override {
            OverrideDir::Dir(d) => Ok(one_path(d)),
            OverrideDir::Invalid => Err(ScopeError::InvalidGlobalOverride),
            OverrideDir::Unset => match &inputs.data_dir {
                Some(d) => {
                    proof {
                        reveal_strlit("meowda");
                        reveal_strlit("venvs");
                        assert("meowda"@ =~= app_name());
                        assert("venvs"@ =~= venvs_name());
                    }
                    Ok(one_path(&d.join("meowda").join("venvs")))
                },
                None => Err(ScopeError::NoStateDir),
            },
        }
    }
}

/// `x` is one of the candidates in `c` whose flag in `a` is set.
pub open spec fn flagged(c: Seq<Seq<Seq<char>>>, a: Seq<bool>, x: Seq<Seq<char>>) -> bool {
    exists|k: int| 0 <= k < c.len() && x == #[trigger] c[k] && a[k]
}

proof fn lemma_kept_from(c: Seq<Seq<Seq<char>>>, a: Seq<bool>)
    requires
        a.len() == c.len(),
    ensures
        kept(c, a).len() <= c.len(),
        forall|i: int| 0 <= i < kept(c, a).len() ==> #[trigger] flagged(c, a, kept(c, a)[i]),
        nearest_first(c) ==> nearest_first(kept(c, a)),
    decreases c.len(),
{
    if c.len() == 0 || a.len() == 0 {
    } else {
        let c0 = c.drop_last();
        let a0 = a.drop_last();
        lemma_kept_from(c0, a0);
        let rest = kept(c0, a0);
        if nearest_first(c) {
            assert(nearest_first(c0));
        }
        if a.last() {
            let s = rest.push(c.last());
            assert forall|i: int| 0 <= i < s.len() implies #[trigger] flagged(c, a, s[i]) by {
                if i < rest.len() {
                    assert(flagged(c0, a0, rest[i]));
                    let k = choose|k: int| 0 <= k < c0.len() && rest[i] == #[trigger] c0[k] && a0[k];
                    assert(c[k] == c0[k] && a[k] == a0[k]);
                    assert(s[i] == c[k]);
                } else {
                    assert(s[i] == c[c.len() - 1]);
                }
            }
            if nearest_first(c) {
                assert forall|i: int, j: int| 0 <= i < j < s.len() implies #[trigger] s[i].len()
                    > #[trigger] s[j].len() by {
                    if j == s.len() - 1 {
                        assert(flagged(c0, a0, rest[i]));
                        let k = choose|k: int|
                            0 <= k < c0.len() && rest[i] == #[trigger] c0[k] && a0[k];
                        assert(c[k] == c0[k] && a[k] == a0[k]);
                        assert(c[k].len() > c[c.len() - 1].len());
                    } else {
                        assert(rest[i].len() > rest[j].len());
                    }
                }
            }
        } else {
            assert forall|i: int| 0 <= i < rest.len() implies #[trigger] flagged(
                c,
                a,
                rest[i],
            ) by {
                assert(flagged(c0, a0, rest[i]));
                let k = choose|k: int| 0 <= k < c0.len() && rest[i] == #[trigger] c0[k] && a0[k];
                assert(c[k] == c0[k] && a[k] == a0[k]);
            }
        }
    }
}

/// The marker directories found on the walk up from `cwd` come nearest first:
/// each found directory lies deeper than every one after it, and each is the
/// marker directory of an ancestor whose probe succeeded.
pub proof fn lemma_walk_nearest_first(cwd: Seq<Seq<char>>, accessible: Seq<bool>)
    requires
        accessible.len() == cwd.len() + 1,
    ensures
        nearest_first(kept(walk_candidates(cwd), accessible)),
        forall|i: int|
            0 <= i < kept(walk_candidates(cwd), accessible).len() ==> #[trigger] flagged(
                walk_candidates(cwd),
                accessible,
                kept(walk_candidates(cwd), accessible)[i],
            ),
{
    let c = walk_candidates(cwd);
    assert forall|i: int, j: int| 0 <= i < j < c.len() implies #[trigger] c[i].len()
        > #[trigger] c[j].len() by {
        assert(c[i].len() == cwd.len() - i + 2);
        assert(c[j].len() == cwd.len() - j + 2);
    }
    lemma_kept_from(c, accessible);
}

/// With the local override variable naming a directory, the local scope resolves
/// to exactly that directory, whatever marker directories the walk found.
pub proof fn lemma_local_override_wins(inputs: &ScopeInputs, d: StorePath)
    requires
        inputs.local_override == OverrideDir::Dir(d),
    ensures
        resolved(Some(VenvScope::Local), inputs) == Ok::<Seq<Seq<Seq<char>>>, ScopeError>(
            seq![d@],
        ),
{
}

} // verus!
