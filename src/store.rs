use vstd::prelude::*;
use crate::path::{StorePath, is_prefix};
use crate::scope::{ScopeError, ScopeInputs, VenvScope, copy_paths, paths_view, resolve, resolved};

verus! {

/// A registry of environments over its candidate directories. The first is
/// the primary directory, the only one that is created, locked or listed; the
/// others are shadow directories, consulted nearest first.
pub struct VenvStore {
    pub paths: Vec<StorePath>,
}

/// What `init` has to do, given what is on disk.
pub struct InitPlan {
    /// Create the primary directory and its parents.
    pub create_dir: bool,
    /// Create the marker file; it is written only where it is absent.
    pub write_marker: bool,
    pub dir: StorePath,
    pub marker: StorePath,
    pub marker_contents: Vec<u8>,
}

/// The part of the disk that readiness depends on.
pub struct StoreDisk {
    pub dir: bool,
    pub marker: Option<Seq<u8>>,
}

pub open spec fn ready(d: StoreDisk) -> bool {
    d.dir && d.marker is Some
}

/// The disk after carrying out a plan: the directory is made if asked, and the
/// marker is created only where none exists (an existing one is never rewritten).
pub open spec fn applied(d: StoreDisk, create_dir: bool, write_marker: bool, contents: Seq<u8>) -> StoreDisk {
    StoreDisk {
        dir: d.dir || create_dir,
        marker: if write_marker && d.marker is None {
            Some(contents)
        } else {
            d.marker
        },
    }
}

pub open spec fn marker_file_name() -> Seq<char> {
    seq!['.', 'g', 'i', 't', 'i', 'g', 'n', 'o', 'r', 'e']
}

pub open spec fn lock_file_name() -> Seq<char> {
    seq!['.', 'l', 'o', 'c', 'k']
}

/// The directory `cand` holds an entry `name`, by the list of directories on disk.
pub open spec fn holds(existing: Seq<Seq<Seq<char>>>, cand: Seq<Seq<char>>, name: Seq<char>) -> bool {
    existing.contains(cand.push(name))
}

impl VenvStore {
    pub open spec fn candidates(&self) -> Seq<Seq<Seq<char>>> {
        paths_view(self.paths@)
    }

    pub open spec fn wf(&self) -> bool {
        self.paths@.len() >= 1
    }

    /// The store of `scope`, over the candidate directories that it resolves to.
    pub fn create(scope: Option<VenvScope>, inputs: &ScopeInputs) -> (r: Result<VenvStore, ScopeError>)
        ensures
            match r {
                Ok(s) => s.wf() && resolved(scope, inputs) == Ok::<Seq<Seq<Seq<char>>>, ScopeError>(
                    s.candidates(),
                ),
                Err(e) => resolved(scope, inputs) == Err::<Seq<Seq<Seq<char>>>, ScopeError>(e),
            },
    {
        match resolve(scope, inputs) {
            Ok(paths) => {
                proof {
                    assert(paths_view(paths@).len() >= 1);
                }
                Ok(VenvStore { paths })
            },
            Err(e) => Err(e),
        }
    }

    /// A store over the given candidates, primary first; `None` where there are none.
    pub fn with_candidates(paths: Vec<StorePath>) -> (r: Option<VenvStore>)
        ensures
            r is None <==> paths@.len() == 0,
            r matches Some(s) ==> s.wf() && s.paths@ == paths@,
    {
        if paths.len() == 0 {
            None
        } else {
            Some(VenvStore { paths })
        }
    }

    /// The primary directory.
    pub fn path(&self) -> (r: &StorePath)
        requires
            self.wf(),
        ensures
            r@ == self.candidates()[0],
    {
        &self.paths[0]
    }

    /// All candidate directories, primary first.
    pub fn all_paths(&self) -> (r: Vec<StorePath>)
        ensures
            paths_view(r@) == self.candidates(),
    {
        copy_paths(&self.paths)
    }

    /// The marker file, whose presence in the primary directory makes the store ready.
    pub fn marker_path(&self) -> (r: StorePath)
        requires
            self.wf(),
        ensures
            r@ == self.candidates()[0].push(marker_file_name()),
    {
        proof {
            reveal_strlit(".gitignore");
            assert(".gitignore"@ =~= marker_file_name());
        }
        self.paths[0].join(".gitignore")
    }

    /// The lock file in the primary directory.
    pub fn lock_path(&self) -> (r: StorePath)
        requires
            self.wf(),
        ensures
            r@ == self.candidates()[0].push(lock_file_name()),
    {
        proof {
            reveal_strlit(".lock");
            assert(".lock"@ =~= lock_file_name());
        }
        self.paths[0].join(".lock")
    }

    /// Ready: the primary directory exists and holds the marker file.
    pub fn is_ready(&self, dir_is_dir: bool, marker_exists: bool) -> (r: bool)
        ensures
            r == (dir_is_dir && marker_exists),
    {
        dir_is_dir && marker_exists
    }

    /// What bringing the store to readiness takes, given what is on disk.
    pub fn init(&self, dir_is_dir: bool, marker_exists: bool) -> (r: InitPlan)
        requires
            self.wf(),
        ensures
            r.create_dir == !dir_is_dir,
            r.write_marker == !marker_exists,
            r.dir@ == self.candidates()[0],
            r.marker@ == self.candidates()[0].push(marker_file_name()),
            r.marker_contents@ == seq![42u8],
    {
        let mut contents: Vec<u8> = Vec::new();
        contents.push(42u8);
        InitPlan {
            create_dir: !dir_is_dir,
            write_marker: !marker_exists,
            dir: self.paths[0].copy(),
            marker: self.marker_path(),
            marker_contents: contents,
        }
    }

    /// The path of `name` in each candidate directory, in candidate order.
    pub fn env_paths(&self, name: &str) -> (r: Vec<StorePath>)
        ensures
            r@.len() == self.candidates().len(),
            forall|i: int| 0 <= i < r@.len() ==> #[trigger] r@[i]@ == self.candidates()[i].push(name@),
    {
        let mut r: Vec<StorePath> = Vec::new();
        let mut i: usize = 0;
        while i < self.paths.len()
            invariant
                i <= self.paths@.len(),
                r@.len() == i,
                forall|j: int| 0 <= j < i ==> #[trigger] r@[j]@ == self.candidates()[j].push(name@),
            decreases self.paths.len() - i,
        {
            r.push(self.paths[i].join(name));
            i = i + 1;
        }
        r
    }

    /// The index of the first candidate that holds `name`, if any.
    fn first_holding(&self, name: &str, existing: &Vec<StorePath>) -> (r: Option<usize>)
        ensures
            match r {
                Some(i) => i < self.candidates().len() && holds(paths_view(existing@), self.candidates()[i as int], name@)
                    && forall|j: int| 0 <= j < i ==> !holds(paths_view(existing@), #[trigger] self.candidates()[j], name@),
                None => forall|j: int| 0 <= j < self.candidates().len() ==> !holds(paths_view(existing@), #[trigger] self.candidates()[j], name@),
            },
    {
        let mut i: usize = 0;
        while i < self.paths.len()
            invariant
                i <= self.paths@.len(),
                forall|j: int| 0 <= j < i ==> !holds(paths_view(existing@), #[trigger] self.candidates()[j], name@),
            decreases self.paths.len() - i,
        {
            let p = self.paths[i].join(name);
            if list_has(existing, &p) {
                return Some(i);
            }
            i = i + 1;
        }
        None
    }

    /// Whether some candidate directory holds an environment `name`; `existing`
    /// lists directories present on disk, among them every path of `env_paths(name)`
    /// that exists.
    pub fn env_exists(&self, name: &str, existing: &Vec<StorePath>) -> (r: bool)
        ensures
            r == exists|i: int| 0 <= i < self.candidates().len() && holds(paths_view(existing@), #[trigger] self.candidates()[i], name@),
    {
        match self.first_holding(name, existing) {
            Some(i) => true,
            None => false,
        }
    }

    /// The path of `name` in the nearest candidate directory that holds it.
    pub fn find_env_path(&self, name: &str, existing: &Vec<StorePath>) -> (r: Option<StorePath>)
        ensures
            r is Some <==> exists|i: int| 0 <= i < self.candidates().len() && holds(paths_view(existing@), #[trigger] self.candidates()[i], name@),
            r matches Some(p) ==> exists|i: int| 0 <= i < self.candidates().len()
                && p@ == #[trigger] self.candidates()[i].push(name@)
                && holds(paths_view(existing@), self.candidates()[i], name@)
                && forall|j: int| 0 <= j < i ==> !holds(paths_view(existing@), #[trigger] self.candidates()[j], name@),
    {
        match self.first_holding(name, existing) {
            Some(i) => {
                let p = self.paths[i].join(name);
                proof {
                    assert(p@ == self.candidates()[i as int].push(name@));
                }
                Some(p)
            },
            None => None,
        }
    }

    /// The path to activate for `name`: where the nearest candidate holds it, else
    /// its place in the primary directory.
    pub fn activation_path(&self, name: &str, existing: &Vec<StorePath>) -> (r: StorePath)
        requires
            self.wf(),
        ensures
            exists|i: int| 0 <= i < self.candidates().len() && r@ == #[trigger] self.candidates()[i].push(name@),
            (exists|i: int| 0 <= i < self.candidates().len() && holds(paths_view(existing@), #[trigger] self.candidates()[i], name@))
                ==> holds(paths_view(existing@), r@.drop_last(), name@) && exists|i: int| 0 <= i < self.candidates().len()
                && r@ == #[trigger] self.candidates()[i].push(name@)
                && forall|j: int| 0 <= j < i ==> !holds(paths_view(existing@), #[trigger] self.candidates()[j], name@),
            !(exists|i: int| 0 <= i < self.candidates().len() && holds(paths_view(existing@), #[trigger] self.candidates()[i], name@))
                ==> r@ == self.candidates()[0].push(name@),
    {
        match self.first_holding(name, existing) {
            Some(i) => {
                let p = self.paths[i].join(name);
                proof {
                    assert(p@.drop_last() =~= self.candidates()[i as int]);
                }
                p
            },
            None => {
                let p = self.paths[0].join(name);
                proof {
                    assert(p@ == self.candidates()[0].push(name@));
                }
                p
            },
        }
    }

    /// Whether `p` lies in one of the candidate directories (or is one).
    pub fn contains(&self, p: &StorePath) -> (r: bool)
        ensures
            r == exists|i: int| 0 <= i < self.candidates().len() && is_prefix(#[trigger] self.candidates()[i], p@),
    {
        let mut i: usize = 0;
        while i < self.paths.len()
            invariant
                i <= self.paths@.len(),
                forall|j: int| 0 <= j < i ==> !is_prefix(#[trigger] self.candidates()[j], p@),
            decreases self.paths.len() - i,
        {
            if p.starts_with(&self.paths[i]) {
                proof {
                    assert(is_prefix(self.candidates()[i as int], p@));
                }
                return true;
            }
            i = i + 1;
        }
        false
    }
}

/// Whether `p` is among the paths of `list`.
pub fn list_has(list: &Vec<StorePath>, p: &StorePath) -> (r: bool)
    ensures
        r == paths_view(list@).contains(p@),
{
    let mut i: usize = 0;
    while i < list.len()
        invariant
            i <= list@.len(),
            forall|j: int| 0 <= j < i ==> #[trigger] paths_view(list@)[j] != p@,
        decreases list.len() - i,
    {
        if list[i].same_as(p) {
            proof {
                assert(paths_view(list@)[i as int] == p@);
            }
            return true;
        }
        i = i + 1;
    }
    false
}

/// Initialising twice is initialising once: the second plan, made from what the
/// first left on disk, changes nothing, so an existing marker keeps its contents.
pub proof fn lemma_init_idempotent(d: StoreDisk, contents: Seq<u8>)
    ensures
        ({
            let once = applied(d, !d.dir, d.marker is None, contents);
            let twice = applied(once, !once.dir, once.marker is None, contents);
            twice == once && (d.marker is Some ==> once.marker == d.marker)
        }),
{
}

/// A store is not ready while its marker is absent, and is ready right after `init`.
pub proof fn lemma_ready_after_init(d: StoreDisk, contents: Seq<u8>)
    ensures
        d.marker is None ==> !ready(d),
        ready(applied(d, !d.dir, d.marker is None, contents)),
{
}

} // verus!
