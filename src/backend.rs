use vstd::prelude::*;
use crate::path::{StorePath, is_prefix, rendered};
use crate::scope::{ScopeError, ScopeInputs, VenvScope, resolved};
use crate::store::{VenvStore, holds};
use crate::scope::paths_view;

verus! {

/// One environment of a listing.
pub struct EnvInfo {
    pub name: String,
    pub path: StorePath,
    pub is_active: bool,
}

/// One entry of the primary directory, as read from disk.
pub struct DirEntryInfo {
    /// The entry's name; `None` where it is not valid UTF-8.
    pub name: Option<String>,
    pub is_dir: bool,
    /// The entry's canonical path; `None` where it could not be canonicalised.
    pub canonical: Option<StorePath>,
}

/// Runs environment commands through the provisioning program.
pub struct VenvBackend {
    pub uv_path: String,
}

#[derive(PartialEq, Eq, Clone, Copy, Debug, Structural)]
pub enum BackendError {
    /// The provisioning program does not answer.
    ToolUnavailable,
    /// The store's directory could not be determined.
    Scope(ScopeError),
    /// `create` without `clear` of a name that exists.
    AlreadyExists,
    /// `remove` of a name that exists in no candidate directory.
    DoesNotExist,
    /// The primary directory is missing.
    StoreMissing,
    /// No environment is activated.
    NoActiveEnv,
    /// The activated environment lies outside every candidate directory.
    NotManaged,
}

/// What `create` has to do, in order, under the store's lock.
pub struct CreatePlan {
    /// A directory tree to delete first.
    pub remove_first: Option<StorePath>,
    /// Where the environment is made.
    pub target: StorePath,
    /// The arguments for the provisioning program.
    pub args: Vec<String>,
}

pub open spec fn strings_view(v: Seq<String>) -> Seq<Seq<char>> {
    v.map_values(|s: String| s@)
}

pub open spec fn venv_args(target: Seq<Seq<char>>, python: Seq<char>) -> Seq<Seq<char>> {
    seq!["venv"@, rendered(target), "--python"@, python, "--seed"@]
}

pub open spec fn some_holds(s: &VenvStore, existing: Seq<Seq<Seq<char>>>, name: Seq<char>) -> bool {
    exists|i: int| 0 <= i < s.candidates().len() && holds(existing, #[trigger] s.candidates()[i], name)
}

pub open spec fn managed(s: &VenvStore, p: Seq<Seq<char>>) -> bool {
    exists|i: int| 0 <= i < s.candidates().len() && is_prefix(#[trigger] s.candidates()[i], p)
}

/// The error that stops a package command, if any.
pub open spec fn package_error(s: &VenvStore, store_dir_exists: bool, active: Option<StorePath>) -> Option<BackendError> {
    if !store_dir_exists {
        Some(BackendError::StoreMissing)
    } else {
        match active {
            None => Some(BackendError::NoActiveEnv),
            Some(a) => if managed(s, a@) {
                None
            } else {
                Some(BackendError::NotManaged)
            },
        }
    }
}

pub open spec fn entry_shown(e: DirEntryInfo) -> bool {
    e.is_dir && e.name is Some
}

pub open spec fn entry_active(e: DirEntryInfo, active: Option<StorePath>) -> bool {
    match (e.canonical, active) {
        (Some(c), Some(a)) => c@ == a@,
        _ => false,
    }
}

/// What a listing holds for each shown entry: its name, its path in the primary
/// directory, and whether it is the activated environment.
pub open spec fn listed(primary: Seq<Seq<char>>, es: Seq<DirEntryInfo>, active: Option<StorePath>) -> Seq<(Seq<char>, Seq<Seq<char>>, bool)>
    decreases es.len(),
{
    if es.len() == 0 {
        Seq::empty()
    } else {
        let rest = listed(primary, es.drop_last(), active);
        let e = es.last();
        if entry_shown(e) {
            let n = e.name->Some_0@;
            rest.push((n, primary.push(n), entry_active(e, active)))
        } else {
            rest
        }
    }
}

pub open spec fn infos_view(v: Seq<EnvInfo>) -> Seq<(Seq<char>, Seq<Seq<char>>, bool)> {
    v.map_values(|e: EnvInfo| (e.name@, e.path@, e.is_active))
}

fn string_of(s: &str) -> (r: String)
    ensures
        r@ == s@,
{
    s.to_owned()
}

impl VenvBackend {
    /// A backend over the `uv` program; `uv_available` says whether it answered.
    pub fn new(uv_available: bool) -> (r: Result<VenvBackend, BackendError>)
        ensures
            uv_available <==> r is Ok,
            r matches Ok(b) ==> b.uv_path@ == "uv"@,
            r matches Err(e) ==> e == BackendError::ToolUnavailable,
    {
        if !uv_available {
            return Err(BackendError::ToolUnavailable);
        }
        Ok(VenvBackend { uv_path: string_of("uv") })
    }

    /// The provisioning program.
    pub fn program(&self) -> (r: &str)
        ensures
            r@ == self.uv_path@,
    {
        self.uv_path.as_str()
    }

    /// The store of `scope`.
    pub fn get_venv_store(scope: Option<VenvScope>, inputs: &ScopeInputs) -> (r: Result<VenvStore, BackendError>)
        ensures
            match r {
                Ok(s) => s.wf() && resolved(scope, inputs) == Ok::<Seq<Seq<Seq<char>>>, ScopeError>(
                    s.candidates(),
                ),
                Err(e) => exists|se: ScopeError| e == BackendError::Scope(se)
                    && resolved(scope, inputs) == Err::<Seq<Seq<Seq<char>>>, ScopeError>(se),
            },
    {
        match VenvStore::create(scope, inputs) {
            Ok(s) => Ok(s),
            Err(e) => Err(BackendError::Scope(e)),
        }
    }

    /// Whether `path` lies in one of the store's candidate directories.
    pub fn contains(&self, store: &VenvStore, path: &StorePath) -> (r: bool)
        ensures
            r == managed(store, path@),
    {
        store.contains(path)
    }

    /// The plan for creating environment `name` with interpreter `python`.
    /// `existing` lists directories present on disk, as for `VenvStore::env_exists`.
    pub fn create(&self, store: &VenvStore, name: &str, python: &str, clear: bool, existing: &Vec<StorePath>) -> (r: Result<CreatePlan, BackendError>)
        requires
            store.wf(),
        ensures
            r is Err <==> (some_holds(store, paths_view(existing@), name@) && !clear),
            r matches Err(e) ==> e == BackendError::AlreadyExists,
            r matches Ok(p) ==> {
                &&& p.target@ == store.candidates()[0].push(name@)
                &&& (p.remove_first is Some <==> some_holds(store, paths_view(existing@), name@))
                &&& (p.remove_first matches Some(d) ==> d@ == p.target@)
                &&& strings_view(p.args@) == venv_args(p.target@, python@)
            },
    {
        let found = store.env_exists(name, existing);
        if found && !clear {
            return Err(BackendError::AlreadyExists);
        }
        let target = store.path().join(name);
        let remove_first = if found {
            Some(target.copy())
        } else {
            None
        };
        let mut args: Vec<String> = Vec::new();
        args.push(string_of("venv"));
        args.push(target.render());
        args.push(string_of("--python"));
        args.push(string_of(python));
        args.push(string_of("--seed"));
        proof {
            assert(strings_view(args@) =~= venv_args(target@, python@));
        }
        Ok(CreatePlan { remove_first, target, args })
    }

    /// The directory tree to delete for removing environment `name`.
    pub fn remove(&self, store: &VenvStore, name: &str, existing: &Vec<StorePath>) -> (r: Result<StorePath, BackendError>)
        requires
            store.wf(),
        ensures
            r is Ok <==> some_holds(store, paths_view(existing@), name@),
            r matches Ok(d) ==> d@ == store.candidates()[0].push(name@),
            r matches Err(e) ==> e == BackendError::DoesNotExist,
    {
        if !store.env_exists(name, existing) {
            return Err(BackendError::DoesNotExist);
        }
        Ok(store.path().join(name))
    }

    /// The environments among the entries of the primary directory, in their order;
    /// `active` is the canonical path of the activated environment.
    pub fn list(&self, store: &VenvStore, entries: &Vec<DirEntryInfo>, active: &Option<StorePath>) -> (r: Vec<EnvInfo>)
        requires
            store.wf(),
        ensures
            infos_view(r@) == listed(store.candidates()[0], entries@, *active),
    {
        let primary = store.path();
        let mut r: Vec<EnvInfo> = Vec::new();
        let mut i: usize = 0;
        while i < entries.len()
            invariant
                i <= entries@.len(),
                primary@ == store.candidates()[0],
                infos_view(r@) == listed(primary@, entries@.subrange(0, i as int), *active),
            decreases entries.len() - i,
        {
            let e = &entries[i];
            proof {
                assert(entries@.subrange(0, i + 1).drop_last() =~= entries@.subrange(0, i as int));
                assert(entries@.subrange(0, i + 1).last() == entries@[i as int]);
            }
            if e.is_dir {
                match &e.name {
                    Some(n) => {
                        let is_active = match (&e.canonical, active) {
                            (Some(c), Some(a)) => c.same_as(a),
                            _ => false,
                        };
                        let info = EnvInfo { name: n.clone(), path: primary.join(n.as_str()), is_active };
                        let ghost before = r@;
                        r.push(info);
                        proof {
                            assert(infos_view(r@) =~= infos_view(before).push((n@, primary@.push(n@), is_active)));
                        }
                    },
                    None => {},
                }
            }
            i = i + 1;
        }
        proof {
            assert(entries@.subrange(0, entries@.len() as int) =~= entries@);
        }
        r
    }

    fn package_command(&self, store: &VenvStore, store_dir_exists: bool, active: &Option<StorePath>, sub: &str, extra: &Vec<String>) -> (r: Result<Vec<String>, BackendError>)
        ensures
            match r {
                Ok(args) => package_error(store, store_dir_exists, *active) is None
                    && strings_view(args@) == seq!["pip"@, sub@] + strings_view(extra@),
                Err(e) => package_error(store, store_dir_exists, *active) == Some(e),
            },
    {
        if !store_dir_exists {
            return Err(BackendError::StoreMissing);
        }
        match active {
            None => {
                return Err(BackendError::NoActiveEnv);
            },
            Some(a) => {
                if !self.contains(store, a) {
                    return Err(BackendError::NotManaged);
                }
            },
        }
        let mut args: Vec<String> = Vec::new();
        args.push(string_of("pip"));
        args.push(string_of(sub));
        let mut i: usize = 0;
        while i < extra.len()
            invariant
                i <= extra@.len(),
                strings_view(args@) == seq!["pip"@, sub@] + strings_view(extra@.subrange(0, i as int)),
            decreases extra.len() - i,
        {
            let ghost before = args@;
            args.push(extra[i].clone());
            proof {
                assert(strings_view(args@) =~= strings_view(before).push(extra@[i as int]@));
                assert(strings_view(extra@.subrange(0, i + 1)) =~= strings_view(extra@.subrange(0, i as int)).push(extra@[i as int]@));
            }
            i = i + 1;
        }
        proof {
            assert(extra@.subrange(0, extra@.len() as int) =~= extra@);
        }
        Ok(args)
    }

    /// The arguments for installing packages into the activated environment,
    /// `extra` passed on as given; `active` is its canonical path.
    pub fn install(&self, store: &VenvStore, store_dir_exists: bool, active: &Option<StorePath>, extra: &Vec<String>) -> (r: Result<Vec<String>, BackendError>)
        ensures
            match r {
                Ok(args) => package_error(store, store_dir_exists, *active) is None
                    && strings_view(args@) == seq!["pip"@, "install"@] + strings_view(extra@),
                Err(e) => package_error(store, store_dir_exists, *active) == Some(e),
            },
    {
        self.package_command(store, store_dir_exists, active, "install", extra)
    }

    /// The arguments for uninstalling packages from the activated environment.
    pub fn uninstall(&self, store: &VenvStore, store_dir_exists: bool, active: &Option<StorePath>, extra: &Vec<String>) -> (r: Result<Vec<String>, BackendError>)
        ensures
            match r {
                Ok(args) => package_error(store, store_dir_exists, *active) is None
                    && strings_view(args@) == seq!["pip"@, "uninstall"@] + strings_view(extra@),
                Err(e) => package_error(store, store_dir_exists, *active) == Some(e),
            },
    {
        self.package_command(store, store_dir_exists, active, "uninstall", extra)
    }

    /// The primary directory of the store.
    pub fn dir(&self, store: &VenvStore) -> (r: StorePath)
        requires
            store.wf(),
        ensures
            r@ == store.candidates()[0],
    {
        store.path().copy()
    }
}

} // verus!
