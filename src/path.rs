use vstd::prelude::*;

verus! {

/// An absolute filesystem path, held as its components below the root.
/// `/a/b` has the components `["a", "b"]`; the root has none.
pub struct StorePath {
    pub parts: Vec<String>,
}

impl View for StorePath {
    type V = Seq<Seq<char>>;

    open spec fn view(&self) -> Seq<Seq<char>> {
        self.parts@.map_values(|s: String| s@)
    }
}

/// `base` is `p` itself or one of its ancestors.
pub open spec fn is_prefix(base: Seq<Seq<char>>, p: Seq<Seq<char>>) -> bool {
    base.len() <= p.len() && p.subrange(0, base.len() as int) == base
}

/// The textual form of a path: `/` for the root, else `/` before each component.
pub open spec fn rendered(p: Seq<Seq<char>>) -> Seq<char>
    decreases p.len(),
{
    if p.len() == 0 {
        seq!['/']
    } else {
        joined(p)
    }
}

pub open spec fn joined(p: Seq<Seq<char>>) -> Seq<char>
    decreases p.len(),
{
    if p.len() == 0 {
        Seq::empty()
    } else {
        joined(p.drop_last()) + seq!['/'] + p.last()
    }
}

fn copy_strings(v: &Vec<String>) -> (r: Vec<String>)
    ensures
        r@ == v@,
{
    let mut r: Vec<String> = Vec::new();
    let mut i: usize = 0;
    while i < v.len()
        invariant
            i <= v.len(),
            r@ == v@.subrange(0, i as int),
        decreases v.len() - i,
    {
        r.push(v[i].clone());
        i = i + 1;
    }
    proof {
        assert(r@ =~= v@);
    }
    r
}

impl StorePath {
    /// The root directory.
    pub fn root() -> (r: StorePath)
        ensures
            r@ == Seq::<Seq<char>>::empty(),
    {
        let r = StorePath { parts: Vec::new() };
        proof {
            assert(r@ =~= Seq::<Seq<char>>::empty());
        }
        r
    }

    /// The path with the given components below the root.
    pub fn from_parts(parts: Vec<String>) -> (r: StorePath)
        ensures
            r.parts@ == parts@,
    {
        StorePath { parts }
    }

    pub fn copy(&self) -> (r: StorePath)
        ensures
            r@ == self@,
            r.parts@ == self.parts@,
    {
        StorePath { parts: copy_strings(&self.parts) }
    }

    /// This path with one more component `name` at its end.
    pub fn join(&self, name: &str) -> (r: StorePath)
        ensures
            r@ == self@.push(name@),
    {
        let mut parts = copy_strings(&self.parts);
        parts.push(name.to_owned());
        let r = StorePath { parts };
        proof {
            assert(r@ =~= self@.push(name@));
        }
        r
    }

    /// The directory that holds this path; `None` for the root.
    pub fn parent(&self) -> (r: Option<StorePath>)
        ensures
            r is None <==> self@.len() == 0,
            r matches Some(q) ==> q@ == self@.drop_last(),
    {
        if self.parts.len() == 0 {
            None
        } else {
            let mut parts = copy_strings(&self.parts);
            parts.pop();
            let r = StorePath { parts };
            proof {
                assert(r@ =~= self@.drop_last());
            }
            Some(r)
        }
    }

    /// Whether `base` is this path or one of its ancestors, comparing whole components.
    pub fn starts_with(&self, base: &StorePath) -> (r: bool)
        ensures
            r == is_prefix(base@, self@),
    {
        if base.parts.len() > self.parts.len() {
            return false;
        }
        let mut i: usize = 0;
        while i < base.parts.len()
            invariant
                base@.len() <= self@.len(),
                i <= base@.len(),
                self@.subrange(0, i as int) == base@.subrange(0, i as int),
            decreases base.parts.len() - i,
        {
            if self.parts[i] != base.parts[i] {
                proof {
                    assert(self@[i as int] != base@[i as int]);
                    assert(self@.subrange(0, base@.len() as int)[i as int] == self@[i as int]);
                }
                return false;
            }
            proof {
                assert(self@.subrange(0, i + 1) =~= self@.subrange(0, i as int).push(self@[i as int]));
                assert(base@.subrange(0, i + 1) =~= base@.subrange(0, i as int).push(base@[i as int]));
            }
            i = i + 1;
        }
        proof {
            assert(base@.subrange(0, base@.len() as int) =~= base@);
        }
        true
    }

    /// Whether the two paths have the same components.
    pub fn same_as(&self, other: &StorePath) -> (r: bool)
        ensures
            r == (self@ == other@),
    {
        if self.parts.len() != other.parts.len() {
            return false;
        }
        let r = self.starts_with(other);
        proof {
            assert(self@.subrange(0, other@.len() as int) =~= self@);
        }
        r
    }

    /// The textual form, `/` for the root and `/a/b` for components `a`, `b`.
    pub fn render(&self) -> (r: String)
        ensures
            r@ == rendered(self@),
    {
        if self.parts.len() == 0 {
            let r = String::from_str("/");
            proof {
                reveal_strlit("/");
            }
            return r;
        }
        let mut s = String::new();
        let mut i: usize = 0;
        while i < self.parts.len()
            invariant
                i <= self@.len(),
                s@ == joined(self@.subrange(0, i as int)),
            decreases self.parts.len() - i,
        {
            proof {
                reveal_strlit("/");
                let next = self@.subrange(0, i + 1);
                assert(next.drop_last() =~= self@.subrange(0, i as int));
                assert(next.last() == self@[i as int]);
            }
            s.append("/");
            s.append(self.parts[i].as_str());
            i = i + 1;
        }
        proof {
            assert(self@.subrange(0, self@.len() as int) =~= self@);
        }
        s
    }
}

} // verus!
