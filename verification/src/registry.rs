//! The set of known projects, built once at startup.

use vstd::prelude::*;

use crate::paths::seq_views;

verus! {

/// The names of the known projects: the web root's immediate subdirectories
/// as found by the startup scan, minus the default project. Read-only after
/// construction.
pub struct ProjectRegistry {
    names: Vec<String>,
}

impl View for ProjectRegistry {
    type V = Seq<Seq<char>>;

    closed spec fn view(&self) -> Seq<Seq<char>> {
        seq_views(self.names@)
    }
}

impl ProjectRegistry {
    /// Keeps every scanned directory name except the default project's, so
    /// the default never appears as an ordinary project.
    pub fn from_scan(dirs: Vec<String>, default_project: &String) -> (r: ProjectRegistry)
        ensures
            r@ == seq_views(dirs@).filter(|n: Seq<char>| n != default_project@),
            !r@.contains(default_project@),
    {
        broadcast use vstd::seq_lib::group_filter_ensures, Seq::lemma_filter_push;

        let ghost pred = |n: Seq<char>| n != default_project@;
        let mut names: Vec<String> = Vec::new();
        let n = dirs.len();
        let mut i: usize = 0;
        proof {
            assert(seq_views(dirs@).subrange(0, 0) =~= Seq::<Seq<char>>::empty());
            assert(seq_views(names@) =~= Seq::<Seq<char>>::empty().filter(pred));
        }
        while i < n
            invariant
                i <= n,
                n == dirs@.len(),
                seq_views(names@) == seq_views(dirs@).subrange(0, i as int).filter(pred),
                pred == (|n: Seq<char>| n != default_project@),
            decreases n - i,
        {
            let ghost before = seq_views(dirs@).subrange(0, i as int);
            let ghost st = seq_views(names@);
            let d = &dirs[i];
            if !(*d == *default_project) {
                names.push(d.clone());
                proof {
                    assert(seq_views(names@) =~= st.push(d@));
                }
            }
            i += 1;
            proof {
                assert(seq_views(dirs@).subrange(0, i as int) =~= before.push(d@));
                before.lemma_filter_push(d@, pred);
                assert(before.push(d@).filter(pred) == if pred(d@) {
                    before.filter(pred).push(d@)
                } else {
                    before.filter(pred)
                });
            }
        }
        proof {
            assert(seq_views(dirs@).subrange(0, n as int) =~= seq_views(dirs@));
        }
        let r = ProjectRegistry { names };
        proof {
            if r@.contains(default_project@) {
                let k = choose|k: int| 0 <= k < r@.len() && r@[k] == default_project@;
                assert(pred(r@[k]));
            }
        }
        r
    }

    /// Whether `name` is a known project.
    pub fn contains(&self, name: &String) -> (r: bool)
        ensures
            r == self@.contains(name@),
    {
        let n = self.names.len();
        let mut i: usize = 0;
        while i < n
            invariant
                i <= n,
                n == self.names@.len(),
                forall|k: int| 0 <= k < i ==> self.names@[k]@ != name@,
            decreases n - i,
        {
            if self.names[i] == *name {
                proof {
                    assert(self@[i as int] == name@);
                }
                return true;
            }
            i += 1;
        }
        proof {
            assert forall|k: int| 0 <= k < self@.len() implies self@[k] != name@ by {
                assert(self@[k] == self.names@[k]@);
            }
        }
        false
    }

    /// All known project names, for startup port assignment.
    pub fn names(&self) -> (r: &Vec<String>)
        ensures
            seq_views(r@) == self@,
    {
        &self.names
    }

    /// How many projects are known.
    pub fn len(&self) -> (r: usize)
        ensures
            r == self@.len(),
    {
        self.names.len()
    }
}

} // verus!
