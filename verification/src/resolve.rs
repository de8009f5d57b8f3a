//! Path resolution: mapping a project name and a request-relative path to an
//! absolute location under the web root, rejecting directory traversal.

use vstd::prelude::*;

use crate::paths::is_plain_segment;
use crate::paths::norm_from;
use crate::paths::normalize_path;
use crate::paths::render_abs;
use crate::paths::seq_views;
use crate::paths::split_path;
use crate::paths::normalize_segments;
use crate::paths::render_absolute;
use crate::paths::split_segments;

verus! {

/// The verdict on a request whose path would leave the web root.
#[derive(Debug, PartialEq, Eq, Structural)]
pub struct TraversalRejected;

/// An absolute file-system location, as the sequence of its path components
/// below the filesystem root.
#[derive(Debug)]
pub struct ResolvedPath {
    segments: Vec<String>,
}

impl View for ResolvedPath {
    type V = Seq<Seq<char>>;

    closed spec fn view(&self) -> Seq<Seq<char>> {
        seq_views(self.segments@)
    }
}

impl ResolvedPath {
    /// The textual absolute path, one `/` before each component.
    pub fn to_path_string(&self) -> (r: String)
        ensures
            r@ == render_abs(self@),
    {
        render_absolute(&self.segments)
    }

    /// The path's components.
    pub fn segments(&self) -> (r: &Vec<String>)
        ensures
            seq_views(r@) == self@,
    {
        &self.segments
    }
}

/// The segments a resolution yields below the web root: the project treated
/// as one component, followed by the relative path's segments, all
/// normalized together. `None` marks an escape from the web root.
pub open spec fn resolve_segments(project: Seq<char>, rel: Seq<char>) -> Option<Seq<Seq<char>>> {
    normalize_path(seq![project] + split_path(rel))
}

/// Maps `(project, relative path)` pairs to absolute locations under a fixed
/// web root, and substitutes a fixed index file for directory requests.
pub struct PathResolver {
    web_root: Vec<String>,
    index_file: String,
}

impl PathResolver {
    /// The web root's path components.
    pub closed spec fn root_view(&self) -> Seq<Seq<char>> {
        seq_views(self.web_root@)
    }

    /// The configured index file name.
    pub closed spec fn index_view(&self) -> Seq<char> {
        self.index_file@
    }

    /// Builds a resolver for the given web root; `None` if the root path
    /// itself normalizes past the filesystem root.
    pub fn new(web_root: &str, index_file: String) -> (r: Option<PathResolver>)
        ensures
            match r {
                Some(p) => {
                    &&& normalize_path(split_path(web_root@)) == Some(p.root_view())
                    &&& p.index_view() == index_file@
                },
                None => normalize_path(split_path(web_root@)) is None,
            },
    {
        let segs = split_segments(web_root);
        match normalize_segments(&segs) {
            Some(root) => Some(PathResolver { web_root: root, index_file }),
            None => None,
        }
    }

    /// Resolves a relative path inside a project's subtree. The result is
    /// the web root followed by the normalized project-and-path segments;
    /// a path whose `..` segments would climb out of the web root is
    /// rejected, whatever form they take.
    pub fn resolve(&self, project: &String, relative: &str) -> (r: Result<
        ResolvedPath,
        TraversalRejected,
    >)
        ensures
            match r {
                Ok(p) => resolve_segments(project@, relative@) matches Some(inner) && p@
                    == self.root_view() + inner,
                Err(_) => resolve_segments(project@, relative@) is None,
            },
    {
        let mut segs: Vec<String> = Vec::new();
        segs.push(project.clone());
        let mut rest = split_segments(relative);
        proof {
            assert(seq_views(segs@ + rest@) =~= seq_views(segs@) + seq_views(rest@));
            assert(seq_views(segs@) =~= seq![project@]);
        }
        segs.append(&mut rest);
        match normalize_segments(&segs) {
            Some(inner) => {
                let mut out: Vec<String> = Vec::new();
                let mut j: usize = 0;
                while j < self.web_root.len()
                    invariant
                        j <= self.web_root@.len(),
                        out@.len() == j,
                        forall|k: int| 0 <= k < j ==> out@[k]@ == self.web_root@[k]@,
                    decreases self.web_root@.len() - j,
                {
                    out.push(self.web_root[j].clone());
                    j += 1;
                }
                proof {
                    assert forall|k: int| 0 <= k < j implies seq_views(out@)[k]
                        == self.root_view()[k] by {
                        assert(seq_views(out@)[k] == out@[k]@);
                        assert(self.root_view()[k] == self.web_root@[k]@);
                    }
                    assert(seq_views(out@) =~= self.root_view());
                }
                let mut inner_v = inner;
                proof {
                    assert(seq_views(out@ + inner_v@) =~= seq_views(out@) + seq_views(inner_v@));
                }
                out.append(&mut inner_v);
                Ok(ResolvedPath { segments: out })
            },
            None => Err(TraversalRejected),
        }
    }

    /// Applies the directory rule: when the resolved path denotes a
    /// directory, the configured index file is appended before any file
    /// read; otherwise the path is returned unchanged. The caller supplies
    /// the directory check's outcome.
    pub fn apply_index_if_dir(&self, path: ResolvedPath, is_dir: bool) -> (r: ResolvedPath)
        ensures
            is_dir ==> r@ == path@.push(self.index_view()),
            !is_dir ==> r@ == path@,
    {
        if is_dir {
            let mut p = path;
            let ghost before = seq_views(p.segments@);
            p.segments.push(self.index_file.clone());
            proof {
                assert(seq_views(p.segments@) =~= before.push(self.index_file@));
            }
            p
        } else {
            path
        }
    }
}

/// Normalization on top of a longer stack: while the shorter stack is never
/// popped past its bottom, a prefix below it is carried through untouched.
proof fn lemma_norm_extend(segs: Seq<Seq<char>>, a: Seq<Seq<char>>, b: Seq<Seq<char>>)
    requires
        norm_from(segs, b) is Some,
    ensures
        norm_from(segs, a + b) == Some(a + norm_from(segs, b)->Some_0),
    decreases segs.len(),
{
    if segs.len() == 0 {
        assert(norm_from(segs, a + b) == Some(a + b));
    } else {
        let s0 = segs[0];
        if s0.len() == 0 || s0 == seq!['.'] {
            lemma_norm_extend(segs.drop_first(), a, b);
        } else if s0 == seq!['.', '.'] {
            assert(b.len() > 0);
            assert((a + b).len() > 0);
            assert((a + b).drop_last() =~= a + b.drop_last());
            lemma_norm_extend(segs.drop_first(), a, b.drop_last());
        } else {
            assert((a + b).push(s0) =~= a + b.push(s0));
            lemma_norm_extend(segs.drop_first(), a, b.push(s0));
        }
    }
}

/// A plain project name and a relative path whose own normalization does not
/// escape resolve successfully, and the result stays inside the project's
/// subtree: the resolved segments are the project name followed by the
/// path's normalized segments.
pub proof fn lemma_resolve_in_project(project: Seq<char>, rel: Seq<char>)
    requires
        is_plain_segment(project),
        normalize_path(split_path(rel)) is Some,
    ensures
        resolve_segments(project, rel) == Some(
            seq![project] + normalize_path(split_path(rel))->Some_0,
        ),
{
    let s = seq![project] + split_path(rel);
    assert(s[0] == project);
    assert(s.drop_first() =~= split_path(rel));
    assert(norm_from(s, Seq::empty()) == norm_from(
        split_path(rel),
        Seq::<Seq<char>>::empty().push(project),
    ));
    lemma_norm_extend(split_path(rel), seq![project], Seq::empty());
    assert(seq![project] + Seq::<Seq<char>>::empty() =~= Seq::<Seq<char>>::empty().push(project));
}

/// The resolved location of a well-behaved request lies in the project's
/// own subtree: the web root's segments followed by the project name are a
/// component-wise prefix of the resolved path's segments.
pub proof fn lemma_resolve_prefix(root: Seq<Seq<char>>, project: Seq<char>, rel: Seq<char>)
    requires
        is_plain_segment(project),
        normalize_path(split_path(rel)) is Some,
    ensures
        resolve_segments(project, rel) matches Some(inner) && (root + inner).subrange(
            0,
            root.len() as int + 1,
        ) == root.push(project),
{
    lemma_resolve_in_project(project, rel);
    let inner = resolve_segments(project, rel)->Some_0;
    assert((root + inner).subrange(0, root.len() as int + 1) =~= root.push(project));
}

/// Every successful resolution lies below the web root: the root's segments
/// are a component-wise prefix of the resolved path's segments.
pub proof fn lemma_resolved_under_root(root: Seq<Seq<char>>, inner: Seq<Seq<char>>)
    ensures
        (root + inner).subrange(0, root.len() as int) == root,
{
    assert((root + inner).subrange(0, root.len() as int) =~= root);
}

/// Resolution has no hidden state: the resolved path is a function of the
/// web root, the project and the relative path alone, so resolving the same
/// inputs twice yields the identical path.
pub proof fn lemma_resolve_deterministic(
    root: Seq<Seq<char>>,
    project: Seq<char>,
    rel: Seq<char>,
    p1: Seq<Seq<char>>,
    p2: Seq<Seq<char>>,
)
    requires
        resolve_segments(project, rel) matches Some(inner) && p1 == root + inner,
        resolve_segments(project, rel) matches Some(inner) && p2 == root + inner,
    ensures
        p1 == p2,
{
}

} // verus!
