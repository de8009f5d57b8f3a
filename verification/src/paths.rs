//! Path segmentation and normalization.
//!
//! A request path is modelled as the sequence of its `/`-separated segments.
//! Normalization removes empty and `.` segments and lets `..` pop the
//! previous segment; a `..` with nothing left to pop marks an escape from the
//! enclosing root.

use vstd::prelude::*;

verus! {

/// The views of a sequence of owned strings.
pub open spec fn seq_views(v: Seq<String>) -> Seq<Seq<char>> {
    v.map_values(|s: String| s@)
}

/// Splitting a string on `/`, exactly as `str::split('/')` does: every
/// string splits into at least one (possibly empty) segment, and each `/`
/// starts a new segment.
pub open spec fn split_path(s: Seq<char>) -> Seq<Seq<char>>
    decreases s.len(),
{
    if s.len() == 0 {
        seq![Seq::<char>::empty()]
    } else if s[s.len() - 1] == '/' {
        split_path(s.drop_last()).push(Seq::<char>::empty())
    } else {
        let r = split_path(s.drop_last());
        r.update(r.len() - 1, r.last().push(s[s.len() - 1]))
    }
}

/// A segment that names a real directory entry: non-empty, no separator,
/// and not one of the two dot segments that normalization treats specially.
pub open spec fn is_plain_segment(s: Seq<char>) -> bool {
    &&& s.len() > 0
    &&& s != seq!['.']
    &&& s != seq!['.', '.']
    &&& forall|i: int| 0 <= i < s.len() ==> s[i] != '/'
}

/// Normalization of `segs` on top of the already-normalized stack `acc`.
/// `None` means a `..` segment tried to pop past the root.
pub open spec fn norm_from(segs: Seq<Seq<char>>, acc: Seq<Seq<char>>) -> Option<Seq<Seq<char>>>
    decreases segs.len(),
{
    if segs.len() == 0 {
        Some(acc)
    } else {
        let s0 = segs[0];
        if s0.len() == 0 || s0 == seq!['.'] {
            norm_from(segs.drop_first(), acc)
        } else if s0 == seq!['.', '.'] {
            if acc.len() == 0 {
                None
            } else {
                norm_from(segs.drop_first(), acc.drop_last())
            }
        } else {
            norm_from(segs.drop_first(), acc.push(s0))
        }
    }
}

/// Normalization of a whole segment sequence; `None` marks an escape.
pub open spec fn normalize_path(segs: Seq<Seq<char>>) -> Option<Seq<Seq<char>>> {
    norm_from(segs, Seq::empty())
}

/// The textual form of an absolute path: one `/` before each segment.
pub open spec fn join_abs(segs: Seq<Seq<char>>) -> Seq<char>
    decreases segs.len(),
{
    if segs.len() == 0 {
        Seq::empty()
    } else {
        join_abs(segs.drop_last()) + seq!['/'] + segs.last()
    }
}

/// As `join_abs`, except that the empty sequence renders as a bare `/`,
/// the filesystem root itself.
pub open spec fn render_abs(segs: Seq<Seq<char>>) -> Seq<char> {
    if segs.len() == 0 {
        seq!['/']
    } else {
        join_abs(segs)
    }
}

/// Splits `s` on `/` into owned segments.
pub fn split_segments(s: &str) -> (v: Vec<String>)
    ensures
        seq_views(v@) == split_path(s@),
{
    let n = s.unicode_len();
    let mut v: Vec<String> = Vec::new();
    let mut start: usize = 0;
    let mut i: usize = 0;
    proof {
        assert(s@.subrange(0, 0) =~= Seq::<char>::empty());
        assert(seq_views(v@).push(s@.subrange(0, 0)) =~= split_path(s@.subrange(0, 0)));
    }
    while i < n
        invariant
            start <= i <= n,
            n == s@.len(),
            seq_views(v@).push(s@.subrange(start as int, i as int)) == split_path(
                s@.subrange(0, i as int),
            ),
        decreases n - i,
    {
        let ghost prefix = s@.subrange(0, i as int);
        let ghost cur = s@.subrange(start as int, i as int);
        let c = s.get_char(i);
        if c == '/' {
            let seg = s.substring_char(start, i);
            v.push(seg.to_owned());
            start = i + 1;
        }
        i += 1;
        proof {
            let next = s@.subrange(0, i as int);
            assert(next.drop_last() =~= prefix);
            assert(next.last() == c);
            if c == '/' {
                assert(seq_views(v@) =~= seq_views(v@.drop_last()).push(cur));
                assert(s@.subrange(start as int, i as int) =~= Seq::<char>::empty());
                assert(seq_views(v@).push(s@.subrange(start as int, i as int)) =~= split_path(
                    prefix,
                ).push(Seq::<char>::empty()));
            } else {
                let r = split_path(prefix);
                assert(r == seq_views(v@).push(cur));
                assert(r.last() == cur);
                assert(cur.push(c) =~= s@.subrange(start as int, i as int));
                assert(r.update(r.len() - 1, r.last().push(c)) =~= seq_views(v@).push(
                    s@.subrange(start as int, i as int),
                ));
            }
        }
    }
    let last = s.substring_char(start, n);
    v.push(last.to_owned());
    proof {
        assert(s@.subrange(0, n as int) =~= s@);
        assert(seq_views(v@) =~= seq_views(v@.drop_last()).push(s@.subrange(
            start as int,
            n as int,
        )));
    }
    v
}

/// Normalizes a segment list; `None` marks an attempt to pop past the root.
pub fn normalize_segments(segs: &Vec<String>) -> (r: Option<Vec<String>>)
    ensures
        match r {
            Some(v) => normalize_path(seq_views(segs@)) == Some(seq_views(v@)),
            None => normalize_path(seq_views(segs@)) is None,
        },
{
    let dot: String = ".".to_owned();
    let dotdot: String = "..".to_owned();
    proof {
        reveal_strlit(".");
        reveal_strlit("..");
        assert(dot@ =~= seq!['.']);
        assert(dotdot@ =~= seq!['.', '.']);
    }
    let n = segs.len();
    let mut stack: Vec<String> = Vec::new();
    let mut i: usize = 0;
    proof {
        assert(seq_views(segs@).subrange(0, n as int) =~= seq_views(segs@));
        assert(seq_views(stack@) =~= Seq::<Seq<char>>::empty());
    }
    while i < n
        invariant
            i <= n,
            n == segs@.len(),
            dot@ == seq!['.'],
            dotdot@ == seq!['.', '.'],
            normalize_path(seq_views(segs@)) == norm_from(
                seq_views(segs@).subrange(i as int, n as int),
                seq_views(stack@),
            ),
        decreases n - i,
    {
        let ghost rest = seq_views(segs@).subrange(i as int, n as int);
        let ghost st = seq_views(stack@);
        proof {
            assert(rest[0] == segs@[i as int]@);
            assert(rest.drop_first() =~= seq_views(segs@).subrange(i + 1, n as int));
        }
        let seg = &segs[i];
        if seg.as_str().is_empty() || *seg == dot {
            proof {
                assert(seg@.len() == 0 || seg@ == seq!['.']);
            }
        } else if *seg == dotdot {
            if stack.len() == 0 {
                proof {
                    assert(st.len() == 0);
                }
                return None;
            }
            stack.pop();
            proof {
                assert(seq_views(stack@) =~= st.drop_last());
            }
        } else {
            stack.push(seg.clone());
            proof {
                assert(seq_views(stack@) =~= st.push(seg@));
            }
        }
        i += 1;
    }
    proof {
        assert(seq_views(segs@).subrange(n as int, n as int) =~= Seq::<Seq<char>>::empty());
    }
    Some(stack)
}

/// Renders a normalized segment list as an absolute path string.
pub fn render_absolute(v: &Vec<String>) -> (r: String)
    ensures
        r@ == render_abs(seq_views(v@)),
{
    proof {
        reveal_strlit("/");
        assert(("/")@ =~= seq!['/']);
    }
    let n = v.len();
    if n == 0 {
        let root: String = "/".to_owned();
        return root;
    }
    let mut out = String::new();
    let mut i: usize = 0;
    proof {
        assert(seq_views(v@).subrange(0, 0) =~= Seq::<Seq<char>>::empty());
        assert(out@ =~= join_abs(seq_views(v@).subrange(0, 0)));
    }
    while i < n
        invariant
            i <= n,
            n == v@.len(),
            out@ == join_abs(seq_views(v@).subrange(0, i as int)),
        decreases n - i,
    {
        let ghost before = seq_views(v@).subrange(0, i as int);
        out.append("/");
        out.append(v[i].as_str());
        i += 1;
        proof {
            reveal_strlit("/");
            let after = seq_views(v@).subrange(0, i as int);
            assert(after.drop_last() =~= before);
            assert(after.last() == v@[i - 1]@);
            assert(out@ =~= join_abs(before) + seq!['/'] + v@[i - 1]@);
        }
    }
    proof {
        assert(seq_views(v@).subrange(0, n as int) =~= seq_views(v@));
    }
    out
}

} // verus!
