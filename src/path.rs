//! A model of Unix paths as character sequences, and the operations on them
//! that the jail needs.
//!
//! A path's components are the pieces between separators, with empty pieces
//! and `.` left out; `..` is kept as a component of its own. An absolute path
//! starts with a separator.
use vstd::prelude::*;

verus! {

pub open spec fn is_absolute(s: Seq<char>) -> bool {
    s.len() > 0 && s[0] == '/'
}

/// Whether a piece between separators counts as a component.
pub open spec fn keeps(seg: Seq<char>) -> bool {
    seg.len() > 0 && seg != seq!['.']
}

/// The components finished after reading `s`, and the piece being read.
pub open spec fn scan(s: Seq<char>) -> (Seq<Seq<char>>, Seq<char>)
    decreases s.len(),
{
    if s.len() == 0 {
        (Seq::empty(), Seq::empty())
    } else {
        let (done, cur) = scan(s.drop_last());
        if s.last() == '/' {
            (
                if keeps(cur) {
                    done.push(cur)
                } else {
                    done
                },
                Seq::empty(),
            )
        } else {
            (done, cur.push(s.last()))
        }
    }
}

pub open spec fn components(s: Seq<char>) -> Seq<Seq<char>> {
    let (done, cur) = scan(s);
    if keeps(cur) {
        done.push(cur)
    } else {
        done
    }
}

/// `target` lies at or under `root`, compared component by component: both
/// absolute or both relative, and the components of `root` begin those of
/// `target`.
pub open spec fn within(root: Seq<char>, target: Seq<char>) -> bool {
    &&& is_absolute(root) == is_absolute(target)
    &&& components(root).len() <= components(target).len()
    &&& components(target).subrange(0, components(root).len() as int) == components(root)
}

/// `rel` appended to `base`, with one separator between them unless `base`
/// is empty or already ends in one.
pub open spec fn join(base: Seq<char>, rel: Seq<char>) -> Seq<char> {
    if base.len() == 0 || base.last() == '/' {
        base + rel
    } else {
        base + seq!['/'] + rel
    }
}

pub open spec fn views(v: Seq<Vec<char>>) -> Seq<Seq<char>> {
    v.map_values(|x: Vec<char>| x@)
}

/// Whether the path is absolute.
pub fn is_absolute_path(s: &str) -> (r: bool)
    ensures
        r == is_absolute(s@),
{
    !s.is_empty() && s.get_char(0) == '/'
}

/// The components of `s`, with the index at which the last of them begins
/// (0 where there is none).
pub fn split_components(s: &str) -> (r: (Vec<Vec<char>>, usize))
    ensures
        views(r.0@) == components(s@),
        r.1 <= s@.len(),
        components(s@).len() > 0 ==> components(s@.subrange(0, r.1 as int))
            == components(s@).drop_last(),
        is_absolute(s@) && components(s@).len() > 0 ==> r.1 > 0,
{
    let n = s.unicode_len();
    let mut done: Vec<Vec<char>> = Vec::new();
    let mut cur: Vec<char> = Vec::new();
    let mut seg_start: usize = 0;
    let mut last_start: usize = 0;
    let mut i: usize = 0;
    while i < n
        invariant
            n == s@.len(),
            i <= n,
            seg_start <= i,
            last_start <= seg_start,
            seg_start + cur@.len() == i,
            scan(s@.subrange(0, i as int)) == (views(done@), cur@),
            scan(s@.subrange(0, seg_start as int)) == (views(done@), Seq::<char>::empty()),
            done@.len() > 0 ==> scan(s@.subrange(0, last_start as int)) == (
                views(done@).drop_last(),
                Seq::<char>::empty(),
            ),
            is_absolute(s@) && i > 0 ==> seg_start > 0,
            is_absolute(s@) && done@.len() > 0 ==> last_start > 0,
        decreases n - i,
    {
        let c = s.get_char(i);
        assert(s@.subrange(0, i + 1).drop_last() =~= s@.subrange(0, i as int));
        if c == '/' {
            let kept = cur.len() > 0 && !(cur.len() == 1 && cur[0] == '.');
            assert(kept == keeps(cur@)) by {
                if cur@.len() == 1 && cur@ != seq!['.'] {
                    assert(cur@[0] != '.') by {
                        if cur@[0] == '.' {
                            assert(cur@ =~= seq!['.']);
                        }
                    }
                }
            }
            if kept {
                let ghost before = views(done@);
                done.push(cur);
                assert(views(done@) =~= before.push(cur@));
                assert(views(done@).drop_last() =~= before);
                last_start = seg_start;
            }
            cur = Vec::new();
            seg_start = i + 1;
        } else {
            cur.push(c);
        }
        i = i + 1;
    }
    assert(s@.subrange(0, n as int) =~= s@);
    let kept = cur.len() > 0 && !(cur.len() == 1 && cur[0] == '.');
    assert(kept == keeps(cur@)) by {
        if cur@.len() == 1 && cur@ != seq!['.'] {
            assert(cur@[0] != '.') by {
                if cur@[0] == '.' {
                    assert(cur@ =~= seq!['.']);
                }
            }
        }
    }
    if kept {
        let ghost before = views(done@);
        done.push(cur);
        assert(views(done@) =~= before.push(cur@));
        assert(views(done@).drop_last() =~= before);
        (done, seg_start)
    } else {
        (done, last_start)
    }
}

fn same_chars(a: &Vec<char>, b: &Vec<char>) -> (r: bool)
    ensures
        r == (a@ == b@),
{
    if a.len() != b.len() {
        return false;
    }
    let mut i: usize = 0;
    while i < a.len()
        invariant
            a@.len() == b@.len(),
            i <= a@.len(),
            forall|k: int| 0 <= k < i ==> a@[k] == b@[k],
        decreases a@.len() - i,
    {
        if a[i] != b[i] {
            return false;
        }
        i = i + 1;
    }
    assert(a@ =~= b@);
    true
}

/// Whether `target` lies at or under `root`, component by component.
pub fn is_within(root: &str, target: &str) -> (r: bool)
    ensures
        r == within(root@, target@),
{
    if is_absolute_path(root) != is_absolute_path(target) {
        return false;
    }
    let (rc, _) = split_components(root);
    let (tc, _) = split_components(target);
    if rc.len() > tc.len() {
        return false;
    }
    let ghost rv = views(rc@);
    let ghost tv = views(tc@);
    let mut i: usize = 0;
    while i < rc.len()
        invariant
            rv == views(rc@),
            tv == views(tc@),
            rv == components(root@),
            tv == components(target@),
            is_absolute(root@) == is_absolute(target@),
            rc@.len() <= tc@.len(),
            i <= rc@.len(),
            forall|k: int| 0 <= k < i ==> tv[k] == rv[k],
        decreases rc@.len() - i,
    {
        assert(rv[i as int] == rc@[i as int]@);
        assert(tv[i as int] == tc@[i as int]@);
        if !same_chars(&rc[i], &tc[i]) {
            assert(tv.subrange(0, rv.len() as int)[i as int] != rv[i as int]);
            return false;
        }
        i = i + 1;
    }
    assert(tv.subrange(0, rv.len() as int) =~= rv);
    true
}

/// `rel` appended to `base`.
pub fn join_path(base: &str, rel: &str) -> (r: String)
    ensures
        r@ == join(base@, rel@),
{
    let mut r = String::from_str(base);
    let n = base.unicode_len();
    if n > 0 && base.get_char(n - 1) != '/' {
        proof {
            reveal_strlit("/");
        }
        r.append("/");
    }
    r.append(rel);
    r
}

/// The path without its last component, or `.` where it has none (the
/// root, or an empty path).
pub fn parent_or_current(s: &str) -> (r: String)
    ensures
        components(s@).len() == 0 ==> r@ == seq!['.'],
        components(s@).len() > 0 ==> {
            &&& components(r@) == components(s@).drop_last()
            &&& is_absolute(r@) == is_absolute(s@)
            &&& r@ == s@.subrange(0, r@.len() as int)
        },
{
    let (comps, last) = split_components(s);
    if comps.len() == 0 {
        proof {
            reveal_strlit(".");
        }
        String::from_str(".")
    } else {
        let r = String::from_str(s.substring_char(0, last));
        proof {
            let p = s@.subrange(0, last as int);
            if is_absolute(s@) {
                assert(p[0] == s@[0]);
            }
        }
        r
    }
}

} // verus!
