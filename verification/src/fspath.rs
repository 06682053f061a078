//! Filesystem paths held as strings (Unix conventions), with the joins and
//! component checks the resolvers rely on, and the queries that look at the
//! disk.
use vstd::prelude::*;
use crate::text::{append_chars, chars_eq, chars_of, concat, slice_chars, string_of};
use crate::shadertoy::path::{index_of, lemma_index_of};

verus! {

/// A path is absolute when it begins at the root directory.
pub open spec fn is_absolute(p: Seq<char>) -> bool {
    p.len() > 0 && p[0] == '/'
}

/// What `Path::join` returns on Unix: an absolute right-hand side replaces the
/// base; otherwise a separator is inserted unless the base is empty or
/// already ends with one.
pub open spec fn join(base: Seq<char>, rel: Seq<char>) -> Seq<char> {
    if is_absolute(rel) {
        rel
    } else if base.len() == 0 {
        rel
    } else if base.last() == '/' {
        base + rel
    } else {
        base + seq!['/'] + rel
    }
}

/// A `..` component starts at `i`.
pub open spec fn parent_component_at(p: Seq<char>, i: int) -> bool {
    &&& 0 <= i
    &&& i + 2 <= p.len()
    &&& p[i] == '.'
    &&& p[i + 1] == '.'
    &&& (i == 0 || p[i - 1] == '/')
    &&& (i + 2 == p.len() || p[i + 2] == '/')
}

/// The path has a root or a parent (`..`) component.
pub open spec fn escapes_root(p: Seq<char>) -> bool {
    is_absolute(p) || exists|i: int| parent_component_at(p, i)
}

pub fn path_is_absolute(p: &[char]) -> (b: bool)
    ensures
        b == is_absolute(p@),
{
    p.len() > 0 && p[0] == '/'
}

pub fn join_chars(base: &[char], rel: &[char]) -> (r: Vec<char>)
    ensures
        r@ == join(base@, rel@),
{
    if path_is_absolute(rel) || base.len() == 0 {
        slice_chars(rel, 0, rel.len())
    } else if base[base.len() - 1] == '/' {
        concat(base, rel)
    } else {
        let mut r = slice_chars(base, 0, base.len());
        r.push('/');
        append_chars(&mut r, rel);
        r
    }
}

/// `Path::new(base).join(rel)`.
pub fn path_join(base: &str, rel: &str) -> (r: String)
    ensures
        r@ == join(base@, rel@),
{
    let b = chars_of(base);
    let r = chars_of(rel);
    let j = join_chars(b.as_slice(), r.as_slice());
    string_of(j.as_slice())
}

pub fn escapes_root_exec(p: &[char]) -> (b: bool)
    ensures
        b == escapes_root(p@),
{
    if path_is_absolute(p) {
        return true;
    }
    let n = p.len();
    let mut i: usize = 0;
    while n > 0 && i < n - 1
        invariant
            n == p@.len(),
            i <= n,
            forall|k: int| 0 <= k < i ==> !parent_component_at(p@, k),
        decreases n - i,
    {
        if p[i] == '.' && p[i + 1] == '.' && (i == 0 || p[i - 1] == '/') && (i + 2 == n || p[i
            + 2] == '/') {
            proof {
                assert(parent_component_at(p@, i as int));
            }
            return true;
        }
        i += 1;
    }
    proof {
        assert forall|k: int| !parent_component_at(p@, k) by {
            if k >= i && parent_component_at(p@, k) {
                assert(k + 2 <= n);
            }
        }
    }
    false
}


/// The pieces of `s` between occurrences of `c` (`str::split` with a char).
pub open spec fn split_char(s: Seq<char>, c: char) -> Seq<Seq<char>>
    decreases s.len(),
{
    match index_of(s, c) {
        None => seq![s],
        Some(k) => {
            proof {
                lemma_index_of(s, c);
            }
            seq![s.take(k as int)] + split_char(s.skip(k + 1 as int), c)
        },
    }
}

/// The named components among raw segments: empty ones are dropped, and `.`
/// is dropped unless it is the very first segment.
pub open spec fn kept_segments(segs: Seq<Seq<char>>, first: bool) -> Seq<Seq<char>>
    decreases segs.len(),
{
    if segs.len() == 0 {
        seq![]
    } else {
        let s = segs[0];
        if s.len() > 0 && (s != seq!['.'] || first) {
            seq![s] + kept_segments(segs.drop_first(), false)
        } else {
            kept_segments(segs.drop_first(), false)
        }
    }
}

/// Two paths are the same when `Path`'s `==` says so: same root and the same
/// components.
pub open spec fn same_path(a: Seq<char>, b: Seq<char>) -> bool {
    is_absolute(a) == is_absolute(b) && kept_segments(split_char(a, '/'), true) == kept_segments(
        split_char(b, '/'),
        true,
    )
}

/// Some element of `v` is the same path as `p`.
pub open spec fn contains_path(v: Seq<Seq<char>>, p: Seq<char>) -> bool {
    exists|i: int| 0 <= i < v.len() && same_path(#[trigger] v[i], p)
}

pub fn split_char_exec(s: &[char], c: char) -> (r: Vec<Vec<char>>)
    ensures
        r@.map_values(|l: Vec<char>| l@) == split_char(s@, c),
{
    let n = s.len();
    let mut out: Vec<Vec<char>> = Vec::new();
    let mut i: usize = 0;
    proof {
        assert(s@.skip(0) =~= s@);
    }
    loop
        invariant
            n == s@.len(),
            i <= n,
            split_char(s@, c) == out@.map_values(|l: Vec<char>| l@) + split_char(
                s@.skip(i as int),
                c,
            ),
        decreases n - i,
    {
        let ghost t = s@.skip(i as int);
        let mut k: usize = i;
        while k < n && s[k] != c
            invariant
                i <= k <= n,
                n == s@.len(),
                forall|j: int| i <= j < k ==> s@[j] != c,
            decreases n - k,
        {
            k += 1;
        }
        proof {
            lemma_index_of(t, c);
        }
        let ghost before = out@.map_values(|l: Vec<char>| l@);
        let piece = slice_chars(s, i, k);
        if k == n {
            proof {
                if index_of(t, c) is Some {
                    let q = index_of(t, c)->0;
                    assert(t[q as int] == s@[i + q]);
                }
                assert(piece@ =~= t);
            }
            out.push(piece);
            proof {
                assert(out@.map_values(|l: Vec<char>| l@) =~= before + seq![t]);
            }
            return out;
        }
        proof {
            let kk = index_of(t, c);
            if kk is None {
                assert(t[k - i] == s@[k as int]);
            } else {
                let q = kk->0;
                if q < k - i {
                    assert(t[q as int] == s@[i + q]);
                } else if q > k - i {
                    assert(t[k - i] == s@[k as int]);
                }
            }
            assert(index_of(t, c) == Some((k - i) as nat));
            assert(piece@ =~= t.take(k - i));
            assert(t.skip(k - i + 1) =~= s@.skip(k + 1));
        }
        out.push(piece);
        proof {
            assert(out@.map_values(|l: Vec<char>| l@) =~= before + seq![piece@]);
            assert(before + (seq![piece@] + split_char(s@.skip(k + 1), c)) =~= before + seq![piece@]
                + split_char(s@.skip(k + 1), c));
        }
        i = k + 1;
    }
}

pub fn kept_segments_exec(segs: &Vec<Vec<char>>) -> (r: Vec<Vec<char>>)
    ensures
        r@.map_values(|l: Vec<char>| l@) == kept_segments(
            segs@.map_values(|l: Vec<char>| l@),
            true,
        ),
{
    let ghost sv = segs@.map_values(|l: Vec<char>| l@);
    let mut out: Vec<Vec<char>> = Vec::new();
    let mut i: usize = 0;
    proof {
        assert(sv.skip(0) =~= sv);
        assert(Seq::<Seq<char>>::empty() + kept_segments(sv, true) =~= kept_segments(sv, true));
    }
    while i < segs.len()
        invariant
            i <= segs@.len(),
            sv == segs@.map_values(|l: Vec<char>| l@),
            kept_segments(sv, true) == out@.map_values(|l: Vec<char>| l@) + kept_segments(
                sv.skip(i as int),
                i == 0,
            ),
        decreases segs@.len() - i,
    {
        let seg = &segs[i];
        let ghost before = out@.map_values(|l: Vec<char>| l@);
        proof {
            assert(sv.skip(i as int)[0] == seg@);
            assert(sv.skip(i as int).drop_first() =~= sv.skip(i + 1));
        }
        let is_dot = seg.len() == 1 && seg[0] == '.';
        proof {
            assert(is_dot == (seg@ == seq!['.'])) by {
                if seg@.len() == 1 && seg@[0] == '.' {
                    assert(seg@ =~= seq!['.']);
                }
            }
        }
        if seg.len() > 0 && (!is_dot || i == 0) {
            out.push(slice_chars(seg.as_slice(), 0, seg.len()));
            proof {
                assert(seg@.subrange(0, seg@.len() as int) =~= seg@);
                assert(out@.map_values(|l: Vec<char>| l@) =~= before + seq![seg@]);
                assert(before + (seq![seg@] + kept_segments(sv.skip(i + 1), false)) =~= before
                    + seq![seg@] + kept_segments(sv.skip(i + 1), false));
            }
        }
        i += 1;
    }
    proof {
        assert(sv.skip(segs@.len() as int) =~= Seq::<Seq<char>>::empty());
        assert(out@.map_values(|l: Vec<char>| l@) + Seq::<Seq<char>>::empty() =~= out@.map_values(
            |l: Vec<char>| l@,
        ));
    }
    out
}

fn seg_lists_eq(a: &Vec<Vec<char>>, b: &Vec<Vec<char>>) -> (r: bool)
    ensures
        r == (a@.map_values(|l: Vec<char>| l@) == b@.map_values(|l: Vec<char>| l@)),
{
    let ghost av = a@.map_values(|l: Vec<char>| l@);
    let ghost bv = b@.map_values(|l: Vec<char>| l@);
    if a.len() != b.len() {
        proof {
            assert(av.len() != bv.len());
        }
        return false;
    }
    let mut i: usize = 0;
    while i < a.len()
        invariant
            i <= a@.len(),
            a@.len() == b@.len(),
            av == a@.map_values(|l: Vec<char>| l@),
            bv == b@.map_values(|l: Vec<char>| l@),
            forall|j: int| 0 <= j < i ==> av[j] == bv[j],
        decreases a@.len() - i,
    {
        if !chars_eq(a[i].as_slice(), b[i].as_slice()) {
            proof {
                assert(av[i as int] != bv[i as int]);
            }
            return false;
        }
        i += 1;
    }
    proof {
        assert(av =~= bv);
    }
    true
}

/// `Path::new(a) == Path::new(b)`.
pub fn same_path_exec(a: &str, b: &str) -> (r: bool)
    ensures
        r == same_path(a@, b@),
{
    let av = chars_of(a);
    let bv = chars_of(b);
    if path_is_absolute(av.as_slice()) != path_is_absolute(bv.as_slice()) {
        return false;
    }
    let asegs = split_char_exec(av.as_slice(), '/');
    let bsegs = split_char_exec(bv.as_slice(), '/');
    let ak = kept_segments_exec(&asegs);
    let bk = kept_segments_exec(&bsegs);
    seg_lists_eq(&ak, &bk)
}

/// Whether `v` holds a path equal to `p`, as `Vec::<PathBuf>::contains` checks.
pub fn contains_path_exec(v: &Vec<String>, p: &str) -> (r: bool)
    ensures
        r == contains_path(v@.map_values(|s: String| s@), p@),
{
    let ghost vv = v@.map_values(|s: String| s@);
    let mut i: usize = 0;
    while i < v.len()
        invariant
            i <= v@.len(),
            vv == v@.map_values(|s: String| s@),
            forall|j: int| 0 <= j < i ==> !same_path(vv[j], p@),
        decreases v@.len() - i,
    {
        if same_path_exec(v[i].as_str(), p) {
            proof {
                assert(same_path(vv[i as int], p@));
            }
            return true;
        }
        i += 1;
    }
    false
}

/// Index of the last `.` in `s`.
pub open spec fn last_dot(s: Seq<char>) -> Option<int>
    decreases s.len(),
{
    if s.len() == 0 {
        None
    } else if s.last() == '.' {
        Some(s.len() - 1)
    } else {
        last_dot(s.drop_last())
    }
}

/// `Path::file_stem` of a file name: the name without its last extension;
/// a name whose only dot leads it, and `..`, are their own stem.
pub open spec fn file_stem(name: Seq<char>) -> Seq<char> {
    if name == seq!['.', '.'] {
        name
    } else {
        match last_dot(name) {
            Some(i) => if i > 0 {
                name.take(i)
            } else {
                name
            },
            None => name,
        }
    }
}

pub proof fn lemma_last_dot_bound(s: Seq<char>)
    ensures
        last_dot(s) matches Some(i) ==> 0 <= i < s.len(),
    decreases s.len(),
{
    if s.len() > 0 {
        lemma_last_dot_bound(s.drop_last());
    }
}

pub fn last_dot_exec(s: &[char]) -> (r: Option<usize>)
    ensures
        match last_dot(s@) {
            Some(i) => r == Some(i as usize),
            None => r is None,
        },
        r matches Some(i) ==> i < s@.len(),
{
    proof {
        assert(s@.take(s@.len() as int) =~= s@);
        lemma_last_dot_bound(s@);
    }
    let mut n: usize = s.len();
    while n > 0
        invariant
            n <= s@.len(),
            last_dot(s@) == last_dot(s@.take(n as int)),
        decreases n,
    {
        if s[n - 1] == '.' {
            return Some(n - 1);
        }
        proof {
            assert(s@.take(n as int).drop_last() =~= s@.take(n - 1));
        }
        n -= 1;
    }
    None
}

pub fn file_stem_exec(name: &[char]) -> (r: Vec<char>)
    ensures
        r@ == file_stem(name@),
{
    proof {
        assert(name@.take(name@.len() as int) =~= name@);
    }
    if name.len() == 2 && name[0] == '.' && name[1] == '.' {
        proof {
            assert(name@ =~= seq!['.', '.']);
        }
        return slice_chars(name, 0, name.len());
    }
    proof {
        if name@ == seq!['.', '.'] {
            assert(name@.len() == 2 && name@[0] == '.' && name@[1] == '.');
        }
    }
    let dot = last_dot_exec(name);
    proof {
        lemma_last_dot_bound(name@);
    }
    match dot {
        Some(i) => {
            proof {
                assert(last_dot(name@) == Some(i as int));
            }
            if i > 0 {
                let r = slice_chars(name, 0, i);
                proof {
                    assert(r@ =~= name@.take(i as int));
                }
                r
            } else {
                slice_chars(name, 0, name.len())
            }
        },
        None => slice_chars(name, 0, name.len()),
    }
}


/// `Path::file_name`: the last named component; `None` for a path that ends
/// in `..` or has no named component (empty, `/`, `.`).
pub open spec fn file_name(p: Seq<char>) -> Option<Seq<char>> {
    let k = kept_segments(split_char(p, '/'), true);
    if k.len() == 0 {
        None
    } else if k.last() == seq!['.', '.'] || k.last() == seq!['.'] {
        None
    } else {
        Some(k.last())
    }
}

/// `Path::extension`: what follows the last `.` of the file name, when the
/// dot is not the name's first character.
pub open spec fn extension(p: Seq<char>) -> Option<Seq<char>> {
    match file_name(p) {
        None => None,
        Some(n) => match last_dot(n) {
            Some(i) => if i > 0 {
                Some(n.skip(i + 1))
            } else {
                None
            },
            None => None,
        },
    }
}

pub fn file_name_exec(p: &str) -> (r: Option<Vec<char>>)
    ensures
        match file_name(p@) {
            Some(n) => r matches Some(v) && v@ == n,
            None => r is None,
        },
{
    let chars = chars_of(p);
    let segs = split_char_exec(chars.as_slice(), '/');
    let kept = kept_segments_exec(&segs);
    let ghost kv = kept@.map_values(|l: Vec<char>| l@);
    if kept.len() == 0 {
        return None;
    }
    let last = &kept[kept.len() - 1];
    proof {
        assert(kv.last() == last@);
    }
    let is_parent = last.len() == 2 && last[0] == '.' && last[1] == '.';
    let is_cur = last.len() == 1 && last[0] == '.';
    proof {
        if last@ == seq!['.', '.'] {
            assert(last@.len() == 2 && last@[0] == '.' && last@[1] == '.');
        }
        if last@ == seq!['.'] {
            assert(last@.len() == 1 && last@[0] == '.');
        }
        if is_parent {
            assert(last@ =~= seq!['.', '.']);
        }
        if is_cur {
            assert(last@ =~= seq!['.']);
        }
    }
    if is_parent || is_cur {
        return None;
    }
    let r = slice_chars(last.as_slice(), 0, last.len());
    proof {
        assert(r@ =~= last@);
    }
    Some(r)
}

pub fn extension_exec(p: &str) -> (r: Option<Vec<char>>)
    ensures
        match extension(p@) {
            Some(e) => r matches Some(v) && v@ == e,
            None => r is None,
        },
{
    match file_name_exec(p) {
        None => None,
        Some(n) => {
            proof {
                lemma_last_dot_bound(n@);
            }
            let ns = n.as_slice();
            let nlen = ns.len();
            let d = last_dot_exec(ns);
            match d {
                Some(i) => {
                    proof {
                        assert(last_dot(n@) == Some(i as int));
                    }
                    if i > 0 {
                        let e = slice_chars(ns, i + 1, nlen);
                        proof {
                            assert(e@ =~= n@.skip(i + 1));
                        }
                        Some(e)
                    } else {
                        None
                    }
                },
                None => None,
            }
        },
    }
}

/// `Path::exists`: whether something is found at the path when asked; the
/// answer depends on the disk, so nothing is stated of it.
#[verifier::external_body]
pub(crate) fn path_exists(p: &str) -> bool {
    std::path::Path::new(p).exists()
}

/// `Path::is_dir`: whether a directory is found at the path when asked; the
/// answer depends on the disk, so nothing is stated of it.
#[verifier::external_body]
pub(crate) fn path_is_dir(p: &str) -> bool {
    std::path::Path::new(p).is_dir()
}

/// `Path::is_file`: whether a regular file is found at the path when asked;
/// the answer depends on the disk, so nothing is stated of it.
#[verifier::external_body]
pub(crate) fn path_is_file(p: &str) -> bool {
    std::path::Path::new(p).is_file()
}

} // verus!
