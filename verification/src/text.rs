//! Character-sequence helpers shared by every parser of the crate.
//!
//! Strings are modelled by their `Seq<char>` view; each executable helper is
//! proved against a spec function that states directly what it computes.
use vstd::prelude::*;

verus! {

/// `String::push` appends one character to the string.
pub assume_specification[ String::push ](string: &mut String, ch: char)
    ensures
        final(string)@ == old(string)@.push(ch),
;

/// `String::push_str` appends the characters of `string` to the string.
pub assume_specification[ String::push_str ](this: &mut String, string: &str)
    ensures
        final(this)@ == old(this)@ + string@,
;

/// The character sequences of a list of strings.
pub open spec fn strings_view(v: Seq<String>) -> Seq<Seq<char>> {
    v.map_values(|s: String| s@)
}

/// Unicode `White_Space` (the set that `char::is_whitespace` and `str::trim` use).
pub open spec fn is_ws(c: char) -> bool {
    ||| c == ' '
    ||| ('\t' <= c && c <= '\r')
    ||| c == '\u{85}'
    ||| c == '\u{a0}'
    ||| c == '\u{1680}'
    ||| ('\u{2000}' <= c && c <= '\u{200a}')
    ||| c == '\u{2028}'
    ||| c == '\u{2029}'
    ||| c == '\u{202f}'
    ||| c == '\u{205f}'
    ||| c == '\u{3000}'
}

pub open spec fn is_ascii_digit(c: char) -> bool {
    '0' <= c && c <= '9'
}

pub open spec fn is_ascii_alpha(c: char) -> bool {
    ('a' <= c && c <= 'z') || ('A' <= c && c <= 'Z')
}

pub open spec fn is_ascii_alnum(c: char) -> bool {
    is_ascii_digit(c) || is_ascii_alpha(c)
}

/// ASCII whitespace as `char::is_ascii_whitespace` defines it.
pub open spec fn is_ascii_ws(c: char) -> bool {
    c == ' ' || c == '\t' || c == '\n' || c == '\u{c}' || c == '\r'
}

pub open spec fn lower_char(c: char) -> char {
    if 'A' <= c && c <= 'Z' {
        ((c as u32) + 32) as char
    } else {
        c
    }
}

pub open spec fn lower(s: Seq<char>) -> Seq<char> {
    s.map_values(|c: char| lower_char(c))
}

/// Number of leading whitespace characters.
pub open spec fn lead_ws(s: Seq<char>) -> nat
    decreases s.len(),
{
    if s.len() > 0 && is_ws(s[0]) {
        1 + lead_ws(s.drop_first())
    } else {
        0
    }
}

/// Number of trailing whitespace characters.
pub open spec fn trail_ws(s: Seq<char>) -> nat
    decreases s.len(),
{
    if s.len() > 0 && is_ws(s.last()) {
        1 + trail_ws(s.drop_last())
    } else {
        0
    }
}

pub open spec fn trim_start(s: Seq<char>) -> Seq<char> {
    s.skip(lead_ws(s) as int)
}

pub open spec fn trim_end(s: Seq<char>) -> Seq<char> {
    s.take(s.len() - trail_ws(s))
}

/// What `str::trim` returns.
pub open spec fn trim(s: Seq<char>) -> Seq<char> {
    trim_end(trim_start(s))
}

pub open spec fn has_prefix(s: Seq<char>, p: Seq<char>) -> bool {
    p.len() <= s.len() && s.take(p.len() as int) == p
}

pub open spec fn has_suffix(s: Seq<char>, p: Seq<char>) -> bool {
    p.len() <= s.len() && s.skip(s.len() - p.len()) == p
}

/// What `str::strip_prefix` returns.
pub open spec fn strip_prefix(s: Seq<char>, p: Seq<char>) -> Option<Seq<char>> {
    if has_prefix(s, p) {
        Some(s.skip(p.len() as int))
    } else {
        None
    }
}

pub open spec fn occurs_at(s: Seq<char>, t: Seq<char>, i: int) -> bool {
    0 <= i && i + t.len() <= s.len() && s.subrange(i, i + t.len()) == t
}

/// What `str::contains` with a string pattern returns.
pub open spec fn contains(s: Seq<char>, t: Seq<char>) -> bool {
    exists|i: int| occurs_at(s, t, i)
}

pub open spec fn digit_value(c: char) -> nat {
    ((c as u32) - ('0' as u32)) as nat
}

pub open spec fn all_digits(s: Seq<char>) -> bool {
    forall|i: int| 0 <= i < s.len() ==> is_ascii_digit(#[trigger] s[i])
}

pub open spec fn digits_value(s: Seq<char>) -> nat
    decreases s.len(),
{
    if s.len() == 0 {
        0
    } else {
        digits_value(s.drop_last()) * 10 + digit_value(s.last())
    }
}

/// What `str::parse::<u32>` returns: an optional `+`, then one or more
/// decimal digits whose value fits in a `u32`.
pub open spec fn parse_u32(s: Seq<char>) -> Option<u32> {
    let d = if s.len() > 0 && s[0] == '+' {
        s.drop_first()
    } else {
        s
    };
    if d.len() > 0 && all_digits(d) && digits_value(d) <= u32::MAX {
        Some(digits_value(d) as u32)
    } else {
        None
    }
}

pub open spec fn digit_char(d: nat) -> char {
    (('0' as u32) + d) as char
}

/// Decimal rendering of a natural number, as `Display` prints it.
pub open spec fn decimal(n: nat) -> Seq<char>
    decreases n,
{
    if n < 10 {
        seq![digit_char(n)]
    } else {
        decimal(n / 10).push(digit_char(n % 10))
    }
}

/// Index of the first character of `s` that belongs to `set`.
pub open spec fn find_any(s: Seq<char>, set: Seq<char>) -> Option<int> {
    if exists|i: int| 0 <= i < s.len() && set.contains(s[i]) {
        Some(choose|i: int| 0 <= i < s.len() && set.contains(s[i]) && (forall|j: int| 0 <= j < i ==> !set.contains(#[trigger] s[j])))
    } else {
        None
    }
}

/// What `str::split_once` with a set of single-character patterns returns.
pub open spec fn split_once_any(s: Seq<char>, set: Seq<char>) -> Option<(Seq<char>, Seq<char>)> {
    match find_any(s, set) {
        Some(i) => Some((s.take(i), s.skip(i + 1))),
        None => None,
    }
}

pub fn char_is_ws(c: char) -> (b: bool)
    ensures
        b == is_ws(c),
{
    c == ' ' || ('\t' <= c && c <= '\r') || c == '\u{85}' || c == '\u{a0}' || c == '\u{1680}'
        || ('\u{2000}' <= c && c <= '\u{200a}') || c == '\u{2028}' || c == '\u{2029}' || c
        == '\u{202f}' || c == '\u{205f}' || c == '\u{3000}'
}

pub fn char_is_ascii_alnum(c: char) -> (b: bool)
    ensures
        b == is_ascii_alnum(c),
{
    ('0' <= c && c <= '9') || ('a' <= c && c <= 'z') || ('A' <= c && c <= 'Z')
}

pub fn char_is_ascii_digit(c: char) -> (b: bool)
    ensures
        b == is_ascii_digit(c),
{
    '0' <= c && c <= '9'
}

pub fn char_to_lower(c: char) -> (r: char)
    ensures
        r == lower_char(c),
{
    if 'A' <= c && c <= 'Z' {
        let code: u32 = (c as u32) + 32;
        code as u8 as char
    } else {
        c
    }
}

/// The characters of a string slice.
pub fn chars_of(s: &str) -> (v: Vec<char>)
    ensures
        v@ == s@,
{
    let mut v: Vec<char> = Vec::new();
    for ch in it: s.chars()
        invariant
            it.seq() == s@,
            v@ == it.seq().take(it.index() as int),
    {
        v.push(ch);
    }
    proof {
        assert(s@.take(s@.len() as int) =~= s@);
    }
    v
}

/// A string holding exactly the given characters.
pub fn string_of(v: &[char]) -> (s: String)
    ensures
        s@ == v@,
{
    let mut s = String::new();
    let mut i: usize = 0;
    while i < v.len()
        invariant
            i <= v@.len(),
            s@ == v@.take(i as int),
        decreases v@.len() - i,
    {
        s.push(v[i]);
        i += 1;
        proof {
            assert(v@.take(i as int) =~= v@.take(i - 1).push(v@[i - 1]));
        }
    }
    proof {
        assert(v@.take(v@.len() as int) =~= v@);
    }
    s
}

/// Copy of `v[lo..hi]`.
pub fn slice_chars(v: &[char], lo: usize, hi: usize) -> (r: Vec<char>)
    requires
        lo <= hi <= v@.len(),
    ensures
        r@ == v@.subrange(lo as int, hi as int),
{
    let mut r: Vec<char> = Vec::new();
    let mut i: usize = lo;
    while i < hi
        invariant
            lo <= i <= hi <= v@.len(),
            r@ == v@.subrange(lo as int, i as int),
        decreases hi - i,
    {
        r.push(v[i]);
        i += 1;
        proof {
            assert(v@.subrange(lo as int, i as int) =~= v@.subrange(lo as int, i - 1).push(
                v@[i - 1],
            ));
        }
    }
    r
}

pub fn concat(a: &[char], b: &[char]) -> (r: Vec<char>)
    ensures
        r@ == a@ + b@,
{
    let mut r: Vec<char> = Vec::new();
    let mut i: usize = 0;
    while i < a.len()
        invariant
            i <= a@.len(),
            r@ == a@.take(i as int),
        decreases a@.len() - i,
    {
        r.push(a[i]);
        i += 1;
        proof {
            assert(a@.take(i as int) =~= a@.take(i - 1).push(a@[i - 1]));
        }
    }
    let mut j: usize = 0;
    while j < b.len()
        invariant
            j <= b@.len(),
            i == a@.len(),
            r@ == a@ + b@.take(j as int),
        decreases b@.len() - j,
    {
        r.push(b[j]);
        j += 1;
        proof {
            assert(a@ + b@.take(j as int) =~= (a@ + b@.take(j - 1)).push(b@[j - 1]));
        }
    }
    proof {
        assert(a@.take(a@.len() as int) =~= a@);
        assert(b@.take(b@.len() as int) =~= b@);
    }
    r
}

/// Appends `b` to the vector `a`.
pub fn append_chars(a: &mut Vec<char>, b: &[char])
    ensures
        final(a)@ == old(a)@ + b@,
{
    let mut j: usize = 0;
    while j < b.len()
        invariant
            j <= b@.len(),
            a@ == old(a)@ + b@.take(j as int),
        decreases b@.len() - j,
    {
        a.push(b[j]);
        j += 1;
        proof {
            assert(old(a)@ + b@.take(j as int) =~= (old(a)@ + b@.take(j - 1)).push(b@[j - 1]));
        }
    }
    proof {
        assert(b@.take(b@.len() as int) =~= b@);
    }
}

pub fn chars_eq(a: &[char], b: &[char]) -> (r: bool)
    ensures
        r == (a@ == b@),
{
    if a.len() != b.len() {
        return false;
    }
    let mut i: usize = 0;
    while i < a.len()
        invariant
            i <= a@.len(),
            a@.len() == b@.len(),
            forall|j: int| 0 <= j < i ==> a@[j] == b@[j],
        decreases a@.len() - i,
    {
        if a[i] != b[i] {
            return false;
        }
        i += 1;
    }
    proof {
        assert(a@ =~= b@);
    }
    true
}

/// Whether the characters equal those of the literal.
pub fn eq_str(a: &[char], lit: &str) -> (r: bool)
    ensures
        r == (a@ == lit@),
{
    let l = chars_of(lit);
    chars_eq(a, l.as_slice())
}

proof fn lemma_lead_ws_step(s: Seq<char>, i: int)
    requires
        0 <= i < s.len(),
        is_ws(s[i]),
    ensures
        lead_ws(s.skip(i)) == 1 + lead_ws(s.skip(i + 1)),
{
    assert(s.skip(i).drop_first() =~= s.skip(i + 1));
}

proof fn lemma_trail_ws_step(s: Seq<char>, n: int)
    requires
        0 < n <= s.len(),
        is_ws(s[n - 1]),
    ensures
        trail_ws(s.take(n)) == 1 + trail_ws(s.take(n - 1)),
{
    assert(s.take(n).drop_last() =~= s.take(n - 1));
}

pub fn lead_ws_count(v: &[char]) -> (n: usize)
    ensures
        n == lead_ws(v@),
        n <= v@.len(),
{
    let mut i: usize = 0;
    proof {
        assert(v@.skip(0) =~= v@);
    }
    while i < v.len() && char_is_ws(v[i])
        invariant
            i <= v@.len(),
            lead_ws(v@) == i + lead_ws(v@.skip(i as int)),
        decreases v@.len() - i,
    {
        proof {
            lemma_lead_ws_step(v@, i as int);
        }
        i += 1;
    }
    proof {
        assert(v@.skip(0) =~= v@);
    }
    i
}

pub fn trail_ws_count(v: &[char]) -> (n: usize)
    ensures
        n == trail_ws(v@),
        n <= v@.len(),
{
    let mut k: usize = v.len();
    proof {
        assert(v@.take(v@.len() as int) =~= v@);
    }
    while k > 0 && char_is_ws(v[k - 1])
        invariant
            k <= v@.len(),
            trail_ws(v@) == (v@.len() - k) + trail_ws(v@.take(k as int)),
        decreases k,
    {
        proof {
            lemma_trail_ws_step(v@, k as int);
        }
        k -= 1;
    }
    proof {
        assert(v@.take(v@.len() as int) =~= v@);
    }
    v.len() - k
}

pub fn trim_chars(v: &[char]) -> (r: Vec<char>)
    ensures
        r@ == trim(v@),
{
    let a = lead_ws_count(v);
    let rest = slice_chars(v, a, v.len());
    let b = trail_ws_count(rest.as_slice());
    slice_chars(rest.as_slice(), 0, rest.len() - b)
}

/// The characters of `s.trim()`.
pub fn trimmed(s: &str) -> (r: Vec<char>)
    ensures
        r@ == trim(s@),
{
    let v = chars_of(s);
    trim_chars(v.as_slice())
}

pub fn lower_chars(v: &[char]) -> (r: Vec<char>)
    ensures
        r@ == lower(v@),
{
    let mut r: Vec<char> = Vec::new();
    let mut i: usize = 0;
    while i < v.len()
        invariant
            i <= v@.len(),
            r@ == lower(v@.take(i as int)),
        decreases v@.len() - i,
    {
        r.push(char_to_lower(v[i]));
        i += 1;
        proof {
            assert(lower(v@.take(i as int)) =~= lower(v@.take(i - 1)).push(lower_char(v@[i - 1])));
        }
    }
    proof {
        assert(v@.take(v@.len() as int) =~= v@);
    }
    r
}

pub fn starts_with(v: &[char], p: &[char]) -> (r: bool)
    ensures
        r == has_prefix(v@, p@),
{
    if p.len() > v.len() {
        return false;
    }
    let mut i: usize = 0;
    while i < p.len()
        invariant
            i <= p@.len() <= v@.len(),
            forall|j: int| 0 <= j < i ==> v@[j] == p@[j],
        decreases p@.len() - i,
    {
        if v[i] != p[i] {
            proof {
                assert(v@.take(p@.len() as int)[i as int] != p@[i as int]);
            }
            return false;
        }
        i += 1;
    }
    proof {
        assert(v@.take(p@.len() as int) =~= p@);
    }
    true
}

pub fn ends_with(v: &[char], p: &[char]) -> (r: bool)
    ensures
        r == has_suffix(v@, p@),
{
    if p.len() > v.len() {
        return false;
    }
    let off = v.len() - p.len();
    let vn = v.len();
    let mut i: usize = 0;
    while i < p.len()
        invariant
            vn == v@.len(),
            i <= p@.len() <= v@.len(),
            off == v@.len() - p@.len(),
            off + p@.len() == v@.len(),
            forall|j: int| 0 <= j < i ==> v@[off + j] == p@[j],
        decreases p@.len() - i,
    {
        if v[off + i] != p[i] {
            proof {
                assert(v@.skip(off as int)[i as int] != p@[i as int]);
            }
            return false;
        }
        i += 1;
    }
    proof {
        assert(v@.skip(off as int) =~= p@);
    }
    true
}

pub fn starts_with_str(v: &[char], lit: &str) -> (r: bool)
    ensures
        r == has_prefix(v@, lit@),
{
    let p = chars_of(lit);
    starts_with(v, p.as_slice())
}

pub fn ends_with_str(v: &[char], lit: &str) -> (r: bool)
    ensures
        r == has_suffix(v@, lit@),
{
    let p = chars_of(lit);
    ends_with(v, p.as_slice())
}

/// `s.strip_prefix(lit)` over characters.
pub fn strip_prefix_str(v: &[char], lit: &str) -> (r: Option<Vec<char>>)
    ensures
        match r {
            Some(rest) => strip_prefix(v@, lit@) == Some(rest@),
            None => strip_prefix(v@, lit@) is None,
        },
{
    let p = chars_of(lit);
    if starts_with(v, p.as_slice()) {
        Some(slice_chars(v, p.len(), v.len()))
    } else {
        None
    }
}

pub fn contains_char(v: &[char], c: char) -> (r: bool)
    ensures
        r == v@.contains(c),
{
    let mut i: usize = 0;
    while i < v.len()
        invariant
            i <= v@.len(),
            forall|j: int| 0 <= j < i ==> v@[j] != c,
        decreases v@.len() - i,
    {
        if v[i] == c {
            proof {
                assert(v@[i as int] == c);
            }
            return true;
        }
        i += 1;
    }
    false
}

fn occurs_at_exec(v: &[char], t: &[char], i: usize) -> (r: bool)
    requires
        i + t@.len() <= v@.len(),
    ensures
        r == occurs_at(v@, t@, i as int),
{
    let mut j: usize = 0;
    let n = t.len();
    let vn = v.len();
    while j < n
        invariant
            vn == v@.len(),
            j <= t@.len(),
            n == t@.len(),
            i + t@.len() <= v@.len(),
            forall|k: int| 0 <= k < j ==> v@[i + k] == t@[k],
        decreases t@.len() - j,
    {
        if v[i + j] != t[j] {
            proof {
                assert(v@.subrange(i as int, i + t@.len())[j as int] != t@[j as int]);
            }
            return false;
        }
        j += 1;
    }
    proof {
        assert(v@.subrange(i as int, i + t@.len()) =~= t@);
    }
    true
}

pub fn contains_seq(v: &[char], t: &[char]) -> (r: bool)
    ensures
        r == contains(v@, t@),
{
    if t.len() > v.len() {
        return false;
    }
    let last = v.len() - t.len();
    let mut i: usize = 0;
    while i <= last
        invariant
            last == v@.len() - t@.len(),
            i <= last + 1,
            forall|k: int| 0 <= k < i ==> !occurs_at(v@, t@, k),
        decreases last + 1 - i,
    {
        if occurs_at_exec(v, t, i) {
            return true;
        }
        if i == last {
            return false;
        }
        i += 1;
    }
    false
}

pub fn contains_str(v: &[char], lit: &str) -> (r: bool)
    ensures
        r == contains(v@, lit@),
{
    let t = chars_of(lit);
    contains_seq(v, t.as_slice())
}

/// First index of a character of `set` in `v`.
pub fn find_any_exec(v: &[char], set: &[char]) -> (r: Option<usize>)
    ensures
        match r {
            Some(i) => find_any(v@, set@) == Some(i as int) && i < v@.len(),
            None => find_any(v@, set@) is None,
        },
{
    let mut i: usize = 0;
    while i < v.len()
        invariant
            i <= v@.len(),
            forall|j: int| 0 <= j < i ==> !set@.contains(#[trigger] v@[j]),
        decreases v@.len() - i,
    {
        if contains_char(set, v[i]) {
            proof {
                let w = choose|k: int|
                    0 <= k < v@.len() && set@.contains(v@[k]) && (forall|j: int|
                        0 <= j < k ==> !set@.contains(#[trigger] v@[j]));
                assert(0 <= i < v@.len() && set@.contains(v@[i as int]));
                if w < i {
                } else if w > i {
                    assert(!set@.contains(v@[i as int]));
                }
            }
            return Some(i);
        }
        i += 1;
    }
    None
}

/// `s.split_once(set)` over characters.
pub fn split_once_any_exec(v: &[char], set: &[char]) -> (r: Option<(Vec<char>, Vec<char>)>)
    ensures
        match r {
            Some((a, b)) => split_once_any(v@, set@) == Some((a@, b@)),
            None => split_once_any(v@, set@) is None,
        },
{
    let n = v.len();
    match find_any_exec(v, set) {
        Some(i) => Some((slice_chars(v, 0, i), slice_chars(v, i + 1, n))),
        None => None,
    }
}

proof fn lemma_digits_value_step(s: Seq<char>, i: int)
    requires
        0 <= i < s.len(),
    ensures
        digits_value(s.take(i + 1)) == digits_value(s.take(i)) * 10 + digit_value(s[i]),
{
    assert(s.take(i + 1).drop_last() =~= s.take(i));
}

/// `str::parse::<u32>` over characters.
pub fn parse_u32_exec(v: &[char]) -> (r: Option<u32>)
    ensures
        r == parse_u32(v@),
{
    let d: Vec<char> = if v.len() > 0 && v[0] == '+' {
        slice_chars(v, 1, v.len())
    } else {
        slice_chars(v, 0, v.len())
    };
    proof {
        assert(v@.subrange(0, v@.len() as int) =~= v@);
        assert(v@.len() > 0 ==> v@.subrange(1, v@.len() as int) =~= v@.drop_first());
        assert(d@ == (if v@.len() > 0 && v@[0] == '+' {
            v@.drop_first()
        } else {
            v@
        }));
    }
    if d.len() == 0 {
        return None;
    }
    let mut val: u64 = 0;
    let mut over = false;
    let mut i: usize = 0;
    while i < d.len()
        invariant
            i <= d@.len(),
            d@ == (if v@.len() > 0 && v@[0] == '+' {
                v@.drop_first()
            } else {
                v@
            }),
            forall|j: int| 0 <= j < i ==> is_ascii_digit(#[trigger] d@[j]),
            over ==> digits_value(d@.take(i as int)) > u32::MAX,
            !over ==> val == digits_value(d@.take(i as int)) && val <= u32::MAX,
        decreases d@.len() - i,
    {
        let c = d[i];
        if !char_is_ascii_digit(c) {
            proof {
                assert(!is_ascii_digit(d@[i as int]));
                assert(!all_digits(d@));
            }
            return None;
        }
        let dv: u64 = ((c as u32) - ('0' as u32)) as u64;
        proof {
            lemma_digits_value_step(d@, i as int);
            let x = digits_value(d@.take(i as int));
            assert(x * 10 + digit_value(c) >= x) by (nonlinear_arith);
        }
        if !over {
            val = val * 10 + dv;
            if val > u32::MAX as u64 {
                over = true;
            }
        }
        i += 1;
    }
    proof {
        assert(d@.take(d@.len() as int) =~= d@);
        assert(all_digits(d@));
    }
    if over {
        None
    } else {
        Some(val as u32)
    }
}

/// Decimal rendering of `n`, as `n.to_string()` prints it.
pub fn decimal_chars(n: u64) -> (r: Vec<char>)
    ensures
        r@ == decimal(n as nat),
    decreases n,
{
    if n < 10 {
        let c: char = ((n as u32) + ('0' as u32)) as u8 as char;
        let mut r: Vec<char> = Vec::new();
        r.push(c);
        proof {
            assert(r@ =~= seq![digit_char(n as nat)]);
        }
        r
    } else {
        let mut r = decimal_chars(n / 10);
        let c: char = (((n % 10) as u32) + ('0' as u32)) as u8 as char;
        r.push(c);
        r
    }
}


/// `s` without its trailing run of `c`.
pub open spec fn strip_trailing(s: Seq<char>, c: char) -> Seq<char>
    decreases s.len(),
{
    if s.len() > 0 && s.last() == c {
        strip_trailing(s.drop_last(), c)
    } else {
        s
    }
}

/// The characters after the last `/` (the whole sequence when it has none).
pub open spec fn last_segment(s: Seq<char>) -> Seq<char>
    decreases s.len(),
{
    if s.len() == 0 {
        s
    } else if s.last() == '/' {
        seq![]
    } else {
        last_segment(s.drop_last()).push(s.last())
    }
}

/// The characters before the first member of `set` (all of them when none occurs).
pub open spec fn before_any(s: Seq<char>, set: Seq<char>) -> Seq<char> {
    match find_any(s, set) {
        Some(i) => s.take(i),
        None => s,
    }
}

pub fn strip_trailing_exec(v: &[char], c: char) -> (r: Vec<char>)
    ensures
        r@ == strip_trailing(v@, c),
{
    let mut k: usize = v.len();
    proof {
        assert(v@.take(v@.len() as int) =~= v@);
    }
    while k > 0 && v[k - 1] == c
        invariant
            k <= v@.len(),
            strip_trailing(v@, c) == strip_trailing(v@.take(k as int), c),
        decreases k,
    {
        proof {
            assert(v@.take(k as int).drop_last() =~= v@.take(k - 1));
        }
        k -= 1;
    }
    slice_chars(v, 0, k)
}

pub fn last_segment_exec(v: &[char]) -> (r: Vec<char>)
    ensures
        r@ == last_segment(v@),
{
    let mut k: usize = v.len();
    proof {
        assert(v@.take(v@.len() as int) =~= v@);
    }
    while k > 0 && v[k - 1] != '/'
        invariant
            k <= v@.len(),
            last_segment(v@) == last_segment(v@.take(k as int)) + v@.subrange(k as int, v@.len() as int),
        decreases k,
    {
        proof {
            let t = v@.take(k as int);
            assert(t.drop_last() =~= v@.take(k - 1));
            assert(last_segment(t) == last_segment(v@.take(k - 1)).push(v@[k - 1]));
            assert(last_segment(v@.take(k - 1)).push(v@[k - 1]) + v@.subrange(k as int, v@.len() as int)
                =~= last_segment(v@.take(k - 1)) + v@.subrange(k - 1, v@.len() as int));
        }
        k -= 1;
    }
    proof {
        assert(last_segment(v@.take(k as int)) =~= Seq::<char>::empty());
        assert(Seq::<char>::empty() + v@.subrange(k as int, v@.len() as int) =~= v@.subrange(k as int, v@.len() as int));
    }
    slice_chars(v, k, v.len())
}

pub fn before_any_exec(v: &[char], set: &[char]) -> (r: Vec<char>)
    ensures
        r@ == before_any(v@, set@),
{
    match find_any_exec(v, set) {
        Some(i) => slice_chars(v, 0, i),
        None => {
            let r = slice_chars(v, 0, v.len());
            proof {
                assert(v@.subrange(0, v@.len() as int) =~= v@);
            }
            r
        },
    }
}

/// `format!("{a}{b}{c}")` for two literals around a string.
pub fn wrap_msg(a: &str, b: &str, c: &str) -> (r: String)
    ensures
        r@ == a@ + b@ + c@,
{
    let mut r = String::new();
    r.push_str(a);
    r.push_str(b);
    r.push_str(c);
    proof {
        assert(Seq::<char>::empty() + a@ + b@ + c@ =~= a@ + b@ + c@);
    }
    r
}

/// `format!("{a}{b}")`.
pub fn join_msg(a: &str, b: &str) -> (r: String)
    ensures
        r@ == a@ + b@,
{
    let mut r = String::new();
    r.push_str(a);
    r.push_str(b);
    proof {
        assert(Seq::<char>::empty() + a@ + b@ =~= a@ + b@);
    }
    r
}

/// The owned copy of a literal.
pub fn lit(a: &str) -> (r: String)
    ensures
        r@ == a@,
{
    let mut r = String::new();
    r.push_str(a);
    proof {
        assert(Seq::<char>::empty() + a@ =~= a@);
    }
    r
}

} // verus!
