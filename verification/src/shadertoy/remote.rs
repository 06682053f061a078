//! Turning Shadertoy API payloads into shader-pack names and pass kinds.
use vstd::prelude::*;
use crate::text::{
    char_is_ascii_alnum, char_is_ascii_digit, char_to_lower, chars_of, eq_str, is_ascii_alnum,
    is_ascii_digit, is_ascii_ws, lower, lower_char, lower_chars, string_of, strip_trailing,
    strip_trailing_exec, wrap_msg,
};
use crate::shadertoy::manifest::{
    ColorSpace, InputSource, PassInput, PassKind, ShaderPackManifest, ShaderPass,
    SurfaceAlpha as ManifestSurfaceAlpha,
};
use crate::fspath::{file_stem, join};
use crate::shadertoy::manifest::manifest_issues;
use crate::text::{decimal, decimal_chars, digit_char, has_prefix, lit, strings_view, trim};

verus! {

/// The label built so far and whether it ends in an inserted `_`.
pub open spec fn label_state(s: Seq<char>) -> (Seq<char>, bool)
    decreases s.len(),
{
    if s.len() == 0 {
        (seq![], false)
    } else {
        let (r, prev) = label_state(s.drop_last());
        let c = s.last();
        if is_ascii_alnum(c) {
            (r.push(lower_char(c)), false)
        } else if (is_ascii_ws(c) || c == '-' || c == '_') && r.len() > 0 && !prev {
            (r.push('_'), true)
        } else {
            (r, prev)
        }
    }
}

/// A lower-case identifier made of the ASCII letters and digits of `s`,
/// with each run of spaces, `-` or `_` between them turned into one `_`; a
/// leading digit gets a `p` in front; nothing when no letter or digit occurs.
pub open spec fn sanitized_label(s: Seq<char>) -> Option<Seq<char>> {
    let t = strip_trailing(label_state(s).0, '_');
    if t.len() == 0 {
        None
    } else if is_ascii_digit(t[0]) {
        Some(seq!['p'] + t)
    } else {
        Some(t)
    }
}

fn char_is_ascii_ws(c: char) -> (b: bool)
    ensures
        b == is_ascii_ws(c),
{
    c == ' ' || c == '\t' || c == '\n' || c == '\u{c}' || c == '\r'
}

pub fn sanitize_label(input: &str) -> (r: Option<String>)
    ensures
        match sanitized_label(input@) {
            Some(l) => r matches Some(s) && s@ == l,
            None => r is None,
        },
{
    let s = chars_of(input);
    let mut result: Vec<char> = Vec::new();
    let mut prev_underscore = false;
    let mut i: usize = 0;
    while i < s.len()
        invariant
            i <= s@.len(),
            (result@, prev_underscore) == label_state(s@.take(i as int)),
        decreases s@.len() - i,
    {
        let ch = s[i];
        proof {
            assert(s@.take(i + 1).drop_last() =~= s@.take(i as int));
            assert(s@.take(i + 1).last() == ch);
        }
        if char_is_ascii_alnum(ch) {
            result.push(char_to_lower(ch));
            prev_underscore = false;
        } else if (char_is_ascii_ws(ch) || ch == '-' || ch == '_') && result.len() > 0
            && !prev_underscore {
            result.push('_');
            prev_underscore = true;
        }
        i += 1;
    }
    proof {
        assert(s@.take(s@.len() as int) =~= s@);
    }
    let t = strip_trailing_exec(result.as_slice(), '_');
    if t.len() == 0 {
        return None;
    }
    if char_is_ascii_digit(t[0]) {
        let mut out: Vec<char> = Vec::new();
        out.push('p');
        crate::text::append_chars(&mut out, t.as_slice());
        proof {
            assert(out@ =~= seq!['p'] + t@);
        }
        return Some(string_of(out.as_slice()));
    }
    Some(string_of(t.as_slice()))
}

/// The pass kind named by a Shadertoy pass type (any letter case).
pub open spec fn pass_kind_of(kind: Seq<char>) -> Option<PassKind> {
    let k = lower(kind);
    if k == "image"@ {
        Some(PassKind::Image)
    } else if k == "buffer"@ || k == "compute"@ {
        Some(PassKind::Buffer)
    } else if k == "sound"@ || k == "music"@ {
        Some(PassKind::Sound)
    } else if k == "cubemap"@ {
        Some(PassKind::Cubemap)
    } else {
        None
    }
}

/// Maps a Shadertoy pass type to a pass kind; other types are refused with
/// the message `unsupported render pass type '<lower-cased type>'`.
pub fn map_pass_kind(kind: &str) -> (r: Result<PassKind, String>)
    ensures
        match pass_kind_of(kind@) {
            Some(k) => r == Ok::<PassKind, String>(k),
            None => r matches Err(m) && m@ == "unsupported render pass type '"@ + lower(kind@)
                + "'"@,
        },
{
    let v = chars_of(kind);
    let k = lower_chars(v.as_slice());
    let k = k.as_slice();
    if eq_str(k, "image") {
        Ok(PassKind::Image)
    } else if eq_str(k, "buffer") || eq_str(k, "compute") {
        Ok(PassKind::Buffer)
    } else if eq_str(k, "sound") || eq_str(k, "music") {
        Ok(PassKind::Sound)
    } else if eq_str(k, "cubemap") {
        Ok(PassKind::Cubemap)
    } else {
        let ks = string_of(k);
        Err(wrap_msg("unsupported render pass type '", ks.as_str(), "'"))
    }
}


/// `base_<k>`.
pub open spec fn suffixed(base: Seq<char>, k: nat) -> Seq<char> {
    base + "_"@ + decimal(k)
}

/// The first `k` from 2 on with `base_<k>` not among `used`.
pub open spec fn first_free(base: Seq<char>, used: Seq<Seq<char>>) -> nat {
    choose|k: nat|
        k >= 2 && !used.contains(suffixed(base, k)) && forall|j: nat| 2 <= j < k ==> used.contains(
            #[trigger] suffixed(base, j),
        )
}

/// `base` when no earlier name took it, else `base_<k>` for the first free
/// `k` from 2 on.
pub open spec fn unique_name(base: Seq<char>, used: Seq<Seq<char>>) -> Seq<char> {
    if !used.contains(base) {
        base
    } else {
        suffixed(base, first_free(base, used))
    }
}

proof fn lemma_decimal_len(n: nat)
    ensures
        decimal(n).len() >= 1,
        n >= 10 ==> decimal(n).len() >= 2,
    decreases n,
{
    if n >= 10 {
        lemma_decimal_len(n / 10);
    }
}

proof fn lemma_digit_char_injective(x: nat, y: nat)
    requires
        x < 10,
        y < 10,
        digit_char(x) == digit_char(y),
    ensures
        x == y,
{
    assert(digit_char(x) as u32 == 48 + x);
    assert(digit_char(y) as u32 == 48 + y);
}

/// Different numbers have different decimal forms.
pub proof fn lemma_decimal_injective(a: nat, b: nat)
    requires
        decimal(a) == decimal(b),
    ensures
        a == b,
    decreases a,
{
    lemma_decimal_len(a);
    lemma_decimal_len(b);
    if a < 10 && b < 10 {
        assert(decimal(a) == seq![digit_char(a)]);
        assert(decimal(b) == seq![digit_char(b)]);
        assert(seq![digit_char(a)][0] == digit_char(a));
        assert(seq![digit_char(b)][0] == digit_char(b));
        assert(decimal(a)[0] == decimal(b)[0]);
        lemma_digit_char_injective(a, b);
    } else if a >= 10 && b >= 10 {
        assert(decimal(a) == decimal(a / 10).push(digit_char(a % 10)));
        assert(decimal(b) == decimal(b / 10).push(digit_char(b % 10)));
        assert(decimal(a).drop_last() =~= decimal(a / 10));
        assert(decimal(b).drop_last() =~= decimal(b / 10));
        lemma_decimal_injective(a / 10, b / 10);
        assert(decimal(a).last() == digit_char(a % 10));
        assert(decimal(b).last() == digit_char(b % 10));
        lemma_digit_char_injective(a % 10, b % 10);
    } else if a < 10 {
        assert(decimal(a) == seq![digit_char(a)]);
        assert(decimal(a).len() == 1);
    } else {
        assert(decimal(b) == seq![digit_char(b)]);
        assert(decimal(b).len() == 1);
    }
}

proof fn lemma_suffixed_injective(base: Seq<char>, a: nat, b: nat)
    requires
        suffixed(base, a) == suffixed(base, b),
    ensures
        a == b,
{
    let pre = base + "_"@;
    assert(suffixed(base, a) == pre + decimal(a));
    assert(decimal(a) =~= suffixed(base, a).skip(pre.len() as int));
    assert(decimal(b) =~= suffixed(base, b).skip(pre.len() as int));
    lemma_decimal_injective(a, b);
}

/// When `base_2 .. base_<counter - 1>` are all taken, there are at least as
/// many names taken.
proof fn lemma_taken_bound(base: Seq<char>, used: Seq<Seq<char>>, counter: nat)
    requires
        counter >= 2,
        forall|j: nat| 2 <= j < counter ==> used.contains(#[trigger] suffixed(base, j)),
    ensures
        counter - 2 <= used.len(),
{
    let dom = vstd::set_lib::set_int_range(2, counter as int);
    let f = |k: int| suffixed(base, k as nat);
    vstd::set_lib::lemma_int_range(2, counter as int);
    assert(vstd::relations::injective_on(f, dom)) by {
        assert forall|x1: int, x2: int| dom.contains(x1) && dom.contains(x2) && #[trigger] f(x1) == #[trigger] f(x2) implies x1 == x2 by {
            lemma_suffixed_injective(base, x1 as nat, x2 as nat);
        }
    }
    let img = dom.map(f);
    vstd::set_lib::lemma_map_size(dom, img, f);
    assert(img.subset_of(used.to_set())) by {
        assert forall|x: Seq<char>| img.contains(x) implies used.to_set().contains(x) by {
            let k = choose|k: int| dom.contains(k) && f(k) == x;
            assert(used.contains(suffixed(base, k as nat)));
        }
    }
    used.lemma_cardinality_of_set();
    vstd::seq_lib::seq_to_set_is_finite(used);
    vstd::set_lib::lemma_len_subset(img, used.to_set());
}

proof fn lemma_free_suffix_exists(base: Seq<char>, used: Seq<Seq<char>>, counter: nat)
    requires
        counter >= 2,
        forall|j: nat| 2 <= j < counter ==> used.contains(#[trigger] suffixed(base, j)),
    ensures
        exists|k: nat|
            k >= 2 && !used.contains(suffixed(base, k)) && forall|j: nat| 2 <= j < k ==> used.contains(
                #[trigger] suffixed(base, j),
            ),
    decreases used.len() + 2 - counter,
{
    lemma_taken_bound(base, used, counter);
    if !used.contains(suffixed(base, counter)) {
        assert(forall|j: nat| 2 <= j < counter ==> used.contains(#[trigger] suffixed(base, j)));
    } else {
        assert forall|j: nat| 2 <= j < counter + 1 implies used.contains(#[trigger] suffixed(base, j)) by {
            if j == counter {
            }
        }
        lemma_taken_bound(base, used, counter + 1);
        lemma_free_suffix_exists(base, used, counter + 1);
    }
}

/// The name `make_unique_name` gives is never one already taken.
pub proof fn lemma_unique_name_fresh(base: Seq<char>, used: Seq<Seq<char>>)
    ensures
        !used.contains(unique_name(base, used)),
{
    if used.contains(base) {
        lemma_free_suffix_exists(base, used, 2);
    }
}

fn contains_name(used: &Vec<String>, name: &str) -> (r: bool)
    ensures
        r == strings_view(used@).contains(name@),
{
    let target = chars_of(name);
    let mut i: usize = 0;
    while i < used.len()
        invariant
            i <= used@.len(),
            target@ == name@,
            forall|j: int| 0 <= j < i ==> used@[j]@ != name@,
        decreases used@.len() - i,
    {
        let c = chars_of(used[i].as_str());
        if crate::text::chars_eq(c.as_slice(), target.as_slice()) {
            proof {
                assert(strings_view(used@)[i as int] == name@);
            }
            return true;
        }
        i += 1;
    }
    proof {
        if strings_view(used@).contains(name@) {
            let k = choose|k: int| 0 <= k < strings_view(used@).len() && strings_view(used@)[k] == name@;
            assert(used@[k]@ == name@);
        }
    }
    false
}

/// `base`, or `base_2`, `base_3`, ... until one is not among `used`; the
/// name chosen is added to `used`.
pub fn make_unique_name(base: String, used: &mut Vec<String>) -> (r: String)
    requires
        old(used)@.len() + 2 < u64::MAX,
    ensures
        r@ == unique_name(base@, strings_view(old(used)@)),
        strings_view(final(used)@) == strings_view(old(used)@).push(r@),
{
    let ghost u = strings_view(used@);
    if !contains_name(used, base.as_str()) {
        let copy = lit(base.as_str());
        used.push(copy);
        proof {
            assert(strings_view(used@) =~= u.push(base@));
        }
        return base;
    }
    let mut counter: u64 = 2;
    let len = used.len();
    loop
        invariant
            2 <= counter,
            u == strings_view(used@),
            u == strings_view(old(used)@),
            len == used@.len(),
            u.contains(base@),
            len + 2 < u64::MAX,
            forall|j: nat| 2 <= j < counter ==> u.contains(#[trigger] suffixed(base@, j)),
        decreases (len as int) + 2 - counter,
    {
        proof {
            lemma_taken_bound(base@, u, counter as nat);
        }
        let digits = decimal_chars(counter);
        let ds = string_of(digits.as_slice());
        let candidate = wrap_msg(base.as_str(), "_", ds.as_str());
        if !contains_name(used, candidate.as_str()) {
            proof {
                let k = counter as nat;
                assert(candidate@ == suffixed(base@, k));
                assert(k >= 2 && !u.contains(suffixed(base@, k)) && forall|j: nat| 2 <= j < k ==> u.contains(
                    #[trigger] suffixed(base@, j),
                ));
                let w = first_free(base@, u);
                assert(w >= 2 && !u.contains(suffixed(base@, w)));
                if w < k {
                    assert(u.contains(suffixed(base@, w)));
                } else if w > k {
                    assert(u.contains(suffixed(base@, k)));
                }
                assert(w == k);
                assert(unique_name(base@, u) == candidate@);
            }
            used.push(lit(candidate.as_str()));
            proof {
                assert(strings_view(used@) =~= u.push(candidate@));
            }
            return candidate;
        }
        proof {
            lemma_taken_bound(base@, u, (counter + 1) as nat);
        }
        counter = counter + 1;
    }
}


/// A shader as the Shadertoy API describes it.
#[derive(Debug, Clone)]
pub struct ShaderPayload {
    pub info: ShaderInfo,
    pub render_passes: Vec<RenderPass>,
}

#[derive(Debug, Clone)]
pub struct ShaderInfo {
    pub name: String,
    pub description: Option<String>,
    pub tags: Vec<String>,
}

#[derive(Debug, Clone)]
pub struct RenderPass {
    pub name: String,
    pub pass_type: String,
    pub code: String,
    pub inputs: Vec<RenderInput>,
    pub outputs: Vec<RenderOutput>,
}

#[derive(Debug, Clone)]
pub struct RenderInput {
    pub id: Option<i64>,
    pub channel: u8,
    pub src: Option<String>,
    pub channel_type: String,
}

#[derive(Debug, Clone)]
pub struct RenderOutput {
    pub id: i64,
    pub channel: u8,
}

/// The source file of one pass, relative to the pack root.
#[derive(Debug, Clone)]
pub struct PassArtifact {
    pub source_rel: String,
    pub source_code: String,
}

/// The text of the URL that `Url::join` makes of `relative` against the
/// URL `base`; `None` where either is refused.
pub uninterp spec fn joined_url_text(base: Seq<char>, relative: Seq<char>) -> Option<Seq<char>>;

/// Calls `reqwest::Url::parse` on `base`, then `Url::join` with `relative`.
/// Claimed: the result is the named text of the joined URL, or `None` when
/// either step fails.
#[verifier::external_body]
fn joined_url(base: &str, relative: &str) -> (r: Option<String>)
    ensures
        match r {
            Some(u) => joined_url_text(base@, relative@) == Some(u@),
            None => joined_url_text(base@, relative@) is None,
        },
{
    reqwest::Url::parse(base).ok().and_then(|b| b.join(relative).ok()).map(|u| u.to_string())
}

/// Where Shadertoy's media files are served from.
pub open spec fn media_base() -> Seq<char> {
    "https://www.shadertoy.com/"@
}

/// How an asset reference is turned into a URL: an `http://` or
/// `https://` URL is kept as it is, a `//host/...` one gets `https:` in
/// front (either only when it parses as a URL), anything else is taken
/// relative to the media site with its leading slashes removed.
pub open spec fn media_url_spec(src: Seq<char>) -> Option<Seq<char>> {
    if crate::text::has_prefix(src, "http://"@) || crate::text::has_prefix(src, "https://"@) {
        if parsed_url_path(src) is Some {
            Some(src)
        } else {
            None
        }
    } else if crate::text::has_prefix(src, "//"@) {
        if parsed_url_path("https:"@ + src) is Some {
            Some("https:"@ + src)
        } else {
            None
        }
    } else {
        joined_url_text(media_base(), strip_leading(src, '/'))
    }
}

/// The URL an asset reference `src` is downloaded from (see
/// `media_url_spec`); a reference that makes no URL is refused.
pub fn media_url(src: &str) -> (r: Result<String, String>)
    ensures
        match media_url_spec(src@) {
            Some(u) => r matches Ok(s) && s@ == u,
            None => r matches Err(m) && m@ == "resolving asset url '"@ + src@ + "'"@,
        },
{
    let v = chars_of(src);
    let parsed = if crate::text::starts_with_str(v.as_slice(), "http://") || crate::text::starts_with_str(
        v.as_slice(),
        "https://",
    ) {
        match url_path(src) {
            Some(_) => Some(lit(src)),
            None => None,
        }
    } else if crate::text::starts_with_str(v.as_slice(), "//") {
        let full = crate::text::join_msg("https:", src);
        match url_path(full.as_str()) {
            Some(_) => Some(full),
            None => None,
        }
    } else {
        let trimmed = strip_leading_exec(v.as_slice(), '/');
        let rel = crate::text::string_of(trimmed.as_slice());
        joined_url("https://www.shadertoy.com/", rel.as_str())
    };
    match parsed {
        Some(u) => Ok(u),
        None => Err(crate::text::wrap_msg("resolving asset url '", src, "'")),
    }
}

/// An API key is refused when it is blank.
pub fn check_api_key(key: &str) -> (r: Result<(), String>)
    ensures
        trim(key@).len() == 0 ==> (r matches Err(m) && m@ == "Shadertoy API key must not be empty"@),
        trim(key@).len() != 0 ==> r is Ok,
{
    if crate::text::trimmed(key).len() == 0 {
        Err(lit("Shadertoy API key must not be empty"))
    } else {
        Ok(())
    }
}

/// A shader id is refused when it is blank.
pub fn check_shader_id(id: &str) -> (r: Result<(), String>)
    ensures
        trim(id@).len() == 0 ==> (r matches Err(m) && m@ == "shader id must not be empty"@),
        trim(id@).len() != 0 ==> r is Ok,
{
    if crate::text::trimmed(id).len() == 0 {
        Err(lit("shader id must not be empty"))
    } else {
        Ok(())
    }
}

/// A file to download into the pack, relative to the pack root.
#[derive(Debug, Clone)]
pub struct AssetArtifact {
    pub url: String,
    pub destination_rel: String,
}

/// Everything a pack is written from: its manifest, its pass sources and
/// the assets to fetch.
#[derive(Debug, Clone)]
pub struct CachePlan {
    pub manifest: crate::shadertoy::manifest::ShaderPackManifest,
    pub pass_artifacts: Vec<PassArtifact>,
    pub assets: Vec<AssetArtifact>,
}

/// `Url::parse` followed by `Url::path`: the path of `text` read as an
/// absolute URL, or nothing when it is not one. The URL grammar is the
/// WHATWG standard's; the result is named, not restated.
pub uninterp spec fn parsed_url_path(text: Seq<char>) -> Option<Seq<char>>;

/// `reqwest::Url::parse(text)` and, on success, the URL's path. The
/// contract only says that the result is the named function of `text`.
#[verifier::external_body]
fn url_path(text: &str) -> (r: Option<String>)
    ensures
        match r {
            Some(p) => parsed_url_path(text@) == Some(p@),
            None => parsed_url_path(text@) is None,
        },
{
    match reqwest::Url::parse(text) {
        Ok(url) => Some(url.path().to_string()),
        Err(_) => None,
    }
}

/// `str::to_lowercase`: the Unicode lower-case form of `text` (full case
/// mapping); the result is named, not restated.
pub uninterp spec fn unicode_lower(text: Seq<char>) -> Seq<char>;

/// `str::to_lowercase`. The contract only says that the result is the named
/// function of `text`.
#[verifier::external_body]
fn to_lowercase(text: &str) -> (r: String)
    ensures
        r@ == unicode_lower(text@),
{
    text.to_lowercase()
}

/// `s` without its leading run of `c`.
pub open spec fn strip_leading(s: Seq<char>, c: char) -> Seq<char>
    decreases s.len(),
{
    if s.len() > 0 && s[0] == c {
        strip_leading(s.drop_first(), c)
    } else {
        s
    }
}

fn strip_leading_exec(v: &[char], c: char) -> (r: Vec<char>)
    ensures
        r@ == strip_leading(v@, c),
{
    let mut i: usize = 0;
    proof {
        assert(v@.skip(0) =~= v@);
    }
    while i < v.len() && v[i] == c
        invariant
            i <= v@.len(),
            strip_leading(v@, c) == strip_leading(v@.skip(i as int), c),
        decreases v@.len() - i,
    {
        proof {
            assert(v@.skip(i as int).drop_first() =~= v@.skip(i + 1));
        }
        i += 1;
    }
    let r = crate::text::slice_chars(v, i, v.len());
    proof {
        assert(r@ =~= v@.skip(i as int));
    }
    r
}

/// The path part of an asset reference: what precedes any `?` or `#`,
/// read as a URL's path when it is a URL.
pub open spec fn path_of_src(src: Seq<char>) -> Seq<char> {
    let t = crate::text::before_any(src, seq!['?', '#']);
    match parsed_url_path(t) {
        Some(p) => p,
        None => t,
    }
}

/// The file name of `path`, or else `<label of fallback>.<ext>` (the label
/// `asset` when the fallback has none, the extension without leading dots,
/// and no dot when it is empty).
pub open spec fn filename_from(path: Seq<char>, fallback: Seq<char>, ext: Seq<char>) -> Seq<char> {
    match crate::fspath::file_name(path) {
        Some(n) => n,
        None => {
            let base = match sanitized_label(fallback) {
                Some(b) => b,
                None => "asset"@,
            };
            let e = strip_leading(ext, '.');
            if e.len() == 0 {
                base
            } else {
                base + "."@ + e
            }
        },
    }
}

/// The file name an asset is stored under (see `filename_from`), from the
/// path of an asset reference.
pub fn filename_from_path(path: &str, fallback_base: &str, default_ext: &str) -> (r: String)
    ensures
        r@ == filename_from(path@, fallback_base@, default_ext@),
{
    match crate::fspath::file_name_exec(path) {
        Some(n) => string_of(n.as_slice()),
        None => {
            let base = match sanitize_label(fallback_base) {
                Some(b) => b,
                None => lit("asset"),
            };
            let e = strip_leading_exec(chars_of(default_ext).as_slice(), '.');
            if e.len() == 0 {
                base
            } else {
                let es = string_of(e.as_slice());
                wrap_msg(base.as_str(), ".", es.as_str())
            }
        },
    }
}

/// The file name an asset reference is stored under.
pub fn derive_filename(src: &str, fallback_base: &str, default_ext: &str) -> (r: String)
    ensures
        r@ == filename_from(path_of_src(src@), fallback_base@, default_ext@),
{
    let stops = chars_of("?#");
    proof {
        reveal_strlit("?#");
        assert(stops@ =~= seq!['?', '#']);
    }
    let trimmed = crate::text::before_any_exec(chars_of(src).as_slice(), stops.as_slice());
    let trimmed = string_of(trimmed.as_slice());
    let path_owned = match url_path(trimmed.as_str()) {
        Some(p) => p,
        None => trimmed,
    };
    filename_from_path(path_owned.as_str(), fallback_base, default_ext)
}

pub type AssetView = (Seq<char>, Seq<char>);

pub open spec fn asset_views(v: Seq<AssetArtifact>) -> Seq<AssetView> {
    v.map_values(|a: AssetArtifact| (a.url@, a.destination_rel@))
}

/// An asset is added unless one with the same destination is already there.
pub open spec fn add_asset_spec(assets: Seq<AssetView>, url: Seq<char>, dest: Seq<char>) -> Seq<AssetView> {
    if exists|i: int| 0 <= i < assets.len() && crate::fspath::same_path(#[trigger] assets[i].1, dest) {
        assets
    } else {
        assets.push((url, dest))
    }
}

fn add_asset(assets: &mut Vec<AssetArtifact>, url: &str, dest: &str)
    ensures
        asset_views(final(assets)@) == add_asset_spec(asset_views(old(assets)@), url@, dest@),
{
    let ghost before = asset_views(assets@);
    let mut i: usize = 0;
    while i < assets.len()
        invariant
            i <= assets@.len(),
            before == asset_views(assets@),
            forall|j: int| 0 <= j < i ==> !crate::fspath::same_path(#[trigger] before[j].1, dest@),
        decreases assets@.len() - i,
    {
        if crate::fspath::same_path_exec(assets[i].destination_rel.as_str(), dest) {
            proof {
                assert(crate::fspath::same_path(before[i as int].1, dest@));
            }
            return;
        }
        i += 1;
    }
    assets.push(AssetArtifact { url: lit(url), destination_rel: lit(dest) });
    proof {
        assert(asset_views(assets@) =~= before.push((url@, dest@)));
    }
}


/// An input of a manifest pass with its strings as character sequences.
pub enum InputView {
    Buffer(Seq<char>),
    Texture(Seq<char>),
    Cubemap(Seq<char>),
    Audio(Seq<char>),
    Keyboard,
}

pub open spec fn input_view(i: PassInput) -> (u8, InputView) {
    (i.channel, match i.source {
        InputSource::Buffer { name } => InputView::Buffer(name@),
        InputSource::Texture { path } => InputView::Texture(path@),
        InputSource::Cubemap { directory } => InputView::Cubemap(directory@),
        InputSource::Audio { path } => InputView::Audio(path@),
        InputSource::Keyboard => InputView::Keyboard,
    })
}

pub open spec fn input_views(v: Seq<PassInput>) -> Seq<(u8, InputView)> {
    v.map_values(|i: PassInput| input_view(i))
}

/// A manifest pass: name, kind, source file and inputs.
pub type PassView = (Seq<char>, PassKind, Seq<char>, Seq<(u8, InputView)>);

pub open spec fn pass_view(p: ShaderPass) -> PassView {
    (p.name@, p.kind, p.source@, input_views(p.inputs@))
}

pub type ArtifactView = (Seq<char>, Seq<char>);

pub open spec fn artifact_views(v: Seq<PassArtifact>) -> Seq<ArtifactView> {
    v.map_values(|a: PassArtifact| (a.source_rel@, a.source_code@))
}

/// The name a pass is given before clashes are resolved: its label, or
/// `pass<index>` when its name has none.
pub open spec fn pass_base(p: RenderPass, i: int) -> Seq<char> {
    match sanitized_label(p.name@) {
        Some(l) => l,
        None => "pass"@ + decimal(i as nat),
    }
}

/// The names of the first `n` passes, each made unique among those before.
pub open spec fn pass_names(ps: Seq<RenderPass>, n: nat) -> Seq<Seq<char>>
    decreases n,
{
    if n == 0 {
        seq![]
    } else {
        let prev = pass_names(ps, (n - 1) as nat);
        prev.push(unique_name(pass_base(ps[n - 1], n - 1), prev))
    }
}

/// The name of the last of the first `n` passes with an output `id`.
pub open spec fn output_owner(ps: Seq<RenderPass>, names: Seq<Seq<char>>, id: i64, n: nat) -> Option<Seq<char>>
    decreases n,
{
    if n == 0 {
        None
    } else if exists|o: int| 0 <= o < ps[n - 1].outputs@.len() && (#[trigger] ps[n - 1].outputs@[o]).id == id {
        Some(names[n - 1])
    } else {
        output_owner(ps, names, id, (n - 1) as nat)
    }
}

/// The name of the last of the first `n` passes whose lower-cased name is
/// `key`.
pub open spec fn name_owner(ps: Seq<RenderPass>, names: Seq<Seq<char>>, key: Seq<char>, n: nat) -> Option<Seq<char>>
    decreases n,
{
    if n == 0 {
        None
    } else if unicode_lower(ps[n - 1].name@) == key {
        Some(names[n - 1])
    } else {
        name_owner(ps, names, key, (n - 1) as nat)
    }
}

/// The entry pass: the first of type `image` (any ASCII case), else the
/// first pass.
pub open spec fn entry_name(ps: Seq<RenderPass>, names: Seq<Seq<char>>) -> Seq<char> {
    if exists|i: int| 0 <= i < ps.len() && lower(#[trigger] ps[i].pass_type@) == "image"@ {
        let i = choose|i: int|
            0 <= i < ps.len() && lower(ps[i].pass_type@) == "image"@ && forall|j: int|
                0 <= j < i ==> lower(#[trigger] ps[j].pass_type@) != "image"@;
        names[i]
    } else {
        names[0]
    }
}

pub open spec fn is_common(p: RenderPass) -> bool {
    lower(p.pass_type@) == "common"@
}

/// The code of the `common` passes among the first `n`, each ended by a
/// newline.
pub open spec fn common_code(ps: Seq<RenderPass>, n: nat) -> Seq<char>
    decreases n,
{
    if n == 0 {
        seq![]
    } else {
        let c = common_code(ps, (n - 1) as nat);
        if is_common(ps[n - 1]) {
            let c2 = c + ps[n - 1].code@;
            if c2.len() > 0 && c2.last() == '\n' {
                c2
            } else {
                c2.push('\n')
            }
        } else {
            c
        }
    }
}

pub type InputsAcc = (Seq<(u8, InputView)>, Seq<AssetView>);

/// What one input of pass `label` (named `pn` in the pack) adds: a buffer
/// by output id or pass name, a texture, cubemap or audio file to fetch, or
/// nothing for other channel types; refused past channel 3, for a buffer
/// nobody produces, or a file without a source.
pub open spec fn input_step(
    ps: Seq<RenderPass>,
    names: Seq<Seq<char>>,
    pn: Seq<char>,
    label: Seq<char>,
    input: RenderInput,
    st: InputsAcc,
) -> Result<InputsAcc, Seq<char>> {
    let ch = input.channel;
    let ct = lower(input.channel_type@);
    if ch > 3 {
        Err("pass '"@ + label + "' references channel "@ + decimal(ch as nat) + " which exceeds supported range"@)
    } else if ct == "buffer"@ {
        let by_id = match input.id {
            Some(id) => output_owner(ps, names, id, ps.len()),
            None => None,
        };
        let by_name = match input.src {
            Some(src) => name_owner(ps, names, unicode_lower(src@), ps.len()),
            None => None,
        };
        let found = if by_id is Some {
            by_id
        } else {
            by_name
        };
        match found {
            None => Err("pass '"@ + label + "' references buffer input with unknown target"@),
            Some(b) => Ok((st.0.push((ch, InputView::Buffer(b))), st.1)),
        }
    } else if ct == "texture"@ {
        match input.src {
            None => Err("texture input missing src in pass '"@ + label + "'"@),
            Some(src) => {
                let f = filename_from(path_of_src(src@), pn + "_ch"@ + decimal(ch as nat), "png"@);
                let d = join("textures"@, f);
                Ok((st.0.push((ch, InputView::Texture(d))), add_asset_spec(st.1, src@, d)))
            },
        }
    } else if ct == "cubemap"@ {
        match input.src {
            None => Err("cubemap input missing src in pass '"@ + label + "'"@),
            Some(src) => {
                let f = filename_from(path_of_src(src@), pn + "_cube"@, "png"@);
                let stem = match crate::fspath::file_name(f) {
                    Some(n) => sanitized_label(file_stem(n)),
                    None => None,
                };
                let dir = join(
                    "cubemaps"@,
                    match stem {
                        Some(l) => l,
                        None => "cubemap"@,
                    },
                );
                let d = join(dir, f);
                Ok((st.0.push((ch, InputView::Cubemap(dir))), add_asset_spec(st.1, src@, d)))
            },
        }
    } else if ct == "music"@ || ct == "sound"@ || ct == "musicstream"@ {
        match input.src {
            None => Err("audio input missing src in pass '"@ + label + "'"@),
            Some(src) => {
                let f = filename_from(path_of_src(src@), pn + "_ch"@ + decimal(ch as nat), "mp3"@);
                let d = join("audio"@, f);
                Ok((st.0.push((ch, InputView::Audio(d))), add_asset_spec(st.1, src@, d)))
            },
        }
    } else {
        Ok(st)
    }
}

/// `s` holds no `c`.
pub open spec fn free_of(s: Seq<char>, c: char) -> bool {
    forall|j: int| 0 <= j < s.len() ==> s[j] != c
}

proof fn lemma_split_free(s: Seq<char>, c: char)
    ensures
        forall|i: int| 0 <= i < crate::fspath::split_char(s, c).len() ==> free_of(#[trigger] crate::fspath::split_char(s, c)[i], c),
    decreases s.len(),
{
    crate::shadertoy::path::lemma_index_of(s, c);
    match crate::shadertoy::path::index_of(s, c) {
        None => {},
        Some(k) => {
            lemma_split_free(s.skip(k + 1 as int), c);
            let rest = crate::fspath::split_char(s.skip(k + 1 as int), c);
            let all = crate::fspath::split_char(s, c);
            assert(all == seq![s.take(k as int)] + rest);
            assert forall|i: int| 0 <= i < all.len() implies free_of(#[trigger] all[i], c) by {
                if i > 0 {
                    assert(all[i] == rest[i - 1]);
                }
            }
        },
    }
}

proof fn lemma_kept_free(segs: Seq<Seq<char>>, first: bool, c: char)
    requires
        forall|i: int| 0 <= i < segs.len() ==> free_of(#[trigger] segs[i], c),
    ensures
        forall|i: int| 0 <= i < crate::fspath::kept_segments(segs, first).len() ==> free_of(
            #[trigger] crate::fspath::kept_segments(segs, first)[i],
            c,
        ) && crate::fspath::kept_segments(segs, first)[i].len() > 0,
    decreases segs.len(),
{
    if segs.len() > 0 {
        let tail = segs.drop_first();
        assert forall|i: int| 0 <= i < tail.len() implies free_of(#[trigger] tail[i], c) by {
            assert(tail[i] == segs[i + 1]);
        }
        lemma_kept_free(tail, false, c);
        let k = crate::fspath::kept_segments(segs, first);
        let kt = crate::fspath::kept_segments(tail, false);
        let s = segs[0];
        assert(free_of(segs[0], c));
        if s.len() > 0 && (s != seq!['.'] || first) {
            assert(k == seq![s] + kt);
            assert forall|i: int| 0 <= i < k.len() implies free_of(#[trigger] k[i], c) && k[i].len() > 0 by {
                if i > 0 {
                    assert(k[i] == kt[i - 1]);
                }
            }
        }
    }
}

/// A file name is one nonempty path component.
proof fn lemma_file_name_component(p: Seq<char>)
    ensures
        crate::fspath::file_name(p) matches Some(n) ==> n.len() > 0 && free_of(n, '/'),
{
    lemma_split_free(p, '/');
    lemma_kept_free(crate::fspath::split_char(p, '/'), true, '/');
    let k = crate::fspath::kept_segments(crate::fspath::split_char(p, '/'), true);
    if k.len() > 0 {
        assert(free_of(k[k.len() - 1], '/'));
    }
}

proof fn lemma_strip_trailing_prefix(s: Seq<char>, c: char)
    ensures
        strip_trailing(s, c).len() <= s.len(),
        forall|j: int| 0 <= j < strip_trailing(s, c).len() ==> #[trigger] strip_trailing(s, c)[j] == s[j],
    decreases s.len(),
{
    if s.len() > 0 && s.last() == c {
        lemma_strip_trailing_prefix(s.drop_last(), c);
    }
}

proof fn lemma_strip_leading_suffix(s: Seq<char>, c: char)
    ensures
        free_of(s, '/') ==> free_of(strip_leading(s, c), '/'),
    decreases s.len(),
{
    if s.len() > 0 && s[0] == c {
        lemma_strip_leading_suffix(s.drop_first(), c);
        if free_of(s, '/') {
            assert forall|j: int| 0 <= j < s.drop_first().len() implies s.drop_first()[j] != '/' by {
                assert(s.drop_first()[j] == s[j + 1]);
            }
        }
    }
}

proof fn lemma_label_state_free(s: Seq<char>)
    ensures
        free_of(label_state(s).0, '/'),
    decreases s.len(),
{
    if s.len() > 0 {
        lemma_label_state_free(s.drop_last());
        let (r, prev) = label_state(s.drop_last());
        let c = s.last();
        if is_ascii_alnum(c) {
            let r2 = r.push(lower_char(c));
            assert(lower_char(c) != '/');
            assert forall|j: int| 0 <= j < r2.len() implies r2[j] != '/' by {
                if j < r.len() {
                    assert(r2[j] == r[j]);
                }
            }
        } else if (is_ascii_ws(c) || c == '-' || c == '_') && r.len() > 0 && !prev {
            let r2 = r.push('_');
            assert forall|j: int| 0 <= j < r2.len() implies r2[j] != '/' by {
                if j < r.len() {
                    assert(r2[j] == r[j]);
                }
            }
        }
    }
}

/// A label is one nonempty path component.
proof fn lemma_label_component(s: Seq<char>)
    ensures
        sanitized_label(s) matches Some(t) ==> t.len() > 0 && free_of(t, '/'),
{
    lemma_label_state_free(s);
    let l = label_state(s).0;
    lemma_strip_trailing_prefix(l, '_');
    let t = strip_trailing(l, '_');
    assert(free_of(t, '/')) by {
        assert forall|j: int| 0 <= j < t.len() implies t[j] != '/' by {
            assert(t[j] == l[j]);
        }
    }
    if t.len() > 0 && is_ascii_digit(t[0]) {
        let u = seq!['p'] + t;
        assert forall|j: int| 0 <= j < u.len() implies u[j] != '/' by {
            if j > 0 {
                assert(u[j] == t[j - 1]);
            }
        }
    }
}

/// The name an asset is stored under is one nonempty path component.
proof fn lemma_stored_name_component(path: Seq<char>, fallback: Seq<char>, ext: Seq<char>)
    requires
        free_of(ext, '/'),
    ensures
        filename_from(path, fallback, ext).len() > 0,
        free_of(filename_from(path, fallback, ext), '/'),
{
    lemma_file_name_component(path);
    lemma_label_component(fallback);
    lemma_strip_leading_suffix(ext, '.');
    reveal_strlit("asset");
    reveal_strlit(".");
    if crate::fspath::file_name(path) is None {
        let base = match sanitized_label(fallback) {
            Some(b) => b,
            None => "asset"@,
        };
        let e = strip_leading(ext, '.');
        assert(base.len() > 0 && free_of(base, '/'));
        if e.len() > 0 {
            let f = base + "."@ + e;
            assert forall|j: int| 0 <= j < f.len() implies f[j] != '/' by {
                if j < base.len() {
                    assert(f[j] == base[j]);
                } else if j == base.len() {
                    assert(f[j] == '.');
                } else {
                    assert(f[j] == e[j - base.len() - 1]);
                }
            }
        }
    }
}

/// `dir` joined with the single component `f` is `dir/f`.
proof fn lemma_join_component(dir: Seq<char>, f: Seq<char>)
    requires
        dir.len() > 0,
        dir.last() != '/',
        f.len() > 0,
        free_of(f, '/'),
    ensures
        join(dir, f) == dir + "/"@ + f,
{
    reveal_strlit("/");
    assert(f[0] != '/');
    assert(seq!['/'] =~= "/"@);
}

/// A cubemap input names a directory of its own under `cubemaps`, and the
/// file fetched for it is stored directly inside that directory: the
/// assets after the input are those before with `<dir>/<f>` added (unless
/// the same path is there already), `f` being a single file name.
#[verifier::spinoff_prover]
pub proof fn lemma_cubemap_asset_inside_directory(
    ps: Seq<RenderPass>,
    names: Seq<Seq<char>>,
    pn: Seq<char>,
    label: Seq<char>,
    input: RenderInput,
    st: InputsAcc,
)
    requires
        lower(input.channel_type@) == "cubemap"@,
        input_step(ps, names, pn, label, input, st) is Ok,
    ensures
        ({
            let new = input_step(ps, names, pn, label, input, st)->Ok_0;
            let dir = new.0.last().1->Cubemap_0;
            &&& new.0.len() == st.0.len() + 1
            &&& new.0.last().1 is Cubemap
            &&& has_prefix(dir, "cubemaps/"@)
            &&& exists|f: Seq<char>|
                #![trigger dir + "/"@ + f]
                f.len() > 0 && free_of(f, '/') && new.1 == add_asset_spec(st.1, input.src->Some_0@, dir + "/"@ + f)
        }),
{
    reveal_strlit("cubemap");
    reveal_strlit("texture");
    reveal_strlit("buffer");
    reveal_strlit("cubemaps");
    reveal_strlit("cubemaps/");
    reveal_strlit("png");
    reveal_strlit("/");
    let ct = lower(input.channel_type@);
    assert(ct != "buffer"@);
    assert(ct != "texture"@);
    let src = input.src->Some_0;
    let ch = input.channel;
    let f = filename_from(path_of_src(src@), pn + "_cube"@, "png"@);
    assert(free_of("png"@, '/'));
    lemma_stored_name_component(path_of_src(src@), pn + "_cube"@, "png"@);
    lemma_file_name_component(f);
    lemma_label_component(match crate::fspath::file_name(f) {
        Some(n) => file_stem(n),
        None => seq![],
    });
    let stem = match crate::fspath::file_name(f) {
        Some(n) => sanitized_label(file_stem(n)),
        None => None,
    };
    let leaf = match stem {
        Some(l) => l,
        None => "cubemap"@,
    };
    reveal_strlit("cubemap");
    assert(leaf.len() > 0 && free_of(leaf, '/'));
    assert("cubemaps"@.last() != '/');
    lemma_join_component("cubemaps"@, leaf);
    let dir = join("cubemaps"@, leaf);
    assert(dir == "cubemaps"@ + "/"@ + leaf);
    assert(dir.len() > 0);
    assert(dir.last() == leaf.last());
    assert(dir.last() != '/');
    lemma_join_component(dir, f);
    assert(has_prefix(dir, "cubemaps/"@)) by {
        assert(dir.take(9) =~= "cubemaps/"@);
    }
    assert(ch <= 3);
    let new = input_step(ps, names, pn, label, input, st)->Ok_0;
    assert(new == (st.0.push((ch, InputView::Cubemap(dir))), add_asset_spec(st.1, src@, join(dir, f))));
    assert(new.0.last() == (ch, InputView::Cubemap(dir)));
    assert(new.1 == add_asset_spec(st.1, src@, dir + "/"@ + f));
    assert(src@ == input.src->Some_0@);
    assert(new.0.last().1->Cubemap_0 == dir);
    assert(new.0.len() == st.0.len() + 1);
    assert(exists|g: Seq<char>|
        #![trigger new.0.last().1->Cubemap_0 + "/"@ + g]
        g.len() > 0 && free_of(g, '/') && new.1 == add_asset_spec(
            st.1,
            input.src->Some_0@,
            new.0.last().1->Cubemap_0 + "/"@ + g,
        )) by {
        assert(new.0.last().1->Cubemap_0 + "/"@ + f == dir + "/"@ + f);
    }
}

/// The inputs from `k` on, in order; the first refusal stops the rest.
pub open spec fn inputs_from(
    ps: Seq<RenderPass>,
    names: Seq<Seq<char>>,
    pn: Seq<char>,
    label: Seq<char>,
    inputs: Seq<RenderInput>,
    k: int,
    st: InputsAcc,
) -> Result<InputsAcc, Seq<char>>
    decreases inputs.len() - k,
{
    if k < 0 || k >= inputs.len() {
        Ok(st)
    } else {
        match input_step(ps, names, pn, label, inputs[k], st) {
            Err(e) => Err(e),
            Ok(st2) => inputs_from(ps, names, pn, label, inputs, k + 1, st2),
        }
    }
}

/// Manifest passes, pass sources and assets.
pub type PlanAcc = (Seq<PassView>, Seq<ArtifactView>, Seq<AssetView>);

/// What pass `i` adds: nothing for a `common` pass; otherwise a manifest
/// pass with its inputs, and its source file (`<name>.glsl`) holding the
/// common code followed by its own.
pub open spec fn pass_step(ps: Seq<RenderPass>, names: Seq<Seq<char>>, common: Seq<char>, i: int, acc: PlanAcc) -> Result<
    PlanAcc,
    Seq<char>,
> {
    let p = ps[i];
    let pn = names[i];
    if is_common(p) {
        Ok(acc)
    } else {
        match inputs_from(ps, names, pn, p.name@, p.inputs@, 0, (seq![], acc.2)) {
            Err(e) => Err(e),
            Ok(st) => match pass_kind_of(p.pass_type@) {
                None => Err("unsupported render pass type '"@ + lower(p.pass_type@) + "'"@),
                Some(kind) => {
                    let src = pn + ".glsl"@;
                    let code = if common.len() == 0 {
                        p.code@
                    } else {
                        common + p.code@
                    };
                    Ok((acc.0.push((pn, kind, src, st.0)), acc.1.push((src, code)), st.1))
                },
            },
        }
    }
}

pub open spec fn passes_from(ps: Seq<RenderPass>, names: Seq<Seq<char>>, common: Seq<char>, i: int, acc: PlanAcc) -> Result<
    PlanAcc,
    Seq<char>,
>
    decreases ps.len() - i,
{
    if i < 0 || i >= ps.len() {
        Ok(acc)
    } else {
        match pass_step(ps, names, common, i, acc) {
            Err(e) => Err(e),
            Ok(acc2) => passes_from(ps, names, common, i + 1, acc2),
        }
    }
}

/// The plan of a payload, before its manifest is checked.
pub open spec fn plan_spec(payload: ShaderPayload) -> Result<PlanAcc, Seq<char>> {
    let ps = payload.render_passes@;
    if ps.len() == 0 {
        Err("shader payload contains no render passes"@)
    } else {
        passes_from(ps, pass_names(ps, ps.len()), common_code(ps, ps.len()), 0, (seq![], seq![], seq![]))
    }
}

/// `m` is the manifest of `payload` with the passes of `acc`: named after
/// the shader when it has a name, entry as `entry_name`, opaque, automatic
/// colour space, with the shader's description and tags.
pub open spec fn manifest_matches(m: ShaderPackManifest, payload: ShaderPayload, acc: PlanAcc) -> bool {
    let ps = payload.render_passes@;
    &&& (if trim(payload.info.name@).len() > 0 {
        m.name matches Some(n) && n@ == payload.info.name@
    } else {
        m.name is None
    })
    &&& m.entry@ == entry_name(ps, pass_names(ps, ps.len()))
    &&& m.surface_alpha == ManifestSurfaceAlpha::Opaque
    &&& m.color_space == ColorSpace::Auto
    &&& match (m.description, payload.info.description) {
        (Some(a), Some(b)) => a@ == b@,
        (None, None) => true,
        _ => false,
    }
    &&& strings_view(m.tags@) == strings_view(payload.info.tags@)
    &&& m.passes@.map_values(|p: ShaderPass| pass_view(p)) == acc.0
}

/// `format!("{:?}", v)` of a list of strings; the result is named, not
/// restated.
pub uninterp spec fn debug_strings(v: Seq<Seq<char>>) -> Seq<char>;

/// `Debug` of a `Vec<String>` (`["a", "b"]`, with escapes). The contract
/// only says that the result is the named function of the strings.
#[verifier::external_body]
pub(crate) fn debug_list(v: &Vec<String>) -> (r: String)
    ensures
        r@ == debug_strings(strings_view(v@)),
{
    format!("{:?}", v)
}


fn output_owner_exec(ps: &Vec<RenderPass>, names: &Vec<String>, id: i64) -> (r: Option<String>)
    requires
        names@.len() == ps@.len(),
    ensures
        match output_owner(ps@, strings_view(names@), id, ps@.len()) {
            Some(n) => r matches Some(s) && s@ == n,
            None => r is None,
        },
{
    let mut n: usize = ps.len();
    while n > 0
        invariant
            n <= ps@.len(),
            names@.len() == ps@.len(),
            output_owner(ps@, strings_view(names@), id, ps@.len()) == output_owner(
                ps@,
                strings_view(names@),
                id,
                n as nat,
            ),
        decreases n,
    {
        let outputs = &ps[n - 1].outputs;
        let mut o: usize = 0;
        let mut hit = false;
        while o < outputs.len()
            invariant
                o <= outputs@.len(),
                !hit ==> forall|q: int| 0 <= q < o ==> (#[trigger] outputs@[q]).id != id,
                hit ==> exists|q: int| 0 <= q < outputs@.len() && (#[trigger] outputs@[q]).id == id,
            decreases outputs@.len() - o,
        {
            if outputs[o].id == id {
                hit = true;
            }
            o += 1;
        }
        if hit {
            proof {
                assert(strings_view(names@)[n - 1] == names@[n - 1]@);
            }
            return Some(lit(names[n - 1].as_str()));
        }
        n -= 1;
    }
    None
}

fn name_owner_exec(ps: &Vec<RenderPass>, lowered: &Vec<String>, names: &Vec<String>, key: &str) -> (r: Option<String>)
    requires
        names@.len() == ps@.len(),
        lowered@.len() == ps@.len(),
        forall|i: int| 0 <= i < ps@.len() ==> (#[trigger] lowered@[i])@ == unicode_lower(ps@[i].name@),
    ensures
        match name_owner(ps@, strings_view(names@), key@, ps@.len()) {
            Some(n) => r matches Some(s) && s@ == n,
            None => r is None,
        },
{
    let want = chars_of(key);
    let mut n: usize = ps.len();
    while n > 0
        invariant
            n <= ps@.len(),
            names@.len() == ps@.len(),
            lowered@.len() == ps@.len(),
            forall|i: int| 0 <= i < ps@.len() ==> (#[trigger] lowered@[i])@ == unicode_lower(ps@[i].name@),
            want@ == key@,
            name_owner(ps@, strings_view(names@), key@, ps@.len()) == name_owner(
                ps@,
                strings_view(names@),
                key@,
                n as nat,
            ),
        decreases n,
    {
        let l = chars_of(lowered[n - 1].as_str());
        if crate::text::chars_eq(l.as_slice(), want.as_slice()) {
            proof {
                assert(lowered@[n - 1]@ == unicode_lower(ps@[n - 1].name@));
                assert(strings_view(names@)[n - 1] == names@[n - 1]@);
            }
            return Some(lit(names[n - 1].as_str()));
        }
        proof {
            assert(lowered@[n - 1]@ == unicode_lower(ps@[n - 1].name@));
        }
        n -= 1;
    }
    None
}

/// The things a plan is made from: the passes, their unique names and
/// lower-cased names.
pub struct PlanContext<'a> {
    pub passes: &'a Vec<RenderPass>,
    pub names: Vec<String>,
    pub lowered: Vec<String>,
}

pub open spec fn context_ok(ctx: &PlanContext) -> bool {
    &&& ctx.names@.len() == ctx.passes@.len()
    &&& ctx.lowered@.len() == ctx.passes@.len()
    &&& forall|i: int| 0 <= i < ctx.passes@.len() ==> (#[trigger] ctx.lowered@[i])@ == unicode_lower(ctx.passes@[i].name@)
}

fn push_input(inputs: &mut Vec<PassInput>, channel: u8, source: InputSource)
    ensures
        input_views(final(inputs)@) == input_views(old(inputs)@).push(input_view(PassInput { channel, source })),
{
    let ghost before = input_views(inputs@);
    inputs.push(PassInput { channel, source });
    proof {
        assert(input_views(inputs@) =~= before.push(input_view(PassInput { channel, source })));
    }
}

fn plan_input(
    ctx: &PlanContext,
    pn: &str,
    label: &str,
    input: &RenderInput,
    inputs: &mut Vec<PassInput>,
    assets: &mut Vec<AssetArtifact>,
) -> (r: Result<(), String>)
    requires
        context_ok(ctx),
    ensures
        match input_step(
            ctx.passes@,
            strings_view(ctx.names@),
            pn@,
            label@,
            *input,
            (input_views(old(inputs)@), asset_views(old(assets)@)),
        ) {
            Err(e) => r matches Err(m) && m@ == e,
            Ok(st) => r is Ok && input_views(final(inputs)@) == st.0 && asset_views(final(assets)@) == st.1,
        },
{
    let ch = input.channel;
    if ch > 3 {
        let d = string_of(decimal_chars(ch as u64).as_slice());
        let mut m = wrap_msg("pass '", label, "' references channel ");
        m.push_str(d.as_str());
        m.push_str(" which exceeds supported range");
        return Err(m);
    }
    let ct = lower_chars(chars_of(input.channel_type.as_str()).as_slice());
    let ct = ct.as_slice();
    if eq_str(ct, "buffer") {
        let by_id = match input.id {
            Some(id) => output_owner_exec(ctx.passes, &ctx.names, id),
            None => None,
        };
        let found = match by_id {
            Some(b) => Some(b),
            None => match &input.src {
                Some(src) => {
                    let key = to_lowercase(src.as_str());
                    name_owner_exec(ctx.passes, &ctx.lowered, &ctx.names, key.as_str())
                },
                None => None,
            },
        };
        match found {
            None => Err(wrap_msg("pass '", label, "' references buffer input with unknown target")),
            Some(b) => {
                push_input(inputs, ch, InputSource::Buffer { name: b });
                Ok(())
            },
        }
    } else if eq_str(ct, "texture") {
        match &input.src {
            None => Err(wrap_msg("texture input missing src in pass '", label, "'")),
            Some(src) => {
                let d = string_of(decimal_chars(ch as u64).as_slice());
                let fallback = wrap_msg(pn, "_ch", d.as_str());
                let f = derive_filename(src.as_str(), fallback.as_str(), "png");
                let dest = crate::fspath::path_join("textures", f.as_str());
                add_asset(assets, src.as_str(), dest.as_str());
                push_input(inputs, ch, InputSource::Texture { path: dest });
                Ok(())
            },
        }
    } else if eq_str(ct, "cubemap") {
        match &input.src {
            None => Err(wrap_msg("cubemap input missing src in pass '", label, "'")),
            Some(src) => {
                let fallback = crate::text::join_msg(pn, "_cube");
                let f = derive_filename(src.as_str(), fallback.as_str(), "png");
                let stem = match crate::fspath::file_name_exec(f.as_str()) {
                    Some(n) => {
                        let st = string_of(crate::fspath::file_stem_exec(n.as_slice()).as_slice());
                        sanitize_label(st.as_str())
                    },
                    None => None,
                };
                let base_dir = match stem {
                    Some(l) => l,
                    None => lit("cubemap"),
                };
                let dir = crate::fspath::path_join("cubemaps", base_dir.as_str());
                let dest = crate::fspath::path_join(dir.as_str(), f.as_str());
                add_asset(assets, src.as_str(), dest.as_str());
                push_input(inputs, ch, InputSource::Cubemap { directory: dir });
                Ok(())
            },
        }
    } else if eq_str(ct, "music") || eq_str(ct, "sound") || eq_str(ct, "musicstream") {
        match &input.src {
            None => Err(wrap_msg("audio input missing src in pass '", label, "'")),
            Some(src) => {
                let d = string_of(decimal_chars(ch as u64).as_slice());
                let fallback = wrap_msg(pn, "_ch", d.as_str());
                let f = derive_filename(src.as_str(), fallback.as_str(), "mp3");
                let dest = crate::fspath::path_join("audio", f.as_str());
                add_asset(assets, src.as_str(), dest.as_str());
                push_input(inputs, ch, InputSource::Audio { path: dest });
                Ok(())
            },
        }
    } else {
        Ok(())
    }
}


pub open spec fn manifest_pass_views(v: Seq<ShaderPass>) -> Seq<PassView> {
    v.map_values(|p: ShaderPass| pass_view(p))
}

fn plan_pass(
    ctx: &PlanContext,
    i: usize,
    common: &str,
    passes: &mut Vec<ShaderPass>,
    artifacts: &mut Vec<PassArtifact>,
    assets: &mut Vec<AssetArtifact>,
) -> (r: Result<(), String>)
    requires
        context_ok(ctx),
        i < ctx.passes@.len(),
    ensures
        match pass_step(
            ctx.passes@,
            strings_view(ctx.names@),
            common@,
            i as int,
            (manifest_pass_views(old(passes)@), artifact_views(old(artifacts)@), asset_views(old(assets)@)),
        ) {
            Err(e) => r matches Err(m) && m@ == e,
            Ok(acc) => r is Ok && manifest_pass_views(final(passes)@) == acc.0 && artifact_views(final(artifacts)@)
                == acc.1 && asset_views(final(assets)@) == acc.2,
        },
{
    let p = &ctx.passes[i];
    let pn = ctx.names[i].as_str();
    proof {
        assert(strings_view(ctx.names@)[i as int] == ctx.names@[i as int]@);
    }
    let kind_text = lower_chars(chars_of(p.pass_type.as_str()).as_slice());
    if eq_str(kind_text.as_slice(), "common") {
        return Ok(());
    }
    proof {
        assert(!is_common(*p));
    }
    let mut inputs: Vec<PassInput> = Vec::new();
    let ghost names = strings_view(ctx.names@);
    proof {
        assert(input_views(inputs@) =~= Seq::<(u8, InputView)>::empty());
    }
    let mut k: usize = 0;
    while k < p.inputs.len()
        invariant
            context_ok(ctx),
            k <= p.inputs@.len(),
            i < ctx.passes@.len(),
            *p == ctx.passes@[i as int],
            !is_common(*p),
            names == strings_view(ctx.names@),
            pn@ == names[i as int],
            inputs_from(ctx.passes@, names, pn@, p.name@, p.inputs@, 0, (seq![], asset_views(old(assets)@)))
                == inputs_from(ctx.passes@, names, pn@, p.name@, p.inputs@, k as int, (input_views(inputs@), asset_views(assets@))),
        decreases p.inputs@.len() - k,
    {
        let ghost before = (input_views(inputs@), asset_views(assets@));
        let res = plan_input(ctx, pn, p.name.as_str(), &p.inputs[k], &mut inputs, assets);
        proof {
            assert(inputs_from(ctx.passes@, names, pn@, p.name@, p.inputs@, k as int, before) == match input_step(
                ctx.passes@,
                names,
                pn@,
                p.name@,
                p.inputs@[k as int],
                before,
            ) {
                Err(e) => Err(e),
                Ok(st2) => inputs_from(ctx.passes@, names, pn@, p.name@, p.inputs@, k + 1, st2),
            });
        }
        match res {
            Err(m) => {
                return Err(m);
            },
            Ok(()) => {},
        }
        k += 1;
    }
    proof {
        let st = (input_views(inputs@), asset_views(assets@));
        assert(inputs_from(ctx.passes@, names, pn@, p.name@, p.inputs@, k as int, st) == Ok::<InputsAcc, Seq<char>>(st));
    }
    let kind = match map_pass_kind(p.pass_type.as_str()) {
        Ok(kind) => kind,
        Err(m) => {
            return Err(m);
        },
    };
    let src = crate::text::join_msg(pn, ".glsl");
    let common_empty = chars_of(common).len() == 0;
    let code = if common_empty {
        lit(p.code.as_str())
    } else {
        crate::text::join_msg(common, p.code.as_str())
    };
    let ghost pv = manifest_pass_views(passes@);
    let ghost av = artifact_views(artifacts@);
    passes.push(ShaderPass { name: lit(pn), kind, source: lit(src.as_str()), inputs });
    artifacts.push(PassArtifact { source_rel: src, source_code: code });
    proof {
        assert(manifest_pass_views(passes@) =~= pv.push(pass_view(passes@.last())));
        assert(artifact_views(artifacts@) =~= av.push((artifacts@.last().source_rel@, artifacts@.last().source_code@)));
        assert(pass_kind_of(p.pass_type@) == Some(kind));
        assert(pass_view(passes@.last()) == (pn@, kind, pn@ + ".glsl"@, input_views(inputs@)));
    }
    Ok(())
}


/// What `build_cache_plan` gives: the refusal of `plan_spec`, or a plan with
/// its passes, sources and assets and a manifest that validates; a manifest
/// that does not validate is refused with its issues.
pub open spec fn cache_plan_outcome(payload: ShaderPayload, r: Result<CachePlan, String>) -> bool {
    match plan_spec(payload) {
        Err(e) => r matches Err(m) && m@ == e,
        Ok(acc) => match r {
            Ok(plan) => {
                &&& manifest_matches(plan.manifest, payload, acc)
                &&& manifest_issues(plan.manifest).len() == 0
                &&& artifact_views(plan.pass_artifacts@) == acc.1
                &&& asset_views(plan.assets@) == acc.2
            },
            Err(m) => invalid_manifest_refusal(payload, acc, m@),
        },
    }
}

/// `m` refuses a manifest of `payload` with the passes of `acc` that does
/// not validate, listing its issues.
pub open spec fn invalid_manifest_refusal(payload: ShaderPayload, acc: PlanAcc, m: Seq<char>) -> bool {
    exists|mf: ShaderPackManifest|
        #[trigger] manifest_matches(mf, payload, acc) && manifest_issues(mf).len() > 0 && m
            == "generated manifest invalid: "@ + debug_strings(manifest_issues(mf))
}

fn copy_strings(v: &Vec<String>) -> (r: Vec<String>)
    ensures
        strings_view(r@) == strings_view(v@),
{
    let mut r: Vec<String> = Vec::new();
    let mut i: usize = 0;
    while i < v.len()
        invariant
            i <= v@.len(),
            strings_view(r@) == strings_view(v@.take(i as int)),
        decreases v@.len() - i,
    {
        let ghost before = strings_view(r@);
        r.push(lit(v[i].as_str()));
        i += 1;
        proof {
            assert(v@.take(i as int) =~= v@.take(i - 1).push(v@[i - 1]));
            assert(strings_view(r@) =~= before.push(v@[i - 1]@));
            assert(strings_view(r@) =~= strings_view(v@.take(i as int)));
        }
    }
    proof {
        assert(v@.take(v@.len() as int) =~= v@);
    }
    r
}

/// The pack a Shadertoy payload becomes: unique pass names, the entry pass,
/// the common code put in front of every pass, the files to fetch, and the
/// manifest (see `cache_plan_outcome`).
pub fn build_cache_plan(payload: &ShaderPayload) -> (r: Result<CachePlan, String>)
    requires
        payload.render_passes@.len() + 2 < u64::MAX,
    ensures
        cache_plan_outcome(*payload, r),
{
    let ps = &payload.render_passes;
    if ps.len() == 0 {
        return Err(lit("shader payload contains no render passes"));
    }
    let mut used: Vec<String> = Vec::new();
    let mut names: Vec<String> = Vec::new();
    let mut i: usize = 0;
    while i < ps.len()
        invariant
            i <= ps@.len(),
            ps@.len() + 2 < u64::MAX,
            names@.len() == i,
            strings_view(names@) == pass_names(ps@, i as nat),
            strings_view(used@) == strings_view(names@),
        decreases ps@.len() - i,
    {
        let base = match sanitize_label(ps[i].name.as_str()) {
            Some(l) => l,
            None => {
                let d = string_of(decimal_chars(i as u64).as_slice());
                crate::text::join_msg("pass", d.as_str())
            },
        };
        let ghost prev = strings_view(names@);
        proof {
            assert(strings_view(used@).len() == used@.len());
            assert(strings_view(names@).len() == names@.len());
        }
        let unique = make_unique_name(base, &mut used);
        let ghost uv = unique@;
        names.push(unique);
        proof {
            assert(strings_view(names@) =~= prev.push(uv));
        }
        i += 1;
    }
    let ghost nv = strings_view(names@);
    let mut lowered: Vec<String> = Vec::new();
    let mut j: usize = 0;
    while j < ps.len()
        invariant
            j <= ps@.len(),
            lowered@.len() == j,
            forall|k: int| 0 <= k < j ==> (#[trigger] lowered@[k])@ == unicode_lower(ps@[k].name@),
        decreases ps@.len() - j,
    {
        lowered.push(to_lowercase(ps[j].name.as_str()));
        j += 1;
    }
    let mut entry_index: usize = 0;
    let mut found = false;
    let mut e: usize = 0;
    while e < ps.len() && !found
        invariant
            e <= ps@.len(),
            ps@.len() > 0,
            !found ==> forall|k: int| 0 <= k < e ==> lower(#[trigger] ps@[k].pass_type@) != "image"@,
            found ==> entry_index < ps@.len() && lower(ps@[entry_index as int].pass_type@) == "image"@ && forall|k: int|
                0 <= k < entry_index ==> lower(#[trigger] ps@[k].pass_type@) != "image"@,
            !found ==> entry_index == 0,
        decreases ps@.len() - e,
    {
        let t = lower_chars(chars_of(ps[e].pass_type.as_str()).as_slice());
        if eq_str(t.as_slice(), "image") {
            entry_index = e;
            found = true;
        }
        e += 1;
    }
    proof {
        if found {
            let w = choose|k: int|
                0 <= k < ps@.len() && lower(ps@[k].pass_type@) == "image"@ && forall|m: int|
                    0 <= m < k ==> lower(#[trigger] ps@[m].pass_type@) != "image"@;
            if w < entry_index {
            } else if w > entry_index {
                assert(lower(ps@[entry_index as int].pass_type@) != "image"@);
            }
        }
        assert(nv[entry_index as int] == names@[entry_index as int]@);
    }
    let entry = lit(names[entry_index].as_str());
    let mut common = String::new();
    let mut c: usize = 0;
    proof {
        assert(common@ == common_code(ps@, 0));
    }
    while c < ps.len()
        invariant
            c <= ps@.len(),
            common@ == common_code(ps@, c as nat),
        decreases ps@.len() - c,
    {
        let t = lower_chars(chars_of(ps[c].pass_type.as_str()).as_slice());
        if eq_str(t.as_slice(), "common") {
            common.push_str(ps[c].code.as_str());
            let cv = chars_of(common.as_str());
            if !(cv.len() > 0 && cv[cv.len() - 1] == '\n') {
                common.push('\n');
            }
        }
        c += 1;
    }
    let ctx = PlanContext { passes: ps, names, lowered };
    let mut mpasses: Vec<ShaderPass> = Vec::new();
    let mut artifacts: Vec<PassArtifact> = Vec::new();
    let mut assets: Vec<AssetArtifact> = Vec::new();
    let ghost cv = common@;
    proof {
        assert(plan_spec(*payload) == passes_from(ps@, nv, cv, 0, (seq![], seq![], seq![])));
        assert(manifest_pass_views(mpasses@) =~= Seq::<PassView>::empty());
        assert(artifact_views(artifacts@) =~= Seq::<ArtifactView>::empty());
        assert(asset_views(assets@) =~= Seq::<AssetView>::empty());
    }
    let mut k: usize = 0;
    while k < ps.len()
        invariant
            k <= ps@.len(),
            context_ok(&ctx),
            ctx.passes == ps,
            strings_view(ctx.names@) == nv,
            nv == pass_names(ps@, ps@.len()),
            cv == common@,
            cv == common_code(ps@, ps@.len()),
            plan_spec(*payload) == passes_from(ps@, nv, cv, 0, (seq![], seq![], seq![])),
            passes_from(ps@, nv, cv, 0, (seq![], seq![], seq![])) == passes_from(
                ps@,
                nv,
                cv,
                k as int,
                (manifest_pass_views(mpasses@), artifact_views(artifacts@), asset_views(assets@)),
            ),
        decreases ps@.len() - k,
    {
        let ghost acc = (manifest_pass_views(mpasses@), artifact_views(artifacts@), asset_views(assets@));
        let res = plan_pass(&ctx, k, common.as_str(), &mut mpasses, &mut artifacts, &mut assets);
        proof {
            assert(passes_from(ps@, nv, cv, k as int, acc) == match pass_step(ps@, nv, cv, k as int, acc) {
                Err(e) => Err(e),
                Ok(acc2) => passes_from(ps@, nv, cv, k + 1, acc2),
            });
        }
        match res {
            Err(m) => {
                return Err(m);
            },
            Ok(()) => {},
        }
        k += 1;
    }
    let ghost acc = (manifest_pass_views(mpasses@), artifact_views(artifacts@), asset_views(assets@));
    proof {
        assert(passes_from(ps@, nv, cv, k as int, acc) == Ok::<PlanAcc, Seq<char>>(acc));
    }
    let name = if crate::text::trimmed(payload.info.name.as_str()).len() > 0 {
        Some(lit(payload.info.name.as_str()))
    } else {
        None
    };
    let description = match &payload.info.description {
        Some(d) => Some(lit(d.as_str())),
        None => None,
    };
    let manifest = ShaderPackManifest {
        name,
        entry,
        surface_alpha: ManifestSurfaceAlpha::Opaque,
        color_space: ColorSpace::Auto,
        description,
        tags: copy_strings(&payload.info.tags),
        passes: mpasses,
    };
    proof {
        assert(manifest_matches(manifest, *payload, acc));
    }
    let issues = manifest.validate();
    if issues.len() != 0 {
        let listed = debug_list(&issues);
        let m = crate::text::join_msg("generated manifest invalid: ", listed.as_str());
        proof {
            assert(plan_spec(*payload) == Ok::<PlanAcc, Seq<char>>(acc));
            assert(manifest_issues(manifest).len() > 0);
            assert(m@ == "generated manifest invalid: "@ + debug_strings(manifest_issues(manifest)));
            assert(manifest_matches(manifest, *payload, acc));
            assert(invalid_manifest_refusal(*payload, acc, m@));
        }
        return Err(m);
    }
    Ok(CachePlan { manifest, pass_artifacts: artifacts, assets })
}

} // verus!
