//! What the daemons share at start-up: the plan for their directories, the
//! rule for installing bundled defaults, and the `WIDTHxHEIGHT` size syntax.
use vstd::prelude::*;
use crate::text::{
    chars_of, lit, parse_u32, parse_u32_exec, split_once_any, split_once_any_exec, trim, trim_chars, trimmed, wrap_msg,
};
use crate::fspath::{join, path_exists, path_is_dir, path_join, same_path, same_path_exec};
use crate::text::{
    all_digits, decimal, digit_char, digit_value, digits_value, find_any, is_ascii_digit, is_ws, lead_ws,
    string_of, trail_ws,
    trim_end, trim_start,
};

verus! {

/// What to do about one directory the daemon needs. `S` is `String` at run
/// time and `Seq<char>` in specs.
#[derive(Debug, Clone, PartialEq, Eq)]
pub enum DirStepOf<S> {
    /// It is there and is a directory.
    Reuse(S),
    /// Nothing is there: create it with its parents.
    Create(S),
    /// Something that is not a directory is there: start-up fails.
    NotADirectory(S),
}

pub type DirStep = DirStepOf<String>;

impl View for DirStepOf<String> {
    type V = DirStepOf<Seq<char>>;

    open spec fn view(&self) -> DirStepOf<Seq<char>> {
        match self {
            DirStepOf::Reuse(d) => DirStepOf::Reuse(d@),
            DirStepOf::Create(d) => DirStepOf::Create(d@),
            DirStepOf::NotADirectory(d) => DirStepOf::NotADirectory(d@),
        }
    }
}

pub open spec fn not_a_directory_message(d: Seq<char>) -> Seq<char> {
    "filesystem entry at "@ + d + " is not a directory"@
}

impl DirStepOf<String> {
    /// The start-up error of a `NotADirectory` step.
    pub fn message(&self) -> (r: Option<String>)
        ensures
            match self@ {
                DirStepOf::NotADirectory(d) => r matches Some(m) && m@ == not_a_directory_message(d),
                _ => r is None,
            },
    {
        match self {
            DirStepOf::NotADirectory(d) => Some(
                wrap_msg("filesystem entry at ", d.as_str(), " is not a directory"),
            ),
            _ => None,
        }
    }
}

/// What the disk answered for one directory: whether something is there,
/// and whether it is a directory.
#[derive(Debug, Clone, Copy, PartialEq, Eq)]
pub struct DirProbe {
    pub exists: bool,
    pub is_dir: bool,
}

pub open spec fn dir_step(d: Seq<char>, probe: DirProbe) -> DirStepOf<Seq<char>> {
    if probe.exists {
        if probe.is_dir {
            DirStepOf::Reuse(d)
        } else {
            DirStepOf::NotADirectory(d)
        }
    } else {
        DirStepOf::Create(d)
    }
}

pub open spec fn probe_at(probes: Seq<DirProbe>, i: int) -> DirProbe {
    if 0 <= i < probes.len() {
        probes[i]
    } else {
        DirProbe { exists: false, is_dir: false }
    }
}

/// The steps for `dirs[i..]` in order, ending at the first that is not a
/// directory; a directory without a probe counts as absent.
pub open spec fn plan_from(dirs: Seq<Seq<char>>, probes: Seq<DirProbe>, i: int) -> Seq<
    DirStepOf<Seq<char>>,
>
    decreases dirs.len() - i,
{
    if i < 0 || i >= dirs.len() {
        seq![]
    } else {
        let s = dir_step(dirs[i], probe_at(probes, i));
        if s is NotADirectory {
            seq![s]
        } else {
            seq![s] + plan_from(dirs, probes, i + 1)
        }
    }
}

pub open spec fn plan_dirs(dirs: Seq<Seq<char>>, probes: Seq<DirProbe>) -> Seq<DirStepOf<Seq<char>>> {
    plan_from(dirs, probes, 0)
}

pub open spec fn steps_view(v: Seq<DirStep>) -> Seq<DirStepOf<Seq<char>>> {
    v.map_values(|s: DirStep| s@)
}

pub open spec fn strings_of(v: Seq<String>) -> Seq<Seq<char>> {
    v.map_values(|s: String| s@)
}

/// The steps for `dirs` given what the disk answered for each.
pub fn plan_directories(dirs: &[String], probes: &[DirProbe]) -> (r: Vec<DirStep>)
    ensures
        steps_view(r@) == plan_dirs(strings_of(dirs@), probes@),
{
    let ghost dv = strings_of(dirs@);
    let mut out: Vec<DirStep> = Vec::new();
    let mut i: usize = 0;
    proof {
        assert(steps_view(out@) + plan_from(dv, probes@, 0) =~= plan_dirs(dv, probes@));
    }
    while i < dirs.len()
        invariant
            i <= dirs@.len(),
            dv == strings_of(dirs@),
            steps_view(out@) + plan_from(dv, probes@, i as int) == plan_dirs(dv, probes@),
        decreases dirs@.len() - i,
    {
        let p = if i < probes.len() {
            probes[i]
        } else {
            DirProbe { exists: false, is_dir: false }
        };
        let d = lit(dirs[i].as_str());
        let ghost before = steps_view(out@);
        let step = if p.exists {
            if p.is_dir {
                DirStepOf::Reuse(d)
            } else {
                DirStepOf::NotADirectory(d)
            }
        } else {
            DirStepOf::Create(d)
        };
        proof {
            assert(step@ == dir_step(dv[i as int], probe_at(probes@, i as int)));
        }
        let stop = matches!(step, DirStepOf::NotADirectory(_));
        out.push(step);
        proof {
            assert(steps_view(out@) =~= before.push(step@));
        }
        if stop {
            proof {
                assert(steps_view(out@) =~= before + seq![step@]);
            }
            return out;
        }
        proof {
            assert(before + (seq![step@] + plan_from(dv, probes@, i + 1)) =~= before.push(step@)
                + plan_from(dv, probes@, i + 1));
        }
        i += 1;
    }
    proof {
        assert(steps_view(out@) + Seq::<DirStepOf<Seq<char>>>::empty() =~= steps_view(out@));
    }
    out
}

/// Asks the disk about each directory and plans the steps; the answers
/// depend on the disk, so the steps are those of some set of answers.
pub fn probe_and_plan(dirs: &[String]) -> (r: Vec<DirStep>)
    ensures
        exists|probes: Seq<DirProbe>| #[trigger] plan_dirs(strings_of(dirs@), probes) == steps_view(r@),
{
    let mut probes: Vec<DirProbe> = Vec::new();
    let mut i: usize = 0;
    while i < dirs.len()
        invariant
            i <= dirs@.len(),
        decreases dirs@.len() - i,
    {
        let exists = path_exists(dirs[i].as_str());
        let is_dir = exists && path_is_dir(dirs[i].as_str());
        probes.push(DirProbe { exists, is_dir });
        i += 1;
    }
    let r = plan_directories(dirs, probes.as_slice());
    proof {
        assert(plan_dirs(strings_of(dirs@), probes@) == steps_view(r@));
    }
    r
}

/// The size a `WIDTHxHEIGHT` value names (`x`, `X` or `×` between two
/// positive decimal numbers, whitespace around each ignored).
pub open spec fn surface_size_value(spec: Seq<char>) -> Result<(u32, u32), Seq<char>> {
    match split_once_any(trim(spec), seq!['x', 'X', '×']) {
        None => Err("expected WxH format, e.g. 1920x1080"@),
        Some((w, h)) => match parse_u32(trim(w)) {
            None => Err("invalid width in size specification"@),
            Some(width) => match parse_u32(trim(h)) {
                None => Err("invalid height in size specification"@),
                Some(height) => if width == 0 || height == 0 {
                    Err("surface dimensions must be greater than zero"@)
                } else {
                    Ok((width, height))
                },
            },
        },
    }
}

pub fn parse_size_value(spec: &str) -> (r: Result<(u32, u32), String>)
    ensures
        match r {
            Ok(v) => surface_size_value(spec@) == Ok::<(u32, u32), Seq<char>>(v),
            Err(e) => surface_size_value(spec@) == Err::<(u32, u32), Seq<char>>(e@),
        },
{
    let t = trimmed(spec);
    let mut set: Vec<char> = Vec::new();
    set.push('x');
    set.push('X');
    set.push('×');
    proof {
        assert(set@ =~= seq!['x', 'X', '×']);
    }
    match split_once_any_exec(t.as_slice(), set.as_slice()) {
        None => Err(lit("expected WxH format, e.g. 1920x1080")),
        Some((w, h)) => {
            let wt = trim_chars(w.as_slice());
            match parse_u32_exec(wt.as_slice()) {
                None => Err(lit("invalid width in size specification")),
                Some(width) => {
                    let ht = trim_chars(h.as_slice());
                    match parse_u32_exec(ht.as_slice()) {
                        None => Err(lit("invalid height in size specification")),
                        Some(height) => {
                            if width == 0 || height == 0 {
                                Err(lit("surface dimensions must be greater than zero"))
                            } else {
                                Ok((width, height))
                            }
                        },
                    }
                },
            }
        },
    }
}

/// The kind of a bundled entry.
#[derive(Debug, Clone, Copy, PartialEq, Eq)]
pub enum EntryKind {
    Directory,
    File,
    Other,
}

/// What to do with one bundled entry. `S` is `String` at run time and
/// `Seq<char>` in specs.
#[derive(Debug, Clone, PartialEq, Eq)]
pub enum ChildActionOf<S> {
    /// The user already has an entry of that name.
    Skip,
    /// Copy the directory, recursively, to `target`.
    CopyDirectory { target: S },
    /// Copy the file to `target`, creating its parent first.
    CopyFile { target: S },
    /// Neither a file nor a directory: left alone.
    Unsupported,
}

pub type ChildAction = ChildActionOf<String>;

impl View for ChildActionOf<String> {
    type V = ChildActionOf<Seq<char>>;

    open spec fn view(&self) -> ChildActionOf<Seq<char>> {
        match self {
            ChildActionOf::Skip => ChildActionOf::Skip,
            ChildActionOf::CopyDirectory { target } => ChildActionOf::CopyDirectory { target: target@ },
            ChildActionOf::CopyFile { target } => ChildActionOf::CopyFile { target: target@ },
            ChildActionOf::Unsupported => ChildActionOf::Unsupported,
        }
    }
}

/// An existing target is never overwritten; otherwise directories and
/// files are copied under `target_root` by name.
pub open spec fn child_action(
    target_root: Seq<char>,
    name: Seq<char>,
    target_exists: bool,
    kind: EntryKind,
) -> ChildActionOf<Seq<char>> {
    if target_exists {
        ChildActionOf::Skip
    } else {
        match kind {
            EntryKind::Directory => ChildActionOf::CopyDirectory { target: join(target_root, name) },
            EntryKind::File => ChildActionOf::CopyFile { target: join(target_root, name) },
            EntryKind::Other => ChildActionOf::Unsupported,
        }
    }
}

/// Where bundled entry `name` goes under `target_root`.
pub fn child_target(target_root: &str, name: &str) -> (r: String)
    ensures
        r@ == join(target_root@, name@),
{
    path_join(target_root, name)
}

pub fn plan_child(target_root: &str, name: &str, target_exists: bool, kind: EntryKind) -> (r: ChildAction)
    ensures
        r@ == child_action(target_root@, name@, target_exists, kind),
{
    if target_exists {
        return ChildActionOf::Skip;
    }
    match kind {
        EntryKind::Directory => ChildActionOf::CopyDirectory { target: child_target(target_root, name) },
        EntryKind::File => ChildActionOf::CopyFile { target: child_target(target_root, name) },
        EntryKind::Other => ChildActionOf::Unsupported,
    }
}

/// The bundled defaults' version, from the contents of their `VERSION` file.
pub fn share_version_of(contents: &str) -> (r: String)
    ensures
        r@ == trim(contents@),
{
    string_of(trimmed(contents).as_slice())
}

/// Where one of the application's directories is taken from.
#[derive(Debug, Clone)]
pub enum DirSourceOf<S> {
    /// The application's environment variable.
    Env(S),
    /// The deprecated environment variable of the former name.
    LegacyEnv(S),
    /// The platform default.
    Default(S),
    /// A directory of the former name, used as it is.
    Legacy(S),
    /// The former name's directory, moved to the default place first.
    Migrate { legacy: S, primary: S },
}

pub type DirSource = DirSourceOf<String>;

impl View for DirSourceOf<String> {
    type V = DirSourceOf<Seq<char>>;

    open spec fn view(&self) -> DirSourceOf<Seq<char>> {
        match self {
            DirSourceOf::Env(d) => DirSourceOf::Env(d@),
            DirSourceOf::LegacyEnv(d) => DirSourceOf::LegacyEnv(d@),
            DirSourceOf::Default(d) => DirSourceOf::Default(d@),
            DirSourceOf::Legacy(d) => DirSourceOf::Legacy(d@),
            DirSourceOf::Migrate { legacy, primary } => DirSourceOf::Migrate { legacy: legacy@, primary: primary@ },
        }
    }
}

impl DirSourceOf<String> {
    /// The directory the application ends up using.
    pub fn chosen(&self) -> (r: &str)
        ensures
            r@ == match self@ {
                DirSourceOf::Env(d) => d,
                DirSourceOf::LegacyEnv(d) => d,
                DirSourceOf::Default(d) => d,
                DirSourceOf::Legacy(d) => d,
                DirSourceOf::Migrate { legacy, primary } => primary,
            },
    {
        match self {
            DirSourceOf::Env(d) => d.as_str(),
            DirSourceOf::LegacyEnv(d) => d.as_str(),
            DirSourceOf::Default(d) => d.as_str(),
            DirSourceOf::Legacy(d) => d.as_str(),
            DirSourceOf::Migrate { legacy: _, primary } => primary.as_str(),
        }
    }
}

/// An environment variable counts only when set to something non-empty.
pub open spec fn env_set(v: Option<Seq<char>>) -> bool {
    v matches Some(s) && s.len() > 0
}

pub open spec fn opt_text(v: Option<&str>) -> Option<Seq<char>> {
    match v {
        Some(s) => Some(s@),
        None => None,
    }
}

/// Where a config, data or cache directory comes from: the variable, then
/// the former name's variable, then the default, which a directory of the
/// former name (when there is one, elsewhere, and the default does not
/// exist yet) is moved to.
pub open spec fn dir_source(
    env: Option<Seq<char>>,
    legacy_env: Option<Seq<char>>,
    primary: Seq<char>,
    primary_exists: bool,
    legacy: Option<(Seq<char>, bool)>,
) -> DirSourceOf<Seq<char>> {
    if env_set(env) {
        DirSourceOf::Env(env.unwrap())
    } else if env_set(legacy_env) {
        DirSourceOf::LegacyEnv(legacy_env.unwrap())
    } else if primary_exists {
        DirSourceOf::Default(primary)
    } else {
        match legacy {
            Some((l, l_exists)) => if !same_path(l, primary) && l_exists {
                DirSourceOf::Migrate { legacy: l, primary }
            } else {
                DirSourceOf::Default(primary)
            },
            None => DirSourceOf::Default(primary),
        }
    }
}

/// Where the shared defaults directory comes from: the variable, then the
/// former name's variable, then the default when it exists, then the
/// former name's directory when that exists, else the default.
pub open spec fn share_source(
    env: Option<Seq<char>>,
    legacy_env: Option<Seq<char>>,
    primary: Seq<char>,
    primary_exists: bool,
    legacy: Option<(Seq<char>, bool)>,
) -> DirSourceOf<Seq<char>> {
    if env_set(env) {
        DirSourceOf::Env(env.unwrap())
    } else if env_set(legacy_env) {
        DirSourceOf::LegacyEnv(legacy_env.unwrap())
    } else if primary_exists {
        DirSourceOf::Default(primary)
    } else {
        match legacy {
            Some((l, true)) => DirSourceOf::Legacy(l),
            _ => DirSourceOf::Default(primary),
        }
    }
}

fn set_value(v: Option<&str>) -> (r: Option<String>)
    ensures
        match r {
            Some(s) => env_set(opt_text(v)) && s@ == opt_text(v).unwrap(),
            None => !env_set(opt_text(v)),
        },
{
    match v {
        Some(s) => if chars_of(s).len() > 0 {
            Some(lit(s))
        } else {
            None
        },
        None => None,
    }
}

pub open spec fn opt_pair(v: Option<(&str, bool)>) -> Option<(Seq<char>, bool)> {
    match v {
        Some((s, b)) => Some((s@, b)),
        None => None,
    }
}

/// See `dir_source`.
pub fn choose_dir_source(
    env: Option<&str>,
    legacy_env: Option<&str>,
    primary: &str,
    primary_exists: bool,
    legacy: Option<(&str, bool)>,
) -> (r: DirSource)
    ensures
        r@ == dir_source(opt_text(env), opt_text(legacy_env), primary@, primary_exists, opt_pair(legacy)),
{
    if let Some(v) = set_value(env) {
        return DirSourceOf::Env(v);
    }
    if let Some(v) = set_value(legacy_env) {
        return DirSourceOf::LegacyEnv(v);
    }
    if primary_exists {
        return DirSourceOf::Default(lit(primary));
    }
    match legacy {
        Some((l, l_exists)) => if !same_path_exec(l, primary) && l_exists {
            DirSourceOf::Migrate { legacy: lit(l), primary: lit(primary) }
        } else {
            DirSourceOf::Default(lit(primary))
        },
        None => DirSourceOf::Default(lit(primary)),
    }
}

/// See `share_source`.
pub fn choose_share_source(
    env: Option<&str>,
    legacy_env: Option<&str>,
    primary: &str,
    primary_exists: bool,
    legacy: Option<(&str, bool)>,
) -> (r: DirSource)
    ensures
        r@ == share_source(opt_text(env), opt_text(legacy_env), primary@, primary_exists, opt_pair(legacy)),
{
    if let Some(v) = set_value(env) {
        return DirSourceOf::Env(v);
    }
    if let Some(v) = set_value(legacy_env) {
        return DirSourceOf::LegacyEnv(v);
    }
    if primary_exists {
        return DirSourceOf::Default(lit(primary));
    }
    match legacy {
        Some((l, true)) => DirSourceOf::Legacy(lit(l)),
        _ => DirSourceOf::Default(lit(primary)),
    }
}

/// `n` spaces.
pub open spec fn spaces(n: nat) -> Seq<char> {
    Seq::new(n, |i: int| ' ')
}

proof fn lemma_digit_char(d: nat)
    requires
        d < 10,
    ensures
        is_ascii_digit(digit_char(d)),
        digit_value(digit_char(d)) == d,
{
    assert(('0' as u32) + d < 0xD800);
}

proof fn lemma_decimal_digits(n: nat)
    ensures
        decimal(n).len() >= 1,
        all_digits(decimal(n)),
        digits_value(decimal(n)) == n,
    decreases n,
{
    if n < 10 {
        lemma_digit_char(n);
        let s = decimal(n);
        assert(s.drop_last() =~= Seq::<char>::empty());
        assert(s.last() == digit_char(n));
        assert(digits_value(s) == digits_value(s.drop_last()) * 10 + digit_value(s.last()));
    } else {
        lemma_decimal_digits(n / 10);
        lemma_digit_char(n % 10);
        let s = decimal(n);
        assert(s.drop_last() =~= decimal(n / 10));
        assert(s.last() == digit_char(n % 10));
        assert(digits_value(s) == digits_value(s.drop_last()) * 10 + digit_value(s.last()));
        assert(n == (n / 10) * 10 + n % 10);
        assert forall|i: int| 0 <= i < s.len() implies is_ascii_digit(#[trigger] s[i]) by {
            if i < s.len() - 1 {
                assert(s[i] == decimal(n / 10)[i]);
            }
        }
    }
}

proof fn lemma_lead_spaces(a: nat, y: Seq<char>)
    requires
        y.len() > 0,
        !is_ws(y[0]),
    ensures
        lead_ws(spaces(a) + y) == a,
    decreases a,
{
    if a > 0 {
        assert((spaces(a) + y).drop_first() =~= spaces((a - 1) as nat) + y);
        lemma_lead_spaces((a - 1) as nat, y);
    } else {
        assert(spaces(a) + y =~= y);
    }
}

proof fn lemma_trail_spaces(y: Seq<char>, d: nat)
    requires
        y.len() > 0,
        !is_ws(y.last()),
    ensures
        trail_ws(y + spaces(d)) == d,
    decreases d,
{
    if d > 0 {
        assert((y + spaces(d)).drop_last() =~= y + spaces((d - 1) as nat));
        lemma_trail_spaces(y, (d - 1) as nat);
    } else {
        assert(y + spaces(d) =~= y);
    }
}

proof fn lemma_trim_padded(a: nat, x: Seq<char>, d: nat)
    requires
        x.len() > 0,
        !is_ws(x[0]),
        !is_ws(x.last()),
    ensures
        trim(spaces(a) + x + spaces(d)) == x,
{
    let t = spaces(a) + x + spaces(d);
    assert(t =~= spaces(a) + (x + spaces(d)));
    assert((x + spaces(d))[0] == x[0]);
    lemma_lead_spaces(a, x + spaces(d));
    assert(trim_start(t) =~= x + spaces(d));
    lemma_trail_spaces(x, d);
    assert(trim_end(x + spaces(d)) =~= x);
}

proof fn lemma_decimal_parses(n: u32)
    ensures
        parse_u32(decimal(n as nat)) == Some(n),
        !is_ws(decimal(n as nat)[0]),
        !is_ws(decimal(n as nat).last()),
{
    lemma_decimal_digits(n as nat);
    let s = decimal(n as nat);
    assert(is_ascii_digit(s[0]));
    assert(is_ascii_digit(s[s.len() - 1]));
}

proof fn lemma_not_separator(ch: char)
    requires
        is_ascii_digit(ch) || ch == ' ',
    ensures
        !seq!['x', 'X', '×'].contains(ch),
{
    let set = seq!['x', 'X', '×'];
    if set.contains(ch) {
        let m = choose|m: int| 0 <= m < set.len() && set[m] == ch;
        assert(m == 0 || m == 1 || m == 2);
    }
}

proof fn lemma_core_split(dw: Seq<char>, dh: Seq<char>, sep: char, b: nat, c: nat)
    requires
        all_digits(dw),
        sep == 'x' || sep == 'X' || sep == '×',
    ensures
        split_once_any(dw + spaces(b) + seq![sep] + spaces(c) + dh, seq!['x', 'X', '×']) == Some(
            (dw + spaces(b), spaces(c) + dh),
        ),
{
    let core = dw + spaces(b) + seq![sep] + spaces(c) + dh;
    let set = seq!['x', 'X', '×'];
    let k: int = (dw.len() + b) as int;
    assert(core[k] == sep);
    assert(set.contains(core[k])) by {
        if sep == 'x' {
            assert(set[0] == sep);
        } else if sep == 'X' {
            assert(set[1] == sep);
        } else {
            assert(set[2] == sep);
        }
    }
    assert forall|j: int| 0 <= j < k implies !set.contains(#[trigger] core[j]) by {
        if j < dw.len() {
            assert(core[j] == dw[j]);
            assert(is_ascii_digit(dw[j]));
        } else {
            assert(core[j] == ' ');
        }
        lemma_not_separator(core[j]);
    }
    let f = choose|i: int|
        0 <= i < core.len() && set.contains(core[i]) && (forall|j: int| 0 <= j < i ==> !set.contains(#[trigger] core[j]));
    assert(f == k) by {
        if f < k {
            assert(!set.contains(core[f]));
        }
        if f > k {
            assert(!set.contains(core[k]));
        }
    }
    assert(find_any(core, set) == Some(k));
    assert(core.take(k) =~= dw + spaces(b));
    assert(core.skip(k + 1) =~= spaces(c) + dh);
}

/// Writing a positive width and height as `WIDTHxHEIGHT`, with `x`, `X` or
/// `×` between them and any number of spaces around each part, and reading
/// the size back gives the width and height.
pub proof fn lemma_size_round_trip(w: u32, h: u32, sep: char, a: nat, b: nat, c: nat, d: nat)
    requires
        w > 0,
        h > 0,
        sep == 'x' || sep == 'X' || sep == '×',
    ensures
        surface_size_value(
            spaces(a) + decimal(w as nat) + spaces(b) + seq![sep] + spaces(c) + decimal(h as nat) + spaces(d),
        ) == Ok::<(u32, u32), Seq<char>>((w, h)),
{
    let dw = decimal(w as nat);
    let dh = decimal(h as nat);
    let text = spaces(a) + dw + spaces(b) + seq![sep] + spaces(c) + dh + spaces(d);
    let core = dw + spaces(b) + seq![sep] + spaces(c) + dh;
    lemma_size_text_trims(w, h, sep, a, b, c, d);
    lemma_decimal_digits(w as nat);
    lemma_core_split(dw, dh, sep, b, c);
    lemma_part_trims(w, h, b, c);
    lemma_decimal_parses(w);
    lemma_decimal_parses(h);
    lemma_size_from_parts(text, core, dw + spaces(b), spaces(c) + dh, w, h);
}

proof fn lemma_size_text_trims(w: u32, h: u32, sep: char, a: nat, b: nat, c: nat, d: nat)
    ensures
        trim(spaces(a) + decimal(w as nat) + spaces(b) + seq![sep] + spaces(c) + decimal(h as nat) + spaces(d))
            == decimal(w as nat) + spaces(b) + seq![sep] + spaces(c) + decimal(h as nat),
{
    let dw = decimal(w as nat);
    let dh = decimal(h as nat);
    lemma_decimal_parses(w);
    lemma_decimal_parses(h);
    lemma_decimal_digits(w as nat);
    lemma_decimal_digits(h as nat);
    let core = dw + spaces(b) + seq![sep] + spaces(c) + dh;
    let text = spaces(a) + dw + spaces(b) + seq![sep] + spaces(c) + dh + spaces(d);
    assert(text =~= spaces(a) + core + spaces(d));
    assert(core[0] == dw[0]);
    assert(core.last() == dh.last());
    lemma_trim_padded(a, core, d);
}

proof fn lemma_part_trims(w: u32, h: u32, b: nat, c: nat)
    ensures
        trim(decimal(w as nat) + spaces(b)) == decimal(w as nat),
        trim(spaces(c) + decimal(h as nat)) == decimal(h as nat),
{
    let dw = decimal(w as nat);
    let dh = decimal(h as nat);
    lemma_decimal_parses(w);
    lemma_decimal_parses(h);
    lemma_decimal_digits(w as nat);
    lemma_decimal_digits(h as nat);
    assert(spaces(0) + dw + spaces(b) =~= dw + spaces(b));
    assert(spaces(c) + dh + spaces(0) =~= spaces(c) + dh);
    lemma_trim_padded(0, dw, b);
    lemma_trim_padded(c, dh, 0);
}

proof fn lemma_size_from_parts(text: Seq<char>, core: Seq<char>, pw: Seq<char>, ph: Seq<char>, w: u32, h: u32)
    requires
        w > 0,
        h > 0,
        trim(text) == core,
        split_once_any(core, seq!['x', 'X', '×']) == Some((pw, ph)),
        parse_u32(trim(pw)) == Some(w),
        parse_u32(trim(ph)) == Some(h),
    ensures
        surface_size_value(text) == Ok::<(u32, u32), Seq<char>>((w, h)),
{
}

/// A zero width, or a value without a separator, is refused.
pub proof fn lemma_size_refusals(w: u32, h: u32)
    ensures
        surface_size_value(decimal(0) + seq!['x'] + decimal(h as nat)) is Err,
        surface_size_value(decimal(w as nat)) is Err,
{
    lemma_decimal_parses(0);
    lemma_decimal_parses(h);
    lemma_decimal_parses(w);
    lemma_decimal_digits(0);
    lemma_decimal_digits(h as nat);
    lemma_decimal_digits(w as nat);
    let set = seq!['x', 'X', '×'];
    let dw = decimal(w as nat);
    lemma_trim_padded(0, dw, 0);
    assert(spaces(0) + dw + spaces(0) =~= dw);
    assert forall|j: int| 0 <= j < dw.len() implies !set.contains(#[trigger] dw[j]) by {
        assert(is_ascii_digit(dw[j]));
        if set.contains(dw[j]) {
            let m = choose|m: int| 0 <= m < set.len() && set[m] == dw[j];
            assert(m == 0 || m == 1 || m == 2);
        }
    }
    assert(find_any(dw, set) is None);
    let z = decimal(0);
    let dh = decimal(h as nat);
    let t = z + seq!['x'] + dh;
    assert(t =~= spaces(0) + t + spaces(0));
    assert(t[0] == z[0]);
    assert(t.last() == dh.last());
    lemma_trim_padded(0, t, 0);
    assert(z =~= seq!['0']);
    assert(t[1] == 'x');
    assert(set[0] == 'x');
    assert(!set.contains(t[0])) by {
        if set.contains(t[0]) {
            let m = choose|m: int| 0 <= m < set.len() && set[m] == t[0];
            assert(m == 0 || m == 1 || m == 2);
        }
    }
    let f = choose|i: int| 0 <= i < t.len() && set.contains(t[i]) && (forall|j: int| 0 <= j < i ==> !set.contains(#[trigger] t[j]));
    assert(f == 1) by {
        if f > 1 {
            assert(!set.contains(t[1]));
        }
        if f < 1 {
            assert(!set.contains(t[0]));
        }
    }
    assert(t.take(1) =~= spaces(0) + z + spaces(0));
    assert(t.skip(2) =~= spaces(0) + dh + spaces(0));
    lemma_trim_padded(0, z, 0);
    lemma_trim_padded(0, dh, 0);
}

} // verus!
