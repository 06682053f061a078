//! `$VAR`/`${VAR}` and `~` expansion, and the working-directory rule that
//! local shader paths follow.
use vstd::prelude::*;
use crate::text::{
    append_chars, char_is_ascii_alnum, chars_eq, chars_of, has_prefix, is_ascii_alnum, lit, slice_chars,
    string_of, wrap_msg,
};
use crate::fspath::{is_absolute, join, join_chars, path_exists, path_is_absolute, path_join};

verus! {

/// Why an expansion failed; `S` is `String` at run time and `Seq<char>` in specs.
#[derive(Debug, Clone, PartialEq, Eq)]
pub enum PathIssue<S> {
    /// `${` without a closing `}`.
    MissingCloseBrace,
    /// `${}`.
    EmptyVarName,
    /// A referenced variable has no value.
    VarNotSet(S),
    /// `~` could not be expanded: no home directory is known.
    NoHomeDir,
    /// `~user` forms are not supported.
    UserHomeUnsupported(S),
    /// The local path expanded to nothing.
    EmptyLocalPath,
}

pub type PathError = PathIssue<String>;

impl View for PathIssue<String> {
    type V = PathIssue<Seq<char>>;

    open spec fn view(&self) -> PathIssue<Seq<char>> {
        match self {
            PathIssue::MissingCloseBrace => PathIssue::MissingCloseBrace,
            PathIssue::EmptyVarName => PathIssue::EmptyVarName,
            PathIssue::VarNotSet(n) => PathIssue::VarNotSet(n@),
            PathIssue::NoHomeDir => PathIssue::NoHomeDir,
            PathIssue::UserHomeUnsupported(s) => PathIssue::UserHomeUnsupported(s@),
            PathIssue::EmptyLocalPath => PathIssue::EmptyLocalPath,
        }
    }
}

pub open spec fn path_issue_message(e: PathIssue<Seq<char>>) -> Seq<char> {
    match e {
        PathIssue::MissingCloseBrace => "missing closing '}' in environment variable reference"@,
        PathIssue::EmptyVarName => "environment variable name must not be empty"@,
        PathIssue::VarNotSet(n) => "environment variable '"@ + n + "' is not set"@,
        PathIssue::NoHomeDir => "unable to determine home directory for '~' expansion"@,
        PathIssue::UserHomeUnsupported(s) => "user-specific home expansion ('"@ + s
            + "') is not supported"@,
        PathIssue::EmptyLocalPath => "local path must not be empty"@,
    }
}

impl PathIssue<String> {
    /// The human-readable message for the error.
    pub fn to_string(&self) -> (r: String)
        ensures
            r@ == path_issue_message(self@),
    {
        match self {
            PathIssue::MissingCloseBrace => lit(
                "missing closing '}' in environment variable reference",
            ),
            PathIssue::EmptyVarName => lit("environment variable name must not be empty"),
            PathIssue::VarNotSet(n) => wrap_msg("environment variable '", n.as_str(), "' is not set"),
            PathIssue::NoHomeDir => lit("unable to determine home directory for '~' expansion"),
            PathIssue::UserHomeUnsupported(s) => wrap_msg(
                "user-specific home expansion ('",
                s.as_str(),
                "') is not supported",
            ),
            PathIssue::EmptyLocalPath => lit("local path must not be empty"),
        }
    }
}

/// Environment values as name/value pairs; the first pair with a name wins.
pub type EnvView = Seq<(Seq<char>, Seq<char>)>;

pub open spec fn lookup(env: EnvView, name: Seq<char>) -> Option<Seq<char>>
    decreases env.len(),
{
    if env.len() == 0 {
        None
    } else if env[0].0 == name {
        Some(env[0].1)
    } else {
        lookup(env.drop_first(), name)
    }
}

pub open spec fn is_env_name_char(c: char) -> bool {
    c == '_' || is_ascii_alnum(c)
}

/// Length of the run of name characters at the start of `s`.
pub open spec fn name_run(s: Seq<char>) -> nat
    decreases s.len(),
{
    if s.len() > 0 && is_env_name_char(s[0]) {
        1 + name_run(s.drop_first())
    } else {
        0
    }
}

/// Index of the first `c` in `s`.
pub open spec fn index_of(s: Seq<char>, c: char) -> Option<nat>
    decreases s.len(),
{
    if s.len() == 0 {
        None
    } else if s[0] == c {
        Some(0)
    } else {
        match index_of(s.drop_first(), c) {
            Some(k) => Some(k + 1),
            None => None,
        }
    }
}

pub proof fn lemma_index_of(s: Seq<char>, c: char)
    ensures
        index_of(s, c) matches Some(k) ==> k < s.len() && s[k as int] == c && (forall|j: int|
            0 <= j < k ==> s[j] != c),
        index_of(s, c) is None ==> forall|j: int| 0 <= j < s.len() ==> s[j] != c,
    decreases s.len(),
{
    if s.len() > 0 {
        lemma_index_of(s.drop_first(), c);
        if s[0] != c {
            assert forall|j: int| 1 <= j < s.len() implies s[j] == s.drop_first()[j - 1] by {}
        }
    }
}

pub proof fn lemma_name_run(s: Seq<char>)
    ensures
        name_run(s) <= s.len(),
        forall|j: int| 0 <= j < name_run(s) ==> is_env_name_char(#[trigger] s[j]),
        name_run(s) < s.len() ==> !is_env_name_char(s[name_run(s) as int]),
    decreases s.len(),
{
    if s.len() > 0 && is_env_name_char(s[0]) {
        lemma_name_run(s.drop_first());
        assert forall|j: int| 1 <= j < s.len() implies s[j] == s.drop_first()[j - 1] by {}
    }
}

pub proof fn lemma_prepend_assoc(
    a: Seq<char>,
    b: Seq<char>,
    r: Result<Seq<char>, PathIssue<Seq<char>>>,
)
    ensures
        prepend(a, prepend(b, r)) == prepend(a + b, r),
{
    if r is Ok {
        assert(a + (b + r->Ok_0) =~= (a + b) + r->Ok_0);
    }
}

pub open spec fn prepend(p: Seq<char>, r: Result<Seq<char>, PathIssue<Seq<char>>>) -> Result<
    Seq<char>,
    PathIssue<Seq<char>>,
> {
    match r {
        Ok(t) => Ok(p + t),
        Err(e) => Err(e),
    }
}

/// What `$VAR` / `${VAR}` expansion yields: `\x` keeps `x`, a `$` that starts
/// no variable reference stays, and references are replaced left to right;
/// the first malformed or unset reference stops the expansion.
pub open spec fn expand_env(s: Seq<char>, env: EnvView) -> Result<
    Seq<char>,
    PathIssue<Seq<char>>,
>
    decreases s.len(),
{
    if s.len() == 0 {
        Ok(seq![])
    } else if s[0] == '\\' {
        if s.len() >= 2 {
            prepend(seq![s[1]], expand_env(s.skip(2), env))
        } else {
            Ok(seq!['\\'])
        }
    } else if s[0] != '$' {
        prepend(seq![s[0]], expand_env(s.skip(1), env))
    } else if s.len() == 1 {
        Ok(seq!['$'])
    } else if s[1] == '{' {
        match index_of(s.skip(2), '}') {
            None => Err(PathIssue::MissingCloseBrace),
            Some(k) => {
                if k == 0 {
                    Err(PathIssue::EmptyVarName)
                } else {
                    let name = s.subrange(2, 2 + k as int);
                    match lookup(env, name) {
                        None => Err(PathIssue::VarNotSet(name)),
                        Some(v) => {
                            proof {
                                lemma_index_of(s.skip(2), '}');
                            }
                            prepend(v, expand_env(s.skip(3 + k as int), env))
                        },
                    }
                }
            },
        }
    } else if is_env_name_char(s[1]) {
        let k = name_run(s.skip(1));
        let name = s.subrange(1, 1 + k as int);
        match lookup(env, name) {
            None => Err(PathIssue::VarNotSet(name)),
            Some(v) => {
                proof {
                    lemma_name_run(s.skip(1));
                }
                prepend(v, expand_env(s.skip(1 + k as int), env))
            },
        }
    } else {
        prepend(seq!['$'], expand_env(s.skip(1), env))
    }
}

/// What `~` expansion yields given the home directory.
pub open spec fn expand_home(s: Seq<char>, home: Option<Seq<char>>) -> Result<
    Seq<char>,
    PathIssue<Seq<char>>,
> {
    if !(s.len() > 0 && s[0] == '~') {
        Ok(s)
    } else {
        match home {
            None => Err(PathIssue::NoHomeDir),
            Some(h) => {
                if s == seq!['~'] {
                    Ok(h)
                } else if has_prefix(s, seq!['~', '/']) {
                    Ok(join(h, s.skip(2)))
                } else {
                    Err(PathIssue::UserHomeUnsupported(s))
                }
            },
        }
    }
}

pub open spec fn expand(s: Seq<char>, env: EnvView, home: Option<Seq<char>>) -> Result<
    Seq<char>,
    PathIssue<Seq<char>>,
> {
    match expand_env(s, env) {
        Ok(t) => expand_home(t, home),
        Err(e) => Err(e),
    }
}

pub open spec fn result_view(r: Result<String, PathError>) -> Result<
    Seq<char>,
    PathIssue<Seq<char>>,
> {
    match r {
        Ok(s) => Ok(s@),
        Err(e) => Err(e@),
    }
}

/// `BaseDirs::new().home_dir()` from `directories_next`: the user's home
/// directory as the environment reports it when asked, if any; nothing is
/// stated of the value.
#[verifier::external_body]
fn home_dir() -> (r: Option<String>) {
    directories_next::BaseDirs::new().map(|dirs| dirs.home_dir().to_string_lossy().into_owned())
}

/// Expands paths and resolves local shader paths against a working
/// directory, with the environment values and home directory it was given.
#[derive(Debug, Clone)]
pub struct PathResolver {
    cwd: String,
    vars: Vec<(String, String)>,
    home: Option<String>,
}

impl PathResolver {
    pub closed spec fn cwd_view(&self) -> Seq<char> {
        self.cwd@
    }

    pub closed spec fn env_view(&self) -> EnvView {
        self.vars@.map_values(|p: (String, String)| (p.0@, p.1@))
    }

    pub closed spec fn home_view(&self) -> Option<Seq<char>> {
        match self.home {
            Some(h) => Some(h@),
            None => None,
        }
    }

    /// A resolver for `cwd` that sees no environment variables (`$VAR`
    /// then expands to an error); the home directory is whatever the
    /// environment reports. A resolver for the running process, which
    /// expands the process's variables, is `with_env` given them.
    pub fn with_cwd(cwd: &str) -> (r: Self)
        ensures
            r.cwd_view() == cwd@,
            r.env_view() == Seq::<(Seq<char>, Seq<char>)>::empty(),
    {
        let r = PathResolver { cwd: cwd.to_owned(), vars: Vec::new(), home: home_dir() };
        proof {
            assert(r.env_view() =~= Seq::<(Seq<char>, Seq<char>)>::empty());
        }
        r
    }

    /// A resolver for `cwd` that sees the given environment variables.
    pub fn with_env(cwd: &str, vars: Vec<(String, String)>) -> (r: Self)
        ensures
            r.cwd_view() == cwd@,
            r.env_view() == vars@.map_values(|p: (String, String)| (p.0@, p.1@)),
    {
        PathResolver { cwd: cwd.to_owned(), vars, home: home_dir() }
    }

    pub fn cwd(&self) -> (r: &str)
        ensures
            r@ == self.cwd_view(),
    {
        self.cwd.as_str()
    }

    fn lookup_var(&self, name: &[char]) -> (r: Option<Vec<char>>)
        ensures
            match r {
                Some(v) => lookup(self.env_view(), name@) == Some(v@),
                None => lookup(self.env_view(), name@) is None,
            },
    {
        let mut i: usize = 0;
        proof {
            assert(self.env_view().skip(0) =~= self.env_view());
        }
        while i < self.vars.len()
            invariant
                i <= self.vars@.len(),
                lookup(self.env_view(), name@) == lookup(self.env_view().skip(i as int), name@),
            decreases self.vars@.len() - i,
        {
            let key = chars_of(self.vars[i].0.as_str());
            proof {
                assert(self.env_view().skip(i as int)[0] == self.env_view()[i as int]);
                assert(self.env_view().skip(i as int).drop_first() =~= self.env_view().skip(
                    i + 1,
                ));
            }
            if chars_eq(key.as_slice(), name) {
                return Some(chars_of(self.vars[i].1.as_str()));
            }
            i += 1;
        }
        None
    }

    /// Environment-variable expansion (`$VAR`, `${VAR}`, `\` escapes).
    pub fn expand_env_vars(&self, input: &str) -> (r: Result<String, PathError>)
        ensures
            result_view(r) == expand_env(input@, self.env_view()),
    {
        let s = chars_of(input);
        let n = s.len();
        let mut out: Vec<char> = Vec::new();
        let mut i: usize = 0;
        proof {
            assert(s@.skip(0) =~= s@);
            assert(Seq::<char>::empty() + s@ =~= s@);
        }
        while i < n
            invariant
                n == s@.len(),
                s@ == input@,
                i <= n,
                expand_env(input@, self.env_view()) == prepend(
                    out@,
                    expand_env(s@.skip(i as int), self.env_view()),
                ),
            decreases n - i,
        {
            let ghost t = s@.skip(i as int);
            let ghost env = self.env_view();
            let ghost before = out@;
            proof {
                assert(t[0] == s@[i as int]);
                assert(t.len() == n - i);
            }
            let ch = s[i];
            if ch == '\\' {
                if i + 1 < n {
                    out.push(s[i + 1]);
                    proof {
                        assert(t[1] == s@[i + 1]);
                        assert(t.skip(2) =~= s@.skip(i + 2));
                        lemma_prepend_assoc(before, seq![s@[i + 1]], expand_env(s@.skip(i + 2), env));
                        assert(out@ =~= before + seq![s@[i + 1]]);
                    }
                    i += 2;
                } else {
                    out.push('\\');
                    proof {
                        assert(out@ =~= before + seq!['\\']);
                        assert(s@.skip(n as int).len() == 0);
                        assert(before + seq!['\\'] + Seq::<char>::empty() =~= before + seq!['\\']);
                    }
                    i = n;
                }
            } else if ch != '$' {
                out.push(ch);
                proof {
                    assert(t.skip(1) =~= s@.skip(i + 1));
                    lemma_prepend_assoc(before, seq![ch], expand_env(s@.skip(i + 1), env));
                    assert(out@ =~= before + seq![ch]);
                }
                i += 1;
            } else if i + 1 == n {
                out.push('$');
                proof {
                    assert(out@ =~= before + seq!['$']);
                    assert(s@.skip(n as int).len() == 0);
                    assert(before + seq!['$'] + Seq::<char>::empty() =~= before + seq!['$']);
                }
                i = n;
            } else if s[i + 1] == '{' {
                proof {
                    assert(t[1] == s@[i + 1]);
                }
                let mut k: usize = i + 2;
                while k < n && s[k] != '}'
                    invariant
                        i + 2 <= k <= n,
                        n == s@.len(),
                        forall|j: int| i + 2 <= j < k ==> s@[j] != '}',
                    decreases n - k,
                {
                    k += 1;
                }
                let ghost u = t.skip(2);
                proof {
                    lemma_index_of(u, '}');
                    assert(u =~= s@.skip(i + 2));
                }
                if k == n {
                    proof {
                        if index_of(u, '}') is Some {
                            let q = index_of(u, '}')->0;
                            assert(u[q as int] == s@[i + 2 + q]);
                        }
                    }
                    return Err(PathIssue::MissingCloseBrace);
                }
                proof {
                    let kk = index_of(u, '}');
                    if kk is None {
                        assert(u[k - i - 2] == s@[k as int]);
                    } else {
                        let q = kk->0;
                        if q < k - i - 2 {
                            assert(u[q as int] == s@[i + 2 + q]);
                        } else if q > k - i - 2 {
                            assert(u[k - i - 2] == s@[k as int]);
                        }
                    }
                    assert(index_of(u, '}') == Some((k - i - 2) as nat));
                }
                if k == i + 2 {
                    return Err(PathIssue::EmptyVarName);
                }
                let name = slice_chars(s.as_slice(), i + 2, k);
                proof {
                    assert(name@ =~= t.subrange(2, 2 + (k - i - 2)));
                }
                match self.lookup_var(name.as_slice()) {
                    None => {
                        return Err(PathIssue::VarNotSet(string_of(name.as_slice())));
                    },
                    Some(v) => {
                        append_chars(&mut out, v.as_slice());
                        proof {
                            assert(t.skip(3 + (k - i - 2)) =~= s@.skip(k + 1));
                            lemma_prepend_assoc(before, v@, expand_env(s@.skip(k + 1), env));
                        }
                        i = k + 1;
                    },
                }
            } else if char_is_ascii_alnum(s[i + 1]) || s[i + 1] == '_' {
                proof {
                    assert(t[1] == s@[i + 1]);
                }
                let mut k: usize = i + 1;
                while k < n && (char_is_ascii_alnum(s[k]) || s[k] == '_')
                    invariant
                        i + 1 <= k <= n,
                        n == s@.len(),
                        forall|j: int| i + 1 <= j < k ==> is_env_name_char(#[trigger] s@[j]),
                    decreases n - k,
                {
                    k += 1;
                }
                let ghost u = t.skip(1);
                proof {
                    assert(u =~= s@.skip(i + 1));
                    lemma_name_run(u);
                    let q = name_run(u);
                    if q < k - i - 1 {
                        assert(u[q as int] == s@[i + 1 + q]);
                    } else if q > k - i - 1 {
                        assert(u[k - i - 1] == s@[k as int]);
                        assert(is_env_name_char(u[k - i - 1]));
                    }
                    assert(q == k - i - 1);
                }
                let name = slice_chars(s.as_slice(), i + 1, k);
                proof {
                    assert(name@ =~= t.subrange(1, 1 + (k - i - 1)));
                }
                match self.lookup_var(name.as_slice()) {
                    None => {
                        return Err(PathIssue::VarNotSet(string_of(name.as_slice())));
                    },
                    Some(v) => {
                        append_chars(&mut out, v.as_slice());
                        proof {
                            assert(t.skip(1 + (k - i - 1)) =~= s@.skip(k as int));
                            lemma_prepend_assoc(before, v@, expand_env(s@.skip(k as int), env));
                        }
                        i = k;
                    },
                }
            } else {
                proof {
                    assert(t[1] == s@[i + 1]);
                }
                out.push('$');
                proof {
                    assert(t.skip(1) =~= s@.skip(i + 1));
                    lemma_prepend_assoc(before, seq!['$'], expand_env(s@.skip(i + 1), env));
                    assert(out@ =~= before + seq!['$']);
                }
                i += 1;
            }
        }
        proof {
            assert(s@.skip(n as int).len() == 0);
            assert(out@ + Seq::<char>::empty() =~= out@);
        }
        Ok(string_of(out.as_slice()))
    }

    /// `~` and `~/rest` expansion against the resolver's home directory.
    pub fn expand_home(&self, input: String) -> (r: Result<String, PathError>)
        ensures
            result_view(r) == expand_home(input@, self.home_view()),
    {
        let s = chars_of(input.as_str());
        if !(s.len() > 0 && s[0] == '~') {
            return Ok(input);
        }
        match &self.home {
            None => Err(PathIssue::NoHomeDir),
            Some(h) => {
                if s.len() == 1 {
                    proof {
                        assert(s@ =~= seq!['~']);
                    }
                    return Ok(h.clone());
                }
                proof {
                    assert(s@ != seq!['~']);
                    assert(seq!['~', '/'].len() == 2);
                }
                if s[1] == '/' {
                    let rest = slice_chars(s.as_slice(), 2, s.len());
                    let hc = chars_of(h.as_str());
                    let j = join_chars(hc.as_slice(), rest.as_slice());
                    proof {
                        assert(s@.take(2) =~= seq!['~', '/']);
                        assert(rest@ =~= s@.skip(2));
                    }
                    Ok(string_of(j.as_slice()))
                } else {
                    proof {
                        assert(s@.take(2)[1] != seq!['~', '/'][1]);
                    }
                    Err(PathIssue::UserHomeUnsupported(input))
                }
            },
        }
    }

    /// Environment expansion followed by `~` expansion.
    pub fn expand_path(&self, input: &str) -> (r: Result<String, PathError>)
        ensures
            result_view(r) == expand(input@, self.env_view(), self.home_view()),
    {
        let expanded = self.expand_env_vars(input)?;
        self.expand_home(expanded)
    }

    /// Expands `input`; an absolute result is kept, a relative one is taken
    /// relative to the working directory when something exists there, and is
    /// kept as expanded otherwise. Whether something exists there is asked of
    /// the disk; `local_path_outcome` says what comes out for either answer.
    pub fn normalize_local_path(&self, input: &str) -> (r: Result<String, PathError>)
        ensures
            exists|found: bool| #[trigger]
                local_path_outcome(self.cwd_view(), self.env_view(), self.home_view(), input@, found)
                    == result_view(r),
    {
        let expanded = self.expand_path(input)?;
        let e = chars_of(expanded.as_str());
        if path_is_absolute(e.as_slice()) {
            proof {
                assert(local_path_outcome(self.cwd_view(), self.env_view(), self.home_view(), input@, true)
                    == result_view(Ok::<String, PathError>(expanded)));
            }
            return Ok(expanded);
        }
        if e.len() == 0 {
            proof {
                assert(local_path_outcome(self.cwd_view(), self.env_view(), self.home_view(), input@, true)
                    == result_view(Err::<String, PathError>(PathIssue::EmptyLocalPath)));
            }
            return Err(PathIssue::EmptyLocalPath);
        }
        let candidate = path_join(self.cwd.as_str(), expanded.as_str());
        let found = path_exists(candidate.as_str());
        let r = choose_local_path(candidate, expanded, found);
        proof {
            assert(local_path_outcome(self.cwd_view(), self.env_view(), self.home_view(), input@, found)
                == result_view(Ok::<String, PathError>(r)));
        }
        Ok(r)
    }
}

/// What normalising `input` gives when the disk answers `found` to whether
/// its expansion, joined to the working directory, exists: the expansion's
/// refusal; an absolute expansion as it is; an empty one refused; a
/// relative one joined to the working directory when `found`, as expanded
/// otherwise.
pub open spec fn local_path_outcome(
    cwd: Seq<char>,
    env: EnvView,
    home: Option<Seq<char>>,
    input: Seq<char>,
    found: bool,
) -> Result<Seq<char>, PathIssue<Seq<char>>> {
    match expand(input, env, home) {
        Err(e) => Err(e),
        Ok(t) => if is_absolute(t) {
            Ok(t)
        } else if t.len() == 0 {
            Err(PathIssue::EmptyLocalPath)
        } else if found {
            Ok(join(cwd, t))
        } else {
            Ok(t)
        },
    }
}

/// The local path to use: the one joined to the working directory when it
/// exists, the expanded one otherwise.
pub fn choose_local_path(joined: String, expanded: String, exists: bool) -> (r: String)
    ensures
        r@ == (if exists { joined@ } else { expanded@ }),
{
    if exists {
        joined
    } else {
        expanded
    }
}

} // verus!
