//! A shader pack directory with its validated manifest.
use vstd::prelude::*;
use crate::text::{join_msg, lit, strings_view};
use crate::fspath::{join, path_exists, path_join};
use crate::shadertoy::remote::{debug_list, debug_strings};
use crate::shadertoy::manifest::{
    manifest_issues, InputSource, ShaderPackManifest, ShaderPass,
};

verus! {

/// Why a pack could not be used.
#[derive(Debug, Clone)]
pub enum PackError {
    /// No `shader.toml` at the given path.
    ManifestMissing(String),
    /// The manifest text could not be parsed (the parser's message).
    ManifestParse(String),
    /// The manifest, or the files it names, did not pass validation.
    ManifestValidation(Vec<String>),
    /// Reading the pack failed (the system's message).
    Io(String),
    /// The entry pass has no source.
    EntrySourceMissing,
}

/// The message of a pack error.
pub open spec fn pack_error_text(e: PackError) -> Seq<char> {
    match e {
        PackError::ManifestMissing(p) => "manifest not found at "@ + p@,
        PackError::ManifestParse(m) => "failed to parse manifest: "@ + m@,
        PackError::ManifestValidation(items) => "manifest validation failed: "@ + debug_strings(strings_view(items@)),
        PackError::Io(m) => m@,
        PackError::EntrySourceMissing => "entry pass source not found"@,
    }
}

impl PackError {
    /// The error's message (see `pack_error_text`).
    pub fn message(&self) -> (r: String)
        ensures
            r@ == pack_error_text(*self),
    {
        match self {
            PackError::ManifestMissing(p) => join_msg("manifest not found at ", p.as_str()),
            PackError::ManifestParse(m) => join_msg("failed to parse manifest: ", m.as_str()),
            PackError::ManifestValidation(items) => {
                let listed = debug_list(items);
                join_msg("manifest validation failed: ", listed.as_str())
            },
            PackError::Io(m) => lit(m.as_str()),
            PackError::EntrySourceMissing => lit("entry pass source not found"),
        }
    }
}

#[derive(Debug, Clone)]
pub struct LocalPack {
    root: String,
    manifest: ShaderPackManifest,
}

pub open spec fn missing_source_message(p: Seq<char>) -> Seq<char> {
    "missing shader source: "@ + p
}

/// The source file of every pass, joined to the pack root.
pub open spec fn pass_source_paths(root: Seq<char>, passes: Seq<ShaderPass>) -> Seq<Seq<char>> {
    passes.map_values(|p: ShaderPass| join(root, p.source@))
}

/// Index of the first pass named `name`.
pub open spec fn find_pass(passes: Seq<ShaderPass>, name: Seq<char>) -> Option<int> {
    if exists|i: int| 0 <= i < passes.len() && passes[i].name@ == name {
        Some(
            choose|i: int|
                0 <= i < passes.len() && passes[i].name@ == name && (forall|j: int|
                    0 <= j < i ==> passes[j].name@ != name),
        )
    } else {
        None
    }
}

/// The elements of `s` whose flag is `false`.
pub open spec fn unflagged(s: Seq<Seq<char>>, flags: Seq<bool>) -> Seq<Seq<char>>
    decreases s.len(),
{
    if s.len() == 0 || flags.len() == 0 {
        seq![]
    } else if flags.last() {
        unflagged(s.drop_last(), flags.drop_last())
    } else {
        unflagged(s.drop_last(), flags.drop_last()).push(s.last())
    }
}

/// The index of the first pass named `name`.
pub fn find_pass_index(passes: &[ShaderPass], name: &str) -> (r: Option<usize>)
    ensures
        match find_pass(passes@, name@) {
            Some(i) => r == Some(i as usize),
            None => r is None,
        },
        r matches Some(i) ==> i < passes@.len() && passes@[i as int].name@ == name@ && find_pass(
            passes@,
            name@,
        ) == Some(i as int),
{
    let target = crate::text::chars_of(name);
    let mut i: usize = 0;
    while i < passes.len()
        invariant
            i <= passes@.len(),
            target@ == name@,
            forall|j: int| 0 <= j < i ==> passes@[j].name@ != name@,
        decreases passes@.len() - i,
    {
        let candidate = crate::text::chars_of(passes[i].name.as_str());
        if crate::text::chars_eq(candidate.as_slice(), target.as_slice()) {
            proof {
                let w = choose|k: int|
                    0 <= k < passes@.len() && passes@[k].name@ == name@ && (forall|j: int|
                        0 <= j < k ==> passes@[j].name@ != name@);
                assert(0 <= i < passes@.len() && passes@[i as int].name@ == name@);
                if w < i {
                } else if w > i {
                    assert(passes@[i as int].name@ != name@);
                }
            }
            return Some(i);
        }
        i += 1;
    }
    None
}

impl LocalPack {
    pub closed spec fn root_view(&self) -> Seq<char> {
        self.root@
    }

    pub closed spec fn manifest_view(&self) -> ShaderPackManifest {
        self.manifest
    }

    /// A pack at `root` with a parsed manifest; refused with the manifest's
    /// issues when it does not validate.
    pub fn from_parts(root: String, manifest: ShaderPackManifest) -> (r: Result<Self, PackError>)
        ensures
            manifest_issues(manifest).len() == 0 ==> (r matches Ok(p) && p.root_view() == root@
                && p.manifest_view() == manifest),
            manifest_issues(manifest).len() != 0 ==> (r matches Err(
                PackError::ManifestValidation(v),
            ) && strings_view(v@) == manifest_issues(manifest)),
    {
        let issues = manifest.validate();
        if issues.len() != 0 {
            return Err(PackError::ManifestValidation(issues));
        }
        Ok(LocalPack { root, manifest })
    }

    pub fn root(&self) -> (r: &str)
        ensures
            r@ == self.root_view(),
    {
        self.root.as_str()
    }

    pub fn manifest(&self) -> (r: &ShaderPackManifest)
        ensures
            *r == self.manifest_view(),
    {
        &self.manifest
    }

    /// The source of the first pass named `pass_name`, joined to the root.
    pub fn pass_source_path(&self, pass_name: &str) -> (r: Option<String>)
        ensures
            match find_pass(self.manifest_view().passes@, pass_name@) {
                Some(i) => r matches Some(p) && p@ == join(
                    self.root_view(),
                    self.manifest_view().passes@[i].source@,
                ),
                None => r is None,
            },
    {
        let passes = &self.manifest.passes;
        let target = crate::text::chars_of(pass_name);
        let mut i: usize = 0;
        while i < passes.len()
            invariant
                i <= passes@.len(),
                passes@ == self.manifest_view().passes@,
                target@ == pass_name@,
                forall|j: int| 0 <= j < i ==> passes@[j].name@ != pass_name@,
            decreases passes@.len() - i,
        {
            let name = crate::text::chars_of(passes[i].name.as_str());
            if crate::text::chars_eq(name.as_slice(), target.as_slice()) {
                proof {
                    let w = choose|k: int|
                        0 <= k < passes@.len() && passes@[k].name@ == pass_name@ && (forall|j: int|
                            0 <= j < k ==> passes@[j].name@ != pass_name@);
                    assert(0 <= i < passes@.len() && passes@[i as int].name@ == pass_name@);
                    if w < i {
                    } else if w > i {
                        assert(passes@[i as int].name@ != pass_name@);
                    }
                }
                return Some(path_join(self.root.as_str(), passes[i].source.as_str()));
            }
            i += 1;
        }
        None
    }

    /// Where an input's file or directory lies; buffers and the keyboard
    /// have none.
    pub fn asset_path(&self, source: &InputSource) -> (r: Option<String>)
        ensures
            match source {
                InputSource::Texture { path } => r matches Some(p) && p@ == join(
                    self.root_view(),
                    path@,
                ),
                InputSource::Audio { path } => r matches Some(p) && p@ == join(
                    self.root_view(),
                    path@,
                ),
                InputSource::Cubemap { directory } => r matches Some(p) && p@ == join(
                    self.root_view(),
                    directory@,
                ),
                InputSource::Keyboard => r is None,
                InputSource::Buffer { .. } => r is None,
            },
    {
        match source {
            InputSource::Texture { path } => Some(path_join(self.root.as_str(), path.as_str())),
            InputSource::Audio { path } => Some(path_join(self.root.as_str(), path.as_str())),
            InputSource::Cubemap { directory } => Some(
                path_join(self.root.as_str(), directory.as_str()),
            ),
            InputSource::Keyboard => None,
            InputSource::Buffer { .. } => None,
        }
    }

    pub fn passes(&self) -> (r: &[ShaderPass])
        ensures
            r@ == self.manifest_view().passes@,
    {
        self.manifest.passes.as_slice()
    }
}

/// The entry pass's source file.
pub fn resolve_entry_source(pack: &LocalPack) -> (r: Result<String, PackError>)
    ensures
        match find_pass(pack.manifest_view().passes@, pack.manifest_view().entry@) {
            Some(i) => r matches Ok(p) && p@ == join(
                pack.root_view(),
                pack.manifest_view().passes@[i].source@,
            ),
            None => r matches Err(PackError::EntrySourceMissing),
        },
{
    match pack.pass_source_path(pack.manifest().entry.as_str()) {
        Some(p) => Ok(p),
        None => Err(PackError::EntrySourceMissing),
    }
}

/// What a source check gives when `present` tells which pass sources exist:
/// all paths in pass order, or the message for each missing one.
pub open spec fn sources_outcome(pack: LocalPack, present: Seq<bool>, r: Result<Vec<String>, PackError>) -> bool {
    present.len() == pack.manifest_view().passes@.len() && {
        let paths = pass_source_paths(pack.root_view(), pack.manifest_view().passes@);
        let missing = unflagged(paths, present);
        if missing.len() == 0 {
            r matches Ok(v) && strings_view(v@) == paths
        } else {
            r matches Err(PackError::ManifestValidation(m)) && strings_view(m@) == missing.map_values(
                |p: Seq<char>| missing_source_message(p),
            )
        }
    }
}

/// Checks that every pass's source file exists: all of them in pass order,
/// or a validation error naming each missing one. Which exist is asked of
/// the disk, one pass after the other; `sources_given` says what comes out
/// for the answers.
pub fn ensure_glsl_sources(pack: &LocalPack) -> (r: Result<Vec<String>, PackError>)
    ensures
        exists|present: Seq<bool>| #[trigger] sources_outcome(*pack, present, r),
{
    let passes = pack.passes();
    let mut present: Vec<bool> = Vec::new();
    let mut i: usize = 0;
    while i < passes.len()
        invariant
            i <= passes@.len(),
            present@.len() == i,
        decreases passes@.len() - i,
    {
        let source_path = path_join(pack.root(), passes[i].source.as_str());
        present.push(path_exists(source_path.as_str()));
        i += 1;
    }
    sources_given(pack, present.as_slice())
}

/// What the source check gives when `present` answers, pass by pass,
/// whether the pass's source file exists (see `sources_outcome`).
pub fn sources_given(pack: &LocalPack, present: &[bool]) -> (r: Result<Vec<String>, PackError>)
    requires
        present@.len() == pack.manifest_view().passes@.len(),
    ensures
        sources_outcome(*pack, present@, r),
{
    let passes = pack.passes();
    let ghost paths = pass_source_paths(pack.root_view(), pack.manifest_view().passes@);
    let mut missing: Vec<String> = Vec::new();
    let mut resolved: Vec<String> = Vec::new();
    let mut i: usize = 0;
    while i < passes.len()
        invariant
            i <= passes@.len(),
            passes@ == pack.manifest_view().passes@,
            present@.len() == passes@.len(),
            paths == pass_source_paths(pack.root_view(), pack.manifest_view().passes@),
            strings_view(missing@) == unflagged(paths.take(i as int), present@.take(i as int)).map_values(
                |p: Seq<char>| missing_source_message(p),
            ),
            unflagged(paths.take(i as int), present@.take(i as int)).len() == 0 ==> strings_view(resolved@)
                == paths.take(i as int),
        decreases passes@.len() - i,
    {
        let source_path = path_join(pack.root(), passes[i].source.as_str());
        let exists = present[i];
        let ghost old_missing = strings_view(missing@);
        let ghost old_resolved = strings_view(resolved@);
        let ghost old_present = present@.take(i as int);
        let ghost now_present = present@.take(i + 1);
        proof {
            assert(paths.take(i + 1).drop_last() =~= paths.take(i as int));
            assert(now_present.drop_last() =~= old_present);
            assert(now_present.last() == exists);
            assert(paths.take(i + 1).last() == source_path@);
        }
        if !exists {
            missing.push(join_msg("missing shader source: ", source_path.as_str()));
            proof {
                assert(strings_view(missing@) =~= old_missing.push(
                    missing_source_message(source_path@),
                ));
                assert(unflagged(paths.take(i + 1), now_present) == unflagged(
                    paths.take(i as int),
                    old_present,
                ).push(source_path@));
                assert(unflagged(paths.take(i + 1), now_present).map_values(
                    |p: Seq<char>| missing_source_message(p),
                ) =~= unflagged(paths.take(i as int), old_present).map_values(
                    |p: Seq<char>| missing_source_message(p),
                ).push(missing_source_message(source_path@)));
            }
        } else {
            resolved.push(source_path);
            proof {
                assert(unflagged(paths.take(i + 1), now_present) == unflagged(paths.take(i as int), old_present));
                assert(strings_view(resolved@) =~= old_resolved.push(paths.take(i + 1).last()));
                assert(paths.take(i + 1) =~= paths.take(i as int).push(paths.take(i + 1).last()));
            }
        }
        i += 1;
    }
    proof {
        assert(paths.take(passes@.len() as int) =~= paths);
        assert(present@.take(passes@.len() as int) =~= present@);
    }
    let result = if missing.len() != 0 {
        Err(PackError::ManifestValidation(missing))
    } else {
        Ok(resolved)
    };
    proof {
        assert(sources_outcome(*pack, present@, result));
    }
    result
}

} // verus!
