//! Turns a validated shader pack into the renderer's channel bindings, with
//! a report of every channel that could not be bound as the manifest asks.
//!
//! What the disk holds (whether a texture exists, whether a cubemap path is
//! a directory and which faces it has) is handed in as one `InputProbe` per
//! input of the entry pass; everything else follows from the manifest.
use vstd::prelude::*;
use crate::text::{chars_of, chars_eq, lit, lower, lower_chars, string_of};
use crate::fspath::{file_stem, file_stem_exec, join, path_join};
use crate::renderer::types::{
    channel_index_message, slot_view, ChannelBindings, ChannelSource, ChannelSourceOf,
    ColorSpaceMode, SurfaceAlpha as RendererSurfaceAlpha,
};
use crate::shadertoy::manifest::{
    ColorSpace as ManifestColorSpace, InputSource, PassInput, ShaderPackManifest,
    SurfaceAlpha as ManifestSurfaceAlpha,
};
use crate::shadertoy::pack::{find_pass, find_pass_index, LocalPack};

verus! {

/// What went wrong with one channel. `S` is `String` at run time and
/// `Seq<char>` in specs.
#[derive(Debug, Clone)]
pub enum ChannelBindingIssueKindOf<S> {
    TextureMissing { path: S },
    TextureAssignFailed { path: S, error: S },
    KeyboardAssignFailed { error: S },
    UnsupportedBuffer { name: S },
    CubemapDirectoryMissing { directory: S },
    CubemapNotDirectory { path: S },
    CubemapFaceMissing { directory: S, face: S },
    CubemapAssignFailed { directory: S, error: S },
    UnsupportedAudio { path: S },
}

pub type ChannelBindingIssueKind = ChannelBindingIssueKindOf<String>;

impl View for ChannelBindingIssueKindOf<String> {
    type V = ChannelBindingIssueKindOf<Seq<char>>;

    open spec fn view(&self) -> ChannelBindingIssueKindOf<Seq<char>> {
        match self {
            ChannelBindingIssueKindOf::TextureMissing { path } => ChannelBindingIssueKindOf::TextureMissing {
                path: path@,
            },
            ChannelBindingIssueKindOf::TextureAssignFailed {
                path,
                error,
            } => ChannelBindingIssueKindOf::TextureAssignFailed { path: path@, error: error@ },
            ChannelBindingIssueKindOf::KeyboardAssignFailed {
                error,
            } => ChannelBindingIssueKindOf::KeyboardAssignFailed { error: error@ },
            ChannelBindingIssueKindOf::UnsupportedBuffer {
                name,
            } => ChannelBindingIssueKindOf::UnsupportedBuffer { name: name@ },
            ChannelBindingIssueKindOf::CubemapDirectoryMissing {
                directory,
            } => ChannelBindingIssueKindOf::CubemapDirectoryMissing { directory: directory@ },
            ChannelBindingIssueKindOf::CubemapNotDirectory {
                path,
            } => ChannelBindingIssueKindOf::CubemapNotDirectory { path: path@ },
            ChannelBindingIssueKindOf::CubemapFaceMissing {
                directory,
                face,
            } => ChannelBindingIssueKindOf::CubemapFaceMissing {
                directory: directory@,
                face: face@,
            },
            ChannelBindingIssueKindOf::CubemapAssignFailed {
                directory,
                error,
            } => ChannelBindingIssueKindOf::CubemapAssignFailed {
                directory: directory@,
                error: error@,
            },
            ChannelBindingIssueKindOf::UnsupportedAudio {
                path,
            } => ChannelBindingIssueKindOf::UnsupportedAudio { path: path@ },
        }
    }
}

/// One channel of one pass that could not be bound as asked.
#[derive(Debug, Clone)]
pub struct ChannelBindingIssueOf<S> {
    pub pass: S,
    pub channel: u8,
    pub kind: ChannelBindingIssueKindOf<S>,
}

pub type ChannelBindingIssue = ChannelBindingIssueOf<String>;

pub type IssueView = ChannelBindingIssueOf<Seq<char>>;

impl View for ChannelBindingIssueOf<String> {
    type V = IssueView;

    open spec fn view(&self) -> IssueView {
        ChannelBindingIssueOf { pass: self.pass@, channel: self.channel, kind: self.kind@ }
    }
}

/// The bindings of a pack with the problems met while building them.
#[derive(Debug, Clone)]
pub struct ChannelBindingReport {
    pub bindings: ChannelBindings,
    pub issues: Vec<ChannelBindingIssue>,
}

impl ChannelBindingReport {
    pub open spec fn issues_view(&self) -> Seq<IssueView> {
        issue_views(self.issues@)
    }
}

/// What the disk answered for one input of the entry pass: whether its path
/// exists, whether it is a directory, and for a cubemap whether each face
/// (in the order of `face_stem`) was found.
#[derive(Debug, Clone)]
pub struct InputProbe {
    pub exists: bool,
    pub is_dir: bool,
    pub faces: Vec<bool>,
}

pub type ProbeView = (bool, bool, Seq<bool>);

impl View for InputProbe {
    type V = ProbeView;

    open spec fn view(&self) -> ProbeView {
        (self.exists, self.is_dir, self.faces@)
    }
}

pub open spec fn probes_view(probes: Seq<InputProbe>) -> Seq<ProbeView> {
    probes.map_values(|p: InputProbe| p@)
}

pub type SlotsView = Seq<Option<ChannelSourceOf<Seq<char>>>>;

/// The stem of cubemap face `k`, in the order the renderer loads them.
pub open spec fn face_stem(k: int) -> Seq<char> {
    if k == 0 {
        "posx"@
    } else if k == 1 {
        "negx"@
    } else if k == 2 {
        "posy"@
    } else if k == 3 {
        "negy"@
    } else if k == 4 {
        "posz"@
    } else {
        "negz"@
    }
}

pub open spec fn unbound_slots() -> SlotsView {
    seq![None, None, None, None]
}

/// The probe of input `i`; inputs past the end of `probes` count as found
/// nowhere.
pub open spec fn probe_at(probes: Seq<ProbeView>, i: int) -> ProbeView {
    if 0 <= i < probes.len() {
        probes[i]
    } else {
        (false, false, seq![])
    }
}

pub open spec fn issue(pass: Seq<char>, channel: u8, kind: ChannelBindingIssueKindOf<Seq<char>>) -> IssueView {
    ChannelBindingIssueOf { pass, channel, kind }
}

/// The faces among the first `n` that were not found.
pub open spec fn missing_faces(pass: Seq<char>, channel: u8, dir: Seq<char>, faces: Seq<bool>, n: nat) -> Seq<
    IssueView,
>
    decreases n,
{
    if n == 0 {
        seq![]
    } else {
        let k = n - 1;
        missing_faces(pass, channel, dir, faces, k as nat) + (if k < faces.len() && faces[k] {
            seq![]
        } else {
            seq![
                issue(
                    pass,
                    channel,
                    ChannelBindingIssueKindOf::CubemapFaceMissing { directory: dir, face: face_stem(k) },
                ),
            ]
        })
    }
}

/// The slots and issues one input adds, given the slots before it.
#[verifier::opaque]
pub open spec fn input_outcome(
    root: Seq<char>,
    pass: Seq<char>,
    input: PassInput,
    probe: ProbeView,
    slots: SlotsView,
) -> (SlotsView, Seq<IssueView>) {
    let ch = input.channel;
    let fits = ch < 4;
    match input.source {
        InputSource::Texture { path } => {
            let r = join(root, path@);
            (
                if fits {
                    slots.update(ch as int, Some(ChannelSourceOf::Texture { path: r }))
                } else {
                    slots
                },
                (if probe.0 {
                    seq![]
                } else {
                    seq![issue(pass, ch, ChannelBindingIssueKindOf::TextureMissing { path: r })]
                }) + (if fits {
                    seq![]
                } else {
                    seq![
                        issue(
                            pass,
                            ch,
                            ChannelBindingIssueKindOf::TextureAssignFailed {
                                path: r,
                                error: channel_index_message(ch as usize),
                            },
                        ),
                    ]
                }),
            )
        },
        InputSource::Keyboard => {
            (
                if fits {
                    slots.update(ch as int, Some(ChannelSourceOf::Keyboard))
                } else {
                    slots
                },
                if fits {
                    seq![]
                } else {
                    seq![
                        issue(
                            pass,
                            ch,
                            ChannelBindingIssueKindOf::KeyboardAssignFailed {
                                error: channel_index_message(ch as usize),
                            },
                        ),
                    ]
                },
            )
        },
        InputSource::Buffer { name } => {
            (slots, seq![issue(pass, ch, ChannelBindingIssueKindOf::UnsupportedBuffer { name: name@ })])
        },
        InputSource::Cubemap { directory } => {
            let r = join(root, directory@);
            (
                if fits {
                    slots.update(ch as int, Some(ChannelSourceOf::Cubemap { directory: r }))
                } else {
                    slots
                },
                (if !probe.0 {
                    seq![issue(pass, ch, ChannelBindingIssueKindOf::CubemapDirectoryMissing { directory: r })]
                } else if !probe.1 {
                    seq![issue(pass, ch, ChannelBindingIssueKindOf::CubemapNotDirectory { path: r })]
                } else {
                    missing_faces(pass, ch, r, probe.2, 6)
                }) + (if fits {
                    seq![]
                } else {
                    seq![
                        issue(
                            pass,
                            ch,
                            ChannelBindingIssueKindOf::CubemapAssignFailed {
                                directory: r,
                                error: channel_index_message(ch as usize),
                            },
                        ),
                    ]
                }),
            )
        },
        InputSource::Audio { path } => {
            (slots, seq![issue(pass, ch, ChannelBindingIssueKindOf::UnsupportedAudio { path: path@ })])
        },
    }
}

/// The slots and issues after the first `n` inputs of a pass.
pub open spec fn inputs_outcome(
    root: Seq<char>,
    pass: Seq<char>,
    inputs: Seq<PassInput>,
    probes: Seq<ProbeView>,
    n: nat,
) -> (SlotsView, Seq<IssueView>)
    decreases n,
{
    if n == 0 {
        (unbound_slots(), seq![])
    } else {
        let prev = inputs_outcome(root, pass, inputs, probes, (n - 1) as nat);
        let step = input_outcome(root, pass, inputs[n - 1], probe_at(probes, n - 1), prev.0);
        (step.0, prev.1 + step.1)
    }
}

/// The bindings and issues of a pack: nothing bound and nothing reported
/// when the entry pass is missing, else the entry pass's inputs in order.
pub open spec fn report_spec(root: Seq<char>, manifest: ShaderPackManifest, probes: Seq<ProbeView>) -> (
    SlotsView,
    Seq<IssueView>,
) {
    match find_pass(manifest.passes@, manifest.entry@) {
        None => (unbound_slots(), seq![]),
        Some(i) => inputs_outcome(
            root,
            manifest.passes@[i].name@,
            manifest.passes@[i].inputs@,
            probes,
            manifest.passes@[i].inputs@.len(),
        ),
    }
}

/// The path each input of the entry pass is looked up at, when it is one
/// the disk is asked about (textures and cubemaps).
pub open spec fn probe_path(root: Seq<char>, input: PassInput) -> Option<Seq<char>> {
    match input.source {
        InputSource::Texture { path } => Some(join(root, path@)),
        InputSource::Cubemap { directory } => Some(join(root, directory@)),
        _ => None,
    }
}

pub open spec fn entry_inputs(manifest: ShaderPackManifest) -> Seq<PassInput> {
    match find_pass(manifest.passes@, manifest.entry@) {
        None => seq![],
        Some(i) => manifest.passes@[i].inputs@,
    }
}

fn face_stem_exec(k: usize) -> (r: &'static str)
    requires
        k < 6,
    ensures
        r@ == face_stem(k as int),
{
    if k == 0 {
        "posx"
    } else if k == 1 {
        "negx"
    } else if k == 2 {
        "posy"
    } else if k == 3 {
        "negy"
    } else if k == 4 {
        "posz"
    } else {
        "negz"
    }
}

pub open spec fn issue_views(v: Seq<ChannelBindingIssue>) -> Seq<IssueView> {
    v.map_values(|i: ChannelBindingIssue| i@)
}

pub open spec fn opt_probe(probe: Option<&InputProbe>) -> ProbeView {
    match probe {
        Some(p) => p@,
        None => (false, false, seq![]),
    }
}

fn push_issue(issues: &mut Vec<ChannelBindingIssue>, pass: &str, channel: u8, kind: ChannelBindingIssueKind)
    ensures
        issue_views(final(issues)@) == issue_views(old(issues)@).push(issue(pass@, channel, kind@)),
{
    let ghost before = issues@;
    issues.push(ChannelBindingIssueOf { pass: lit(pass), channel, kind });
    proof {
        assert(issue_views(issues@) =~= issue_views(before).push(issue(pass@, channel, kind@)));
    }
}

proof fn lemma_slot_update(s: Seq<Option<ChannelSource>>, ch: int, src: ChannelSource)
    requires
        0 <= ch < s.len(),
    ensures
        s.update(ch, Some(src)).map_values(|o: Option<ChannelSource>| slot_view(o)) == s.map_values(
            |o: Option<ChannelSource>| slot_view(o),
        ).update(ch, Some(src@)),
{
    assert(s.update(ch, Some(src)).map_values(|o: Option<ChannelSource>| slot_view(o)) =~= s.map_values(
        |o: Option<ChannelSource>| slot_view(o),
    ).update(ch, Some(src@)));
}

fn push_missing_faces(
    issues: &mut Vec<ChannelBindingIssue>,
    pass: &str,
    channel: u8,
    dir: &str,
    faces: &Vec<bool>,
)
    ensures
        issue_views(final(issues)@) == issue_views(old(issues)@) + missing_faces(pass@, channel, dir@, faces@, 6),
{
    let ghost base = issue_views(issues@);
    let mut k: usize = 0;
    while k < 6
        invariant
            k <= 6,
            issue_views(issues@) == base + missing_faces(pass@, channel, dir@, faces@, k as nat),
        decreases 6 - k,
    {
        let present = k < faces.len() && faces[k];
        let ghost m0 = missing_faces(pass@, channel, dir@, faces@, k as nat);
        if !present {
            push_issue(
                issues,
                pass,
                channel,
                ChannelBindingIssueKindOf::CubemapFaceMissing { directory: lit(dir), face: lit(face_stem_exec(k)) },
            );
        }
        proof {
            let add = if k < faces@.len() && faces@[k as int] {
                Seq::<IssueView>::empty()
            } else {
                seq![
                    issue(
                        pass@,
                        channel,
                        ChannelBindingIssueKindOf::CubemapFaceMissing { directory: dir@, face: face_stem(k as int) },
                    ),
                ]
            };
            assert(missing_faces(pass@, channel, dir@, faces@, (k + 1) as nat) == m0 + add);
            assert(base + (m0 + add) =~= (base + m0) + add);
            assert(issue_views(issues@) =~= (base + m0) + add);
        }
        k += 1;
    }
}

fn bind_texture(
    root: &str,
    pass: &str,
    input: &PassInput,
    path: &str,
    exists: bool,
    bindings: &mut ChannelBindings,
    issues: &mut Vec<ChannelBindingIssue>,
)
    requires
        input.source matches InputSource::Texture { path: p } && p@ == path@,
    ensures
        ({
            let out = input_outcome(
                root@,
                pass@,
                *input,
                (exists, false, seq![]),
                old(bindings).slot_views(),
            );
            &&& final(bindings).slot_views() == out.0
            &&& issue_views(final(issues)@) == issue_views(old(issues)@) + out.1
        }),
{
    proof {
        reveal(input_outcome);
        bindings.lemma_slots_len();
    }
    let channel = input.channel;
    let ghost slots_before = bindings.slots_view();
    let ghost issues_before = issue_views(issues@);
    let resolved = path_join(root, path);
    if !exists {
        push_issue(issues, pass, channel, ChannelBindingIssueKindOf::TextureMissing { path: lit(resolved.as_str()) });
    }
    let ghost mid = issue_views(issues@);
    let stored = lit(resolved.as_str());
    let ghost stored_g = stored;
    match bindings.set_texture(channel as usize, stored) {
        Ok(()) => {
            proof {
                lemma_slot_update(slots_before, channel as int, ChannelSourceOf::Texture { path: stored_g });
            }
        },
        Err(e) => {
            let msg = e.to_string();
            push_issue(
                issues,
                pass,
                channel,
                ChannelBindingIssueKindOf::TextureAssignFailed { path: resolved, error: msg },
            );
        },
    }
    proof {
        assert(issue_views(issues@) =~= issues_before + input_outcome(
            root@,
            pass@,
            *input,
            (exists, false, seq![]),
            slots_before.map_values(|o: Option<ChannelSource>| slot_view(o)),
        ).1);
    }
}

fn bind_cubemap(
    root: &str,
    pass: &str,
    input: &PassInput,
    directory: &str,
    probe: Option<&InputProbe>,
    bindings: &mut ChannelBindings,
    issues: &mut Vec<ChannelBindingIssue>,
)
    requires
        input.source matches InputSource::Cubemap { directory: d } && d@ == directory@,
    ensures
        ({
            let out = input_outcome(
                root@,
                pass@,
                *input,
                opt_probe(probe),
                old(bindings).slot_views(),
            );
            &&& final(bindings).slot_views() == out.0
            &&& issue_views(final(issues)@) == issue_views(old(issues)@) + out.1
        }),
{
    proof {
        reveal(input_outcome);
        bindings.lemma_slots_len();
    }
    let channel = input.channel;
    let ghost slots_before = bindings.slots_view();
    let ghost issues_before = issue_views(issues@);
    let resolved = path_join(root, directory);
    let (exists, is_dir) = match probe {
        Some(p) => (p.exists, p.is_dir),
        None => (false, false),
    };
    if !exists {
        push_issue(
            issues,
            pass,
            channel,
            ChannelBindingIssueKindOf::CubemapDirectoryMissing { directory: lit(resolved.as_str()) },
        );
    } else if !is_dir {
        push_issue(issues, pass, channel, ChannelBindingIssueKindOf::CubemapNotDirectory { path: lit(resolved.as_str()) });
    } else {
        match probe {
            Some(p) => push_missing_faces(issues, pass, channel, resolved.as_str(), &p.faces),
            None => {},
        }
    }
    let stored = lit(resolved.as_str());
    let ghost stored_g = stored;
    match bindings.set_cubemap(channel as usize, stored) {
        Ok(()) => {
            proof {
                lemma_slot_update(slots_before, channel as int, ChannelSourceOf::Cubemap { directory: stored_g });
            }
        },
        Err(e) => {
            let msg = e.to_string();
            push_issue(
                issues,
                pass,
                channel,
                ChannelBindingIssueKindOf::CubemapAssignFailed { directory: resolved, error: msg },
            );
        },
    }
    proof {
        assert(issue_views(issues@) =~= issues_before + input_outcome(
            root@,
            pass@,
            *input,
            opt_probe(probe),
            slots_before.map_values(|o: Option<ChannelSource>| slot_view(o)),
        ).1);
    }
}

fn bind_input(
    root: &str,
    pass: &str,
    input: &PassInput,
    probe: Option<&InputProbe>,
    bindings: &mut ChannelBindings,
    issues: &mut Vec<ChannelBindingIssue>,
)
    ensures
        ({
            let out = input_outcome(root@, pass@, *input, opt_probe(probe), old(bindings).slot_views());
            &&& final(bindings).slot_views() == out.0
            &&& issue_views(final(issues)@) == issue_views(old(issues)@) + out.1
        }),
{
    proof {
        reveal(input_outcome);
        bindings.lemma_slots_len();
    }
    let ch = input.channel;
    let ghost slots_before = bindings.slots_view();
    let ghost issues_before = issue_views(issues@);
    match &input.source {
        InputSource::Texture { path } => {
            let exists = match probe {
                Some(p) => p.exists,
                None => false,
            };
            bind_texture(root, pass, input, path.as_str(), exists, bindings, issues);
        },
        InputSource::Keyboard => {
            match bindings.set_keyboard(ch as usize) {
                Ok(()) => {
                    proof {
                        lemma_slot_update(slots_before, ch as int, ChannelSourceOf::Keyboard);
                    }
                },
                Err(e) => {
                    let msg = e.to_string();
                    push_issue(issues, pass, ch, ChannelBindingIssueKindOf::KeyboardAssignFailed { error: msg });
                },
            }
            proof {
                assert(issue_views(issues@) =~= issues_before + input_outcome(
                    root@,
                    pass@,
                    *input,
                    opt_probe(probe),
                    slots_before.map_values(|o: Option<ChannelSource>| slot_view(o)),
                ).1);
            }
        },
        InputSource::Buffer { name } => {
            push_issue(issues, pass, ch, ChannelBindingIssueKindOf::UnsupportedBuffer { name: lit(name.as_str()) });
        },
        InputSource::Cubemap { directory } => {
            bind_cubemap(root, pass, input, directory.as_str(), probe, bindings, issues);
        },
        InputSource::Audio { path } => {
            push_issue(issues, pass, ch, ChannelBindingIssueKindOf::UnsupportedAudio { path: lit(path.as_str()) });
        },
    }
}

/// The bindings and issues of `pack`, given what the disk answered for each
/// input of its entry pass (see `channel_probe_paths`).
pub fn channel_bindings_from_pack(pack: &LocalPack, probes: &[InputProbe]) -> (r: ChannelBindingReport)
    ensures
        r.bindings.slot_views() == report_spec(pack.root_view(), pack.manifest_view(), probes_view(probes@)).0,
        r.issues_view() == report_spec(pack.root_view(), pack.manifest_view(), probes_view(probes@)).1,
{
    let mut bindings = ChannelBindings::new();
    let mut issues: Vec<ChannelBindingIssue> = Vec::new();
    let manifest = pack.manifest();
    let ghost root = pack.root_view();
    let ghost pv = probes_view(probes@);
    proof {
        assert(bindings.slot_views() =~= unbound_slots());
        assert(issue_views(issues@) =~= Seq::<IssueView>::empty());
    }
    let found = find_pass_index(manifest.passes.as_slice(), manifest.entry.as_str());
    let pi = match found {
        None => {
            return ChannelBindingReport { bindings, issues };
        },
        Some(pi) => pi,
    };
    let pass = &manifest.passes[pi];
    proof {
        assert(find_pass(pack.manifest_view().passes@, pack.manifest_view().entry@) == Some(pi as int));
    }
    let ghost pname = pass.name@;
    let ghost inputs = pass.inputs@;
    let mut i: usize = 0;
    while i < pass.inputs.len()
        invariant
            i <= inputs.len(),
            inputs == pass.inputs@,
            pname == pass.name@,
            root == pack.root_view(),
            pv == probes_view(probes@),
            bindings.slot_views() == inputs_outcome(root, pname, inputs, pv, i as nat).0,
            issue_views(issues@) == inputs_outcome(root, pname, inputs, pv, i as nat).1,
        decreases inputs.len() - i,
    {
        let ghost prev = inputs_outcome(root, pname, inputs, pv, i as nat);
        let probe = if i < probes.len() {
            Some(&probes[i])
        } else {
            None
        };
        proof {
            assert(opt_probe(probe) == probe_at(pv, i as int));
        }
        bind_input(pack.root(), pass.name.as_str(), &pass.inputs[i], probe, &mut bindings, &mut issues);
        proof {
            let step = input_outcome(root, pname, inputs[i as int], probe_at(pv, i as int), prev.0);
            assert(inputs_outcome(root, pname, inputs, pv, (i + 1) as nat) == (step.0, prev.1 + step.1));
            assert(issue_views(issues@) =~= prev.1 + step.1);
        }
        i += 1;
    }
    ChannelBindingReport { bindings, issues }
}

/// For each input of the entry pass, the path the disk is asked about:
/// the resolved file of a texture and the resolved directory of a cubemap.
pub fn channel_probe_paths(pack: &LocalPack) -> (r: Vec<Option<String>>)
    ensures
        r@.len() == entry_inputs(pack.manifest_view()).len(),
        forall|i: int|
            0 <= i < r@.len() ==> match probe_path(pack.root_view(), #[trigger] entry_inputs(pack.manifest_view())[i]) {
                Some(p) => r@[i] matches Some(q) && q@ == p,
                None => r@[i] is None,
            },
{
    let manifest = pack.manifest();
    let mut out: Vec<Option<String>> = Vec::new();
    let found = find_pass_index(manifest.passes.as_slice(), manifest.entry.as_str());
    let pi = match found {
        None => {
            return out;
        },
        Some(pi) => pi,
    };
    let inputs = &manifest.passes[pi].inputs;
    let ghost want = entry_inputs(pack.manifest_view());
    proof {
        assert(want == inputs@);
    }
    let mut i: usize = 0;
    while i < inputs.len()
        invariant
            i <= inputs@.len(),
            want == inputs@,
            out@.len() == i,
            forall|j: int|
                0 <= j < i ==> match probe_path(pack.root_view(), #[trigger] want[j]) {
                    Some(p) => out@[j] matches Some(q) && q@ == p,
                    None => out@[j] is None,
                },
        decreases inputs@.len() - i,
    {
        let item = match &inputs[i].source {
            InputSource::Texture { path } => Some(path_join(pack.root(), path.as_str())),
            InputSource::Cubemap { directory } => Some(path_join(pack.root(), directory.as_str())),
            _ => None,
        };
        out.push(item);
        i += 1;
    }
    out
}

/// `a` sorts strictly before `b`, character by character.
pub open spec fn lex_lt(a: Seq<char>, b: Seq<char>) -> bool
    decreases a.len(),
{
    if b.len() == 0 {
        false
    } else if a.len() == 0 {
        true
    } else if a[0] != b[0] {
        (a[0] as u32) < (b[0] as u32)
    } else {
        lex_lt(a.drop_first(), b.drop_first())
    }
}

/// A directory entry (its name, and whether it is a regular file) that
/// holds cubemap face `face`.
pub open spec fn face_candidate(entry: (Seq<char>, bool), face: Seq<char>) -> bool {
    entry.1 && lower(file_stem(entry.0)) == lower(face)
}

pub open spec fn entry_views(entries: Seq<(String, bool)>) -> Seq<(Seq<char>, bool)> {
    entries.map_values(|e: (String, bool)| (e.0@, e.1))
}

/// Entry `i` is the candidate that sorts first.
pub open spec fn least_candidate(entries: Seq<(Seq<char>, bool)>, face: Seq<char>, i: int) -> bool {
    &&& 0 <= i < entries.len()
    &&& face_candidate(entries[i], face)
    &&& forall|j: int|
        0 <= j < entries.len() && face_candidate(#[trigger] entries[j], face) ==> !lex_lt(
            entries[j].0,
            entries[i].0,
        )
}

pub(crate) proof fn lemma_lex_lt_transitive(a: Seq<char>, b: Seq<char>, c: Seq<char>)
    requires
        lex_lt(a, b),
        lex_lt(b, c),
    ensures
        lex_lt(a, c),
    decreases a.len(),
{
    if a.len() > 0 && b.len() > 0 && c.len() > 0 && a[0] == b[0] && b[0] == c[0] {
        lemma_lex_lt_transitive(a.drop_first(), b.drop_first(), c.drop_first());
    }
}

proof fn lemma_lex_lt_skip(a: Seq<char>, b: Seq<char>, i: int)
    requires
        0 <= i <= a.len(),
        i <= b.len(),
        a.take(i) == b.take(i),
    ensures
        lex_lt(a, b) == lex_lt(a.skip(i), b.skip(i)),
    decreases i,
{
    if i > 0 {
        assert(a[0] == a.take(i)[0]);
        assert(b[0] == b.take(i)[0]);
        assert(a.drop_first().take(i - 1) =~= a.take(i).drop_first());
        assert(b.drop_first().take(i - 1) =~= b.take(i).drop_first());
        lemma_lex_lt_skip(a.drop_first(), b.drop_first(), i - 1);
        assert(a.drop_first().skip(i - 1) =~= a.skip(i));
        assert(b.drop_first().skip(i - 1) =~= b.skip(i));
    } else {
        assert(a.skip(0) =~= a);
        assert(b.skip(0) =~= b);
    }
}

pub(crate) fn lex_less(a: &[char], b: &[char]) -> (r: bool)
    ensures
        r == lex_lt(a@, b@),
{
    let mut i: usize = 0;
    while i < a.len() && i < b.len() && a[i] == b[i]
        invariant
            i <= a@.len(),
            i <= b@.len(),
            a@.take(i as int) == b@.take(i as int),
        decreases a@.len() - i,
    {
        proof {
            assert(a@.take(i + 1) =~= a@.take(i as int).push(a@[i as int]));
            assert(b@.take(i + 1) =~= b@.take(i as int).push(b@[i as int]));
        }
        i += 1;
    }
    proof {
        lemma_lex_lt_skip(a@, b@, i as int);
    }
    if i == b.len() {
        false
    } else if i == a.len() {
        true
    } else {
        (a[i] as u32) < (b[i] as u32)
    }
}

/// The file of cubemap face `face` in `dir`, given the directory's entries
/// (name, and whether it is a regular file): among the files whose stem
/// equals `face` ignoring ASCII case, the one whose name sorts first.
pub fn find_cubemap_face(dir: &str, entries: &[(String, bool)], face: &str) -> (r: Option<String>)
    ensures
        r is None <==> forall|i: int|
            0 <= i < entries@.len() ==> !face_candidate(#[trigger] entry_views(entries@)[i], face@),
        r matches Some(p) ==> exists|i: int|
            #[trigger] least_candidate(entry_views(entries@), face@, i) && p@ == join(
                dir@,
                entries@[i].0@,
            ),
{
    let ghost ev = entry_views(entries@);
    let target = lower_chars(chars_of(face).as_slice());
    let mut best: Option<usize> = None;
    let mut i: usize = 0;
    while i < entries.len()
        invariant
            i <= entries@.len(),
            ev == entry_views(entries@),
            target@ == lower(face@),
            best is None ==> forall|j: int| 0 <= j < i ==> !face_candidate(#[trigger] ev[j], face@),
            best matches Some(b) ==> b < i && face_candidate(ev[b as int], face@) && forall|j: int|
                0 <= j < i && face_candidate(#[trigger] ev[j], face@) ==> !lex_lt(ev[j].0, ev[b as int].0),
        decreases entries@.len() - i,
    {
        let name = chars_of(entries[i].0.as_str());
        let stem = lower_chars(file_stem_exec(name.as_slice()).as_slice());
        let is_candidate = entries[i].1 && chars_eq(stem.as_slice(), target.as_slice());
        proof {
            assert(is_candidate == face_candidate(ev[i as int], face@));
        }
        if is_candidate {
            match best {
                None => {
                    proof {
                        lemma_lex_lt_irreflexive(ev[i as int].0);
                    }
                    best = Some(i);
                },
                Some(b) => {
                    let current = chars_of(entries[b].0.as_str());
                    if lex_less(name.as_slice(), current.as_slice()) {
                        proof {
                            assert forall|j: int|
                                0 <= j < i + 1 && face_candidate(#[trigger] ev[j], face@) implies !lex_lt(
                                ev[j].0,
                                ev[i as int].0,
                            ) by {
                                if j < i && lex_lt(ev[j].0, ev[i as int].0) {
                                    lemma_lex_lt_transitive(ev[j].0, ev[i as int].0, ev[b as int].0);
                                }
                                if j == i {
                                    lemma_lex_lt_irreflexive(ev[j].0);
                                }
                            }
                        }
                        best = Some(i);
                    }
                },
            }
        }
        i += 1;
    }
    match best {
        Some(b) => {
            proof {
                assert(least_candidate(ev, face@, b as int));
            }
            Some(path_join(dir, entries[b].0.as_str()))
        },
        None => None,
    }
}

pub(crate) proof fn lemma_lex_lt_irreflexive(a: Seq<char>)
    ensures
        !lex_lt(a, a),
    decreases a.len(),
{
    if a.len() > 0 {
        lemma_lex_lt_irreflexive(a.drop_first());
    }
}

/// The manifest's alpha preference as the renderer's.
pub fn map_manifest_alpha(alpha: ManifestSurfaceAlpha) -> (r: RendererSurfaceAlpha)
    ensures
        alpha == ManifestSurfaceAlpha::Opaque ==> r == RendererSurfaceAlpha::Opaque,
        alpha == ManifestSurfaceAlpha::Transparent ==> r == RendererSurfaceAlpha::Transparent,
{
    match alpha {
        ManifestSurfaceAlpha::Opaque => RendererSurfaceAlpha::Opaque,
        ManifestSurfaceAlpha::Transparent => RendererSurfaceAlpha::Transparent,
    }
}

/// The manifest's colour-space preference as the renderer's.
pub fn map_manifest_color(color: ManifestColorSpace) -> (r: ColorSpaceMode)
    ensures
        color == ManifestColorSpace::Auto ==> r == ColorSpaceMode::Auto,
        color == ManifestColorSpace::Gamma ==> r == ColorSpaceMode::Gamma,
        color == ManifestColorSpace::Linear ==> r == ColorSpaceMode::Linear,
{
    match color {
        ManifestColorSpace::Auto => ColorSpaceMode::Auto,
        ManifestColorSpace::Gamma => ColorSpaceMode::Gamma,
        ManifestColorSpace::Linear => ColorSpaceMode::Linear,
    }
}

/// A command-line choice other than `Auto` wins; otherwise the manifest's,
/// and when both say `Auto`, gamma (Shadertoy's default).
pub fn resolve_color_space(cli: ColorSpaceMode, manifest: ColorSpaceMode) -> (r: ColorSpaceMode)
    ensures
        cli != ColorSpaceMode::Auto ==> r == cli,
        cli == ColorSpaceMode::Auto && manifest != ColorSpaceMode::Auto ==> r == manifest,
        cli == ColorSpaceMode::Auto && manifest == ColorSpaceMode::Auto ==> r == ColorSpaceMode::Gamma,
{
    match cli {
        ColorSpaceMode::Auto => match manifest {
            ColorSpaceMode::Auto => ColorSpaceMode::Gamma,
            other => other,
        },
        other => other,
    }
}

} // verus!
