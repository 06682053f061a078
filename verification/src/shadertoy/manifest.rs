//! The `shader.toml` manifest of a shader pack and its validation.
use vstd::prelude::*;
use crate::text::{decimal, decimal_chars, lit, string_of, strings_view, wrap_msg};

verus! {

#[derive(Debug, Clone)]
pub struct ShaderPackManifest {
    pub name: Option<String>,
    pub entry: String,
    pub surface_alpha: SurfaceAlpha,
    pub color_space: ColorSpace,
    pub description: Option<String>,
    pub tags: Vec<String>,
    pub passes: Vec<ShaderPass>,
}

/// The entry pass name used when a manifest names none.
pub fn default_entry() -> (r: String)
    ensures
        r@ == "image"@,
{
    lit("image")
}

#[derive(Debug, Clone)]
pub struct ShaderPass {
    pub name: String,
    pub kind: PassKind,
    pub source: String,
    pub inputs: Vec<PassInput>,
}

/// The pass kind used when a pass names none.
pub fn default_pass_kind() -> (r: PassKind)
    ensures
        r == PassKind::Image,
{
    PassKind::Image
}

#[derive(Debug, Clone, Copy, PartialEq, Eq)]
pub enum PassKind {
    Image,
    Buffer,
    Sound,
    Cubemap,
}

#[derive(Debug, Clone, Copy, PartialEq, Eq)]
pub enum SurfaceAlpha {
    Opaque,
    Transparent,
}

#[derive(Debug, Clone, Copy, PartialEq, Eq)]
pub enum ColorSpace {
    Auto,
    Gamma,
    Linear,
}

#[derive(Debug, Clone)]
pub struct PassInput {
    pub channel: u8,
    pub source: InputSource,
}

#[derive(Debug, Clone)]
pub enum InputSource {
    Buffer { name: String },
    Texture { path: String },
    Cubemap { directory: String },
    Audio { path: String },
    Keyboard,
}

pub open spec fn pass_names(passes: Seq<ShaderPass>) -> Seq<Seq<char>> {
    passes.map_values(|p: ShaderPass| p.name@)
}

pub open spec fn channel_issue(pass: Seq<char>, channel: u8) -> Seq<char> {
    "pass '"@ + pass + "' uses channel "@ + decimal(channel as nat)
        + " which exceeds Shadertoy limit"@
}

pub open spec fn buffer_issue(pass: Seq<char>, buffer: Seq<char>) -> Seq<char> {
    "pass '"@ + pass + "' references buffer '"@ + buffer + "' which is undefined"@
}

/// The issues one input of pass `pass` raises.
pub open spec fn input_issues(pass: Seq<char>, input: PassInput, names: Seq<Seq<char>>) -> Seq<
    Seq<char>,
> {
    (if input.channel > 3 {
        seq![channel_issue(pass, input.channel)]
    } else {
        seq![]
    }) + match input.source {
        InputSource::Buffer { name } => if !names.contains(name@) {
            seq![buffer_issue(pass, name@)]
        } else {
            seq![]
        },
        _ => seq![],
    }
}

pub open spec fn inputs_issues(pass: Seq<char>, inputs: Seq<PassInput>, names: Seq<Seq<char>>) -> Seq<
    Seq<char>,
>
    decreases inputs.len(),
{
    if inputs.len() == 0 {
        seq![]
    } else {
        inputs_issues(pass, inputs.drop_last(), names) + input_issues(pass, inputs.last(), names)
    }
}

pub open spec fn passes_issues(passes: Seq<ShaderPass>, names: Seq<Seq<char>>) -> Seq<Seq<char>>
    decreases passes.len(),
{
    if passes.len() == 0 {
        seq![]
    } else {
        passes_issues(passes.drop_last(), names) + inputs_issues(
            passes.last().name@,
            passes.last().inputs@,
            names,
        )
    }
}

/// Every problem of a manifest, in the order they are reported: no passes,
/// a missing entry pass, then per pass and input an out-of-range channel
/// and a reference to an undefined buffer.
pub open spec fn manifest_issues(m: ShaderPackManifest) -> Seq<Seq<char>> {
    let names = pass_names(m.passes@);
    (if m.passes@.len() == 0 {
        seq!["manifest must declare at least one pass"@]
    } else {
        seq![]
    }) + (if !names.contains(m.entry@) {
        seq!["entry pass '"@ + m.entry@ + "' not found"@]
    } else {
        seq![]
    }) + passes_issues(m.passes@, names)
}

fn names_contain(passes: &Vec<ShaderPass>, name: &String) -> (b: bool)
    ensures
        b == pass_names(passes@).contains(name@),
{
    let mut i: usize = 0;
    while i < passes.len()
        invariant
            i <= passes@.len(),
            forall|j: int| 0 <= j < i ==> passes@[j].name@ != name@,
        decreases passes@.len() - i,
    {
        if passes[i].name == *name {
            proof {
                assert(pass_names(passes@)[i as int] == name@);
            }
            return true;
        }
        i += 1;
    }
    proof {
        if pass_names(passes@).contains(name@) {
            let k = choose|k: int| 0 <= k < pass_names(passes@).len() && pass_names(passes@)[k]
                == name@;
            assert(passes@[k].name@ == name@);
        }
    }
    false
}

fn push_issue(issues: &mut Vec<String>, msg: String)
    ensures
        strings_view(final(issues)@) == strings_view(old(issues)@).push(msg@),
{
    issues.push(msg);
    proof {
        assert(strings_view(issues@) =~= strings_view(old(issues)@).push(msg@));
    }
}

impl ShaderPackManifest {
    /// The manifest's problems, as messages; empty when it is valid.
    pub fn validate(&self) -> (issues: Vec<String>)
        ensures
            strings_view(issues@) == manifest_issues(*self),
    {
        let mut issues: Vec<String> = Vec::new();
        let ghost names = pass_names(self.passes@);
        if self.passes.len() == 0 {
            push_issue(&mut issues, lit("manifest must declare at least one pass"));
        }
        if !names_contain(&self.passes, &self.entry) {
            push_issue(&mut issues, wrap_msg("entry pass '", self.entry.as_str(), "' not found"));
        }
        let ghost head = strings_view(issues@);
        proof {
            assert(head =~= (if self.passes@.len() == 0 {
                seq!["manifest must declare at least one pass"@]
            } else {
                seq![]
            }) + (if !names.contains(self.entry@) {
                seq!["entry pass '"@ + self.entry@ + "' not found"@]
            } else {
                seq![]
            }));
            assert(self.passes@.take(0) =~= Seq::<ShaderPass>::empty());
            assert(head + Seq::<Seq<char>>::empty() =~= head);
        }
        let mut p: usize = 0;
        while p < self.passes.len()
            invariant
                p <= self.passes@.len(),
                names == pass_names(self.passes@),
                strings_view(issues@) == head + passes_issues(self.passes@.take(p as int), names),
            decreases self.passes@.len() - p,
        {
            let pass = &self.passes[p];
            let ghost before = strings_view(issues@);
            let mut q: usize = 0;
            proof {
                assert(pass.inputs@.take(0) =~= Seq::<PassInput>::empty());
                assert(before + Seq::<Seq<char>>::empty() =~= before);
            }
            while q < pass.inputs.len()
                invariant
                    q <= pass.inputs@.len(),
                    names == pass_names(self.passes@),
                    strings_view(issues@) == before + inputs_issues(
                        pass.name@,
                        pass.inputs@.take(q as int),
                        names,
                    ),
                decreases pass.inputs@.len() - q,
            {
                let input = &pass.inputs[q];
                let ghost mid = strings_view(issues@);
                if input.channel > 3 {
                    let mut m = wrap_msg("pass '", pass.name.as_str(), "' uses channel ");
                    let d = decimal_chars(input.channel as u64);
                    let ds = string_of(d.as_slice());
                    m.push_str(ds.as_str());
                    m.push_str(" which exceeds Shadertoy limit");
                    push_issue(&mut issues, m);
                }
                let ghost mid2 = strings_view(issues@);
                match &input.source {
                    InputSource::Buffer { name } => {
                        if !names_contain(&self.passes, name) {
                            let mut m = wrap_msg("pass '", pass.name.as_str(), "' references buffer '");
                            m.push_str(name.as_str());
                            m.push_str("' which is undefined");
                            push_issue(&mut issues, m);
                        }
                    },
                    _ => {},
                }
                proof {
                    assert(pass.inputs@.take(q + 1).drop_last() =~= pass.inputs@.take(q as int));
                    assert(pass.inputs@.take(q + 1).last() == *input);
                    let ii = input_issues(pass.name@, *input, names);
                    assert(strings_view(issues@) =~= mid + ii);
                    assert(before + inputs_issues(pass.name@, pass.inputs@.take(q as int), names) + ii
                        =~= before + (inputs_issues(pass.name@, pass.inputs@.take(q as int), names)
                        + ii));
                }
                q += 1;
            }
            proof {
                assert(pass.inputs@.take(pass.inputs@.len() as int) =~= pass.inputs@);
                assert(self.passes@.take(p + 1).drop_last() =~= self.passes@.take(p as int));
                assert(self.passes@.take(p + 1).last() == *pass);
                assert(head + passes_issues(self.passes@.take(p as int), names) + inputs_issues(
                    pass.name@,
                    pass.inputs@,
                    names,
                ) =~= head + (passes_issues(self.passes@.take(p as int), names) + inputs_issues(
                    pass.name@,
                    pass.inputs@,
                    names,
                )));
            }
            p += 1;
        }
        proof {
            assert(self.passes@.take(self.passes@.len() as int) =~= self.passes@);
        }
        issues
    }
}

} // verus!
