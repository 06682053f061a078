//! Wrapping of Shadertoy fragment code into a self-contained GLSL module.
use vstd::prelude::*;
use crate::text::{
    chars_of, contains, contains_str, has_prefix, lead_ws_count, lit, slice_chars,
    starts_with_str, string_of, trim_start,
};
use crate::shadertoy::path::index_of;

verus! {

/// GLSL prologue placed ahead of every Shadertoy fragment shader: the
/// uniform block, channel bindings and the macros that map Shadertoy names
/// onto them.
pub const HEADER: &'static str = r"#version 450
layout(location = 0) in vec2 v_uv;
layout(location = 0) out vec4 outColor;

layout(std140, set = 0, binding = 0) uniform ShaderParams {
    vec3 _iResolution;
    float _iTime;
    float _iTimeDelta;
    int _iFrame;
    float _padding0;
    vec4 _iMouse;
    vec4 _iDate;
    float _iSampleRate;
    float _iFade;
    vec2 _padding1;
    float _iChannelTime[4];
    vec3 _iChannelResolution[4];
    vec4 _iSurface;
    vec4 _iFill;
    vec4 _iFillWrap;
} ubo;

// Map ShaderToy names to our UBO fields via macros to avoid name clashes.
#define iResolution ubo._iResolution
#define iTime ubo._iTime
#define iTimeDelta ubo._iTimeDelta
#define iFrame ubo._iFrame
#define iMouse ubo._iMouse
#define iDate ubo._iDate
#define iSampleRate ubo._iSampleRate
#define wallshader_mix ubo._iFade
#define iChannelTime ubo._iChannelTime
#define iChannelResolution ubo._iChannelResolution

layout(set = 1, binding = 0) uniform texture2D wallshader_channel0_texture;
layout(set = 1, binding = 1) uniform sampler wallshader_channel0_sampler;
layout(set = 1, binding = 2) uniform texture2D wallshader_channel1_texture;
layout(set = 1, binding = 3) uniform sampler wallshader_channel1_sampler;
layout(set = 1, binding = 4) uniform texture2D wallshader_channel2_texture;
layout(set = 1, binding = 5) uniform sampler wallshader_channel2_sampler;
layout(set = 1, binding = 6) uniform texture2D wallshader_channel3_texture;
layout(set = 1, binding = 7) uniform sampler wallshader_channel3_sampler;

#define iChannel0 sampler2D(wallshader_channel0_texture, wallshader_channel0_sampler)
#define iChannel1 sampler2D(wallshader_channel1_texture, wallshader_channel1_sampler)
#define iChannel2 sampler2D(wallshader_channel2_texture, wallshader_channel2_sampler)
#define iChannel3 sampler2D(wallshader_channel3_texture, wallshader_channel3_sampler)
#define wallshader_Surface ubo._iSurface
#define wallshader_Fill ubo._iFill
#define wallshader_FillWrap ubo._iFillWrap

vec4 wallshader_gl_FragCoord;
#define gl_FragCoord wallshader_gl_FragCoord
";

/// GLSL epilogue that remaps coordinates and calls `mainImage`.
pub const FOOTER: &'static str = r"void main() {
    // Capture the real builtin gl_FragCoord, then remap to ShaderToy's bottom-left origin.
    // We temporarily undef the macro so we can read the hardware builtin.
    #undef gl_FragCoord
    vec2 builtinFC = vec2(gl_FragCoord.x, gl_FragCoord.y);
    #define gl_FragCoord wallshader_gl_FragCoord

    vec2 mapped = vec2(
        builtinFC.x * wallshader_Fill.x + wallshader_Fill.z,
        (wallshader_Surface.y - builtinFC.y) * wallshader_Fill.y + wallshader_Fill.w
    );

    bool outside = mapped.x < 0.0 || mapped.y < 0.0 || mapped.x >= iResolution.x || mapped.y >= iResolution.y;

    if (wallshader_FillWrap.x > 0.0) {
        mapped.x = mod(mapped.x, wallshader_FillWrap.x);
        if (mapped.x < 0.0) {
            mapped.x += wallshader_FillWrap.x;
        }
        outside = false;
    }

    if (wallshader_FillWrap.y > 0.0) {
        mapped.y = mod(mapped.y, wallshader_FillWrap.y);
        if (mapped.y < 0.0) {
            mapped.y += wallshader_FillWrap.y;
        }
        outside = false;
    }

    if (outside) {
        outColor = vec4(0.0);
        return;
    }

    vec2 fragCoord = mapped;
    wallshader_gl_FragCoord = vec4(fragCoord, 0.0, 1.0);

    vec4 color = vec4(0.0);
    mainImage(color, fragCoord);
    outColor = vec4(color.rgb * wallshader_mix, wallshader_mix);
}
";

/// The lines of `s` as `str::lines` yields them: split at `\n`, one `\r`
/// before it dropped, no empty line after a final `\n`.
pub open spec fn lines(s: Seq<char>) -> Seq<Seq<char>>
    decreases s.len(),
{
    if s.len() == 0 {
        seq![]
    } else {
        match index_of(s, '\n') {
            None => seq![s],
            Some(k) => {
                let l = s.take(k as int);
                let l2 = if l.len() > 0 && l.last() == '\r' {
                    l.drop_last()
                } else {
                    l
                };
                proof {
                    crate::shadertoy::path::lemma_index_of(s, '\n');
                }
                seq![l2] + lines(s.skip(k + 1 as int))
            },
        }
    }
}

/// A declaration of one of the uniforms Shadertoy provides, which the
/// prologue defines instead.
pub open spec fn is_shadertoy_uniform(line: Seq<char>) -> bool {
    let t = trim_start(line);
    &&& has_prefix(t, "uniform "@)
    &&& {
        ||| contains(t, "iResolution"@)
        ||| contains(t, "iTimeDelta"@)
        ||| contains(t, "iTime"@)
        ||| contains(t, "iFrame"@)
        ||| contains(t, "iMouse"@)
        ||| contains(t, "iDate"@)
        ||| contains(t, "iSampleRate"@)
        ||| contains(t, "iChannelTime"@)
        ||| contains(t, "iChannelResolution"@)
        ||| contains(t, "iChannel0"@)
        ||| contains(t, "iChannel1"@)
        ||| contains(t, "iChannel2"@)
        ||| contains(t, "iChannel3"@)
    }
}

/// The kept lines, each followed by `\n`: the first `#version` line and
/// every Shadertoy uniform declaration are dropped.
pub open spec fn kept_lines(ls: Seq<Seq<char>>, skipped_version: bool) -> Seq<char>
    decreases ls.len(),
{
    if ls.len() == 0 {
        seq![]
    } else {
        let l = ls[0];
        if !skipped_version && has_prefix(trim_start(l), "#version"@) {
            kept_lines(ls.drop_first(), true)
        } else if is_shadertoy_uniform(l) {
            kept_lines(ls.drop_first(), skipped_version)
        } else {
            l + seq!['\n'] + kept_lines(ls.drop_first(), skipped_version)
        }
    }
}

pub open spec fn wrapped_fragment(source: Seq<char>) -> Seq<char> {
    HEADER@ + "\n#line 1\n"@ + kept_lines(lines(source), false) + FOOTER@
}

fn split_lines(s: &[char]) -> (r: Vec<Vec<char>>)
    ensures
        r@.map_values(|l: Vec<char>| l@) == lines(s@),
{
    let n = s.len();
    let mut out: Vec<Vec<char>> = Vec::new();
    let mut i: usize = 0;
    proof {
        assert(s@.skip(0) =~= s@);
    }
    while i < n
        invariant
            n == s@.len(),
            i <= n,
            lines(s@) == out@.map_values(|l: Vec<char>| l@) + lines(s@.skip(i as int)),
        decreases n - i,
    {
        let ghost t = s@.skip(i as int);
        let mut k: usize = i;
        while k < n && s[k] != '\n'
            invariant
                i <= k <= n,
                n == s@.len(),
                forall|j: int| i <= j < k ==> s@[j] != '\n',
            decreases n - k,
        {
            k += 1;
        }
        proof {
            crate::shadertoy::path::lemma_index_of(t, '\n');
        }
        let ghost before = out@.map_values(|l: Vec<char>| l@);
        if k == n {
            let line = slice_chars(s, i, n);
            proof {
                if index_of(t, '\n') is Some {
                    let q = index_of(t, '\n')->0;
                    assert(t[q as int] == s@[i + q]);
                }
                assert(line@ =~= t);
                assert(lines(t) == seq![t]);
            }
            out.push(line);
            proof {
                assert(out@.map_values(|l: Vec<char>| l@) =~= before + seq![t]);
                assert(s@.skip(n as int) =~= Seq::<char>::empty());
                assert(before + seq![t] + lines(s@.skip(n as int)) =~= before + seq![t]);
            }
            i = n;
        } else {
            proof {
                let kk = index_of(t, '\n');
                if kk is None {
                    assert(t[k - i] == s@[k as int]);
                } else {
                    let q = kk->0;
                    if q < k - i {
                        assert(t[q as int] == s@[i + q]);
                    } else if q > k - i {
                        assert(t[k - i] == s@[k as int]);
                    }
                }
                assert(index_of(t, '\n') == Some((k - i) as nat));
            }
            let mut end = k;
            if end > i && s[end - 1] == '\r' {
                end = end - 1;
            }
            let line = slice_chars(s, i, end);
            proof {
                let l = t.take(k - i);
                assert(l =~= s@.subrange(i as int, k as int));
                if l.len() > 0 && l.last() == '\r' {
                    assert(line@ =~= l.drop_last());
                } else {
                    assert(line@ =~= l);
                }
                assert(t.skip(k - i + 1) =~= s@.skip(k + 1));
            }
            out.push(line);
            proof {
                assert(out@.map_values(|l: Vec<char>| l@) =~= before + seq![line@]);
                assert(before + (seq![line@] + lines(s@.skip(k + 1))) =~= before + seq![line@]
                    + lines(s@.skip(k + 1)));
            }
            i = k + 1;
        }
    }
    proof {
        assert(s@.skip(n as int) =~= Seq::<char>::empty());
        assert(out@.map_values(|l: Vec<char>| l@) + Seq::<Seq<char>>::empty() =~= out@.map_values(|l: Vec<char>| l@));
    }
    out
}

fn is_shadertoy_uniform_exec(line: &[char]) -> (b: bool)
    ensures
        b == is_shadertoy_uniform(line@),
{
    let a = lead_ws_count(line);
    let t = slice_chars(line, a, line.len());
    let t = t.as_slice();
    starts_with_str(t, "uniform ") && (contains_str(t, "iResolution") || contains_str(
        t,
        "iTimeDelta",
    ) || contains_str(t, "iTime") || contains_str(t, "iFrame") || contains_str(t, "iMouse")
        || contains_str(t, "iDate") || contains_str(t, "iSampleRate") || contains_str(
        t,
        "iChannelTime",
    ) || contains_str(t, "iChannelResolution") || contains_str(t, "iChannel0") || contains_str(
        t,
        "iChannel1",
    ) || contains_str(t, "iChannel2") || contains_str(t, "iChannel3"))
}

/// Produces a self-contained GLSL fragment shader from raw Shadertoy code:
/// the first `#version` directive and Shadertoy uniform declarations are
/// removed, and the result is framed by [`HEADER`] and [`FOOTER`].
pub fn wrap_shadertoy_fragment(source: &str) -> (r: String)
    ensures
        r@ == wrapped_fragment(source@),
{
    let s = chars_of(source);
    let ls = split_lines(s.as_slice());
    let ghost lv = ls@.map_values(|l: Vec<char>| l@);
    let mut body: Vec<char> = Vec::new();
    let mut skipped = false;
    let mut i: usize = 0;
    proof {
        assert(lv.skip(0) =~= lv);
        assert(Seq::<char>::empty() + kept_lines(lv, false) =~= kept_lines(lv, false));
    }
    while i < ls.len()
        invariant
            i <= ls@.len(),
            lv == ls@.map_values(|l: Vec<char>| l@),
            kept_lines(lv, false) == body@ + kept_lines(lv.skip(i as int), skipped),
        decreases ls@.len() - i,
    {
        let line = ls[i].as_slice();
        let ghost rest = lv.skip(i as int);
        proof {
            assert(rest[0] == line@);
            assert(rest.drop_first() =~= lv.skip(i + 1));
        }
        let a = lead_ws_count(line);
        let t = slice_chars(line, a, line.len());
        if !skipped && starts_with_str(t.as_slice(), "#version") {
            skipped = true;
        } else if is_shadertoy_uniform_exec(line) {
        } else {
            let ghost before = body@;
            crate::text::append_chars(&mut body, line);
            body.push('\n');
            proof {
                assert(before + (line@ + seq!['\n'] + kept_lines(lv.skip(i + 1), skipped)) =~= (
                before + line@).push('\n') + kept_lines(lv.skip(i + 1), skipped));
            }
        }
        i += 1;
    }
    proof {
        assert(lv.skip(ls@.len() as int) =~= Seq::<Seq<char>>::empty());
        assert(body@ + Seq::<char>::empty() =~= body@);
    }
    let mut r = lit(HEADER);
    r.push_str("\n#line 1\n");
    let b = string_of(body.as_slice());
    r.push_str(b.as_str());
    r.push_str(FOOTER);
    r
}


/// A line that trimmed at its start begins `#version`.
pub open spec fn is_version_line(l: Seq<char>) -> bool {
    has_prefix(trim_start(l), "#version"@)
}

proof fn lemma_kept_without_versions(ls: Seq<Seq<char>>)
    requires
        forall|i: int| 0 <= i < ls.len() ==> !is_version_line(#[trigger] ls[i]),
    ensures
        kept_lines(ls, true) == kept_lines(ls, false),
    decreases ls.len(),
{
    if ls.len() > 0 {
        let tail = ls.drop_first();
        assert forall|i: int| 0 <= i < tail.len() implies !is_version_line(#[trigger] tail[i]) by {
            assert(tail[i] == ls[i + 1]);
        }
        lemma_kept_without_versions(tail);
        assert(!is_version_line(ls[0]));
    }
}

proof fn lemma_lines_after_first(v: Seq<char>, r: Seq<char>)
    requires
        forall|j: int| 0 <= j < v.len() ==> v[j] != '\n',
        v.len() == 0 || v.last() != '\r',
    ensures
        lines(v + seq!['\n'] + r) == seq![v] + lines(r),
{
    let s = v + seq!['\n'] + r;
    crate::shadertoy::path::lemma_index_of(s, '\n');
    let k = index_of(s, '\n');
    assert(s[v.len() as int] == '\n');
    assert(k == Some(v.len())) by {
        match k {
            Some(q) => {
                if q < v.len() {
                    assert(s[q as int] == v[q as int]);
                }
                if q > v.len() {
                    assert(s[v.len() as int] != '\n');
                }
            },
            None => {},
        }
    }
    assert(s.take(v.len() as int) =~= v);
    assert(s.skip(v.len() + 1 as int) =~= r);
}

/// The source's `#version` directive never reaches the wrapped shader,
/// whose only one is the prologue's: putting a `#version` line in front of
/// a source that has none changes nothing of what is produced.
pub proof fn lemma_source_version_dropped(v: Seq<char>, r: Seq<char>)
    requires
        is_version_line(v),
        forall|j: int| 0 <= j < v.len() ==> v[j] != '\n',
        v.len() == 0 || v.last() != '\r',
        forall|i: int| 0 <= i < lines(r).len() ==> !is_version_line(#[trigger] lines(r)[i]),
    ensures
        wrapped_fragment(v + seq!['\n'] + r) == wrapped_fragment(r),
{
    lemma_lines_after_first(v, r);
    let ls = seq![v] + lines(r);
    assert(ls[0] == v);
    assert(ls.drop_first() =~= lines(r));
    lemma_kept_without_versions(lines(r));
}

} // verus!
