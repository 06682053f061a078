//! Normalising Shadertoy references and parsing shader handles.
use vstd::prelude::*;
use crate::text::{
    before_any, before_any_exec, chars_of, contains, contains_str, last_segment,
    last_segment_exec, lit, string_of, strip_prefix, strip_prefix_str, strip_trailing,
    strip_trailing_exec, trim, trim_chars, trimmed, wrap_msg, has_prefix, is_ws, lead_ws, trail_ws, trim_end,
    trim_start,
};
use crate::shadertoy::path::{expand, local_path_outcome, PathError, PathIssue, PathResolver};
use crate::shadertoy::ShaderHandle;
use crate::fspath::{is_absolute, join};

verus! {

/// Why a shader reference or handle was rejected.
#[derive(Debug, Clone, PartialEq, Eq)]
pub enum HandleError {
    EmptyReference,
    MissingShadertoyId,
    NoIdInUrl,
    /// A local path (the input as given) could not be resolved.
    LocalPath(String, PathError),
}

pub open spec fn handle_error_message(e: HandleError) -> Seq<char> {
    match e {
        HandleError::EmptyReference => "shadertoy reference must not be empty"@,
        HandleError::MissingShadertoyId => "shadertoy identifier missing after scheme"@,
        HandleError::NoIdInUrl => "unable to extract shader id from shadertoy url"@,
        HandleError::LocalPath(input, _) => "failed to resolve local shader path '"@ + input@
            + "'"@,
    }
}

impl HandleError {
    pub fn to_string(&self) -> (r: String)
        ensures
            r@ == handle_error_message(*self),
    {
        match self {
            HandleError::EmptyReference => lit("shadertoy reference must not be empty"),
            HandleError::MissingShadertoyId => lit("shadertoy identifier missing after scheme"),
            HandleError::NoIdInUrl => lit("unable to extract shader id from shadertoy url"),
            HandleError::LocalPath(input, _) => wrap_msg(
                "failed to resolve local shader path '",
                input.as_str(),
                "'",
            ),
        }
    }
}

/// The shader id of a `shadertoy.com` URL: the last non-empty path segment,
/// cut at the first `?` or `#`.
pub open spec fn url_shader_id(s: Seq<char>) -> Option<Seq<char>> {
    let t = strip_trailing(s, '/');
    if t.len() == 0 {
        None
    } else {
        let id = before_any(last_segment(t), seq!['?', '#']);
        if id.len() == 0 {
            None
        } else {
            Some(id)
        }
    }
}

/// The canonical `shadertoy://<id>` form of a reference given as a scheme
/// URL, a `shadertoy.com` page URL, or a bare id.
pub open spec fn normalized_reference(input: Seq<char>) -> Result<Seq<char>, HandleError> {
    let t = trim(input);
    if t.len() == 0 {
        Err(HandleError::EmptyReference)
    } else {
        match strip_prefix(t, "shadertoy://"@) {
            Some(rest) => {
                if trim(rest).len() == 0 {
                    Err(HandleError::MissingShadertoyId)
                } else {
                    Ok("shadertoy://"@ + trim(rest))
                }
            },
            None => {
                if contains(t, "shadertoy.com"@) {
                    match url_shader_id(t) {
                        Some(id) => Ok("shadertoy://"@ + id),
                        None => Err(HandleError::NoIdInUrl),
                    }
                } else {
                    Ok("shadertoy://"@ + t)
                }
            },
        }
    }
}

/// A normalised reference is its own normal form: normalising
/// `shadertoy://<id>` again, when the id has no surrounding whitespace,
/// gives it back unchanged.
pub proof fn lemma_normalized_is_fixed_point(x: Seq<char>, s: Seq<char>)
    requires
        normalized_reference(x) == Ok::<Seq<char>, HandleError>(s),
        trim(s.skip(12)) == s.skip(12),
    ensures
        normalized_reference(s) == Ok::<Seq<char>, HandleError>(s),
{
    let p = "shadertoy://"@;
    reveal_strlit("shadertoy://");
    assert(p.len() == 12);
    let id = s.skip(12);
    assert(id.len() > 0 && s =~= p + id) by {
        let t = trim(x);
        match strip_prefix(t, p) {
            Some(rest) => {
                assert(s == p + trim(rest));
                assert((p + trim(rest)).skip(12) =~= trim(rest));
            },
            None => {
                if contains(t, "shadertoy.com"@) {
                    let u = url_shader_id(t)->Some_0;
                    assert(s == p + u);
                    assert((p + u).skip(12) =~= u);
                } else {
                    assert(s == p + t);
                    assert((p + t).skip(12) =~= t);
                }
            },
        }
    }
    lemma_trim_kept(id);
    assert(s[0] == 's');
    assert(!is_ws(s[0]));
    assert(s.last() == id.last());
    lemma_unpadded_trim(s);
    assert(has_prefix(s, p)) by {
        assert(s.take(12) =~= p);
    }
    assert(strip_prefix(s, p) == Some(id));
}

/// A trailing `/` on a `shadertoy.com` URL does not change the shader it
/// names: the id is the last nonempty path segment.
pub proof fn lemma_url_trailing_slash(u: Seq<char>)
    requires
        trim(u) == u,
        contains(u, "shadertoy.com"@),
        !has_prefix(u, "shadertoy://"@),
    ensures
        normalized_reference(u + seq!['/']) == normalized_reference(u),
{
    let p = "shadertoy://"@;
    reveal_strlit("shadertoy://");
    reveal_strlit("shadertoy.com");
    let v = u + seq!['/'];
    let i = choose|i: int| crate::text::occurs_at(u, "shadertoy.com"@, i);
    assert(v.subrange(i, i + 13) =~= u.subrange(i, i + 13));
    assert(crate::text::occurs_at(v, "shadertoy.com"@, i));
    assert(u.len() > 0);
    lemma_trim_kept(u);
    assert(v[0] == u[0]);
    assert(v.last() == '/');
    assert(!is_ws('/'));
    lemma_unpadded_trim(v);
    assert(!has_prefix(v, p)) by {
        if has_prefix(v, p) {
            assert(u.len() >= 13);
            assert(v.take(12) =~= u.take(12));
        }
    }
    assert(v.drop_last() =~= u);
    assert(strip_trailing(v, '/') == strip_trailing(u, '/'));
}

/// A nonempty text that trimming leaves alone ends in a non-space.
proof fn lemma_trim_kept(id: Seq<char>)
    requires
        id.len() > 0,
        trim(id) == id,
    ensures
        !is_ws(id.last()),
        !is_ws(id[0]),
{
    let a = lead_ws(id);
    let t = trim_start(id);
    lemma_lead_ws_bounded(id);
    lemma_trail_ws_bounded(t);
    assert(t.len() == id.len() - a);
    assert(trim(id).len() == t.len() - trail_ws(t));
    if is_ws(id[0]) {
        assert(a >= 1);
    }
    if is_ws(id.last()) {
        if a == 0 {
            assert(t =~= id);
            assert(trail_ws(t) >= 1);
        }
    }
}

proof fn lemma_lead_ws_bounded(s: Seq<char>)
    ensures
        lead_ws(s) <= s.len(),
    decreases s.len(),
{
    if s.len() > 0 && is_ws(s[0]) {
        lemma_lead_ws_bounded(s.drop_first());
    }
}

proof fn lemma_trail_ws_bounded(s: Seq<char>)
    ensures
        trail_ws(s) <= s.len(),
    decreases s.len(),
{
    if s.len() > 0 && is_ws(s.last()) {
        lemma_trail_ws_bounded(s.drop_last());
    }
}

/// A text that starts and ends with a non-space is its own trim.
proof fn lemma_unpadded_trim(s: Seq<char>)
    requires
        s.len() > 0,
        !is_ws(s[0]),
        !is_ws(s.last()),
    ensures
        trim(s) == s,
{
    assert(lead_ws(s) == 0);
    assert(trim_start(s) =~= s);
    assert(trail_ws(s) == 0);
    assert(trim_end(s) =~= s);
}

fn scheme_form(id: &[char]) -> (r: String)
    ensures
        r@ == "shadertoy://"@ + id@,
{
    let mut r = lit("shadertoy://");
    let s = string_of(id);
    r.push_str(s.as_str());
    r
}

pub fn normalize_shadertoy_reference(input: &str) -> (r: Result<String, HandleError>)
    ensures
        match normalized_reference(input@) {
            Ok(v) => r matches Ok(s) && s@ == v,
            Err(e) => r == Err::<String, HandleError>(e),
        },
{
    let t = trimmed(input);
    if t.len() == 0 {
        return Err(HandleError::EmptyReference);
    }
    if let Some(rest) = strip_prefix_str(t.as_slice(), "shadertoy://") {
        let id = trim_chars(rest.as_slice());
        if id.len() == 0 {
            return Err(HandleError::MissingShadertoyId);
        }
        return Ok(scheme_form(id.as_slice()));
    }
    if contains_str(t.as_slice(), "shadertoy.com") {
        let stripped = strip_trailing_exec(t.as_slice(), '/');
        if stripped.len() == 0 {
            return Err(HandleError::NoIdInUrl);
        }
        let seg = last_segment_exec(stripped.as_slice());
        let stops = chars_of("?#");
        proof {
            reveal_strlit("?#");
            assert(stops@ =~= seq!['?', '#']);
        }
        let id = before_any_exec(seg.as_slice(), stops.as_slice());
        if id.len() == 0 {
            return Err(HandleError::NoIdInUrl);
        }
        return Ok(scheme_form(id.as_slice()));
    }
    Ok(scheme_form(t.as_slice()))
}

/// What a handle resolved as a local pack path holds: the path of the
/// pack, or the path refusal of `input`. Any other result is no local one.
pub open spec fn local_handle_result(r: Result<ShaderHandle, HandleError>, input: Seq<char>) -> Option<
    Result<Seq<char>, PathIssue<Seq<char>>>,
> {
    match r {
        Ok(ShaderHandle::LocalPack(p)) => Some(Ok(p@)),
        Err(HandleError::LocalPath(i, pe)) => if i@ == input {
            Some(Err(pe@))
        } else {
            None
        },
        _ => None,
    }
}

/// `shadertoy://<id>` (id trimmed, non-empty) is a Shadertoy handle; any
/// other input is resolved as a local pack path.
pub fn parse_shader_handle(resolver: &PathResolver, input: &str) -> (r: Result<
    ShaderHandle,
    HandleError,
>)
    ensures
        match strip_prefix(input@, "shadertoy://"@) {
            Some(rest) => if trim(rest).len() == 0 {
                r == Err::<ShaderHandle, HandleError>(HandleError::MissingShadertoyId)
            } else {
                r matches Ok(ShaderHandle::ShadertoyId(id)) && id@ == trim(rest)
            },
            None => exists|found: bool|
                Some(#[trigger] local_path_outcome(resolver.cwd_view(), resolver.env_view(), resolver.home_view(), input@, found))
                    == local_handle_result(r, input@),
        },
{
    let v = chars_of(input);
    if let Some(stripped) = strip_prefix_str(v.as_slice(), "shadertoy://") {
        let id = trim_chars(stripped.as_slice());
        if id.len() == 0 {
            return Err(HandleError::MissingShadertoyId);
        }
        return Ok(ShaderHandle::ShadertoyId(string_of(id.as_slice())));
    }
    match resolver.normalize_local_path(input) {
        Ok(p) => Ok(ShaderHandle::LocalPack(p)),
        Err(e) => Err(HandleError::LocalPath(input.to_owned(), e)),
    }
}

} // verus!
