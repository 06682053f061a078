//! How many MSAA samples a run ends up using, given what the GPU adapter
//! reports: the sample counts its surface format supports, whether it can
//! resolve multisampled images, whether it is a software rasterizer and
//! whether it has the features that higher counts need.
use vstd::prelude::*;
use crate::renderer::types::Antialiasing;
use crate::text::{chars_of, decimal, decimal_chars, lit, lower, lower_chars, string_of};

verus! {

/// What the adapter reports of multisampling.
#[derive(Debug, Clone)]
pub struct AntialiasCapabilities {
    /// Supported sample counts, increasing, 1 among them.
    pub supported_samples: Vec<u32>,
    pub max_supported: u32,
    pub is_software: bool,
    pub has_msaa_resolve: bool,
    pub has_high_sample_features: bool,
}

/// `v` is strictly increasing.
pub open spec fn increasing(v: Seq<u32>) -> bool {
    forall|i: int, j: int| 0 <= i < j < v.len() ==> v[i] < v[j]
}

/// The sample counts of a format, sorted, without repeats, with 1 added.
pub open spec fn normalized_counts(raw: Seq<u32>, r: Seq<u32>) -> bool {
    &&& increasing(r)
    &&& forall|x: u32| r.contains(x) <==> (raw.contains(x) || x == 1)
}

/// Inserts `x` into the increasing `v`, unless it is there.
fn insert_sorted(v: &mut Vec<u32>, x: u32)
    requires
        increasing(old(v)@),
    ensures
        increasing(final(v)@),
        forall|y: u32| final(v)@.contains(y) <==> (old(v)@.contains(y) || y == x),
{
    let ghost v0 = v@;
    let mut i: usize = 0;
    while i < v.len() && v[i] < x
        invariant
            i <= v@.len(),
            v@ == v0,
            increasing(v0),
            forall|j: int| 0 <= j < i ==> v0[j] < x,
        decreases v@.len() - i,
    {
        i += 1;
    }
    if i < v.len() && v[i] == x {
        return;
    }
    v.insert(i, x);
    proof {
        assert(v@ =~= v0.subrange(0, i as int).push(x) + v0.subrange(i as int, v0.len() as int));
        assert forall|a: int, b: int| 0 <= a < b < v@.len() implies v@[a] < v@[b] by {
            if b == i {
            } else if a == i {
                assert(v@[b] == v0[b - 1]);
                assert(v0[i as int] > x);
                if b - 1 > i {
                    assert(v0[i as int] < v0[b - 1]);
                }
            } else {
                let a0 = if a < i { a } else { a - 1 };
                let b0 = if b < i { b } else { b - 1 };
                assert(v@[a] == v0[a0]);
                assert(v@[b] == v0[b0]);
            }
        }
        assert forall|y: u32| v@.contains(y) <==> (v0.contains(y) || y == x) by {
            if v@.contains(y) {
                let k = choose|k: int| 0 <= k < v@.len() && v@[k] == y;
                if k < i {
                    assert(v0[k] == y);
                } else if k > i {
                    assert(v0[k - 1] == y);
                }
            }
            if v0.contains(y) {
                let k = choose|k: int| 0 <= k < v0.len() && v0[k] == y;
                if k < i {
                    assert(v@[k] == y);
                } else {
                    assert(v@[k + 1] == y);
                }
            }
            if y == x {
                assert(v@[i as int] == x);
            }
        }
    }
}

/// The sample counts a format reports, sorted, without repeats, with 1
/// added when missing.
pub fn normalize_sample_counts(raw: &[u32]) -> (r: Vec<u32>)
    ensures
        normalized_counts(raw@, r@),
{
    let mut r: Vec<u32> = Vec::new();
    let mut i: usize = 0;
    while i < raw.len()
        invariant
            i <= raw@.len(),
            increasing(r@),
            forall|x: u32| r@.contains(x) <==> raw@.take(i as int).contains(x),
        decreases raw@.len() - i,
    {
        let ghost before = r@;
        let ghost t0 = raw@.take(i as int);
        let ghost t1 = raw@.take(i + 1);
        insert_sorted(&mut r, raw[i]);
        proof {
            assert forall|x: u32| r@.contains(x) <==> t1.contains(x) by {
                if t1.contains(x) {
                    let k = choose|k: int| 0 <= k < i + 1 && t1[k] == x;
                    if k < i {
                        assert(t0[k] == x);
                    }
                }
                if t0.contains(x) {
                    let k = choose|k: int| 0 <= k < i && t0[k] == x;
                    assert(t1[k] == x);
                }
                if x == raw@[i as int] {
                    assert(t1[i as int] == x);
                }
            }
        }
        i += 1;
    }
    insert_sorted(&mut r, 1);
    proof {
        assert(raw@.take(raw@.len() as int) =~= raw@);
    }
    r
}

/// The largest count of `v` that is at most `limit`, 1 when there is none.
pub open spec fn best_at_most(v: Seq<u32>, limit: u32) -> u32 {
    if exists|i: int| 0 <= i < v.len() && v[i] <= limit {
        let i = choose|i: int| 0 <= i < v.len() && v[i] <= limit && forall|j: int| 0 <= j < v.len() && v[j] <= limit ==> v[j] <= v[i];
        v[i]
    } else {
        1
    }
}

fn best_at_most_exec(v: &Vec<u32>, limit: u32) -> (r: u32)
    ensures
        r == best_at_most(v@, limit),
{
    let mut best: Option<usize> = None;
    let mut i: usize = 0;
    while i < v.len()
        invariant
            i <= v@.len(),
            match best {
                Some(b) => b < i && v@[b as int] <= limit && forall|j: int| 0 <= j < i && v@[j] <= limit ==> v@[j] <= v@[b as int],
                None => forall|j: int| 0 <= j < i ==> v@[j] > limit,
            },
        decreases v@.len() - i,
    {
        if v[i] <= limit {
            match best {
                Some(b) => {
                    if v[i] > v[b] {
                        best = Some(i);
                    }
                },
                None => {
                    best = Some(i);
                },
            }
        }
        i += 1;
    }
    match best {
        Some(b) => {
            proof {
                let w = choose|w: int| 0 <= w < v@.len() && v@[w] <= limit && forall|j: int| 0 <= j < v@.len() && v@[j] <= limit ==> v@[j] <= v@[w];
                assert(v@[w] <= v@[b as int]);
                assert(v@[b as int] <= v@[w]);
            }
            v[b]
        },
        None => 1,
    }
}

/// The renderer's limits on a sample count: without resolve support, or on
/// a software rasterizer, no multisampling; above 4 without the features
/// for it, the largest supported count up to 4.
pub open spec fn constrained_samples(requested: u32, caps: AntialiasCapabilities) -> u32 {
    let a = if requested > 1 && !caps.has_msaa_resolve { 1 } else { requested };
    let b = if caps.is_software && a > 1 { 1 } else { a };
    if b > 4 && !caps.has_high_sample_features {
        best_at_most(caps.supported_samples@, 4)
    } else {
        b
    }
}

/// See `constrained_samples`.
pub fn apply_renderer_constraints(requested: u32, caps: &AntialiasCapabilities) -> (r: u32)
    ensures
        r == constrained_samples(requested, *caps),
{
    let mut sample_count = requested;
    if sample_count > 1 && !caps.has_msaa_resolve {
        sample_count = 1;
    }
    if caps.is_software && sample_count > 1 {
        sample_count = 1;
    }
    if sample_count > 4 && !caps.has_high_sample_features {
        sample_count = best_at_most_exec(&caps.supported_samples, 4);
    }
    sample_count
}

/// The sample count a policy asks for on this adapter, before the
/// renderer's limits: the adapter's maximum for `Auto`, 1 for off, a
/// supported count as it is, otherwise the largest supported count below
/// it.
pub open spec fn requested_samples(policy: Antialiasing, caps: AntialiasCapabilities) -> u32 {
    match policy {
        Antialiasing::Auto => caps.max_supported,
        Antialiasing::Off => 1,
        Antialiasing::Samples(n) => if n == 1 {
            1
        } else if caps.supported_samples@.contains(n) {
            n
        } else {
            best_at_most(caps.supported_samples@, n)
        },
    }
}

/// What a run reports of its anti-aliasing: the policy as written, the
/// sample count used and the adapter's maximum.
#[derive(Debug, Clone)]
pub struct AntialiasingInfo {
    pub user_specified: String,
    pub actual_used: u32,
    pub max_supported: u32,
}

pub open spec fn policy_label(policy: Antialiasing) -> Seq<char> {
    match policy {
        Antialiasing::Auto => "auto"@,
        Antialiasing::Off => "off"@,
        Antialiasing::Samples(n) => decimal(n as nat),
    }
}

fn contains_count(v: &Vec<u32>, x: u32) -> (r: bool)
    ensures
        r == v@.contains(x),
{
    let mut i: usize = 0;
    while i < v.len()
        invariant
            i <= v@.len(),
            forall|j: int| 0 <= j < i ==> v@[j] != x,
        decreases v@.len() - i,
    {
        if v[i] == x {
            return true;
        }
        i += 1;
    }
    false
}

impl AntialiasCapabilities {
    /// The capabilities of an adapter from what it reports: the sample
    /// counts of its surface format (normalised: sorted, without repeats,
    /// with 1 added), the largest of them as its maximum, and its flags.
    pub fn from_adapter(raw_samples: &[u32], is_software: bool, has_msaa_resolve: bool, has_high_sample_features: bool) -> (r: Self)
        ensures
            normalized_counts(raw_samples@, r.supported_samples@),
            r.supported_samples@.len() > 0,
            r.max_supported == r.supported_samples@.last(),
            r.is_software == is_software,
            r.has_msaa_resolve == has_msaa_resolve,
            r.has_high_sample_features == has_high_sample_features,
    {
        let supported = normalize_sample_counts(raw_samples);
        proof {
            assert(supported@.contains(1u32));
        }
        let max_supported = supported[supported.len() - 1];
        AntialiasCapabilities { supported_samples: supported, max_supported, is_software, has_msaa_resolve, has_high_sample_features }
    }
}

/// The sample count the renderer uses for a policy on an adapter.
pub fn select_sample_count(policy: Antialiasing, caps: &AntialiasCapabilities) -> (r: u32)
    ensures
        r == constrained_samples(requested_samples(policy, *caps), *caps),
{
    let requested = match policy {
        Antialiasing::Auto => caps.max_supported,
        Antialiasing::Off => 1,
        Antialiasing::Samples(n) => {
            if n == 1 {
                1
            } else if contains_count(&caps.supported_samples, n) {
                n
            } else {
                best_at_most_exec(&caps.supported_samples, n)
            }
        },
    };
    apply_renderer_constraints(requested, caps)
}

/// See `requested_samples` and `constrained_samples`.
pub fn resolve_antialiasing_info(policy: Antialiasing, caps: &AntialiasCapabilities) -> (r: AntialiasingInfo)
    ensures
        r.user_specified@ == policy_label(policy),
        r.actual_used == constrained_samples(requested_samples(policy, *caps), *caps),
        r.max_supported == caps.max_supported,
{
    let label = match policy {
        Antialiasing::Auto => lit("auto"),
        Antialiasing::Off => lit("off"),
        Antialiasing::Samples(n) => string_of(decimal_chars(n as u64).as_slice()),
    };
    AntialiasingInfo {
        user_specified: label,
        actual_used: select_sample_count(policy, caps),
        max_supported: caps.max_supported,
    }
}

/// `p` occurs in `s`.
pub open spec fn has_infix(s: Seq<char>, p: Seq<char>) -> bool {
    exists|i: int| 0 <= i && i + p.len() <= s.len() && #[trigger] s.subrange(i, i + p.len()) == p
}

fn infix_exec(s: &[char], p: &str) -> (r: bool)
    ensures
        r == has_infix(s@, p@),
{
    let pv = chars_of(p);
    if pv.len() > s.len() {
        return false;
    }
    let last: usize = s.len() - pv.len();
    let mut i: usize = 0;
    while i <= last
        invariant
            pv@ == p@,
            pv@.len() <= s@.len(),
            last == s@.len() - pv@.len(),
            s@.len() == s.len(),
            i <= last + 1,
            forall|k: int| 0 <= k < i ==> #[trigger] s@.subrange(k, k + pv@.len()) != p@,
        decreases s@.len() - i,
    {
        let mut same = true;
        let mut j: usize = 0;
        while j < pv.len()
            invariant
                j <= pv@.len(),
                i <= last,
                last == s@.len() - pv@.len(),
                s@.len() == s.len(),
                same == forall|q: int| 0 <= q < j ==> s@[i + q] == pv@[q],
            decreases pv@.len() - j,
        {
            if s[i + j] != pv[j] {
                same = false;
            }
            j += 1;
        }
        if same {
            proof {
                assert(s@.subrange(i as int, i + pv@.len()) =~= p@);
            }
            return true;
        }
        proof {
            assert(exists|q: int| 0 <= q < pv@.len() && s@[i + q] != pv@[q]);
            let q = choose|q: int| 0 <= q < pv@.len() && s@[i + q] != pv@[q];
            assert(s@.subrange(i as int, i + pv@.len())[q] != p@[q]);
        }
        i += 1;
    }
    false
}

/// An adapter is a software rasterizer when it says it is a CPU device, or
/// its name or driver mentions llvmpipe or softpipe (ASCII case ignored).
pub open spec fn software_adapter(is_cpu: bool, name: Seq<char>, driver: Seq<char>) -> bool {
    is_cpu || has_infix(lower(name), "llvmpipe"@) || has_infix(lower(name), "softpipe"@) || has_infix(
        lower(driver),
        "llvmpipe"@,
    ) || has_infix(lower(driver), "softpipe"@)
}

/// See `software_adapter`.
pub fn is_software_adapter(is_cpu: bool, name: &str, driver: &str) -> (r: bool)
    ensures
        r == software_adapter(is_cpu, name@, driver@),
{
    let n = lower_chars(chars_of(name).as_slice());
    let d = lower_chars(chars_of(driver).as_slice());
    is_cpu || infix_exec(n.as_slice(), "llvmpipe") || infix_exec(n.as_slice(), "softpipe") || infix_exec(
        d.as_slice(),
        "llvmpipe",
    ) || infix_exec(d.as_slice(), "softpipe")
}

} // verus!
