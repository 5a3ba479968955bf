//! The CPU allocator: how many cores a guest asks for, which cores the
//! hypervisor has free, and the mask of the cores granted.

use crate::config_generator::{BackendView, Backendconfig};
use crate::descriptor::DescriptorView;
use crate::error::EngineError;
use crate::pool::has_id;
use crate::text::{
    chars_of, count_value, parse_count_chars, pieces_view, split, split_on, trim, trimmed,
};
use vstd::arithmetic::power2::{
    lemma2_to64, lemma2_to64_rest, lemma_pow2_strictly_increases, lemma_pow2_unfold, pow2,
};
use vstd::prelude::*;

verus! {

/// The quota and the period that apply where the request declares none.
pub const DEFAULT_QUOTA: i64 = 10000;

/// The period that applies where the request declares none.
pub const DEFAULT_PERIOD: u64 = 10000;

/// The number of cores that a CPU quota asks for: the quota divided by the
/// period, rounded up, and at most 255. A quota that is not positive asks
/// for none; a positive quota over a period of zero asks for as many as can
/// be asked for.
pub open spec fn cores_requested(quota: Option<i64>, period: Option<u64>) -> u8 {
    let q = match quota {
        Some(q) => q as int,
        None => DEFAULT_QUOTA as int,
    };
    let p = match period {
        Some(p) => p as int,
        None => DEFAULT_PERIOD as int,
    };
    if q <= 0 {
        0
    } else if p == 0 {
        255
    } else {
        let whole = q / p + if q % p == 0 {
            0int
        } else {
            1int
        };
        if whole > 255 {
            255
        } else {
            whole as u8
        }
    }
}

/// The number of cores that a CPU quota asks for.
pub fn core_count(quota: Option<i64>, period: Option<u64>) -> (n: u8)
    ensures
        n == cores_requested(quota, period),
{
    let q: i64 = match quota {
        Some(q) => q,
        None => DEFAULT_QUOTA,
    };
    let p: u64 = match period {
        Some(p) => p,
        None => DEFAULT_PERIOD,
    };
    if q <= 0 {
        return 0;
    }
    if p == 0 {
        return 255;
    }
    let qu: u64 = q as u64;
    let whole: u64 = qu / p;
    let up: u64 = if qu % p == 0 {
        whole
    } else {
        whole + 1
    };
    if up > 255 {
        255
    } else {
        up as u8
    }
}

/// The range of cores that the hypervisor reports as assigned to the root
/// cell, written as `first-last`.
pub open spec fn core_range(assigned: Seq<char>) -> Option<(u64, u64)> {
    let parts = split_on(trimmed(assigned), "-"@);
    if parts.len() >= 2 && count_value(parts[0]) is Some && count_value(parts[1]) is Some {
        Some((count_value(parts[0])->0, count_value(parts[1])->0))
    } else {
        None
    }
}

/// The number of cores that a guest can get: those of the reported range
/// but the last, which stays with the root cell, as far as a mask of 64
/// bits can name them. A report that is no range leaves none.
pub open spec fn cores_free(assigned: Seq<char>) -> nat {
    match core_range(assigned) {
        Some((first, last)) => if first < last && first < 64 {
            if last < 64 {
                (last - first) as nat
            } else {
                (64 - first) as nat
            }
        } else {
            0
        },
        None => 0,
    }
}

/// The first core of the reported range.
pub open spec fn first_core(assigned: Seq<char>) -> int {
    match core_range(assigned) {
        Some((first, last)) => first as int,
        None => 0,
    }
}

/// The `n` cores from `first` on, ascending.
pub open spec fn cores_from(first: int, n: int) -> Seq<i8> {
    Seq::new(n as nat, |k: int| (first + k) as i8)
}

/// The cores granted to a guest that asks for `requested` of them: the
/// lowest free ones.
pub open spec fn cpu_grant(requested: u8, assigned: Seq<char>) -> Result<Seq<i8>, EngineError> {
    if requested <= cores_free(assigned) {
        if requested == 0 {
            Ok(Seq::<i8>::empty())
        } else {
            Ok(cores_from(first_core(assigned), requested as int))
        }
    } else {
        Err(EngineError::InsufficientCpu)
    }
}

/// The mask in which bit `k` is set exactly if `k` is one of the
/// identifiers, for the bits below `width`.
pub open spec fn bit_mask(ids: Seq<i8>, width: nat) -> nat
    decreases width,
{
    if width == 0 {
        0
    } else {
        bit_mask(ids, (width - 1) as nat) + if ids.contains((width - 1) as i8) {
            pow2((width - 1) as nat)
        } else {
            0
        }
    }
}

/// The mask of a set of identifiers.
pub fn mask_of(ids: &Vec<i8>, width: u8) -> (m: u64)
    requires
        width <= 64,
    ensures
        m == bit_mask(ids@, width as nat),
{
    let mut m: u64 = 0;
    let mut p: u64 = 1;
    let mut k: u8 = 0;
    proof {
        lemma2_to64();
    }
    while k < width
        invariant
            k <= width <= 64,
            m == bit_mask(ids@, k as nat),
            m < pow2(k as nat),
            k < 64 ==> p == pow2(k as nat),
        decreases width - k,
    {
        proof {
            lemma2_to64();
            lemma2_to64_rest();
            lemma_pow2_unfold((k + 1) as nat);
            if k < 63 {
                lemma_pow2_strictly_increases(k as nat, 63);
            }
        }
        if has_id(ids, k as i8) {
            m = m + p;
        }
        k += 1;
        if k < 64 {
            p = p * 2;
        }
    }
    m
}

/// Reads the range of cores that the hypervisor reports.
pub fn parse_core_range(assigned: &str) -> (r: Option<(u64, u64)>)
    ensures
        r == core_range(assigned@),
{
    let text = trim(&chars_of(assigned));
    let parts = split(&text, &chars_of("-"));
    if parts.len() < 2 {
        return None;
    }
    assert(pieces_view(parts@)[0] == parts@[0]@);
    assert(pieces_view(parts@)[1] == parts@[1]@);
    match parse_count_chars(&parts[0]) {
        Some(first) => match parse_count_chars(&parts[1]) {
            Some(last) => Some((first, last)),
            None => None,
        },
        None => None,
    }
}

/// The working state after the CPU allocator has run.
pub open spec fn cpu_stage(c: BackendView, requested: u8, assigned: Seq<char>) -> Result<
    BackendView,
    EngineError,
> {
    match cpu_grant(requested, assigned) {
        Ok(cores) => Ok(
            BackendView {
                cpus: requested,
                descriptor: DescriptorView { cpus: bit_mask(cores, 64) as u64, ..c.descriptor },
                ..c
            },
        ),
        Err(e) => Err(e),
    }
}

/// The mask of a set of identifiers fits the bits it spans.
pub proof fn lemma_mask_fits(ids: Seq<i8>, width: nat)
    ensures
        bit_mask(ids, width) < pow2(width),
    decreases width,
{
    if width == 0 {
        lemma2_to64();
    } else {
        lemma_mask_fits(ids, (width - 1) as nat);
        lemma_pow2_unfold(width);
    }
}

/// Configures the CPU cores of the cell: the guest gets the `requested`
/// lowest cores that the hypervisor reports free, as a bit mask.
pub fn cpuconf(c: &mut Backendconfig, requested: u8, cpus_assigned: &str) -> (r: Result<
    (),
    EngineError,
>)
    ensures
        match r {
            Ok(_) => cpu_stage(old(c)@, requested, cpus_assigned@) == Ok::<
                BackendView,
                EngineError,
            >(final(c)@),
            Err(e) => cpu_stage(old(c)@, requested, cpus_assigned@) == Err::<
                BackendView,
                EngineError,
            >(e) && final(c)@ == old(c)@,
        },
{
    let range = parse_core_range(cpus_assigned);
    let (first, free): (u64, u64) = match range {
        Some((first, last)) => if first < last && first < 64 {
            if last < 64 {
                (first, last - first)
            } else {
                (first, 64 - first)
            }
        } else {
            (0, 0)
        },
        None => (0, 0),
    };
    if requested as u64 > free {
        return Err(EngineError::InsufficientCpu);
    }
    let mut cores: Vec<i8> = Vec::new();
    let mut k: u8 = 0;
    while k < requested
        invariant
            k <= requested,
            requested <= free,
            first + free <= 64,
            cores@ == cores_from(first as int, k as int),
        decreases requested - k,
    {
        cores.push((first + k as u64) as i8);
        k += 1;
        assert(cores@ =~= cores_from(first as int, k as int));
    }
    proof {
        if requested == 0 {
            assert(cores@ =~= Seq::<i8>::empty());
        }
        lemma_mask_fits(cores@, 64);
        lemma2_to64();
    }
    let mask = mask_of(&cores, 64);
    c.cpus = requested;
    c.descriptor.cpus = mask;
    Ok(())
}

} // verus!
