use vstd::prelude::*;

verus! {

/// Why a draw from a `RandomSource` failed.
#[derive(Clone, Copy, PartialEq, Eq, Structural, Debug)]
pub enum RngError {
    /// The requested range was empty: its lower bound exceeded its upper bound.
    InvalidRange,
}

/// A supply of integers from closed ranges.
///
/// `System` draws from the process randomness; `Scripted` replays a fixed
/// sequence of values, so that dice logic can be exercised deterministically.
pub enum RandomSource {
    System,
    Scripted { values: Vec<u32>, pos: usize },
}

/// `v` forced into the closed range `[low, high]`.
pub open spec fn clamp_u32(v: u32, low: u32, high: u32) -> u32 {
    if v < low {
        low
    } else if v > high {
        high
    } else {
        v
    }
}

/// The value a scripted source yields at position `pos`: the scripted entry
/// forced into range, or `low` once the script is exhausted.
pub open spec fn scripted_value(values: Seq<u32>, pos: int, low: u32, high: u32) -> u32 {
    if 0 <= pos < values.len() {
        clamp_u32(values[pos], low, high)
    } else {
        low
    }
}

/// The position of a scripted source after one draw: it advances while
/// entries remain and stays put once the script is exhausted.
pub open spec fn step_pos(len: int, pos: int) -> int {
    if 0 <= pos < len {
        pos + 1
    } else {
        pos
    }
}

/// The position of a scripted source after `k` draws.
pub open spec fn advance_pos(len: int, pos: int, k: int) -> int {
    if !(0 <= pos < len) {
        pos
    } else if pos + k <= len {
        pos + k
    } else {
        len
    }
}

impl RandomSource {
    /// The script of a `Scripted` source; empty for `System`.
    pub open spec fn scripted_values(self) -> Seq<u32> {
        match self {
            RandomSource::Scripted { values, pos } => values@,
            RandomSource::System => Seq::empty(),
        }
    }

    /// The replay position of a `Scripted` source; zero for `System`.
    pub open spec fn scripted_pos(self) -> int {
        match self {
            RandomSource::Scripted { values, pos } => pos as int,
            RandomSource::System => 0,
        }
    }

    /// A source backed by the process randomness.
    pub fn system() -> (r: RandomSource)
        ensures
            r is System,
    {
        RandomSource::System
    }

    /// A deterministic source that replays `values` from the start.
    pub fn scripted(values: Vec<u32>) -> (r: RandomSource)
        ensures
            r is Scripted,
            r.scripted_values() == values@,
            r.scripted_pos() == 0,
    {
        RandomSource::Scripted { values, pos: 0 }
    }

    /// One draw from the closed range `[low, high]`.
    ///
    /// An empty range is rejected; otherwise the result lies in the range,
    /// and for a scripted source it is exactly the next scripted value.
    pub fn next(&mut self, low: u32, high: u32) -> (r: Result<u32, RngError>)
        ensures
            low > high ==> r is Err && r->Err_0 == RngError::InvalidRange
                && *final(self) == *old(self),
            low <= high ==> r is Ok && low <= r->Ok_0 <= high,
            low <= high && *old(self) is System ==> *final(self) is System,
            low <= high && *old(self) is Scripted ==> *final(self) is Scripted
                && final(self).scripted_values() == old(self).scripted_values()
                && final(self).scripted_pos() == step_pos(
                    old(self).scripted_values().len() as int,
                    old(self).scripted_pos(),
                )
                && r->Ok_0 == scripted_value(
                    old(self).scripted_values(),
                    old(self).scripted_pos(),
                    low,
                    high,
                ),
    {
        if low > high {
            return Err(RngError::InvalidRange);
        }
        match self {
            RandomSource::System => Ok(sys_rand_in(low, high)),
            RandomSource::Scripted { values, pos } => {
                if *pos < values.len() {
                    let raw = values[*pos];
                    *pos = *pos + 1;
                    let v = if raw < low {
                        low
                    } else if raw > high {
                        high
                    } else {
                        raw
                    };
                    Ok(v)
                } else {
                    Ok(low)
                }
            },
        }
    }
}

/// Relies on rand::thread_rng and rand::Rng::gen_range: a uniformly
/// distributed value from the inclusive range `low..=high`. The call panics
/// only on an empty range, which the precondition rules out.
#[verifier::external_body]
fn sys_rand_in(low: u32, high: u32) -> (r: u32)
    requires
        low <= high,
    ensures
        low <= r <= high,
{
    rand::Rng::gen_range(&mut rand::thread_rng(), low..=high)
}

} // verus!
