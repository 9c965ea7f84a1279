//! Gating of a pulsed carrier: which sample indices fall inside the active
//! pulse window, and the envelope built from that mask.

use vstd::prelude::*;

verus! {

/// Degenerate synthesis parameters, rejected before any sample is produced.
#[derive(Clone, Copy, Debug, PartialEq, Eq, Structural)]
pub enum SynthError {
    /// The pulse repetition interval is zero, so the pulse schedule is
    /// undefined (the gating test would divide by zero).
    InvalidParameter,
}

/// Whether sample index `i` falls inside the active pulse window: a pulse of
/// `pd` samples fires at the start of every `pri`-sample repetition interval.
pub open spec fn pulse_on(i: nat, pd: nat, pri: nat) -> bool
    recommends
        pri > 0,
{
    i % pri < pd
}

/// Gating mask of length `n` for a pulsed carrier: element `i` is true exactly
/// when the envelope is at full amplitude, false where the carrier is off.
/// A zero repetition interval is rejected before any modulo is taken; every
/// requested length, including zero, yields a mask of exactly that length.
pub fn pulse_mask(n: usize, pd: usize, pri: usize) -> (r: Result<Vec<bool>, SynthError>)
    ensures
        r is Err <==> pri == 0,
        r is Err ==> r == Result::<Vec<bool>, SynthError>::Err(SynthError::InvalidParameter),
        r matches Ok(m) ==> m@.len() == n,
        r matches Ok(m) ==> forall|i: int|
            0 <= i < n ==> m@[i] == pulse_on(i as nat, pd as nat, pri as nat),
{
    if pri == 0 {
        return Err(SynthError::InvalidParameter);
    }
    let mut m: Vec<bool> = Vec::new();
    let mut i: usize = 0;
    while i < n
        invariant
            pri > 0,
            i <= n,
            m@.len() == i as int,
            forall|j: int| 0 <= j < i ==> m@[j] == pulse_on(j as nat, pd as nat, pri as nat),
        decreases n - i,
    {
        m.push((i % pri) < pd);
        i = i + 1;
    }
    Ok(m)
}

/// The envelope a mask induces: `amplitude` inside the pulse window, `zero`
/// outside it. The caller supplies the two levels, so the same gating serves
/// any sample type.
pub fn apply_envelope<T: Copy>(mask: &Vec<bool>, amplitude: T, zero: T) -> (r: Vec<T>)
    ensures
        r@.len() == mask@.len(),
        forall|i: int| 0 <= i < mask@.len() ==> r@[i] == (if mask@[i] {
            amplitude
        } else {
            zero
        }),
{
    let mut out: Vec<T> = Vec::new();
    let mut i: usize = 0;
    while i < mask.len()
        invariant
            i <= mask@.len(),
            out@.len() == i as int,
            forall|j: int| 0 <= j < i ==> out@[j] == (if mask@[j] {
                amplitude
            } else {
                zero
            }),
        decreases mask@.len() - i,
    {
        if mask[i] {
            out.push(amplitude);
        } else {
            out.push(zero);
        }
        i = i + 1;
    }
    out
}

} // verus!
