//! Canonical 16-bit samples: conversion from hardware encodings and peaks.
use vstd::prelude::*;

verus! {

/// The magnitude of a sample, saturated so that it stays a sample:
/// `i16::MIN` has magnitude `i16::MAX`.
pub open spec fn magnitude_spec(x: i16) -> i16 {
    if x == i16::MIN {
        i16::MAX
    } else if x < 0 {
        (-x) as i16
    } else {
        x
    }
}

/// Largest magnitude of a sequence of samples; zero when it is empty.
pub open spec fn peak_of(s: Seq<i16>) -> i16
    decreases s.len(),
{
    if s.len() == 0 {
        0
    } else {
        let rest = peak_of(s.drop_last());
        let m = magnitude_spec(s.last());
        if m > rest {
            m
        } else {
            rest
        }
    }
}

/// The canonical value of an unsigned 16-bit sample: recentred on the
/// midpoint 32768.
pub open spec fn from_unsigned_spec(s: u16) -> i16 {
    (s as int - 32768) as i16
}

pub fn magnitude(x: i16) -> (r: i16)
    ensures
        r == magnitude_spec(x),
        r >= 0,
{
    if x == i16::MIN {
        i16::MAX
    } else if x < 0 {
        -x
    } else {
        x
    }
}

/// Converts an unsigned 16-bit sample to the canonical signed domain.
pub fn from_unsigned(s: u16) -> (r: i16)
    ensures
        r == from_unsigned_spec(s),
        r as int == s as int - 32768,
{
    (s as i32 - 32768) as i16
}

pub proof fn lemma_peak_nonneg(s: Seq<i16>)
    ensures
        peak_of(s) >= 0,
    decreases s.len(),
{
    if s.len() > 0 {
        lemma_peak_nonneg(s.drop_last());
    }
}

/// The peak bounds every magnitude in the sequence and is reached by one
/// of them when the sequence is not empty.
pub proof fn lemma_peak_is_max(s: Seq<i16>)
    ensures
        forall|i: int| 0 <= i < s.len() ==> magnitude_spec(#[trigger] s[i]) <= peak_of(s),
        s.len() > 0 ==> exists|i: int| 0 <= i < s.len() && magnitude_spec(s[i]) == peak_of(s),
    decreases s.len(),
{
    if s.len() > 0 {
        let p = s.drop_last();
        lemma_peak_is_max(p);
        assert forall|i: int| 0 <= i < s.len() implies magnitude_spec(#[trigger] s[i]) <= peak_of(
            s,
        ) by {
            if i < s.len() - 1 {
                assert(s[i] == p[i]);
            }
        }
        if magnitude_spec(s.last()) <= peak_of(p) && p.len() > 0 {
            let j = choose|j: int| 0 <= j < p.len() && magnitude_spec(p[j]) == peak_of(p);
            assert(s[j] == p[j]);
        } else {
            lemma_peak_nonneg(p);
            assert(s[s.len() - 1] == s.last());
        }
    }
}

/// Largest magnitude among the samples, zero for none.
pub fn peak(samples: &[i16]) -> (r: i16)
    ensures
        r == peak_of(samples@),
        r >= 0,
        forall|i: int| 0 <= i < samples@.len() ==> magnitude_spec(#[trigger] samples@[i]) <= r,
        samples@.len() > 0 ==> exists|i: int|
            0 <= i < samples@.len() && magnitude_spec(samples@[i]) == r,
{
    let mut best: i16 = 0;
    let mut i: usize = 0;
    while i < samples.len()
        invariant
            i <= samples@.len(),
            best == peak_of(samples@.take(i as int)),
        decreases samples@.len() - i,
    {
        let m = magnitude(samples[i]);
        proof {
            assert(samples@.take(i as int + 1).drop_last() == samples@.take(i as int));
        }
        if m > best {
            best = m;
        }
        i += 1;
    }
    proof {
        assert(samples@.take(i as int) == samples@);
        lemma_peak_nonneg(samples@);
        lemma_peak_is_max(samples@);
    }
    best
}

} // verus!
