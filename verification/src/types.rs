//! Profile attribute enumerations. They take no part in eligibility; the
//! engine carries them through unchanged.

use vstd::prelude::*;

verus! {

/// Preferred waking schedule of an applicant.
#[derive(Clone, Copy, Debug, PartialEq, Eq, Structural)]
pub enum WakeType {
    EarlyBird,
    NightOwl,
    Flexible,
}

/// Myers-Briggs personality tag of an applicant.
#[derive(Clone, Copy, Debug, PartialEq, Eq, Structural)]
pub enum MbtiType {
    Intj,
    Intp,
    Entj,
    Entp,
    Infj,
    Infp,
    Enfj,
    Enfp,
    Istj,
    Isfj,
    Estj,
    Esfj,
    Istp,
    Isfp,
    Estp,
    Esfp,
}

} // verus!
