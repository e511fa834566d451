//! ADSR (Attack-Decay-Sustain-Release) envelope generator.
//!
//! Given a per-sample gate signal (note-on / note-off), the envelope engine
//! produces one amplitude value per sample, following a four-phase curve
//! shaped by user-configurable time and curvature parameters.
//!
//! All quantities are fixed-point integers so that the whole engine can be
//! reasoned about exactly: amplitudes and curvature factors are expressed in
//! millionths of a unit (`SCALE`), segment times in millionths of a second,
//! and elapsed time is counted in whole samples.

use vstd::prelude::*;

pub mod curve;
pub mod envelope;

pub use envelope::ADSR;

verus! {

/// One fixed-point unit: amplitudes and levels range over `0 ..= SCALE`,
/// and times are measured in seconds times `SCALE`.
pub const SCALE: u64 = 1_000_000;

/// `SCALE` as a signed value, for curvature factors in `-SCALE ..= SCALE`.
pub const CURVE_SCALE: i64 = 1_000_000;

/// Longest accepted segment time, in millionths of a second.
pub const MAX_TIME: u64 = 1_000_000_000_000;

/// Highest accepted sample rate, in samples per second.
pub const MAX_SAMPLE_RATE: u32 = 1_000_000;

/// The instantaneous gate input for one sample.
#[derive(Copy, Clone, PartialEq, Eq, Structural, Debug)]
pub enum ADSREvent {
    NoteOn,
    NoteOff,
}

/// The envelope phase, recomputed every sample from the note event, the
/// elapsed time in that event, and the parameter set.
#[derive(Copy, Clone, PartialEq, Eq, Structural, Debug)]
pub enum ADSRPhase {
    Attack,
    Decay,
    Sustain,
    Release,
    Silence,
}

/// One parameter update: the parameter kind together with its new value.
/// Times are in millionths of a second, the sustain level in millionths of a
/// unit, and curvature factors in millionths between `-CURVE_SCALE` and
/// `CURVE_SCALE`.
#[derive(Copy, Clone, PartialEq, Eq, Structural, Debug)]
pub enum ADSRParamKind {
    AttackTime(u64),
    DecayTime(u64),
    SustainLevel(u64),
    ReleaseTime(u64),
    AttackCurve(i64),
    DecayCurve(i64),
    ReleaseCurve(i64),
}

/// A rejected parameter update: the value was out of its kind's range.
#[derive(Copy, Clone, PartialEq, Eq, Structural, Debug)]
pub enum ADSRParamError {
    OutOfRange,
}

impl ADSRParamKind {
    /// The range each parameter kind accepts.
    pub open spec fn valid(self) -> bool {
        match self {
            ADSRParamKind::AttackTime(t) => t <= MAX_TIME,
            ADSRParamKind::DecayTime(t) => t <= MAX_TIME,
            ADSRParamKind::SustainLevel(l) => l <= SCALE,
            ADSRParamKind::ReleaseTime(t) => t <= MAX_TIME,
            ADSRParamKind::AttackCurve(c) => -CURVE_SCALE <= c && c <= CURVE_SCALE,
            ADSRParamKind::DecayCurve(c) => -CURVE_SCALE <= c && c <= CURVE_SCALE,
            ADSRParamKind::ReleaseCurve(c) => -CURVE_SCALE <= c && c <= CURVE_SCALE,
        }
    }

    /// Checks the value against its kind's range.
    pub fn is_valid(self) -> (r: bool)
        ensures
            r == self.valid(),
    {
        match self {
            ADSRParamKind::AttackTime(t) => t <= MAX_TIME,
            ADSRParamKind::DecayTime(t) => t <= MAX_TIME,
            ADSRParamKind::SustainLevel(l) => l <= SCALE,
            ADSRParamKind::ReleaseTime(t) => t <= MAX_TIME,
            ADSRParamKind::AttackCurve(c) => -CURVE_SCALE <= c && c <= CURVE_SCALE,
            ADSRParamKind::DecayCurve(c) => -CURVE_SCALE <= c && c <= CURVE_SCALE,
            ADSRParamKind::ReleaseCurve(c) => -CURVE_SCALE <= c && c <= CURVE_SCALE,
        }
    }
}

/// The validated parameter set of one envelope.
#[derive(Copy, Clone, PartialEq, Eq, Structural, Debug)]
pub struct ADSRParams {
    pub attack_time: u64,
    pub decay_time: u64,
    pub sustain_level: u64,
    pub release_time: u64,
    pub attack_curve: i64,
    pub decay_curve: i64,
    pub release_curve: i64,
}

impl ADSRParams {
    /// Every field is within its kind's range.
    pub open spec fn wf(self) -> bool {
        &&& ADSRParamKind::AttackTime(self.attack_time).valid()
        &&& ADSRParamKind::DecayTime(self.decay_time).valid()
        &&& ADSRParamKind::SustainLevel(self.sustain_level).valid()
        &&& ADSRParamKind::ReleaseTime(self.release_time).valid()
        &&& ADSRParamKind::AttackCurve(self.attack_curve).valid()
        &&& ADSRParamKind::DecayCurve(self.decay_curve).valid()
        &&& ADSRParamKind::ReleaseCurve(self.release_curve).valid()
    }

    /// The parameter set with one field replaced according to `param`.
    pub open spec fn with_param(self, param: ADSRParamKind) -> ADSRParams {
        match param {
            ADSRParamKind::AttackTime(t) => ADSRParams { attack_time: t, ..self },
            ADSRParamKind::DecayTime(t) => ADSRParams { decay_time: t, ..self },
            ADSRParamKind::SustainLevel(l) => ADSRParams { sustain_level: l, ..self },
            ADSRParamKind::ReleaseTime(t) => ADSRParams { release_time: t, ..self },
            ADSRParamKind::AttackCurve(c) => ADSRParams { attack_curve: c, ..self },
            ADSRParamKind::DecayCurve(c) => ADSRParams { decay_curve: c, ..self },
            ADSRParamKind::ReleaseCurve(c) => ADSRParams { release_curve: c, ..self },
        }
    }

    /// Builds a parameter set from values that are each within range.
    pub fn new(
        attack_time: u64, decay_time: u64, sustain_level: u64, release_time: u64,
        attack_curve: i64, decay_curve: i64, release_curve: i64,
    ) -> (params: ADSRParams)
        requires
            ADSRParamKind::AttackTime(attack_time).valid(),
            ADSRParamKind::DecayTime(decay_time).valid(),
            ADSRParamKind::SustainLevel(sustain_level).valid(),
            ADSRParamKind::ReleaseTime(release_time).valid(),
            ADSRParamKind::AttackCurve(attack_curve).valid(),
            ADSRParamKind::DecayCurve(decay_curve).valid(),
            ADSRParamKind::ReleaseCurve(release_curve).valid(),
        ensures
            params == (ADSRParams {
                attack_time, decay_time, sustain_level, release_time,
                attack_curve, decay_curve, release_curve,
            }),
            params.wf(),
    {
        ADSRParams {
            attack_time,
            attack_curve,
            decay_time,
            decay_curve,
            sustain_level,
            release_time,
            release_curve,
        }
    }

    /// Validates the value against its kind's range and, if valid, updates
    /// that parameter in place.  An out-of-range value leaves the whole set
    /// unchanged and reports the rejection.
    pub fn set_param(&mut self, param: ADSRParamKind) -> (r: Result<(), ADSRParamError>)
        requires
            old(self).wf(),
        ensures
            r is Ok <==> param.valid(),
            param.valid() ==> *final(self) == old(self).with_param(param),
            !param.valid() ==> *final(self) == *old(self),
            final(self).wf(),
    {
        if !param.is_valid() {
            return Err(ADSRParamError::OutOfRange);
        }
        match param {
            ADSRParamKind::AttackTime(t) => {
                self.attack_time = t;
            },
            ADSRParamKind::DecayTime(t) => {
                self.decay_time = t;
            },
            ADSRParamKind::SustainLevel(l) => {
                self.sustain_level = l;
            },
            ADSRParamKind::ReleaseTime(t) => {
                self.release_time = t;
            },
            ADSRParamKind::AttackCurve(c) => {
                self.attack_curve = c;
            },
            ADSRParamKind::DecayCurve(c) => {
                self.decay_curve = c;
            },
            ADSRParamKind::ReleaseCurve(c) => {
                self.release_curve = c;
            },
        }
        Ok(())
    }
}

} // verus!
