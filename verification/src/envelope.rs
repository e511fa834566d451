//! The envelope engine: a per-voice state machine advanced one sample at a
//! time by `generate`.
//!
//! The phase is a pure function of the current gate event, the elapsed time
//! in that event and the parameter set; it is recomputed every sample, and
//! the stored copy only serves the duration bookkeeping.  Elapsed time is
//! counted in whole samples, so long notes never drift.

use vstd::prelude::*;
use crate::{
    ADSREvent, ADSRParamError, ADSRParamKind, ADSRParams, ADSRPhase, MAX_SAMPLE_RATE, MAX_TIME,
    SCALE,
};
use crate::curve::{curve_function, curve_spec, lemma_curve_bounds};

verus! {

/// Longest stretch over which the note-on counter advances, in samples:
/// attack plus decay at the longest times and the highest sample rate.
pub const MAX_ON_SAMPLES: u64 = 2_000_000_000_000;

/// Longest stretch over which the note-off counter advances, in samples:
/// the longest release time at the highest sample rate.
pub const MAX_OFF_SAMPLES: u64 = 1_000_000_000_000;

/// One envelope generator: the parameter set plus the per-sample state.
pub struct ADSR {
    pub params: ADSRParams,
    /// Samples elapsed continuously in NoteOn; reset on retrigger.
    pub note_on_duration: u64,
    /// Samples elapsed continuously in NoteOff; reset on retrigger.
    pub note_off_duration: u64,
    /// Amplitude captured at the most recent NoteOn -> NoteOff transition.
    pub last_gate_val: u64,
    pub current_event: ADSREvent,
    pub current_phase: ADSRPhase,
    pub current_val: u64,
    pub next_event: ADSREvent,
    /// Samples per second; immutable after construction.
    pub sample_rate: u32,
}

impl ADSR {
    /// Well-formedness: parameters in range, amplitudes within one unit, and
    /// the duration counters bounded so that one more sample never overflows.
    pub open spec fn wf(self) -> bool {
        &&& self.params.wf()
        &&& 1 <= self.sample_rate <= MAX_SAMPLE_RATE
        &&& self.current_val <= SCALE
        &&& self.last_gate_val <= SCALE
        &&& self.note_on_duration <= MAX_ON_SAMPLES + 1
        &&& self.note_off_duration <= MAX_OFF_SAMPLES + 1
        &&& (self.current_event == ADSREvent::NoteOn ==> self.note_off_duration == 0)
        &&& (self.current_event == ADSREvent::NoteOn && self.current_phase != ADSRPhase::Sustain
            ==> self.note_on_duration <= MAX_ON_SAMPLES)
        &&& (self.current_event == ADSREvent::NoteOff && self.current_phase != ADSRPhase::Silence
            ==> self.note_off_duration <= MAX_OFF_SAMPLES)
        &&& (self.current_event == ADSREvent::NoteOn <==> (self.current_phase == ADSRPhase::Attack
            || self.current_phase == ADSRPhase::Decay || self.current_phase == ADSRPhase::Sustain))
    }

    /// Width of the attack segment, in millionths of a second times samples
    /// per second (the unit shared by segment widths and elapsed times).
    pub open spec fn attack_w(self) -> int {
        (self.params.attack_time as int) * (self.sample_rate as int)
    }

    /// Width of the decay segment, in the shared unit.
    pub open spec fn decay_w(self) -> int {
        (self.params.decay_time as int) * (self.sample_rate as int)
    }

    /// Width of the release segment, in the shared unit.
    pub open spec fn release_w(self) -> int {
        (self.params.release_time as int) * (self.sample_rate as int)
    }

    /// Elapsed note-on time, in the shared unit.
    pub open spec fn on_t(self) -> int {
        (self.note_on_duration as int) * (SCALE as int)
    }

    /// Elapsed note-off time, in the shared unit.
    pub open spec fn off_t(self) -> int {
        (self.note_off_duration as int) * (SCALE as int)
    }

    /// Phase determination under NoteOn: Attack while the elapsed time is
    /// inside the attack segment, Decay inside the decay segment, Sustain
    /// after both.  Zero-length segments are skipped instantly.
    pub open spec fn on_phase(self) -> ADSRPhase {
        if self.on_t() < self.attack_w() {
            ADSRPhase::Attack
        } else if self.on_t() < self.attack_w() + self.decay_w() {
            ADSRPhase::Decay
        } else {
            ADSRPhase::Sustain
        }
    }

    /// Phase determination under NoteOff: Release inside the release
    /// segment, Silence after it.
    pub open spec fn off_phase(self) -> ADSRPhase {
        if self.off_t() < self.release_w() {
            ADSRPhase::Release
        } else {
            ADSRPhase::Silence
        }
    }

    /// The ceiling the attack segment aims for: one unit when a decay
    /// segment follows, else directly the sustain level, so that a
    /// zero-length decay never causes a jump.
    pub open spec fn attack_height(self) -> int {
        if self.params.decay_time > 0 {
            SCALE as int
        } else {
            self.params.sustain_level as int
        }
    }

    /// The amplitude produced in a given phase, from the current state.
    /// Attack rises from zero toward the attack ceiling; Decay follows the
    /// mirrored curve from one unit down to the sustain level; Release
    /// follows the mirrored curve from the captured gate value down to zero.
    pub open spec fn phase_val(self, phase: ADSRPhase) -> int {
        match phase {
            ADSRPhase::Attack => curve_spec(
                self.on_t(),
                self.attack_height(),
                self.attack_w(),
                self.params.attack_curve as int,
            ),
            ADSRPhase::Decay => curve_spec(
                self.attack_w() + self.decay_w() - self.on_t(),
                SCALE - self.params.sustain_level,
                self.decay_w(),
                self.params.decay_curve as int,
            ) + self.params.sustain_level,
            ADSRPhase::Sustain => self.params.sustain_level as int,
            ADSRPhase::Release => curve_spec(
                self.release_w() - self.off_t(),
                self.last_gate_val as int,
                self.release_w(),
                self.params.release_curve as int,
            ),
            ADSRPhase::Silence => 0,
        }
    }

    /// The full effect of one `generate` call: consume the pending gate
    /// event, apply the transition side effects (retrigger reset, gate-value
    /// capture), recompute the phase and value, and advance the duration
    /// counter of phases that are not held indefinitely.
    pub open spec fn step_spec(self) -> ADSR {
        match self.next_event {
            ADSREvent::NoteOn => {
                let s1 = if self.current_event == ADSREvent::NoteOff {
                    ADSR { note_on_duration: 0, note_off_duration: 0, ..self }
                } else {
                    self
                };
                let ph = s1.on_phase();
                let v = s1.phase_val(ph);
                ADSR {
                    note_on_duration: if self.current_phase != ADSRPhase::Sustain {
                        (s1.note_on_duration + 1) as u64
                    } else {
                        s1.note_on_duration
                    },
                    current_event: ADSREvent::NoteOn,
                    current_phase: ph,
                    current_val: v as u64,
                    ..s1
                }
            },
            ADSREvent::NoteOff => {
                let s1 = if self.current_event == ADSREvent::NoteOn {
                    ADSR { last_gate_val: self.current_val, ..self }
                } else {
                    self
                };
                let ph = s1.off_phase();
                let v = s1.phase_val(ph);
                ADSR {
                    note_off_duration: if self.current_phase != ADSRPhase::Silence {
                        (s1.note_off_duration + 1) as u64
                    } else {
                        s1.note_off_duration
                    },
                    current_event: ADSREvent::NoteOff,
                    current_phase: ph,
                    current_val: v as u64,
                    ..s1
                }
            },
        }
    }

    /// Creates a fresh voice: silent, gate off, all counters at zero, with
    /// linear curvature on every segment.
    pub fn new(a: u64, d: u64, s: u64, r: u64, sample_rate: u32) -> (adsr: ADSR)
        requires
            ADSRParamKind::AttackTime(a).valid(),
            ADSRParamKind::DecayTime(d).valid(),
            ADSRParamKind::SustainLevel(s).valid(),
            ADSRParamKind::ReleaseTime(r).valid(),
            1 <= sample_rate <= MAX_SAMPLE_RATE,
        ensures
            adsr == (ADSR {
                params: ADSRParams {
                    attack_time: a,
                    decay_time: d,
                    sustain_level: s,
                    release_time: r,
                    attack_curve: 0,
                    decay_curve: 0,
                    release_curve: 0,
                },
                note_on_duration: 0,
                note_off_duration: 0,
                last_gate_val: 0,
                current_event: ADSREvent::NoteOff,
                current_phase: ADSRPhase::Silence,
                current_val: 0,
                next_event: ADSREvent::NoteOff,
                sample_rate,
            }),
            adsr.wf(),
    {
        ADSR {
            params: ADSRParams::new(a, d, s, r, 0, 0, 0),
            note_on_duration: 0,
            note_off_duration: 0,
            last_gate_val: 0,
            current_event: ADSREvent::NoteOff,
            current_phase: ADSRPhase::Silence,
            current_val: 0,
            next_event: ADSREvent::NoteOff,
            sample_rate,
        }
    }

    /// Validates and applies one parameter update; an out-of-range value is
    /// rejected and the parameter set is left exactly as it was.
    pub fn set_param(&mut self, param: ADSRParamKind) -> (res: Result<(), ADSRParamError>)
        requires
            old(self).wf(),
        ensures
            final(self).wf(),
            res is Ok <==> param.valid(),
            param.valid() ==> *final(self) == (ADSR {
                params: old(self).params.with_param(param),
                ..*old(self)
            }),
            !param.valid() ==> *final(self) == *old(self),
    {
        self.params.set_param(param)
    }

    /// Records the note event to apply on the next `generate` call.
    pub fn set_next_event(&mut self, event: ADSREvent)
        ensures
            *final(self) == (ADSR { next_event: event, ..*old(self) }),
            old(self).wf() ==> final(self).wf(),
    {
        self.next_event = event;
    }

    /// Resets both duration counters for a retrigger.
    fn retrigger(&mut self)
        ensures
            *final(self) == (ADSR {
                note_on_duration: 0,
                note_off_duration: 0,
                ..*old(self)
            }),
    {
        self.note_on_duration = 0;
        self.note_off_duration = 0;
    }

    /// Segment widths fit the machine word.
    proof fn lemma_widths(self)
        requires
            self.wf(),
        ensures
            0 <= self.attack_w() <= (MAX_TIME as int) * (MAX_SAMPLE_RATE as int),
            0 <= self.decay_w() <= (MAX_TIME as int) * (MAX_SAMPLE_RATE as int),
            0 <= self.release_w() <= (MAX_TIME as int) * (MAX_SAMPLE_RATE as int),
    {
        assert(
            (self.params.attack_time as int) * (self.sample_rate as int)
                <= (MAX_TIME as int) * (MAX_SAMPLE_RATE as int)
            && (self.params.attack_time as int) * (self.sample_rate as int) >= 0
            && (self.params.decay_time as int) * (self.sample_rate as int)
                <= (MAX_TIME as int) * (MAX_SAMPLE_RATE as int)
            && (self.params.decay_time as int) * (self.sample_rate as int) >= 0
            && (self.params.release_time as int) * (self.sample_rate as int)
                <= (MAX_TIME as int) * (MAX_SAMPLE_RATE as int)
            && (self.params.release_time as int) * (self.sample_rate as int) >= 0
        ) by (nonlinear_arith)
            requires
                self.params.attack_time <= MAX_TIME,
                self.params.decay_time <= MAX_TIME,
                self.params.release_time <= MAX_TIME,
                1 <= self.sample_rate <= MAX_SAMPLE_RATE,
        ;
    }

    /// Determines the phase from the pending event, the elapsed time in it,
    /// and the current parameters.
    fn next_phase(&self, next_event: ADSREvent) -> (ph: ADSRPhase)
        requires
            self.wf(),
        ensures
            next_event == ADSREvent::NoteOn ==> ph == self.on_phase(),
            next_event == ADSREvent::NoteOff ==> ph == self.off_phase(),
    {
        proof {
            self.lemma_widths();
        }
        match next_event {
            ADSREvent::NoteOn => {
                let t = self.note_on_duration * SCALE;
                let aw = self.params.attack_time * (self.sample_rate as u64);
                let dw = self.params.decay_time * (self.sample_rate as u64);
                if t < aw {
                    ADSRPhase::Attack
                } else if t < aw + dw {
                    ADSRPhase::Decay
                } else {
                    ADSRPhase::Sustain
                }
            },
            ADSREvent::NoteOff => {
                let t = self.note_off_duration * SCALE;
                let rw = self.params.release_time * (self.sample_rate as u64);
                if t < rw {
                    ADSRPhase::Release
                } else {
                    ADSRPhase::Silence
                }
            },
        }
    }

    /// Computes the amplitude for the given phase from the current state.
    fn next_val(&self, phase: ADSRPhase) -> (v: u64)
        requires
            self.wf(),
            phase == ADSRPhase::Attack || phase == ADSRPhase::Decay ==> phase == self.on_phase(),
            phase == ADSRPhase::Release ==> phase == self.off_phase(),
        ensures
            v as int == self.phase_val(phase),
            v <= SCALE,
            phase == ADSRPhase::Release ==> v <= self.last_gate_val,
    {
        proof {
            self.lemma_widths();
        }
        match phase {
            ADSRPhase::Attack => {
                let t = self.note_on_duration * SCALE;
                let aw = self.params.attack_time * (self.sample_rate as u64);
                let h = if self.params.decay_time > 0 {
                    SCALE
                } else {
                    self.params.sustain_level
                };
                curve_function(t, h, aw, self.params.attack_curve)
            },
            ADSRPhase::Decay => {
                let t = self.note_on_duration * SCALE;
                let aw = self.params.attack_time * (self.sample_rate as u64);
                let dw = self.params.decay_time * (self.sample_rate as u64);
                let c = curve_function(
                    aw + dw - t,
                    SCALE - self.params.sustain_level,
                    dw,
                    self.params.decay_curve,
                );
                c + self.params.sustain_level
            },
            ADSRPhase::Sustain => self.params.sustain_level,
            ADSRPhase::Release => {
                let t = self.note_off_duration * SCALE;
                let rw = self.params.release_time * (self.sample_rate as u64);
                curve_function(rw - t, self.last_gate_val, rw, self.params.release_curve)
            },
            ADSRPhase::Silence => 0,
        }
    }

    /// Consumes the pending gate event, advances the state by exactly one
    /// sample, and returns the new amplitude in millionths.  The output
    /// never leaves `[0, 1]`, and during Release it never exceeds the level
    /// captured at the moment of note-off.
    pub fn generate(&mut self) -> (v: u64)
        requires
            old(self).wf(),
        ensures
            *final(self) == old(self).step_spec(),
            final(self).wf(),
            v == final(self).current_val,
            v <= SCALE,
            final(self).current_phase == ADSRPhase::Release ==> v <= final(self).last_gate_val,
            final(self).current_phase == ADSRPhase::Sustain ==> v
                == final(self).params.sustain_level,
            final(self).current_phase == ADSRPhase::Silence ==> v == 0,
    {
        proof {
            self.lemma_widths();
        }
        match self.next_event {
            ADSREvent::NoteOn => {
                if self.current_event == ADSREvent::NoteOff {
                    self.retrigger();
                }
                let ph = self.next_phase(ADSREvent::NoteOn);
                let v = self.next_val(ph);
                if self.current_phase != ADSRPhase::Sustain {
                    self.note_on_duration = self.note_on_duration + 1;
                }
                self.current_event = ADSREvent::NoteOn;
                self.current_phase = ph;
                self.current_val = v;
                v
            },
            ADSREvent::NoteOff => {
                if self.current_event == ADSREvent::NoteOn {
                    self.last_gate_val = self.current_val;
                }
                let ph = self.next_phase(ADSREvent::NoteOff);
                let v = self.next_val(ph);
                if self.current_phase != ADSRPhase::Silence {
                    self.note_off_duration = self.note_off_duration + 1;
                }
                self.current_event = ADSREvent::NoteOff;
                self.current_phase = ph;
                self.current_val = v;
                v
            },
        }
    }
}

/// Sustain is held: with a note held and the elapsed note-on time past the
/// attack and decay segments, one `generate` step returns exactly the
/// sustain level, keeps the phase at Sustain, and leaves the state in the
/// same condition — so every further call returns the same value, and
/// additional NoteOn events (which neither retrigger nor advance a counter
/// here) change nothing.
pub proof fn lemma_sustain_hold(s: ADSR)
    requires
        s.wf(),
        s.current_event == ADSREvent::NoteOn,
        s.next_event == ADSREvent::NoteOn,
        s.on_phase() == ADSRPhase::Sustain,
    ensures
        s.step_spec().current_val == s.params.sustain_level,
        s.step_spec().current_phase == ADSRPhase::Sustain,
        s.step_spec().params == s.params,
        s.step_spec().wf(),
        s.step_spec().current_event == ADSREvent::NoteOn,
        s.step_spec().next_event == ADSREvent::NoteOn,
        s.step_spec().on_phase() == ADSRPhase::Sustain,
        s.current_phase == ADSRPhase::Sustain ==> s.step_spec() == (ADSR {
            current_phase: ADSRPhase::Sustain,
            current_val: s.params.sustain_level,
            ..s
        }),
{
    let st = s.step_spec();
    assert(st.current_phase == ADSRPhase::Sustain);
    if s.current_phase != ADSRPhase::Sustain {
        assert(st.note_on_duration == s.note_on_duration + 1);
        assert(st.on_t() >= s.on_t());
    }
}

/// Retrigger: a NoteOn arriving while no note is held — in Release or in
/// Silence — resets both duration counters and restarts the envelope from
/// the top.  The new sample is evaluated at time zero: in Attack with value
/// exactly zero whenever an attack segment exists.  The note-on counter then
/// stands at one, having counted that first sample.
pub proof fn lemma_retrigger_restarts(s: ADSR)
    requires
        s.wf(),
        s.current_event == ADSREvent::NoteOff,
        s.next_event == ADSREvent::NoteOn,
    ensures
        s.step_spec().note_off_duration == 0,
        s.step_spec().note_on_duration == 1,
        s.step_spec().current_phase == (ADSR {
            note_on_duration: 0,
            note_off_duration: 0,
            ..s
        }).on_phase(),
        s.attack_w() > 0 ==> s.step_spec().current_phase == ADSRPhase::Attack,
        s.attack_w() > 0 ==> s.step_spec().current_val == 0,
{
    let z = ADSR { note_on_duration: 0, note_off_duration: 0, ..s };
    assert(z.on_t() == 0);
    if s.attack_w() > 0 {
        assert(z.on_phase() == ADSRPhase::Attack);
        lemma_curve_bounds(0, z.attack_height(), z.attack_w(), z.params.attack_curve as int);
        assert(z.phase_val(ADSRPhase::Attack) == 0);
    }
}

/// Release from the held level: a NoteOff arriving during a held note
/// captures the previous sample's amplitude as `last_gate_val`, and the first
/// Release sample equals that amplitude exactly — also when note-off lands
/// mid-Attack or mid-Decay, so Release never restarts from one unit or from
/// the sustain level.
pub proof fn lemma_release_from_held_level(s: ADSR)
    requires
        s.wf(),
        s.current_event == ADSREvent::NoteOn,
        s.next_event == ADSREvent::NoteOff,
        s.release_w() > 0,
    ensures
        s.step_spec().last_gate_val == s.current_val,
        s.step_spec().current_phase == ADSRPhase::Release,
        s.step_spec().current_val == s.current_val,
{
    let s1 = ADSR { last_gate_val: s.current_val, ..s };
    assert(s1.off_t() == 0);
    assert(s1.off_phase() == ADSRPhase::Release);
    lemma_curve_bounds(
        s1.release_w(),
        s1.last_gate_val as int,
        s1.release_w(),
        s1.params.release_curve as int,
    );
    assert(s1.phase_val(ADSRPhase::Release) == s.current_val);
}

/// Continuity at the start of Attack: a sample evaluated at note-on time
/// zero produces exactly zero, the value Silence held before it.
pub proof fn lemma_attack_boundary(s: ADSR)
    requires
        s.wf(),
        s.note_on_duration == 0,
        s.on_phase() == ADSRPhase::Attack,
    ensures
        s.phase_val(ADSRPhase::Attack) == 0,
{
    lemma_curve_bounds(0, s.attack_height(), s.attack_w(), s.params.attack_curve as int);
}

/// Continuity inside Attack: with linear curvature, the next attack sample
/// rises by exactly one sample-step's worth of slope, up to one rounding
/// unit — no discontinuous jumps within the phase.  (Decay and Release
/// apply `lemma_curve_linear_step` the same way along their own segments.)
pub proof fn lemma_attack_step(s: ADSR)
    requires
        s.wf(),
        crate::curve::ratio_fp(s.params.attack_curve as int) == 500_000,
        s.on_phase() == ADSRPhase::Attack,
        (ADSR { note_on_duration: (s.note_on_duration + 1) as u64, ..s }).on_phase()
            == ADSRPhase::Attack,
    ensures
        ({
            let s2 = ADSR { note_on_duration: (s.note_on_duration + 1) as u64, ..s };
            let slope = s.attack_height() * (SCALE as int) / s.attack_w();
            slope <= s2.phase_val(ADSRPhase::Attack) - s.phase_val(ADSRPhase::Attack)
                <= slope + 1
        }),
{
    let s2 = ADSR { note_on_duration: (s.note_on_duration + 1) as u64, ..s };
    assert(s2.on_t() == s.on_t() + SCALE);
    crate::curve::lemma_curve_linear_step(
        s.on_t(),
        SCALE as int,
        s.attack_height(),
        s.attack_w(),
        s.params.attack_curve as int,
    );
}

/// Continuity at the attack/decay boundary: a sample landing exactly on the
/// end of the attack segment is a Decay sample of exactly one unit — the
/// ceiling the attack curve was rising toward.
pub proof fn lemma_decay_boundary(s: ADSR)
    requires
        s.wf(),
        s.on_t() == s.attack_w(),
        s.on_phase() == ADSRPhase::Decay,
    ensures
        s.phase_val(ADSRPhase::Decay) == SCALE as int,
{
    lemma_curve_bounds(
        s.decay_w(),
        SCALE - s.params.sustain_level,
        s.decay_w(),
        s.params.decay_curve as int,
    );
}

/// Continuity at the start of Release: a sample evaluated at note-off time
/// zero produces exactly the captured gate value.
pub proof fn lemma_release_boundary(s: ADSR)
    requires
        s.wf(),
        s.note_off_duration == 0,
        s.off_phase() == ADSRPhase::Release,
    ensures
        s.phase_val(ADSRPhase::Release) == s.last_gate_val as int,
{
    lemma_curve_bounds(
        s.release_w(),
        s.last_gate_val as int,
        s.release_w(),
        s.params.release_curve as int,
    );
}

} // verus!
