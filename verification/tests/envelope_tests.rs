use adsr::{ADSREvent, ADSRParamKind, ADSRPhase, ADSR, SCALE};

/// Drives the envelope for `samples` samples at its own sample rate,
/// applying each scheduled gate event (time in millionths of a second) from
/// the sample whose time reaches it, and returns one amplitude per sample.
fn run(adsr: &mut ADSR, samples: u64, schedule: &[(u64, ADSREvent)]) -> Vec<u64> {
    let rate = adsr.sample_rate as u64;
    let mut next = 0usize;
    let mut out = Vec::new();
    for i in 0..samples {
        if next < schedule.len() && i * SCALE >= schedule[next].0 * rate {
            adsr.set_next_event(schedule[next].1);
            next += 1;
        }
        let v = adsr.generate();
        assert!(v <= SCALE);
        out.push(v);
    }
    out
}

#[test]
fn silence() {
    let mut adsr = ADSR::new(100_000, 100_000, 100_000, 100_000, 100);
    let out = run(&mut adsr, 201, &[]);
    for v in out {
        assert_eq!(v, 0);
    }
}

#[test]
fn silence_although_note_on() {
    let mut adsr = ADSR::new(0, 0, 0, 0, 100);
    let out = run(&mut adsr, 201, &[(100_000, ADSREvent::NoteOn)]);
    for v in out {
        assert_eq!(v, 0);
    }
}

#[test]
fn just_sustain() {
    let mut adsr = ADSR::new(0, 0, 1_000_000, 0, 100);
    let out = run(&mut adsr, 201, &[(0, ADSREvent::NoteOn)]);
    for v in out {
        assert_eq!(v, 1_000_000);
    }
}

#[test]
fn typical() {
    let mut adsr = ADSR::new(200_000, 200_000, 800_000, 1_000_000, 100);
    adsr.set_param(ADSRParamKind::AttackCurve(-500_000)).unwrap();
    adsr.set_param(ADSRParamKind::DecayCurve(400_000)).unwrap();
    adsr.set_param(ADSRParamKind::ReleaseCurve(600_000)).unwrap();
    let out = run(
        &mut adsr,
        201,
        &[(0, ADSREvent::NoteOn), (1_000_000, ADSREvent::NoteOff)],
    );
    assert_eq!(out[0], 0);
    for i in 40..100 {
        assert_eq!(out[i], 800_000);
    }
    for i in 100..200 {
        assert!(out[i] <= 800_000);
    }
    assert_eq!(out[200], 0);
}

#[test]
fn fade_in_out() {
    let mut adsr = ADSR::new(500_000, 0, 800_000, 500_000, 100);
    let out = run(
        &mut adsr,
        201,
        &[(0, ADSREvent::NoteOn), (1_500_000, ADSREvent::NoteOff)],
    );
    // Zero decay: the attack aims directly for the sustain level and rises
    // linearly to it over 50 samples.
    for i in 0..50 {
        assert_eq!(out[i], 16_000 * i as u64);
    }
    for i in 50..150 {
        assert_eq!(out[i], 800_000);
    }
    // Release decays linearly from the held level over 50 samples.
    for j in 0..50 {
        assert_eq!(out[150 + j], 16_000 * (50 - j as u64));
    }
    for i in 200..201 {
        assert_eq!(out[i], 0);
    }
}

#[test]
fn curvature_edge_case() {
    let mut adsr = ADSR::new(500_000, 500_000, 500_000, 500_000, 100);
    adsr.set_param(ADSRParamKind::AttackCurve(-1_000_000)).unwrap();
    adsr.set_param(ADSRParamKind::DecayCurve(0)).unwrap();
    adsr.set_param(ADSRParamKind::ReleaseCurve(1_000_000)).unwrap();
    let out = run(
        &mut adsr,
        201,
        &[(0, ADSREvent::NoteOn), (1_500_000, ADSREvent::NoteOff)],
    );
    assert_eq!(out[0], 0);
    assert_eq!(out[50], 1_000_000);
    for i in 100..150 {
        assert_eq!(out[i], 500_000);
    }
    assert_eq!(out[200], 0);
}

/// The full concrete trajectory at 100 Hz with attack 0.2 s, decay 0.2 s,
/// sustain 0.8 and release 1 s: Attack for samples 0-19, Decay for 20-39,
/// Sustain at exactly 0.8 for 40-99, Release from sample 100 decaying from
/// 0.8 to 0, Silence from sample 200 on.
#[test]
fn typical_trajectory_linear() {
    let mut adsr = ADSR::new(200_000, 200_000, 800_000, 1_000_000, 100);
    adsr.set_next_event(ADSREvent::NoteOn);
    for i in 0u64..20 {
        let v = adsr.generate();
        assert_eq!(adsr.current_phase, ADSRPhase::Attack);
        assert_eq!(v, 50_000 * i);
    }
    for i in 20u64..40 {
        let v = adsr.generate();
        assert_eq!(adsr.current_phase, ADSRPhase::Decay);
        assert_eq!(v, 800_000 + 10_000 * (40 - i));
    }
    for _ in 40..100 {
        let v = adsr.generate();
        assert_eq!(adsr.current_phase, ADSRPhase::Sustain);
        assert_eq!(v, 800_000);
    }
    adsr.set_next_event(ADSREvent::NoteOff);
    for j in 0u64..100 {
        let v = adsr.generate();
        assert_eq!(adsr.current_phase, ADSRPhase::Release);
        assert_eq!(v, 8_000 * (100 - j));
        assert!(v <= adsr.last_gate_val);
    }
    for _ in 200..220 {
        let v = adsr.generate();
        assert_eq!(adsr.current_phase, ADSRPhase::Silence);
        assert_eq!(v, 0);
    }
}

/// A pure sustain envelope (all times zero, sustain one) outputs one unit
/// from the first NoteOn sample, and drops to zero within one sample of
/// NoteOff.
#[test]
fn pure_sustain_envelope() {
    let mut adsr = ADSR::new(0, 0, 1_000_000, 0, 100);
    adsr.set_next_event(ADSREvent::NoteOn);
    for _ in 0..10 {
        assert_eq!(adsr.generate(), 1_000_000);
        assert_eq!(adsr.current_phase, ADSRPhase::Sustain);
    }
    adsr.set_next_event(ADSREvent::NoteOff);
    assert_eq!(adsr.generate(), 0);
    assert_eq!(adsr.current_phase, ADSRPhase::Silence);
}

/// Sustain is idempotent: additional NoteOn events while in Sustain change
/// neither the value nor the counters.
#[test]
fn sustain_ignores_extra_note_on() {
    let mut adsr = ADSR::new(10_000, 10_000, 600_000, 10_000, 100);
    adsr.set_next_event(ADSREvent::NoteOn);
    for _ in 0..10 {
        adsr.generate();
    }
    assert_eq!(adsr.current_phase, ADSRPhase::Sustain);
    let dur = adsr.note_on_duration;
    for _ in 0..5 {
        adsr.set_next_event(ADSREvent::NoteOn);
        assert_eq!(adsr.generate(), 600_000);
        assert_eq!(adsr.current_phase, ADSRPhase::Sustain);
        assert_eq!(adsr.note_on_duration, dur);
    }
}

/// A NoteOn arriving mid-Release restarts Attack from time zero with both
/// duration counters reset.
#[test]
fn retrigger_from_release() {
    let mut adsr = ADSR::new(200_000, 200_000, 800_000, 1_000_000, 100);
    adsr.set_next_event(ADSREvent::NoteOn);
    for _ in 0..50 {
        adsr.generate();
    }
    adsr.set_next_event(ADSREvent::NoteOff);
    for _ in 0..10 {
        adsr.generate();
    }
    assert_eq!(adsr.current_phase, ADSRPhase::Release);
    adsr.set_next_event(ADSREvent::NoteOn);
    let v = adsr.generate();
    assert_eq!(adsr.current_phase, ADSRPhase::Attack);
    assert_eq!(v, 0);
    assert_eq!(adsr.note_on_duration, 1);
    assert_eq!(adsr.note_off_duration, 0);
}

/// NoteOff 0.05 s into a 0.5 s attack captures the attack value at that
/// exact sample, and Release decays from it, not from one unit.
#[test]
fn release_from_partial_attack() {
    let mut adsr = ADSR::new(500_000, 0, 800_000, 500_000, 100);
    adsr.set_next_event(ADSREvent::NoteOn);
    let mut held = 0;
    for i in 0u64..5 {
        held = adsr.generate();
        assert_eq!(held, 16_000 * i);
    }
    adsr.set_next_event(ADSREvent::NoteOff);
    let first_release = adsr.generate();
    assert_eq!(adsr.current_phase, ADSRPhase::Release);
    assert_eq!(adsr.last_gate_val, held);
    assert_eq!(first_release, held);
    let mut prev = first_release;
    for _ in 0..49 {
        let v = adsr.generate();
        assert!(v <= prev);
        prev = v;
    }
}
