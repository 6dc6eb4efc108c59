use synth_rack::envelope::{Envelope, EnvelopeStage};

// The envelope keeps the timing of the stages; a sustain level plays no
// part in which stage it is in.

#[test]
fn new_initialises_envelope_to_idle() {
    let sut = Envelope::new(0, 0, 0);

    assert_eq!(sut.stage(), EnvelopeStage::Idle);
    assert_eq!(sut.elapsed(), 0);
}

#[test]
fn start_sets_stage_to_attack_elapsed_to_zero() {
    let mut sut = Envelope::new(0, 0, 0);
    sut.start();

    assert_eq!(sut.stage(), EnvelopeStage::Attack);
    assert_eq!(sut.elapsed(), 0);
}

#[test]
fn release_sets_stage_to_release_elapsed_to_zero() {
    let mut sut = Envelope::new(0, 0, 0);
    sut.start();
    sut.release();

    assert_eq!(sut.stage(), EnvelopeStage::Release);
    assert_eq!(sut.elapsed(), 0);
}

#[test]
fn step_does_not_increment_elapsed_when_idle() {
    let mut sut = Envelope::new(0, 0, 0);

    sut.step(500_000_000); // 0.5 seconds

    assert_eq!(sut.elapsed(), 0);
}

#[test]
fn step_does_not_increment_elapsed_when_not_idle() {
    let mut sut = Envelope::new(2_000_000_000, 0, 0);
    sut.start();

    sut.step(500_000_000); // 0.5 seconds
    assert_eq!(sut.elapsed(), 500_000_000);
    sut.step(500_000_000); // 0.5 seconds
    assert_eq!(sut.elapsed(), 1_000_000_000);
}

#[test]
fn get_stage_without_start_returns_idle() {
    let sut = Envelope::new(2_000_000_000, 0, 0);

    assert_eq!(sut.get_stage(), EnvelopeStage::Idle);
}

#[test]
fn get_stage_after_start_returns_attack() {
    let mut sut = Envelope::new(2_000_000_000, 0, 0);
    sut.start();

    assert_eq!(sut.get_stage(), EnvelopeStage::Attack);
}

#[test]
fn get_stage_after_attack_returns_decay() {
    let mut sut = Envelope::new(2_000_000_000, 2_000_000_000, 0);
    sut.start();

    sut.step(3_000_000_000);

    assert_eq!(sut.get_stage(), EnvelopeStage::Decay);
}

#[test]
fn get_stage_after_decay_returns_sustain() {
    let mut sut = Envelope::new(2_000_000_000, 2_000_000_000, 0);
    sut.start();

    sut.step(5_000_000_000);

    assert_eq!(sut.get_stage(), EnvelopeStage::Sustain);
}

#[test]
fn get_stage_after_sustain_returns_idle() {
    let mut sut = Envelope::new(2_000_000_000, 2_000_000_000, 2_000_000_000);
    sut.start();

    sut.release();
    sut.step(3_000_000_000);

    assert_eq!(sut.get_stage(), EnvelopeStage::Idle);
}

#[test]
fn release_of_idle_envelope_does_nothing() {
    let mut sut = Envelope::new(1, 2, 3);

    sut.release();

    assert_eq!(sut.stage(), EnvelopeStage::Idle);
    assert_eq!(sut.elapsed(), 0);
}

#[test]
fn release_ends_in_idle_and_idle_stays_put() {
    let mut sut = Envelope::new(2_000_000_000, 2_000_000_000, 2_000_000_000);
    sut.start();
    sut.release();

    sut.step(1_000_000_000);
    assert_eq!(sut.stage(), EnvelopeStage::Release);
    sut.step(2_000_000_000);
    assert_eq!(sut.stage(), EnvelopeStage::Idle);
    assert_eq!(sut.elapsed(), 3_000_000_000);

    sut.step(1_000_000_000);
    assert_eq!(sut.stage(), EnvelopeStage::Idle);
    assert_eq!(sut.elapsed(), 3_000_000_000);
}

#[test]
fn stage_boundaries_belong_to_the_earlier_stage() {
    let mut sut = Envelope::new(10, 10, 10);
    sut.start();

    sut.step(10);
    assert_eq!(sut.stage(), EnvelopeStage::Attack);
    sut.step(10);
    assert_eq!(sut.stage(), EnvelopeStage::Decay);
    sut.step(1);
    assert_eq!(sut.stage(), EnvelopeStage::Sustain);
}

#[test]
fn two_steps_reach_the_stage_of_one_step_of_their_sum() {
    let mut two = Envelope::new(100, 100, 100);
    let mut one = Envelope::new(100, 100, 100);
    two.start();
    one.start();

    two.step(70);
    two.step(80);
    one.step(150);

    assert_eq!(two.stage(), one.stage());
    assert_eq!(two.elapsed(), one.elapsed());
}

#[test]
fn setters_change_the_durations() {
    let mut sut = Envelope::new(1, 2, 3);

    sut.set_attack(10);
    sut.set_decay(20);
    sut.set_release(30);

    assert_eq!(sut.attack(), 10);
    assert_eq!(sut.decay(), 20);
    assert_eq!(sut.release_duration(), 30);
}
