use vstd::prelude::*;

verus! {

/// The stage an ADSR envelope is in.
#[derive(Debug, Clone, Copy, PartialEq, Eq, Structural)]
pub enum EnvelopeStage {
    Attack,
    Decay,
    Sustain,
    Release,
    Idle,
}

/// The timing of an ADSR (attack, decay, sustain, release) envelope.
///
/// The envelope tracks which stage it is in and how long it has been there;
/// attack, decay and release are durations in nanoseconds. How loud the
/// envelope is at a given moment follows from these and from the sustain
/// level, which callers keep beside it.
pub struct Envelope {
    attack: u64,
    decay: u64,
    release: u64,
    stage: EnvelopeStage,
    elapsed: u64,
}

/// The stage that an envelope in `stage`, `elapsed` nanoseconds in, has reached.
///
/// Idle stays idle; a release lasts `release` nanoseconds, then the envelope
/// goes idle; otherwise the envelope is in attack for the first `attack`
/// nanoseconds, in decay for the `decay` nanoseconds after, and sustains from then on.
pub open spec fn stage_at(
    stage: EnvelopeStage,
    elapsed: int,
    attack: int,
    decay: int,
    release: int,
) -> EnvelopeStage {
    if stage == EnvelopeStage::Idle {
        EnvelopeStage::Idle
    } else if stage == EnvelopeStage::Release {
        if elapsed <= release {
            EnvelopeStage::Release
        } else {
            EnvelopeStage::Idle
        }
    } else if elapsed <= attack {
        EnvelopeStage::Attack
    } else if elapsed <= attack + decay {
        EnvelopeStage::Decay
    } else {
        EnvelopeStage::Sustain
    }
}

/// Whether finding the stage of an envelope in `stage`, `elapsed` nanoseconds
/// in, adds an attack and a decay whose sum does not fit in a `u64`.
pub open spec fn stage_overflows_at(stage: EnvelopeStage, elapsed: int, attack: int, decay: int) -> bool {
    stage != EnvelopeStage::Idle && stage != EnvelopeStage::Release && elapsed > attack && attack + decay
        > u64::MAX
}

/// The position of a stage in the life of an envelope: attack, decay and
/// sustain in that order; release, then idle.
pub open spec fn stage_rank(stage: EnvelopeStage) -> int {
    match stage {
        EnvelopeStage::Attack => 0,
        EnvelopeStage::Decay => 1,
        EnvelopeStage::Sustain => 2,
        EnvelopeStage::Release => 3,
        EnvelopeStage::Idle => 4,
    }
}

/// The timing of an ADSR envelope: a released envelope stays in release for
/// exactly its release duration and is idle after, whatever its attack and
/// decay; a sounding envelope is in attack up to the attack duration, in
/// decay for the decay duration after that, and sustains from then on; an
/// idle envelope stays idle.
pub proof fn lemma_stage_timing(elapsed: int, attack: int, decay: int, release: int)
    requires
        0 <= elapsed,
        0 <= attack,
        0 <= decay,
        0 <= release,
    ensures
        elapsed <= release ==> stage_at(EnvelopeStage::Release, elapsed, attack, decay, release)
            == EnvelopeStage::Release,
        elapsed > release ==> stage_at(EnvelopeStage::Release, elapsed, attack, decay, release)
            == EnvelopeStage::Idle,
        stage_at(EnvelopeStage::Idle, elapsed, attack, decay, release) == EnvelopeStage::Idle,
        forall|s: EnvelopeStage|
            #![trigger stage_at(s, elapsed, attack, decay, release)]
            s == EnvelopeStage::Attack || s == EnvelopeStage::Decay || s == EnvelopeStage::Sustain ==> {
                &&& elapsed <= attack ==> stage_at(s, elapsed, attack, decay, release) == EnvelopeStage::Attack
                &&& attack < elapsed <= attack + decay ==> stage_at(s, elapsed, attack, decay, release)
                    == EnvelopeStage::Decay
                &&& elapsed > attack + decay ==> stage_at(s, elapsed, attack, decay, release)
                    == EnvelopeStage::Sustain
            },
{
}

/// An envelope never moves back a stage as time passes: more elapsed time
/// reaches the same stage or a later one.
pub proof fn lemma_stage_never_moves_back(
    stage: EnvelopeStage,
    earlier: int,
    later: int,
    attack: int,
    decay: int,
    release: int,
)
    requires
        0 <= earlier <= later,
        0 <= attack,
        0 <= decay,
        0 <= release,
    ensures
        stage_rank(stage_at(stage, earlier, attack, decay, release)) <= stage_rank(
            stage_at(stage, later, attack, decay, release),
        ),
{
}

/// Stepping a sounding envelope by `a` and then by `b` nanoseconds reaches
/// the stage that one step by `a + b` reaches (a step leaves an idle envelope as it is).
pub proof fn lemma_steps_compose(
    stage: EnvelopeStage,
    elapsed: int,
    a: int,
    b: int,
    attack: int,
    decay: int,
    release: int,
)
    requires
        stage != EnvelopeStage::Idle,
        0 <= elapsed,
        0 <= a,
        0 <= b,
    ensures
        ({
            let mid = stage_at(stage, elapsed + a, attack, decay, release);
            let two_steps = if mid == EnvelopeStage::Idle {
                mid
            } else {
                stage_at(mid, elapsed + a + b, attack, decay, release)
            };
            two_steps == stage_at(stage, elapsed + a + b, attack, decay, release)
        }),
{
}

impl Envelope {
    pub closed spec fn attack_time(&self) -> u64 {
        self.attack
    }

    pub closed spec fn decay_time(&self) -> u64 {
        self.decay
    }

    pub closed spec fn release_time(&self) -> u64 {
        self.release
    }

    pub closed spec fn current_stage(&self) -> EnvelopeStage {
        self.stage
    }

    pub closed spec fn elapsed_time(&self) -> u64 {
        self.elapsed
    }

    /// The stage that the envelope's elapsed time puts it in.
    pub open spec fn reached_stage(&self) -> EnvelopeStage {
        stage_at(
            self.current_stage(),
            self.elapsed_time() as int,
            self.attack_time() as int,
            self.decay_time() as int,
            self.release_time() as int,
        )
    }

    /// Whether `get_stage` would overflow adding attack and decay.
    pub open spec fn stage_overflows(&self) -> bool {
        stage_overflows_at(self.current_stage(), self.elapsed_time() as int, self.attack_time() as int, self.decay_time() as int)
    }

    /// An idle envelope with the given attack, decay and release durations (nanoseconds).
    pub fn new(attack: u64, decay: u64, release: u64) -> (r: Self)
        ensures
            r.attack_time() == attack,
            r.decay_time() == decay,
            r.release_time() == release,
            r.current_stage() == EnvelopeStage::Idle,
            r.elapsed_time() == 0,
    {
        Envelope { attack, decay, release, stage: EnvelopeStage::Idle, elapsed: 0 }
    }

    /// Starts the envelope over: attack, from time zero.
    pub fn start(&mut self)
        ensures
            final(self).current_stage() == EnvelopeStage::Attack,
            final(self).elapsed_time() == 0,
            final(self).attack_time() == old(self).attack_time(),
            final(self).decay_time() == old(self).decay_time(),
            final(self).release_time() == old(self).release_time(),
    {
        self.stage = EnvelopeStage::Attack;
        self.elapsed = 0;
    }

    /// Releases a sounding envelope: release, from time zero. An idle
    /// envelope stays as it is.
    pub fn release(&mut self)
        ensures
            old(self).current_stage() == EnvelopeStage::Idle ==> *final(self) == *old(self),
            old(self).current_stage() != EnvelopeStage::Idle ==> {
                &&& final(self).current_stage() == EnvelopeStage::Release
                &&& final(self).elapsed_time() == 0
                &&& final(self).attack_time() == old(self).attack_time()
                &&& final(self).decay_time() == old(self).decay_time()
                &&& final(self).release_time() == old(self).release_time()
            },
    {
        if self.stage != EnvelopeStage::Idle {
            self.stage = EnvelopeStage::Release;
            self.elapsed = 0;
        }
    }

    /// Advances a sounding envelope by `time_window` nanoseconds and moves it
    /// to the stage that time puts it in. An idle envelope stays as it is.
    pub fn step(&mut self, time_window: u64)
        requires
            old(self).current_stage() != EnvelopeStage::Idle ==> old(self).elapsed_time()
                + time_window <= u64::MAX,
            old(self).current_stage() != EnvelopeStage::Idle ==> !stage_overflows_at(
                old(self).current_stage(),
                old(self).elapsed_time() + time_window,
                old(self).attack_time() as int,
                old(self).decay_time() as int,
            ),
        ensures
            old(self).current_stage() == EnvelopeStage::Idle ==> *final(self) == *old(self),
            old(self).current_stage() != EnvelopeStage::Idle ==> {
                &&& final(self).elapsed_time() == old(self).elapsed_time() + time_window
                &&& final(self).current_stage() == stage_at(
                    old(self).current_stage(),
                    old(self).elapsed_time() + time_window,
                    old(self).attack_time() as int,
                    old(self).decay_time() as int,
                    old(self).release_time() as int,
                )
                &&& final(self).attack_time() == old(self).attack_time()
                &&& final(self).decay_time() == old(self).decay_time()
                &&& final(self).release_time() == old(self).release_time()
            },
    {
        if self.stage == EnvelopeStage::Idle {
            return;
        }
        self.elapsed = self.elapsed + time_window;
        self.stage = self.get_stage();
    }

    /// The stage that the elapsed time puts the envelope in.
    pub fn get_stage(&self) -> (r: EnvelopeStage)
        requires
            !self.stage_overflows(),
        ensures
            r == self.reached_stage(),
    {
        if self.stage == EnvelopeStage::Idle {
            EnvelopeStage::Idle
        } else if self.stage == EnvelopeStage::Release {
            if self.elapsed <= self.release {
                EnvelopeStage::Release
            } else {
                EnvelopeStage::Idle
            }
        } else if self.elapsed <= self.attack {
            EnvelopeStage::Attack
        } else if self.elapsed <= self.attack + self.decay {
            EnvelopeStage::Decay
        } else {
            EnvelopeStage::Sustain
        }
    }
    /// Sets how long the attack lasts, in nanoseconds.
    pub fn set_attack(&mut self, attack: u64)
        ensures
            final(self).attack_time() == attack,
            final(self).decay_time() == old(self).decay_time(),
            final(self).release_time() == old(self).release_time(),
            final(self).current_stage() == old(self).current_stage(),
            final(self).elapsed_time() == old(self).elapsed_time(),
    {
        self.attack = attack;
    }

    /// Sets how long the decay lasts, in nanoseconds.
    pub fn set_decay(&mut self, decay: u64)
        ensures
            final(self).decay_time() == decay,
            final(self).attack_time() == old(self).attack_time(),
            final(self).release_time() == old(self).release_time(),
            final(self).current_stage() == old(self).current_stage(),
            final(self).elapsed_time() == old(self).elapsed_time(),
    {
        self.decay = decay;
    }

    /// Sets how long the release lasts, in nanoseconds.
    pub fn set_release(&mut self, release: u64)
        ensures
            final(self).release_time() == release,
            final(self).attack_time() == old(self).attack_time(),
            final(self).decay_time() == old(self).decay_time(),
            final(self).current_stage() == old(self).current_stage(),
            final(self).elapsed_time() == old(self).elapsed_time(),
    {
        self.release = release;
    }

    /// The stage the envelope is in.
    pub fn stage(&self) -> (r: EnvelopeStage)
        ensures
            r == self.current_stage(),
    {
        self.stage
    }

    /// How long the envelope has been in its stage, in nanoseconds.
    pub fn elapsed(&self) -> (r: u64)
        ensures
            r == self.elapsed_time(),
    {
        self.elapsed
    }

    /// How long the attack lasts, in nanoseconds.
    pub fn attack(&self) -> (r: u64)
        ensures
            r == self.attack_time(),
    {
        self.attack
    }

    /// How long the decay lasts, in nanoseconds.
    pub fn decay(&self) -> (r: u64)
        ensures
            r == self.decay_time(),
    {
        self.decay
    }

    /// How long the release lasts, in nanoseconds.
    pub fn release_duration(&self) -> (r: u64)
        ensures
            r == self.release_time(),
    {
        self.release
    }
}

} // verus!
