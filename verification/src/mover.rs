//! The cursor mover's decisions, as a state machine driven by the thread that runs
//! it.
//!
//! The thread performs each command (sleeping, moving the cursor), reads the
//! shared signal (the running flag and the generation of the mover that is meant
//! to run), and asks for the next command. A mover is active while the flag is
//! set and the signal names its own generation; starting the tray again gives a
//! new generation, so an older mover that is still asleep stops instead of moving
//! alongside the new one.
//!
//! The mover pauses, then stops if it is no longer active; otherwise it draws a
//! random target from its generator and either jumps there or glides there in
//! `steps` frames of `FRAME_MILLIS`, and then pauses again. The pause after a
//! glide is shortened by the frames it took, so that a new target is drawn every
//! `PAUSE_MILLIS` either way. A glide is cut short, back to pausing, when the
//! mover is no longer active before one of its frames.
use vstd::prelude::*;
use crate::lcg::{Lcg, lcg_step, output_of};

verus! {

/// Milliseconds from one target to the next.
pub const PAUSE_MILLIS: u64 = 5000;

/// How long a glide to a new target lasts, in milliseconds.
pub const GLIDE_MILLIS: u64 = 800;

/// How long one frame of a glide lasts, in milliseconds.
pub const FRAME_MILLIS: u64 = 16;

/// What the thread is to do next.
#[derive(Debug, Clone, Copy, PartialEq, Eq, Structural)]
pub enum MoverCommand {
    /// Sleep `millis` milliseconds.
    Pause { millis: u64 },
    /// Leave the loop: the mover is done.
    Stop,
    /// Move the cursor at once to the target whose coordinates are the screen
    /// width and height scaled by `x_bits / 2^53` and `y_bits / 2^53`.
    JumpTo { x_bits: u64, y_bits: u64 },
    /// Start a glide to the target given as for `JumpTo`, from where the cursor is
    /// now (or from the target itself when its position cannot be read).
    BeginGlide { x_bits: u64, y_bits: u64 },
    /// Move the cursor to frame `step` of `steps` of the current glide (eased by
    /// `t·t·(3 − 2t)` with `t = step / steps`), then sleep `FRAME_MILLIS`.
    GlideTo { step: u32, steps: u32 },
}

/// How the mover reaches a target.
#[derive(Debug, Clone, Copy, PartialEq, Eq, Structural)]
pub enum Motion {
    /// In one move.
    Jump,
    /// In `steps` eased frames.
    Glide { steps: u32 },
}

/// Where the mover is in its cycle.
#[derive(Debug, Clone, Copy, PartialEq, Eq, Structural)]
pub enum MoverPhase {
    /// A full pause is to come next.
    Moved,
    /// A pause has just been taken: the signal decides what comes next.
    Paused,
    /// Gliding, with `done` frames of the glide taken.
    Gliding { done: u32 },
    /// Stopped for good.
    Stopped,
}

/// A cursor mover: its random source, how it moves, where it is in its cycle and
/// the generation it belongs to.
pub struct Mover {
    pub rng: Lcg,
    pub motion: Motion,
    pub phase: MoverPhase,
    pub generation: u64,
}

/// The plain values of a mover.
pub struct MoverState {
    pub rng_state: u64,
    pub motion: Motion,
    pub phase: MoverPhase,
    pub generation: u64,
}

/// The plain values of a mover: generator state, motion, phase, generation.
pub open spec fn mover_view(m: &Mover) -> MoverState {
    MoverState { rng_state: m.rng.0, motion: m.motion, phase: m.phase, generation: m.generation }
}

/// The number of frames of a glide in a motion (none for a jump).
pub open spec fn glide_len(motion: Motion) -> u32 {
    match motion {
        Motion::Jump => 0,
        Motion::Glide { steps } => steps,
    }
}

/// The pause that follows a glide of `done` frames: what is left of
/// `PAUSE_MILLIS` after them, or none when they took longer.
pub open spec fn pause_after(done: u32) -> u64 {
    if done as int * FRAME_MILLIS <= PAUSE_MILLIS {
        (PAUSE_MILLIS - done as int * FRAME_MILLIS) as u64
    } else {
        0
    }
}

/// Whether the mover of generation `mine` is to go on, given the signal.
pub open spec fn active(running: bool, current: u64, mine: u64) -> bool {
    running && current == mine
}

/// The next state and command of a mover, given the signal: whether the running
/// flag is set and which generation is current.
pub open spec fn mover_step(v: MoverState, running: bool, current: u64) -> (MoverState, MoverCommand) {
    match v.phase {
        MoverPhase::Stopped => (v, MoverCommand::Stop),
        MoverPhase::Moved => (
            MoverState { phase: MoverPhase::Paused, ..v },
            MoverCommand::Pause { millis: PAUSE_MILLIS },
        ),
        MoverPhase::Paused => {
            if !active(running, current, v.generation) {
                (MoverState { phase: MoverPhase::Stopped, ..v }, MoverCommand::Stop)
            } else {
                let s1 = lcg_step(v.rng_state);
                let s2 = lcg_step(s1);
                match v.motion {
                    Motion::Jump => (
                        MoverState { rng_state: s2, phase: MoverPhase::Moved, ..v },
                        MoverCommand::JumpTo { x_bits: output_of(s1), y_bits: output_of(s2) },
                    ),
                    Motion::Glide { steps } => (
                        MoverState { rng_state: s2, phase: MoverPhase::Gliding { done: 0 }, ..v },
                        MoverCommand::BeginGlide { x_bits: output_of(s1), y_bits: output_of(s2) },
                    ),
                }
            }
        },
        MoverPhase::Gliding { done } => {
            if done >= glide_len(v.motion) || !active(running, current, v.generation) {
                (
                    MoverState { phase: MoverPhase::Paused, ..v },
                    MoverCommand::Pause { millis: pause_after(done) },
                )
            } else {
                (
                    MoverState { phase: MoverPhase::Gliding { done: (done + 1) as u32 }, ..v },
                    MoverCommand::GlideTo { step: (done + 1) as u32, steps: glide_len(v.motion) },
                )
            }
        },
    }
}

/// The number of frames in a glide of `glide_millis` at `frame_millis` per frame:
/// the whole number of frames that fit, at least one, truncated to 32 bits.
pub open spec fn glide_steps_spec(glide_millis: u128, frame_millis: u128) -> u32 {
    let q = glide_millis / frame_millis;
    (if q >= 1 {
        q
    } else {
        1
    }) as u32
}

/// The number of frames in a glide of `glide_millis` at `frame_millis` per frame:
/// the whole number of frames that fit, at least one.
pub fn glide_steps(glide_millis: u128, frame_millis: u128) -> (steps: u32)
    requires
        frame_millis > 0,
    ensures
        steps == glide_steps_spec(glide_millis, frame_millis),
{
    let q = glide_millis / frame_millis;
    let m = if q >= 1 {
        q
    } else {
        1
    };
    #[verifier::truncate]
    let steps: u32 = m as u32;
    steps
}

fn pause_after_glide(done: u32) -> (millis: u64)
    ensures
        millis == pause_after(done),
{
    let spent: u64 = (done as u64) * FRAME_MILLIS;
    if spent <= PAUSE_MILLIS {
        PAUSE_MILLIS - spent
    } else {
        0
    }
}

impl Mover {
    /// A mover of the given generation with the given generator and motion, whose
    /// first command is a full pause.
    pub fn new(rng: Lcg, motion: Motion, generation: u64) -> (m: Mover)
        ensures
            mover_view(&m) == (MoverState {
                rng_state: rng.0,
                motion,
                phase: MoverPhase::Moved,
                generation,
            }),
    {
        Mover { rng, motion, phase: MoverPhase::Moved, generation }
    }

    /// The next command, given the signal read now: whether the running flag is
    /// set and which generation is current.
    pub fn next_command(&mut self, running: bool, current: u64) -> (cmd: MoverCommand)
        ensures
            (mover_view(final(self)), cmd) == mover_step(mover_view(old(self)), running, current),
    {
        let go_on = running && current == self.generation;
        match self.phase {
            MoverPhase::Stopped => MoverCommand::Stop,
            MoverPhase::Moved => {
                self.phase = MoverPhase::Paused;
                MoverCommand::Pause { millis: PAUSE_MILLIS }
            },
            MoverPhase::Paused => {
                if !go_on {
                    self.phase = MoverPhase::Stopped;
                    MoverCommand::Stop
                } else {
                    let x_bits = self.rng.next_bits();
                    let y_bits = self.rng.next_bits();
                    match self.motion {
                        Motion::Jump => {
                            self.phase = MoverPhase::Moved;
                            MoverCommand::JumpTo { x_bits, y_bits }
                        },
                        Motion::Glide { steps: _ } => {
                            self.phase = MoverPhase::Gliding { done: 0 };
                            MoverCommand::BeginGlide { x_bits, y_bits }
                        },
                    }
                }
            },
            MoverPhase::Gliding { done } => {
                let steps = match self.motion {
                    Motion::Jump => 0,
                    Motion::Glide { steps } => steps,
                };
                if done >= steps || !go_on {
                    self.phase = MoverPhase::Paused;
                    MoverCommand::Pause { millis: pause_after_glide(done) }
                } else {
                    self.phase = MoverPhase::Gliding { done: done + 1 };
                    MoverCommand::GlideTo { step: done + 1, steps }
                }
            },
        }
    }
}

/// The states and commands of a mover fed the signals `signals` (flag,
/// current generation), one per command.
pub open spec fn mover_run(v: MoverState, signals: Seq<(bool, u64)>) -> (MoverState, Seq<MoverCommand>)
    decreases signals.len(),
{
    if signals.len() == 0 {
        (v, Seq::empty())
    } else {
        let (v1, c) = mover_step(v, signals[0].0, signals[0].1);
        let (v2, cs) = mover_run(v1, signals.drop_first());
        (v2, seq![c] + cs)
    }
}

proof fn lemma_run_len(v: MoverState, signals: Seq<(bool, u64)>)
    ensures
        mover_run(v, signals).1.len() == signals.len(),
    decreases signals.len(),
{
    if signals.len() > 0 {
        let (v1, c) = mover_step(v, signals[0].0, signals[0].1);
        lemma_run_len(v1, signals.drop_first());
    }
}

/// Whether a command moves the cursor.
pub open spec fn moves_cursor(c: MoverCommand) -> bool {
    c is JumpTo || c is BeginGlide || c is GlideTo
}

/// Once stopped, a mover stays stopped and only ever says `Stop`, whatever the
/// signal reads.
pub proof fn lemma_stopped_is_final(v: MoverState, signals: Seq<(bool, u64)>)
    requires
        v.phase == MoverPhase::Stopped,
    ensures
        mover_run(v, signals).0 == v,
        mover_run(v, signals).1.len() == signals.len(),
        forall|i: int| 0 <= i < signals.len() ==> mover_run(v, signals).1[i] == MoverCommand::Stop,
    decreases signals.len(),
{
    if signals.len() > 0 {
        lemma_stopped_is_final(v, signals.drop_first());
        let cs = mover_run(v, signals).1;
        let rest = mover_run(v, signals.drop_first()).1;
        assert(mover_step(v, signals[0].0, signals[0].1) == (v, MoverCommand::Stop));
        assert(cs == seq![MoverCommand::Stop] + rest);
        assert forall|i: int| 0 <= i < signals.len() implies cs[i] == MoverCommand::Stop by {
            if i > 0 {
                assert(cs[i] == rest[i - 1]);
            }
        }
    }
}

/// The cursor is moved only right after a pause: a jump or the start of a glide
/// comes only from the phase a pause leads to, and that phase is only entered by
/// giving a pause.
pub proof fn lemma_moves_follow_pauses(v: MoverState, running: bool, current: u64)
    ensures
        (mover_step(v, running, current).1 is JumpTo || mover_step(v, running, current).1 is BeginGlide)
            ==> v.phase == MoverPhase::Paused,
        (mover_step(v, running, current).0.phase == MoverPhase::Paused && v.phase
            != MoverPhase::Paused) ==> mover_step(v, running, current).1 is Pause,
{
}

/// A pause followed by a signal that does not keep this mover active stops it; a
/// pause followed by one that does never stops it.
pub proof fn lemma_stop_only_when_inactive(v: MoverState, running: bool, current: u64)
    requires
        v.phase == MoverPhase::Paused,
    ensures
        (mover_step(v, running, current).1 == MoverCommand::Stop) == !active(
            running,
            current,
            v.generation,
        ),
{
}

/// A mover whose generation is no longer the current one never moves the cursor
/// again: for every signal that names another generation, its next command is a
/// pause or a stop, and from a pause it stops at once.
pub proof fn lemma_superseded_mover_never_moves(v: MoverState, running: bool, current: u64)
    requires
        current != v.generation,
    ensures
        !moves_cursor(mover_step(v, running, current).1),
        v.phase == MoverPhase::Paused ==> mover_step(v, running, current).1 == MoverCommand::Stop,
{
}

/// Across any run, a mover moves the cursor only on commands given while the
/// signal names its own generation with the flag set.
pub proof fn lemma_moves_only_while_current(v: MoverState, signals: Seq<(bool, u64)>, i: int)
    requires
        0 <= i < signals.len(),
        moves_cursor(mover_run(v, signals).1[i]),
    ensures
        signals[i].0 && signals[i].1 == v.generation,
    decreases signals.len(),
{
    let (v1, c) = mover_step(v, signals[0].0, signals[0].1);
    let rest = mover_run(v1, signals.drop_first());
    lemma_run_len(v1, signals.drop_first());
    assert(mover_run(v, signals).1 == seq![c] + rest.1);
    assert(v1.generation == v.generation);
    if i == 0 {
        assert(mover_run(v, signals).1[0] == c);
    } else {
        assert(mover_run(v, signals).1[i] == rest.1[i - 1]);
        lemma_moves_only_while_current(v1, signals.drop_first(), i - 1);
        assert(signals.drop_first()[i - 1] == signals[i]);
    }
}

/// While the flag stays set, a jumping mover alternates full pauses and jumps:
/// after a pause it jumps to the target given by the next two outputs of its
/// generator, and then pauses `PAUSE_MILLIS` again.
pub proof fn lemma_jump_cycle(s: u64, g: u64, first: bool, first_gen: u64)
    ensures
        ({
            let v0 = MoverState { rng_state: s, motion: Motion::Jump, phase: MoverPhase::Moved, generation: g };
            let (v1, c1) = mover_step(v0, first, first_gen);
            let (v2, c2) = mover_step(v1, true, g);
            let (v3, c3) = mover_step(v2, true, g);
            &&& c1 == MoverCommand::Pause { millis: PAUSE_MILLIS }
            &&& c2 == (MoverCommand::JumpTo {
                x_bits: output_of(lcg_step(s)),
                y_bits: output_of(lcg_step(lcg_step(s))),
            })
            &&& c3 == MoverCommand::Pause { millis: PAUSE_MILLIS }
            &&& v3 == (MoverState { rng_state: lcg_step(lcg_step(s)), phase: MoverPhase::Paused, ..v0 })
        }),
{
}

/// While the mover stays active, a glide of `n` frames that has taken `k` of them
/// takes each of the remaining frames `k + 1, ..., n` in order and then pauses
/// for what is left of `PAUSE_MILLIS`; its last frame is frame `n` of `n`, the
/// target itself.
pub proof fn lemma_glide_completes(v: MoverState, n: u32, k: u32, signals: Seq<(bool, u64)>)
    requires
        v.motion == (Motion::Glide { steps: n }),
        v.phase == (MoverPhase::Gliding { done: k }),
        k <= n,
        signals.len() == n - k + 1,
        forall|i: int| 0 <= i < signals.len() ==> #[trigger] signals[i] == (true, v.generation),
    ensures
        mover_run(v, signals).0 == (MoverState { phase: MoverPhase::Paused, ..v }),
        mover_run(v, signals).1.len() == n - k + 1,
        forall|i: int|
            0 <= i < n - k ==> mover_run(v, signals).1[i] == (MoverCommand::GlideTo {
                step: (k + 1 + i) as u32,
                steps: n,
            }),
        mover_run(v, signals).1[n - k] == (MoverCommand::Pause { millis: pause_after(n) }),
    decreases n - k,
{
    let r = mover_run(v, signals);
    if k == n {
        let v1 = MoverState { phase: MoverPhase::Paused, ..v };
        assert(signals[0] == (true, v.generation));
        assert(mover_step(v, signals[0].0, signals[0].1) == (
            v1,
            MoverCommand::Pause { millis: pause_after(n) },
        ));
        assert(signals.drop_first().len() == 0);
        assert(mover_run(v1, signals.drop_first()) == (v1, Seq::<MoverCommand>::empty()));
        assert(r.1 =~= seq![MoverCommand::Pause { millis: pause_after(n) }]);
    } else {
        let tail = signals.drop_first();
        assert forall|i: int| 0 <= i < tail.len() implies #[trigger] tail[i] == (true, v.generation) by {
            assert(tail[i] == signals[i + 1]);
        }
        let v1 = MoverState { phase: MoverPhase::Gliding { done: (k + 1) as u32 }, ..v };
        assert(signals[0] == (true, v.generation));
        assert(mover_step(v, signals[0].0, signals[0].1) == (
            v1,
            MoverCommand::GlideTo { step: (k + 1) as u32, steps: n },
        ));
        lemma_glide_completes(v1, n, (k + 1) as u32, tail);
        let rest = mover_run(v1, tail);
        assert(r.1 == seq![MoverCommand::GlideTo { step: (k + 1) as u32, steps: n }] + rest.1);
        assert forall|i: int| 0 <= i < n - k implies r.1[i] == (MoverCommand::GlideTo {
            step: (k + 1 + i) as u32,
            steps: n,
        }) by {
            if i > 0 {
                assert(r.1[i] == rest.1[i - 1]);
            }
        }
        assert(r.1[n - k] == rest.1[n - k - 1]);
    }
}

/// While the mover stays active, a gliding mover that has just paused runs one
/// full cycle: it starts a glide to the target given by the next two outputs of
/// its generator, takes frames `1, ..., n` of `n` in order, and pauses again. When
/// the glide fits in `PAUSE_MILLIS`, its frames and the pause after it take
/// exactly `PAUSE_MILLIS`, so targets are drawn `PAUSE_MILLIS` apart.
pub proof fn lemma_glide_cycle(v: MoverState, n: u32, signals: Seq<(bool, u64)>)
    requires
        v.motion == (Motion::Glide { steps: n }),
        v.phase == MoverPhase::Paused,
        signals.len() == n + 2,
        forall|i: int| 0 <= i < signals.len() ==> #[trigger] signals[i] == (true, v.generation),
    ensures
        ({
            let s2 = lcg_step(lcg_step(v.rng_state));
            let (v_end, cs) = mover_run(v, signals);
            &&& v_end == (MoverState { rng_state: s2, ..v })
            &&& cs.len() == n + 2
            &&& cs[0] == (MoverCommand::BeginGlide {
                x_bits: output_of(lcg_step(v.rng_state)),
                y_bits: output_of(s2),
            })
            &&& forall|i: int|
                1 <= i <= n ==> cs[i] == (MoverCommand::GlideTo { step: i as u32, steps: n })
            &&& cs[n + 1] == (MoverCommand::Pause { millis: pause_after(n) })
        }),
        n * FRAME_MILLIS <= PAUSE_MILLIS ==> n * FRAME_MILLIS + pause_after(n) == PAUSE_MILLIS,
{
    let s2 = lcg_step(lcg_step(v.rng_state));
    let v1 = MoverState { rng_state: s2, phase: MoverPhase::Gliding { done: 0 }, ..v };
    assert(signals[0] == (true, v.generation));
    assert(mover_step(v, signals[0].0, signals[0].1).0 == v1);
    let tail = signals.drop_first();
    assert forall|i: int| 0 <= i < tail.len() implies #[trigger] tail[i] == (true, v1.generation) by {
        assert(tail[i] == signals[i + 1]);
    }
    lemma_glide_completes(v1, n, 0, tail);
    let r = mover_run(v, signals);
    let rest = mover_run(v1, tail);
    assert(r.1 == seq![mover_step(v, signals[0].0, signals[0].1).1] + rest.1);
    assert forall|i: int| 1 <= i <= n implies r.1[i] == (MoverCommand::GlideTo {
        step: i as u32,
        steps: n,
    }) by {
        assert(r.1[i] == rest.1[i - 1]);
    }
    assert(r.1[n + 1] == rest.1[n as int]);
}

} // verus!
