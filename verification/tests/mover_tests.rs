use mouse_cursor_mover::lcg::Lcg;
use mouse_cursor_mover::mover::{
    glide_steps, Motion, Mover, MoverCommand, MoverPhase, FRAME_MILLIS, GLIDE_MILLIS, PAUSE_MILLIS,
};

fn pause(millis: u64) -> MoverCommand {
    MoverCommand::Pause { millis }
}

#[test]
fn glide_of_800ms_at_16ms_frames_has_50_steps() {
    assert_eq!((PAUSE_MILLIS, GLIDE_MILLIS, FRAME_MILLIS), (5000, 800, 16));
    assert_eq!(glide_steps(800, 16), 50);
    assert_eq!(glide_steps(810, 16), 50);
    assert_eq!(glide_steps(10, 16), 1);
    assert_eq!(glide_steps(0, 16), 1);
    assert_eq!(glide_steps((1u128 << 32) + 3, 1), 3);
}

#[test]
fn jumping_mover_pauses_between_jumps_and_stops_on_clear_flag() {
    let mut reference = Lcg(99);
    let mut m = Mover::new(Lcg(99), Motion::Jump, 4);
    assert_eq!(m.next_command(true, 4), pause(5000));
    let x = reference.next_bits();
    let y = reference.next_bits();
    assert_eq!(m.next_command(true, 4), MoverCommand::JumpTo { x_bits: x, y_bits: y });
    assert_eq!(m.next_command(false, 4), pause(5000));
    let x = reference.next_bits();
    let y = reference.next_bits();
    assert_eq!(m.next_command(true, 4), MoverCommand::JumpTo { x_bits: x, y_bits: y });
    assert_eq!(m.next_command(true, 4), pause(5000));
    assert_eq!(m.next_command(false, 4), MoverCommand::Stop);
    assert_eq!(m.phase, MoverPhase::Stopped);
    assert_eq!(m.next_command(true, 4), MoverCommand::Stop);
    assert_eq!(m.rng.0, reference.0);
}

#[test]
fn glide_cycle_takes_five_seconds() {
    let mut reference = Lcg(7);
    let mut m = Mover::new(Lcg(7), Motion::Glide { steps: 50 }, 1);
    assert_eq!(m.next_command(true, 1), pause(5000));
    for _ in 0..3 {
        let x = reference.next_bits();
        let y = reference.next_bits();
        assert_eq!(m.next_command(true, 1), MoverCommand::BeginGlide { x_bits: x, y_bits: y });
        let mut spent = 0;
        for step in 1..=50 {
            assert_eq!(m.next_command(true, 1), MoverCommand::GlideTo { step, steps: 50 });
            spent += FRAME_MILLIS;
        }
        match m.next_command(true, 1) {
            MoverCommand::Pause { millis } => assert_eq!(spent + millis, PAUSE_MILLIS),
            other => panic!("expected a pause, got {:?}", other),
        }
    }
    assert_eq!(m.phase, MoverPhase::Paused);
    assert_eq!(m.next_command(false, 1), MoverCommand::Stop);
}

#[test]
fn glide_longer_than_the_period_is_followed_by_no_pause() {
    let mut m = Mover::new(Lcg(3), Motion::Glide { steps: 400 }, 0);
    m.next_command(true, 0);
    m.next_command(true, 0);
    for _ in 0..400 {
        m.next_command(true, 0);
    }
    assert_eq!(m.next_command(true, 0), pause(0));
}

#[test]
fn clear_flag_cuts_glide_short_then_pause_decides() {
    let mut m = Mover::new(Lcg(1), Motion::Glide { steps: 50 }, 9);
    m.next_command(true, 9);
    m.next_command(true, 9);
    assert_eq!(m.next_command(true, 9), MoverCommand::GlideTo { step: 1, steps: 50 });
    assert_eq!(m.next_command(false, 9), pause(5000 - 16));
    assert!(matches!(m.next_command(true, 9), MoverCommand::BeginGlide { .. }));
    assert_eq!(m.next_command(true, 9), MoverCommand::GlideTo { step: 1, steps: 50 });
}

#[test]
fn older_mover_stops_after_a_restart() {
    // A mover of generation 1 is asleep when the tray is stopped and started
    // again (generation 2): it wakes to a set flag but stops, and only the new
    // mover moves the cursor.
    let mut old = Mover::new(Lcg(1), Motion::Jump, 1);
    let mut new = Mover::new(Lcg(2), Motion::Jump, 2);
    assert_eq!(old.next_command(true, 1), pause(5000));
    assert_eq!(new.next_command(true, 2), pause(5000));
    assert_eq!(old.next_command(true, 2), MoverCommand::Stop);
    assert!(matches!(new.next_command(true, 2), MoverCommand::JumpTo { .. }));
}

#[test]
fn superseded_glide_is_cut_short() {
    let mut m = Mover::new(Lcg(1), Motion::Glide { steps: 5 }, 1);
    m.next_command(true, 1);
    m.next_command(true, 1);
    assert_eq!(m.next_command(true, 1), MoverCommand::GlideTo { step: 1, steps: 5 });
    assert_eq!(m.next_command(true, 2), pause(5000 - 16));
    assert_eq!(m.next_command(true, 2), MoverCommand::Stop);
}

#[test]
fn empty_glide_goes_straight_back_to_pause() {
    let mut m = Mover::new(Lcg(1), Motion::Glide { steps: 0 }, 0);
    m.next_command(true, 0);
    assert!(matches!(m.next_command(true, 0), MoverCommand::BeginGlide { .. }));
    assert_eq!(m.next_command(true, 0), pause(5000));
}
