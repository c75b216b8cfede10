//! The decisions of the menu-bar tray: what each menu choice and each press of the
//! global shortcut does to the running state, and what the tray shows.
//!
//! Two trays are described. `ToggleTray` has one Start/Stop item whose text follows
//! the state, a "Support project" item, a Quit item and the Cmd+Option+S shortcut,
//! and ignores toggles that come within `DEBOUNCE_NANOS` of the last accepted one.
//! `StartStopTray` has separate Start and Stop items, one of them enabled at a
//! time, and a Quit item.
//!
//! Every start of a mover opens a new generation. The surrounding program
//! publishes the running state together with the current generation, and a mover
//! goes on only while both say so (see the `mover` module), so a mover from an
//! earlier start never runs alongside the newest one.
//!
//! Times are nanoseconds on a monotonic clock, counted from any fixed origin.
use vstd::prelude::*;

verus! {

/// Toggles closer than this to the last accepted toggle are ignored (250 ms).
pub const DEBOUNCE_NANOS: u64 = 250_000_000;

/// How long the event loop waits before it polls for menu and shortcut events
/// again, in milliseconds.
pub const POLL_INTERVAL_MILLIS: u64 = 100;

/// What the surrounding program is to do after an event.
#[derive(Debug, Clone, Copy, PartialEq, Eq, Structural)]
pub enum TrayCommand {
    /// Nothing changes.
    Nothing,
    /// Show the state `running` (icon, tooltip, menu items) and publish it with
    /// the current mover generation `generation`; when `spawn_mover`, also start a
    /// cursor mover of that generation.
    Show { running: bool, spawn_mover: bool, generation: u64 },
    /// Open the project's support page.
    OpenSupportPage,
    /// Leave the event loop.
    Exit,
}

/// The tooltip for a state.
pub fn tooltip(running: bool) -> (t: &'static str)
    ensures
        running ==> t@ == "Mouse Cursor Mover \u{2013} Running"@,
        !running ==> t@ == "Mouse Cursor Mover \u{2013} Stopped"@,
{
    if running {
        "Mouse Cursor Mover \u{2013} Running"
    } else {
        "Mouse Cursor Mover \u{2013} Stopped"
    }
}

/// The generation after `g`, wrapping to zero after the largest.
pub open spec fn next_generation(g: u64) -> u64 {
    if g == u64::MAX {
        0
    } else {
        (g + 1) as u64
    }
}

fn following_generation(g: u64) -> (n: u64)
    ensures
        n == next_generation(g),
{
    if g == u64::MAX {
        0
    } else {
        g + 1
    }
}

/// The text of the toggle item for a state: what choosing it does.
pub fn toggle_text(running: bool) -> (t: &'static str)
    ensures
        running ==> t@ == "Stop"@,
        !running ==> t@ == "Start"@,
{
    if running {
        "Stop"
    } else {
        "Start"
    }
}

/// Whether the Start item is enabled in a state: only while stopped.
pub fn start_enabled(running: bool) -> (enabled: bool)
    ensures
        enabled == !running,
{
    !running
}

/// Whether the Stop item is enabled in a state: only while running.
pub fn stop_enabled(running: bool) -> (enabled: bool)
    ensures
        enabled == running,
{
    running
}

/// The state of the tray with a toggle item and a global shortcut.
#[derive(Debug, Clone, Copy, PartialEq, Eq, Structural)]
pub struct ToggleTray {
    /// Whether the cursor mover is active.
    pub running: bool,
    /// When the last accepted toggle happened.
    pub last_toggle_at: Option<u64>,
    /// The id of the registered global shortcut, once registration succeeded.
    pub hotkey_id: Option<u32>,
    /// Whether the tray icon and its menu have been built.
    pub tray_built: bool,
    /// The generation of the most recently started mover.
    pub generation: u64,
}

/// Time from `earlier` to `now`, zero when `now` is not later.
pub open spec fn elapsed(earlier: u64, now: u64) -> int {
    if now >= earlier {
        now - earlier
    } else {
        0
    }
}

/// Whether a toggle at `now` comes too soon after the last accepted one.
pub open spec fn too_soon(last: Option<u64>, now: u64) -> bool {
    match last {
        Some(l) => elapsed(l, now) < DEBOUNCE_NANOS,
        None => false,
    }
}

/// The state and command after a plain toggle.
pub open spec fn toggled(s: ToggleTray) -> (ToggleTray, TrayCommand) {
    let g = if !s.running {
        next_generation(s.generation)
    } else {
        s.generation
    };
    (
        ToggleTray { running: !s.running, generation: g, ..s },
        TrayCommand::Show { running: !s.running, spawn_mover: !s.running, generation: g },
    )
}

/// The state and command after a toggle request at `now`.
pub open spec fn debounced_toggle(s: ToggleTray, now: u64) -> (ToggleTray, TrayCommand) {
    if too_soon(s.last_toggle_at, now) {
        (s, TrayCommand::Nothing)
    } else {
        toggled(ToggleTray { last_toggle_at: Some(now), ..s })
    }
}

/// The state and command after a shortcut event: a press of the registered
/// shortcut requests a toggle; anything else is ignored.
pub open spec fn hotkey_step(s: ToggleTray, pressed: bool, id: u32, now: u64) -> (
    ToggleTray,
    TrayCommand,
) {
    if pressed && s.hotkey_id == Some(id) {
        debounced_toggle(s, now)
    } else {
        (s, TrayCommand::Nothing)
    }
}

/// The state and command after a menu event that matched the toggle item, the
/// support item and the quit item as given; the toggle item is tested first.
pub open spec fn menu_step(
    s: ToggleTray,
    hit_toggle: bool,
    hit_support: bool,
    hit_quit: bool,
    now: u64,
) -> (ToggleTray, TrayCommand) {
    if hit_toggle {
        debounced_toggle(s, now)
    } else if hit_support {
        (s, TrayCommand::OpenSupportPage)
    } else if hit_quit {
        (s, TrayCommand::Exit)
    } else {
        (s, TrayCommand::Nothing)
    }
}

impl ToggleTray {
    /// A stopped tray that has not been built and has no shortcut yet.
    pub fn new() -> (t: ToggleTray)
        ensures
            !t.running,
            t.last_toggle_at is None,
            t.hotkey_id is None,
            !t.tray_built,
            t.generation == 0,
    {
        ToggleTray {
            running: false,
            last_toggle_at: None,
            hotkey_id: None,
            tray_built: false,
            generation: 0,
        }
    }

    /// Called when the event loop (re)starts: true exactly the first time, when
    /// the tray is to be built; the tray then counts as built.
    pub fn begin_setup(&mut self) -> (build: bool)
        ensures
            build == !old(self).tray_built,
            *final(self) == (ToggleTray { tray_built: true, ..*old(self) }),
    {
        if self.tray_built {
            false
        } else {
            self.tray_built = true;
            true
        }
    }

    /// Whether the global shortcut still has to be registered.
    pub fn needs_hotkey(&self) -> (needed: bool)
        ensures
            needed == self.hotkey_id is None,
    {
        self.hotkey_id.is_none()
    }

    /// Record that the global shortcut with id `id` was registered.
    pub fn hotkey_registered(&mut self, id: u32)
        ensures
            *final(self) == (ToggleTray { hotkey_id: Some(id), ..*old(self) }),
    {
        self.hotkey_id = Some(id);
    }

    /// Set the running state and say what to show; no mover is started.
    pub fn set_running(&mut self, running: bool) -> (cmd: TrayCommand)
        ensures
            *final(self) == (ToggleTray { running, ..*old(self) }),
            cmd == (TrayCommand::Show { running, spawn_mover: false, generation: old(self).generation }),
    {
        self.running = running;
        TrayCommand::Show { running, spawn_mover: false, generation: self.generation }
    }

    /// Flip the running state; when it turns on, a mover of a new generation is
    /// started.
    pub fn toggle_running(&mut self) -> (cmd: TrayCommand)
        ensures
            (*final(self), cmd) == toggled(*old(self)),
    {
        let next = !self.running;
        self.set_running(next);
        if next {
            self.generation = following_generation(self.generation);
        }
        TrayCommand::Show { running: next, spawn_mover: next, generation: self.generation }
    }

    /// A toggle request at `now`: ignored when it comes less than
    /// `DEBOUNCE_NANOS` after the last accepted toggle, else accepted.
    pub fn toggle_running_debounced(&mut self, now: u64) -> (cmd: TrayCommand)
        ensures
            (*final(self), cmd) == debounced_toggle(*old(self), now),
    {
        let soon = match self.last_toggle_at {
            Some(last) => now.saturating_sub(last) < DEBOUNCE_NANOS,
            None => false,
        };
        if soon {
            return TrayCommand::Nothing;
        }
        self.last_toggle_at = Some(now);
        self.toggle_running()
    }

    /// A global shortcut event with the given id, pressed or released, at `now`.
    pub fn on_hotkey_event(&mut self, pressed: bool, id: u32, now: u64) -> (cmd: TrayCommand)
        ensures
            (*final(self), cmd) == hotkey_step(*old(self), pressed, id, now),
    {
        let matches = match self.hotkey_id {
            Some(h) => h == id,
            None => false,
        };
        if pressed && matches {
            self.toggle_running_debounced(now)
        } else {
            TrayCommand::Nothing
        }
    }

    /// A menu event at `now`, given which of the toggle, support and quit items
    /// its id matched.
    pub fn on_menu_event(&mut self, hit_toggle: bool, hit_support: bool, hit_quit: bool, now: u64) -> (cmd: TrayCommand)
        ensures
            (*final(self), cmd) == menu_step(*old(self), hit_toggle, hit_support, hit_quit, now),
    {
        if hit_toggle {
            self.toggle_running_debounced(now)
        } else if hit_support {
            TrayCommand::OpenSupportPage
        } else if hit_quit {
            TrayCommand::Exit
        } else {
            TrayCommand::Nothing
        }
    }
}

/// The state of the tray with separate Start and Stop items.
#[derive(Debug, Clone, Copy, PartialEq, Eq, Structural)]
pub struct StartStopTray {
    /// Whether the cursor mover is active.
    pub running: bool,
    /// Whether the tray icon and its menu have been built.
    pub tray_built: bool,
    /// The generation of the most recently started mover.
    pub generation: u64,
}

/// The state and command after a menu event that matched the Start, Stop and
/// Quit items as given; Start is tested first, then Stop.
pub open spec fn start_stop_step(s: StartStopTray, hit_start: bool, hit_stop: bool, hit_quit: bool) -> (
    StartStopTray,
    TrayCommand,
) {
    if hit_start {
        (
            StartStopTray { running: true, generation: next_generation(s.generation), ..s },
            TrayCommand::Show {
                running: true,
                spawn_mover: true,
                generation: next_generation(s.generation),
            },
        )
    } else if hit_stop {
        (
            StartStopTray { running: false, ..s },
            TrayCommand::Show { running: false, spawn_mover: false, generation: s.generation },
        )
    } else if hit_quit {
        (s, TrayCommand::Exit)
    } else {
        (s, TrayCommand::Nothing)
    }
}

impl StartStopTray {
    /// A stopped tray that has not been built.
    pub fn new() -> (t: StartStopTray)
        ensures
            !t.running,
            !t.tray_built,
            t.generation == 0,
    {
        StartStopTray { running: false, tray_built: false, generation: 0 }
    }

    /// Called when the event loop (re)starts: true exactly the first time, when
    /// the tray is to be built; the tray then counts as built.
    pub fn begin_setup(&mut self) -> (build: bool)
        ensures
            build == !old(self).tray_built,
            *final(self) == (StartStopTray { tray_built: true, ..*old(self) }),
    {
        if self.tray_built {
            false
        } else {
            self.tray_built = true;
            true
        }
    }

    /// Set the running state and say what to show; no mover is started.
    pub fn set_running(&mut self, running: bool) -> (cmd: TrayCommand)
        ensures
            *final(self) == (StartStopTray { running, ..*old(self) }),
            cmd == (TrayCommand::Show { running, spawn_mover: false, generation: old(self).generation }),
    {
        self.running = running;
        TrayCommand::Show { running, spawn_mover: false, generation: self.generation }
    }

    /// A menu event, given which of the Start, Stop and Quit items its id
    /// matched: Start turns the mover on and starts one, Stop turns it off, Quit
    /// leaves.
    pub fn on_menu_event(&mut self, hit_start: bool, hit_stop: bool, hit_quit: bool) -> (cmd: TrayCommand)
        ensures
            (*final(self), cmd) == start_stop_step(*old(self), hit_start, hit_stop, hit_quit),
    {
        if hit_start {
            self.set_running(true);
            self.generation = following_generation(self.generation);
            TrayCommand::Show { running: true, spawn_mover: true, generation: self.generation }
        } else if hit_stop {
            self.set_running(false)
        } else if hit_quit {
            TrayCommand::Exit
        } else {
            TrayCommand::Nothing
        }
    }
}

/// Debounce: once a toggle has been accepted at `t`, every toggle request at a
/// time from `t` up to (not including) `t + DEBOUNCE_NANOS` is ignored and leaves
/// the state as it was.
pub proof fn lemma_debounce_ignores_close_toggles(s: ToggleTray, t: u64, now: u64)
    requires
        debounced_toggle(s, t).1 != TrayCommand::Nothing,
        t <= now,
        now - t < DEBOUNCE_NANOS,
    ensures
        debounced_toggle(debounced_toggle(s, t).0, now) == (debounced_toggle(s, t).0, TrayCommand::Nothing),
{
}

/// Debounce: a toggle request at least `DEBOUNCE_NANOS` after the last accepted
/// one (or with none before) is always accepted: it flips the state and records
/// its time.
pub proof fn lemma_toggle_accepted_after_window(s: ToggleTray, now: u64)
    requires
        match s.last_toggle_at {
            Some(l) => l <= now && now - l >= DEBOUNCE_NANOS,
            None => true,
        },
    ensures
        debounced_toggle(s, now).0.running == !s.running,
        debounced_toggle(s, now).0.last_toggle_at == Some(now),
        debounced_toggle(s, now).1 is Show,
{
}

/// The state after a run of toggle requests at the times `times`, in order.
pub open spec fn toggle_burst(s: ToggleTray, times: Seq<u64>) -> ToggleTray
    decreases times.len(),
{
    if times.len() == 0 {
        s
    } else {
        toggle_burst(debounced_toggle(s, times[0]).0, times.drop_first())
    }
}

/// The number of requests in a run that are accepted.
pub open spec fn accepted_count(s: ToggleTray, times: Seq<u64>) -> nat
    decreases times.len(),
{
    if times.len() == 0 {
        0
    } else {
        (if debounced_toggle(s, times[0]).1 is Show {
            1nat
        } else {
            0nat
        }) + accepted_count(debounced_toggle(s, times[0]).0, times.drop_first())
    }
}

proof fn lemma_burst_tail_ignored(s: ToggleTray, t1: u64, times: Seq<u64>)
    requires
        s.last_toggle_at == Some(t1),
        forall|i: int| 0 <= i < times.len() ==> t1 <= #[trigger] times[i] && times[i] - t1 < DEBOUNCE_NANOS,
    ensures
        toggle_burst(s, times) == s,
        accepted_count(s, times) == 0,
    decreases times.len(),
{
    if times.len() > 0 {
        assert(t1 <= times[0] && times[0] - t1 < DEBOUNCE_NANOS);
        assert(debounced_toggle(s, times[0]) == (s, TrayCommand::Nothing));
        let tail = times.drop_first();
        assert forall|i: int| 0 <= i < tail.len() implies t1 <= #[trigger] tail[i] && tail[i] - t1
            < DEBOUNCE_NANOS by {
            assert(tail[i] == times[i + 1]);
        }
        lemma_burst_tail_ignored(s, t1, tail);
    }
}

/// A burst of toggle requests (from the shortcut or the menu) that all come
/// within `DEBOUNCE_NANOS` of its first, accepted, request acts as one toggle:
/// the running state ends flipped, the last toggle is the first request, and only
/// one request is accepted, so at most one mover is started.
pub proof fn lemma_burst_acts_as_one_toggle(s: ToggleTray, times: Seq<u64>)
    requires
        times.len() >= 1,
        !too_soon(s.last_toggle_at, times[0]),
        forall|i: int| 0 <= i < times.len() ==> times[0] <= #[trigger] times[i] && times[i] - times[0] < DEBOUNCE_NANOS,
    ensures
        toggle_burst(s, times).running == !s.running,
        toggle_burst(s, times).last_toggle_at == Some(times[0]),
        accepted_count(s, times) == 1,
{
    let s1 = debounced_toggle(s, times[0]).0;
    let tail = times.drop_first();
    assert forall|i: int| 0 <= i < tail.len() implies times[0] <= #[trigger] tail[i] && tail[i]
        - times[0] < DEBOUNCE_NANOS by {
        assert(tail[i] == times[i + 1]);
    }
    lemma_burst_tail_ignored(s1, times[0], tail);
}

/// Two accepted toggles bring the running state back to where it was; each of
/// them starts a mover exactly when it turns the state on.
pub proof fn lemma_two_toggles_restore(s: ToggleTray, t1: u64, t2: u64)
    requires
        !too_soon(s.last_toggle_at, t1),
        !too_soon(Some(t1), t2),
    ensures
        debounced_toggle(debounced_toggle(s, t1).0, t2).0.running == s.running,
        debounced_toggle(s, t1).1 matches TrayCommand::Show { spawn_mover, .. } && spawn_mover
            == !s.running,
        debounced_toggle(debounced_toggle(s, t1).0, t2).1 matches TrayCommand::Show {
            spawn_mover,
            ..
        } && spawn_mover == s.running,
{
}

/// Every command the toggle tray gives matches its new state: a `Show` shows the
/// new running state and generation, and starts a mover exactly when it turns the
/// state on, in which case the generation is the one after the old; otherwise
/// the generation stays. Any other command leaves the state's running flag and
/// generation alone.
pub proof fn lemma_toggle_commands_match_state(
    s: ToggleTray,
    hit_toggle: bool,
    hit_support: bool,
    hit_quit: bool,
    pressed: bool,
    id: u32,
    now: u64,
)
    ensures
        shows_state(s, menu_step(s, hit_toggle, hit_support, hit_quit, now).0.running,
            menu_step(s, hit_toggle, hit_support, hit_quit, now).0.generation,
            menu_step(s, hit_toggle, hit_support, hit_quit, now).1),
        shows_state(s, hotkey_step(s, pressed, id, now).0.running, hotkey_step(s, pressed, id, now).0.generation,
            hotkey_step(s, pressed, id, now).1),
{
}

/// A command agrees with the state it leads to (`running`, `generation`) from a
/// state with old running flag and generation as in `s`.
pub open spec fn shows_state(s: ToggleTray, running: bool, generation: u64, cmd: TrayCommand) -> bool {
    match cmd {
        TrayCommand::Show { running: r, spawn_mover, generation: g } => {
            &&& r == running
            &&& g == generation
            &&& spawn_mover == (running && !s.running)
            &&& g == (if spawn_mover {
                next_generation(s.generation)
            } else {
                s.generation
            })
        },
        _ => running == s.running && generation == s.generation,
    }
}

/// A new mover never shares its generation with the mover started just before
/// it, so that one stops at its next check.
pub proof fn lemma_new_mover_new_generation(g: u64)
    ensures
        next_generation(g) != g,
{
}

/// Released shortcuts, and shortcuts other than the registered one, never change
/// the tray.
pub proof fn lemma_only_registered_presses_toggle(s: ToggleTray, pressed: bool, id: u32, now: u64)
    requires
        !pressed || s.hotkey_id != Some(id),
    ensures
        hotkey_step(s, pressed, id, now) == (s, TrayCommand::Nothing),
{
}

/// Start always leaves the start/stop tray running with a mover of a new
/// generation, Stop always leaves it stopped, and Quit leaves its state alone.
pub proof fn lemma_start_stop_outcomes(s: StartStopTray)
    ensures
        start_stop_step(s, true, false, false).0.running,
        start_stop_step(s, true, false, false).1 == (TrayCommand::Show {
            running: true,
            spawn_mover: true,
            generation: next_generation(s.generation),
        }),
        !start_stop_step(s, false, true, false).0.running,
        start_stop_step(s, false, false, true) == (s, TrayCommand::Exit),
{
}

/// Stop (when Start was not also matched) always shows and publishes the stopped
/// state: the tray becomes stopped, keeps everything else, and the command shows
/// "not running" with the current generation and starts no mover.
pub proof fn lemma_stop_shows_stopped(s: StartStopTray, hit_quit: bool)
    ensures
        start_stop_step(s, false, true, hit_quit).0 == (StartStopTray {
            running: false,
            tray_built: s.tray_built,
            generation: s.generation,
        }),
        start_stop_step(s, false, true, hit_quit).1 == (TrayCommand::Show {
            running: false,
            spawn_mover: false,
            generation: s.generation,
        }),
{
}

/// Start always shows and publishes the running state with a mover of the next
/// generation (wrapping after the largest).
pub proof fn lemma_start_shows_running(s: StartStopTray, hit_stop: bool, hit_quit: bool)
    ensures
        start_stop_step(s, true, hit_stop, hit_quit).0 == (StartStopTray {
            running: true,
            tray_built: s.tray_built,
            generation: if s.generation == u64::MAX { 0 } else { (s.generation + 1) as u64 },
        }),
        start_stop_step(s, true, hit_stop, hit_quit).1 == (TrayCommand::Show {
            running: true,
            spawn_mover: true,
            generation: if s.generation == u64::MAX { 0 } else { (s.generation + 1) as u64 },
        }),
{
}

/// Whether a toggle request at `now` falls outside the debounce window of the
/// last accepted toggle, written out: there was none, or it was at or before
/// `now` and at least 250 ms earlier.
pub open spec fn window_open(last: Option<u64>, now: u64) -> bool {
    match last {
        None => true,
        Some(l) => l <= now && now - l >= 250_000_000,
    }
}

/// What an accepted toggle request at `now` does to a toggle tray `s`, written
/// out: it flips the running state, records `now` as the last toggle, opens the
/// next generation when it turns the tray on, keeps the rest, and shows the new
/// state, starting a mover exactly when it turns the tray on.
pub open spec fn accepted_toggle_outcome(s: ToggleTray, now: u64, r: (ToggleTray, TrayCommand)) -> bool {
    let g = if s.running {
        s.generation
    } else if s.generation == u64::MAX {
        0
    } else {
        (s.generation + 1) as u64
    };
    &&& r.0 == (ToggleTray {
        running: !s.running,
        last_toggle_at: Some(now),
        hotkey_id: s.hotkey_id,
        tray_built: s.tray_built,
        generation: g,
    })
    &&& r.1 == (TrayCommand::Show { running: !s.running, spawn_mover: !s.running, generation: g })
}

/// A press of the registered shortcut at `now` toggles: outside the debounce
/// window it flips the running state and records `now` as the last toggle; inside
/// it (less than 250 ms after the last accepted toggle, or before it) it changes
/// nothing.
pub proof fn lemma_registered_press_toggles(s: ToggleTray, id: u32, now: u64)
    requires
        s.hotkey_id == Some(id),
    ensures
        window_open(s.last_toggle_at, now) ==> accepted_toggle_outcome(
            s,
            now,
            hotkey_step(s, true, id, now),
        ),
        !window_open(s.last_toggle_at, now) ==> hotkey_step(s, true, id, now) == (
            s,
            TrayCommand::Nothing,
        ),
{
}

/// Choosing the toggle item at `now` toggles, whatever else the event matched:
/// outside the debounce window it flips the running state (stopping a running
/// tray, starting a stopped one) and records `now`; inside it it changes nothing.
pub proof fn lemma_toggle_item_toggles(s: ToggleTray, hit_support: bool, hit_quit: bool, now: u64)
    ensures
        window_open(s.last_toggle_at, now) ==> accepted_toggle_outcome(
            s,
            now,
            menu_step(s, true, hit_support, hit_quit, now),
        ),
        !window_open(s.last_toggle_at, now) ==> menu_step(s, true, hit_support, hit_quit, now) == (
            s,
            TrayCommand::Nothing,
        ),
{
}

} // verus!
