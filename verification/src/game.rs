//! The game process, as far as decisions go: one installation at a time,
//! what the launcher does while the game runs and when it is asked to close,
//! how often progress reaches the interface, and how the game's output is
//! written to its log and sent on. Spawning, waiting and notifying stay with
//! the application, which keeps a `GameManager` behind a lock.

use vstd::prelude::*;

use crate::error::{is_error, spawn_failure, AppError, AppResult};
use crate::models::Instance;
use crate::paths::{join, path_join};
use crate::settings::LauncherBehavior;
use crate::text::{from_chars, push_str, string_views, to_chars};
use crate::util::{redact, redact_seq};

verus! {

/// Progress reaches the interface at most once per interval, in
/// milliseconds, besides the last event of a download or a check.
pub const PROGRESS_INTERVAL_MS: u64 = 100;

/// Game output is batched and sent at this interval, in milliseconds.
pub const LOG_FLUSH_INTERVAL_MS: u64 = 150;

/// Longest line of game output kept whole, in characters.
pub const MAX_LOG_LINE: usize = 4000;

/// The game the launcher started.
pub struct RunningGame {
    pub instance_id: String,
    pub instance_name: String,
    pub pid: Option<u32>,
    pub started_at: u64,
    /// Closing the launcher stops the game.
    pub bound: bool,
    /// The launcher window was hidden while the game runs.
    pub hidden_launcher: bool,
}

impl RunningGame {
    /// The game that just started for `instance`, under the launcher
    /// behaviour of the settings.
    pub fn new(instance: &Instance, pid: Option<u32>, started_at: u64, behavior: LauncherBehavior) -> (r:
        RunningGame)
        ensures
            r.instance_id@ == instance.id@,
            r.instance_name@ == instance.name@,
            r.pid == pid,
            r.started_at == started_at,
            r.bound == (behavior == LauncherBehavior::Bound),
            r.hidden_launcher == (behavior == LauncherBehavior::Hide),
    {
        RunningGame {
            instance_id: instance.id.clone(),
            instance_name: instance.name.clone(),
            pid,
            started_at,
            bound: behavior == LauncherBehavior::Bound,
            hidden_launcher: behavior == LauncherBehavior::Hide,
        }
    }
}

// ── One run at a time ───────────────────────────────────────────────────────

/// What the manager knows.
pub struct GameState {
    /// An installation or a launch is in progress.
    pub busy: bool,
    /// The run in progress can be cancelled.
    pub cancellable: bool,
    pub running: Option<RunningGame>,
}

/// A run may begin only when none is in progress.
pub open spec fn begin_state(s: GameState) -> Option<GameState> {
    if s.busy {
        None
    } else {
        Some(GameState { busy: true, ..s })
    }
}

/// A finished run leaves nothing to cancel.
pub open spec fn end_state(s: GameState) -> GameState {
    GameState { busy: false, cancellable: false, ..s }
}

pub struct GameManager {
    running: Option<RunningGame>,
    busy: bool,
    cancellable: bool,
}

impl GameManager {
    pub closed spec fn view(&self) -> GameState {
        GameState { busy: self.busy, cancellable: self.cancellable, running: self.running }
    }

    pub fn new() -> (m: Self)
        ensures
            m@ == (GameState { busy: false, cancellable: false, running: None }),
    {
        GameManager { running: None, busy: false, cancellable: false }
    }

    pub fn running(&self) -> (r: Option<&RunningGame>)
        ensures
            match r {
                Some(g) => self@.running == Some(*g),
                None => self@.running is None,
            },
    {
        match &self.running {
            Some(g) => Some(g),
            None => None,
        }
    }

    pub fn is_running(&self) -> (r: bool)
        ensures
            r == self@.running is Some,
    {
        self.running.is_some()
    }

    pub fn is_busy(&self) -> (r: bool)
        ensures
            r == self@.busy,
    {
        self.busy
    }

    /// Starts a run, unless one is in progress.
    pub fn begin(&mut self) -> (r: AppResult<()>)
        ensures
            match begin_state(old(self)@) {
                Some(s) => r is Ok && final(self)@ == s,
                None => r matches Err(e) && is_error(
                    e,
                    "busy"@,
                    "an installation is already in progress"@,
                ) && final(self)@ == old(self)@,
            },
    {
        if self.busy {
            return Err(AppError::new("busy", "an installation is already in progress"));
        }
        self.busy = true;
        Ok(())
    }

    /// Ends the run in progress.
    pub fn end(&mut self)
        ensures
            final(self)@ == end_state(old(self)@),
    {
        self.busy = false;
        self.cancellable = false;
    }

    /// The run in progress can now be cancelled.
    pub fn arm_cancel(&mut self)
        ensures
            final(self)@ == (GameState { cancellable: true, ..old(self)@ }),
    {
        self.cancellable = true;
    }

    /// Whether there is a run to cancel (the application then notifies it).
    pub fn cancel(&self) -> (r: bool)
        ensures
            r == self@.cancellable,
    {
        self.cancellable
    }

    /// Whether there is a game to stop (the application then stops it).
    pub fn kill(&self) -> (r: bool)
        ensures
            r == self@.running is Some,
    {
        self.running.is_some()
    }

    /// The game started.
    pub fn started(&mut self, game: RunningGame)
        ensures
            final(self)@ == (GameState { running: Some(game), ..old(self)@ }),
    {
        self.running = Some(game);
    }

    /// What a spawn of the game's Java process leaves: on success the game is
    /// recorded as running and `Started` is the first event the interface is
    /// sent; on failure nothing is recorded and the run fails with
    /// `launch_failed`, the reason and the Java executable.
    pub fn spawned(
        &mut self,
        outcome: Result<Option<u32>, String>,
        instance: &Instance,
        started_at: u64,
        behavior: LauncherBehavior,
        java: &str,
    ) -> (r: Result<GameEvent, AppError>)
        ensures
            match outcome {
                Ok(pid) => {
                    &&& r == Ok::<GameEvent, AppError>(GameEvent::Started { pid })
                    &&& final(self)@.busy == old(self)@.busy
                    &&& final(self)@.cancellable == old(self)@.cancellable
                    &&& final(self)@.running matches Some(g) && g.pid == pid && g.instance_id@
                        == instance.id@ && g.instance_name@ == instance.name@ && g.started_at
                        == started_at && g.bound == (behavior == LauncherBehavior::Bound)
                        && g.hidden_launcher == (behavior == LauncherBehavior::Hide)
                },
                Err(reason) => {
                    &&& final(self)@ == old(self)@
                    &&& r matches Err(e) && e.code@ == "launch_failed"@ && e.message@
                        == "could not start Java: "@ + reason@ && (e.details matches Some(d)
                        && d@ == java@)
                },
            },
    {
        match outcome {
            Ok(pid) => {
                self.started(RunningGame::new(instance, pid, started_at, behavior));
                Ok(GameEvent::Started { pid })
            },
            Err(reason) => Err(spawn_failure(reason.as_str(), java)),
        }
    }

    /// The game exited: it is no longer running.
    pub fn exited(&mut self) -> (r: Option<RunningGame>)
        ensures
            r == old(self)@.running,
            final(self)@ == (GameState { running: None, ..old(self)@ }),
    {
        self.running.take()
    }
}

// ── Closing the launcher ────────────────────────────────────────────────────

/// What to do when the launcher is asked to close.
pub struct ExitDecision {
    /// Keep the launcher open for now.
    pub prevent_exit: bool,
    /// Stop the game first.
    pub kill_game: bool,
    /// The launcher is closing once the game has stopped.
    pub exiting: bool,
}

/// A close the code asked for (`code` given) goes through, and so does one
/// with no game or a detached one. A bound game is stopped first, once, and
/// the launcher waits for it.
pub open spec fn exit_decision(code_given: bool, bound_game: Option<bool>, exiting: bool) -> ExitDecision {
    if code_given || bound_game is None || !bound_game.unwrap() {
        ExitDecision { prevent_exit: false, kill_game: false, exiting }
    } else {
        ExitDecision { prevent_exit: true, kill_game: !exiting, exiting: true }
    }
}

pub open spec fn bound_of(game: Option<&RunningGame>) -> Option<bool> {
    match game {
        Some(g) => Some(g.bound),
        None => None,
    }
}

pub fn on_exit_requested(code: Option<i32>, running: Option<&RunningGame>, exiting: bool) -> (r:
    ExitDecision)
    ensures
        r == exit_decision(code is Some, bound_of(running), exiting),
{
    let detached = match running {
        Some(g) => !g.bound,
        None => true,
    };
    if code.is_some() || detached {
        ExitDecision { prevent_exit: false, kill_game: false, exiting }
    } else {
        ExitDecision { prevent_exit: true, kill_game: !exiting, exiting: true }
    }
}

/// What follows the game's exit.
#[derive(Clone, Copy, PartialEq, Eq, Debug, Structural)]
pub enum AfterExit {
    /// The launcher was closing: it closes now.
    CloseLauncher,
    /// The launcher was hidden while the game ran: it is shown again.
    ShowLauncher,
    Nothing,
}

pub fn after_game_exit(exiting: bool, game: Option<&RunningGame>) -> (r: AfterExit)
    ensures
        r == if exiting {
            AfterExit::CloseLauncher
        } else if game matches Some(g) && g.hidden_launcher {
            AfterExit::ShowLauncher
        } else {
            AfterExit::Nothing
        },
{
    if exiting {
        return AfterExit::CloseLauncher;
    }
    match game {
        Some(g) => if g.hidden_launcher {
            AfterExit::ShowLauncher
        } else {
            AfterExit::Nothing
        },
        None => AfterExit::Nothing,
    }
}

// ── Progress ────────────────────────────────────────────────────────────────

/// An event passes when it is the last one, when none passed before, or when
/// the interval has elapsed since the last one that passed.
pub open spec fn admits(last: Option<u64>, now_ms: u64, done: bool) -> bool {
    done || match last {
        None => true,
        Some(t) => now_ms >= t + PROGRESS_INTERVAL_MS,
    }
}

/// Keeps the noisy progress events to one per interval.
pub struct Throttle {
    last: Option<u64>,
}

impl Throttle {
    /// When the last event passed, in milliseconds.
    pub closed spec fn last(&self) -> Option<u64> {
        self.last
    }

    pub fn new() -> (r: Throttle)
        ensures
            r.last() is None,
    {
        Throttle { last: None }
    }

    /// Whether an event at `now_ms` passes; `done` marks the last one.
    pub fn pass(&mut self, now_ms: u64, done: bool) -> (r: bool)
        ensures
            r == admits(old(self).last(), now_ms, done),
            r ==> final(self).last() == Some(now_ms),
            !r ==> final(self).last() == old(self).last(),
    {
        let pass = done || match self.last {
            None => true,
            Some(t) => now_ms >= t && now_ms - t >= PROGRESS_INTERVAL_MS,
        };
        if pass {
            self.last = Some(now_ms);
        }
        pass
    }
}

/// A download is over when something was to be downloaded and all of it was.
pub fn progress_done(downloaded: u64, total: u64) -> (r: bool)
    ensures
        r == (total > 0 && downloaded >= total),
{
    total > 0 && downloaded >= total
}

/// A check is over when every file was checked.
pub fn check_done(checked: usize, total: usize) -> (r: bool)
    ensures
        r == (checked >= total),
{
    checked >= total
}

// ── Game output ─────────────────────────────────────────────────────────────

/// The stream a line of output came from.
#[derive(Clone, Copy, PartialEq, Eq, Debug, Structural)]
pub enum OutputStream {
    Stdout,
    Stderr,
}

pub open spec fn stream_name(s: OutputStream) -> Seq<char> {
    match s {
        OutputStream::Stdout => "stdout"@,
        OutputStream::Stderr => "stderr"@,
    }
}

impl OutputStream {
    pub fn name(&self) -> (r: &'static str)
        ensures
            r@ == stream_name(*self),
    {
        match self {
            OutputStream::Stdout => "stdout",
            OutputStream::Stderr => "stderr",
        }
    }
}

/// A line longer than `MAX_LOG_LINE` characters is cut there and marked.
pub open spec fn clipped(line: Seq<char>) -> Seq<char> {
    if line.len() > MAX_LOG_LINE {
        line.take(MAX_LOG_LINE as int) + "…"@
    } else {
        line
    }
}

/// A line of game output as it is kept: secrets redacted, then clipped.
pub fn output_line(line: &str, secrets: &[String]) -> (r: String)
    ensures
        r@ == clipped(redact_seq(line@, string_views(secrets@))),
{
    let redacted = redact(line, secrets);
    let chars = to_chars(redacted.as_str());
    if chars.len() > MAX_LOG_LINE {
        let mut kept: Vec<char> = Vec::new();
        let mut i: usize = 0;
        while i < MAX_LOG_LINE
            invariant
                i <= MAX_LOG_LINE < chars@.len(),
                kept@ == chars@.take(i as int),
            decreases MAX_LOG_LINE - i,
        {
            kept.push(chars[i]);
            assert(chars@.take(i + 1) =~= chars@.take(i as int).push(chars@[i as int]));
            i += 1;
        }
        push_str(&mut kept, "…");
        from_chars(&kept)
    } else {
        redacted
    }
}

/// The directory of an instance's game logs, its `latest.log`, and the
/// `previous.log` the last run's log is kept as.
pub fn game_log_files(game_logs_dir: &str, instance_id: &str) -> (r: (String, String, String))
    ensures
        r.0@ == path_join(game_logs_dir@, instance_id@),
        r.1@ == path_join(r.0@, "latest.log"@),
        r.2@ == path_join(r.0@, "previous.log"@),
{
    let dir = join(game_logs_dir, instance_id);
    let latest = join(dir.as_str(), "latest.log");
    let previous = join(dir.as_str(), "previous.log");
    (dir, latest, previous)
}

pub open spec fn pending_views(p: Seq<(OutputStream, String)>) -> Seq<(OutputStream, Seq<char>)> {
    p.map_values(|e: (OutputStream, String)| (e.0, e.1@))
}

/// The log file's text for a batch: one line each, stderr marked.
pub open spec fn file_text(p: Seq<(OutputStream, Seq<char>)>) -> Seq<char>
    decreases p.len(),
{
    if p.len() == 0 {
        Seq::empty()
    } else {
        file_text(p.drop_last()) + (if p.last().0 == OutputStream::Stderr {
            "[stderr] "@
        } else {
            Seq::empty()
        }) + p.last().1 + "\n"@
    }
}

pub fn log_file_text(pending: &Vec<(OutputStream, String)>) -> (r: String)
    ensures
        r@ == file_text(pending_views(pending@)),
{
    let mut text: Vec<char> = Vec::new();
    let mut i: usize = 0;
    while i < pending.len()
        invariant
            i <= pending@.len(),
            text@ == file_text(pending_views(pending@.take(i as int))),
        decreases pending@.len() - i,
    {
        let ghost before = text@;
        proof {
            reveal_strlit("\n");
        }
        if pending[i].0 == OutputStream::Stderr {
            push_str(&mut text, "[stderr] ");
        }
        push_str(&mut text, pending[i].1.as_str());
        text.push('\n');
        assert(pending_views(pending@.take(i + 1)).drop_last() =~= pending_views(
            pending@.take(i as int),
        ));
        assert(pending_views(pending@.take(i + 1)).last() == (pending@[i as int].0, pending@[i as int].1@));
        assert(text@ =~= file_text(pending_views(pending@.take(i + 1))));
        i += 1;
    }
    assert(pending@.take(pending@.len() as int) =~= pending@);
    from_chars(&text)
}

pub open spec fn tagged(s: OutputStream, lines: Seq<Seq<char>>) -> Seq<(OutputStream, Seq<char>)> {
    lines.map_values(|l: Seq<char>| (s, l))
}

/// The lines of the groups, in order, each with its group's stream.
pub open spec fn flatten_groups(g: Seq<(OutputStream, Seq<Seq<char>>)>) -> Seq<
    (OutputStream, Seq<char>),
>
    decreases g.len(),
{
    if g.len() == 0 {
        Seq::empty()
    } else {
        flatten_groups(g.drop_last()) + tagged(g.last().0, g.last().1)
    }
}

pub open spec fn group_views(g: Seq<(OutputStream, Vec<String>)>) -> Seq<
    (OutputStream, Seq<Seq<char>>),
> {
    g.map_values(|e: (OutputStream, Vec<String>)| (e.0, string_views(e.1@)))
}

/// Groups of lines that follow each other on one stream: together they are
/// the batch, in order; none is empty; two groups in a row never share a
/// stream.
pub open spec fn grouping_of(g: Seq<(OutputStream, Seq<Seq<char>>)>, p: Seq<(OutputStream, Seq<char>)>) -> bool {
    &&& flatten_groups(g) == p
    &&& forall|i: int| 0 <= i < g.len() ==> #[trigger] g[i].1.len() > 0
    &&& forall|i: int| 0 < i < g.len() ==> #[trigger] g[i].0 != g[i - 1].0
}

/// The batch in runs of lines of one stream, as the interface receives it.
pub fn group_by_stream(pending: &Vec<(OutputStream, String)>) -> (r: Vec<(OutputStream, Vec<String>)>)
    ensures
        grouping_of(group_views(r@), pending_views(pending@)),
{
    let mut groups: Vec<(OutputStream, Vec<String>)> = Vec::new();
    let mut i: usize = 0;
    assert(pending_views(pending@.take(0)) =~= Seq::empty());
    assert(group_views(groups@) =~= Seq::empty());
    while i < pending.len()
        invariant
            i <= pending@.len(),
            grouping_of(group_views(groups@), pending_views(pending@.take(i as int))),
            i > 0 ==> groups@.len() > 0 && groups@.last().0 == pending@[i - 1].0,
            i == 0 ==> groups@.len() == 0,
        decreases pending@.len() - i,
    {
        let stream = pending[i].0;
        let line = pending[i].1.clone();
        let ghost before = group_views(groups@);
        let n = groups.len();
        if n > 0 && groups[n - 1].0 == stream {
            let (s, mut lines) = groups.pop().unwrap();
            let ghost old_lines = string_views(lines@);
            lines.push(line);
            groups.push((s, lines));
            proof {
                let g = group_views(groups@);
                assert(g.drop_last() =~= before.drop_last());
                assert(string_views(lines@) =~= old_lines.push(line@));
                assert(tagged(s, old_lines.push(line@)) =~= tagged(s, old_lines).push(
                    (s, line@),
                ));
                assert(before.drop_last().len() == g.drop_last().len());
                assert(flatten_groups(g) =~= flatten_groups(before).push((stream, line@)));
                assert forall|k: int| 0 <= k < g.len() implies #[trigger] g[k].1.len() > 0 by {
                    if k < g.len() - 1 {
                        assert(g[k] == before[k]);
                    }
                }
                assert forall|k: int| 0 < k < g.len() implies #[trigger] g[k].0 != g[k - 1].0 by {
                    assert(g[k - 1] == before[k - 1]);
                    if k < g.len() - 1 {
                        assert(g[k] == before[k]);
                    }
                }
            }
        } else {
            let mut lines: Vec<String> = Vec::new();
            lines.push(line);
            groups.push((stream, lines));
            proof {
                let g = group_views(groups@);
                assert(g.drop_last() =~= before);
                assert(string_views(lines@) =~= seq![line@]);
                assert(tagged(stream, seq![line@]) =~= seq![(stream, line@)]);
                assert(flatten_groups(g) =~= flatten_groups(before).push((stream, line@)));
                assert forall|k: int| 0 <= k < g.len() implies #[trigger] g[k].1.len() > 0 by {
                    if k < g.len() - 1 {
                        assert(g[k] == before[k]);
                    }
                }
                assert forall|k: int| 0 < k < g.len() implies #[trigger] g[k].0 != g[k - 1].0 by {
                    assert(g[k - 1] == before[k - 1]);
                    if k < g.len() - 1 {
                        assert(g[k] == before[k]);
                    }
                }
            }
        }
        assert(pending_views(pending@.take(i + 1)) =~= pending_views(pending@.take(i as int)).push(
            (stream, line@),
        ));
        i += 1;
    }
    assert(pending@.take(pending@.len() as int) =~= pending@);
    groups
}

// ── Laws ────────────────────────────────────────────────────────────────────

/// One run at a time: once a run has begun, another is refused until it
/// ends; after it ends, a new one may begin.
pub proof fn law_one_run_at_a_time(s: GameState)
    ensures
        begin_state(s) matches Some(t) ==> begin_state(t) is None,
        begin_state(end_state(s)) is Some,
{
}

/// Closing the launcher while a bound game runs never closes it at once:
/// the first request stops the game, a second one waits without asking
/// again.
pub proof fn law_bound_game_stops_first(exiting: bool)
    ensures
        exit_decision(false, Some(true), exiting).prevent_exit,
        !exiting ==> exit_decision(false, Some(true), exiting).kill_game,
        !exit_decision(false, Some(true), exit_decision(false, Some(true), exiting).exiting).kill_game,
        exit_decision(false, Some(true), exit_decision(false, Some(true), exiting).exiting).prevent_exit,
{
}

/// Two progress events that pass without being the last are at least an
/// interval apart.
pub proof fn law_progress_is_spaced(last: u64, now_ms: u64)
    requires
        admits(Some(last), now_ms, false),
    ensures
        now_ms - last >= PROGRESS_INTERVAL_MS,
{
}

// ── The events of a run ─────────────────────────────────────────────────────

/// What the interface is told while a game runs.
pub enum GameEvent {
    Started { pid: Option<u32> },
    Log { stream: OutputStream, lines: Vec<String> },
    Exited { code: Option<i32>, success: bool },
}

/// What happens to a run, as the application sees it.
pub enum RunInput {
    /// The Java process started, with this pid.
    Spawned(Option<u32>),
    /// The Java process could not be started.
    SpawnFailed,
    /// Lines of output were gathered from a stream.
    Output(OutputStream, Vec<String>),
    /// The game exited, with its code and whether it succeeded.
    Exit(Option<i32>, bool),
}

/// Where a run is: before the game started, while it runs, once it is over.
#[derive(Clone, Copy, PartialEq, Eq, Debug, Structural)]
pub enum RunPhase {
    Starting,
    Running,
    Over,
}

/// The phase after an input.
pub open spec fn next_phase(p: RunPhase, i: RunInput) -> RunPhase {
    match (p, i) {
        (RunPhase::Starting, RunInput::Spawned(_)) => RunPhase::Running,
        (RunPhase::Starting, RunInput::SpawnFailed) => RunPhase::Over,
        (RunPhase::Running, RunInput::Exit(_, _)) => RunPhase::Over,
        _ => p,
    }
}

/// The events an input gives: `Started` when the game starts, its output
/// while it runs (nothing for no lines), `Exited` when it stops; nothing
/// before it started or after it is over.
pub open spec fn step_events(p: RunPhase, i: RunInput) -> Seq<GameEvent> {
    match (p, i) {
        (RunPhase::Starting, RunInput::Spawned(pid)) => seq![GameEvent::Started { pid }],
        (RunPhase::Running, RunInput::Output(stream, lines)) => if lines@.len() > 0 {
            seq![GameEvent::Log { stream, lines }]
        } else {
            Seq::empty()
        },
        (RunPhase::Running, RunInput::Exit(code, success)) => seq![
            GameEvent::Exited { code, success },
        ],
        _ => Seq::empty(),
    }
}

/// One step of a run: the next phase and the events to send, in order.
pub fn run_step(phase: RunPhase, input: RunInput) -> (r: (RunPhase, Vec<GameEvent>))
    ensures
        r.0 == next_phase(phase, input),
        r.1@ == step_events(phase, input),
{
    let mut events: Vec<GameEvent> = Vec::new();
    let next = match (phase, input) {
        (RunPhase::Starting, RunInput::Spawned(pid)) => {
            events.push(GameEvent::Started { pid });
            RunPhase::Running
        },
        (RunPhase::Starting, RunInput::SpawnFailed) => RunPhase::Over,
        (RunPhase::Running, RunInput::Output(stream, lines)) => {
            if lines.len() > 0 {
                events.push(GameEvent::Log { stream, lines });
            }
            RunPhase::Running
        },
        (RunPhase::Running, RunInput::Exit(code, success)) => {
            events.push(GameEvent::Exited { code, success });
            RunPhase::Over
        },
        (p, _) => p,
    };
    proof {
        assert(events@ =~= step_events(phase, input));
    }
    (next, events)
}

/// The events a run sends for a sequence of inputs, from phase `p`.
pub open spec fn run_events(p: RunPhase, inputs: Seq<RunInput>) -> Seq<GameEvent>
    decreases inputs.len(),
{
    if inputs.len() == 0 {
        Seq::empty()
    } else {
        step_events(p, inputs[0]) + run_events(next_phase(p, inputs[0]), inputs.drop_first())
    }
}

proof fn lemma_over_is_silent(inputs: Seq<RunInput>)
    ensures
        run_events(RunPhase::Over, inputs).len() == 0,
    decreases inputs.len(),
{
    if inputs.len() > 0 {
        lemma_over_is_silent(inputs.drop_first());
    }
}

proof fn lemma_running_never_starts(inputs: Seq<RunInput>)
    ensures
        forall|k: int|
            0 <= k < run_events(RunPhase::Running, inputs).len() ==> !(#[trigger] run_events(
                RunPhase::Running,
                inputs,
            )[k] is Started),
    decreases inputs.len(),
{
    if inputs.len() > 0 {
        let first = step_events(RunPhase::Running, inputs[0]);
        let next = next_phase(RunPhase::Running, inputs[0]);
        let rest = run_events(next, inputs.drop_first());
        lemma_running_never_starts(inputs.drop_first());
        lemma_over_is_silent(inputs.drop_first());
        assert forall|k: int| 0 <= k < (first + rest).len() implies !((first + rest)[k] is Started) by {
            if k >= first.len() {
                assert((first + rest)[k] == rest[k - first.len()]);
            }
        }
    }
}

/// From the start of a run, the first event the interface is sent is
/// `Started`, and no other event says the game started again.
pub proof fn law_started_comes_first(inputs: Seq<RunInput>)
    ensures
        run_events(RunPhase::Starting, inputs).len() > 0 ==> run_events(RunPhase::Starting, inputs)[0] is Started,
        forall|k: int|
            1 <= k < run_events(RunPhase::Starting, inputs).len() ==> !(#[trigger] run_events(
                RunPhase::Starting,
                inputs,
            )[k] is Started),
    decreases inputs.len(),
{
    if inputs.len() > 0 {
        let first = step_events(RunPhase::Starting, inputs[0]);
        let next = next_phase(RunPhase::Starting, inputs[0]);
        let rest = run_events(next, inputs.drop_first());
        law_started_comes_first(inputs.drop_first());
        lemma_over_is_silent(inputs.drop_first());
        lemma_running_never_starts(inputs.drop_first());
        let all = first + rest;
        if first.len() > 0 {
            assert(all[0] == first[0]);
        }
        assert forall|k: int| 1 <= k < all.len() implies !(#[trigger] all[k] is Started) by {
            if k >= first.len() {
                assert(all[k] == rest[k - first.len()]);
            }
        }
    }
}

} // verus!
