//! The decisions of the pacing loop.
//!
//! The loop that plays the samples asks a `Pacer` once per iteration what to
//! do, handing it the control signal read since the last iteration, if any.
//! The pacer answers with a `Step`; the loop performs it (feeds samples to
//! the window and renders, or sleeps) and asks again.
use vstd::prelude::*;

verus! {

#[derive(Debug, Clone, Copy, PartialEq, Eq, Structural)]
pub enum PlayState {
    Running,
    Paused,
    /// Terminal: nothing leaves it.
    Stopped,
}

/// A control signal from the user.
#[derive(Debug, Clone, Copy, PartialEq, Eq, Structural)]
pub enum Control {
    Pause,
    Resume,
    Quit,
}

/// What the loop does in one iteration.
#[derive(Debug, Clone, Copy, PartialEq, Eq, Structural)]
pub enum Step {
    /// Feed the interleaved samples `[start, end)` to the window; when
    /// `analyse` holds (a whole hop was read) run the pipeline on the frame,
    /// if one is ready, and render it. Then sleep for one hop.
    Feed { start: usize, end: usize, analyse: bool },
    /// Paused: sleep a short interval and poll for signals again.
    Wait,
    /// Quit was asked for: leave the loop now.
    Stop,
    /// The read cursor reached the end of the samples: leave the loop.
    Finished,
}

/// Why a pacer cannot be made.
#[derive(Debug, Clone, Copy, PartialEq, Eq, Structural)]
pub enum PaceError {
    /// There are no samples to play.
    NoSamples,
    /// The hop is zero samples.
    ZeroHop,
}

/// The state after a signal arrives: quit stops from any state, pause and
/// resume toggle between running and paused, anything else changes nothing.
pub open spec fn after_signal(state: PlayState, signal: Option<Control>) -> PlayState {
    match state {
        PlayState::Stopped => PlayState::Stopped,
        PlayState::Running => match signal {
            Some(Control::Quit) => PlayState::Stopped,
            Some(Control::Pause) => PlayState::Paused,
            _ => PlayState::Running,
        },
        PlayState::Paused => match signal {
            Some(Control::Quit) => PlayState::Stopped,
            Some(Control::Resume) => PlayState::Running,
            _ => PlayState::Paused,
        },
    }
}

/// One iteration from `state` with the read cursor at `cursor`, over
/// `total` samples read `hop` at a time: the next state, the next cursor
/// and the step to perform.
pub open spec fn next_step(
    state: PlayState,
    cursor: nat,
    total: nat,
    hop: nat,
    signal: Option<Control>,
) -> (PlayState, nat, Step) {
    match after_signal(state, signal) {
        PlayState::Stopped => (PlayState::Stopped, cursor, Step::Stop),
        PlayState::Paused => (PlayState::Paused, cursor, Step::Wait),
        PlayState::Running => if cursor >= total {
            (PlayState::Stopped, cursor, Step::Finished)
        } else {
            let end: nat = if cursor + hop <= total {
                cursor + hop
            } else {
                total
            };
            (
                PlayState::Running,
                end,
                Step::Feed { start: cursor as usize, end: end as usize, analyse: end == cursor + hop },
            )
        },
    }
}

/// The iterations for the signals `signals`, one per iteration, in order:
/// the final state, the final cursor and the steps performed.
pub open spec fn run(
    state: PlayState,
    cursor: nat,
    total: nat,
    hop: nat,
    signals: Seq<Option<Control>>,
) -> (PlayState, nat, Seq<Step>)
    decreases signals.len(),
{
    if signals.len() == 0 {
        (state, cursor, Seq::empty())
    } else {
        let (s1, c1, first) = next_step(state, cursor, total, hop, signals[0]);
        let (s2, c2, rest) = run(s1, c1, total, hop, signals.drop_first());
        (s2, c2, seq![first] + rest)
    }
}

/// The pacing state: play state and read cursor over a fixed sample count.
pub struct Pacer {
    state: PlayState,
    cursor: usize,
    total: usize,
    hop: usize,
}

impl Pacer {
    pub closed spec fn spec_state(&self) -> PlayState {
        self.state
    }

    /// How many interleaved samples have been read.
    pub closed spec fn spec_cursor(&self) -> nat {
        self.cursor as nat
    }

    pub closed spec fn spec_total(&self) -> nat {
        self.total as nat
    }

    pub closed spec fn spec_hop(&self) -> nat {
        self.hop as nat
    }

    pub open spec fn wf(&self) -> bool {
        &&& self.spec_cursor() <= self.spec_total()
        &&& self.spec_total() <= usize::MAX
        &&& self.spec_hop() > 0
        &&& self.spec_hop() <= usize::MAX
    }

    /// A running pacer at the start of `total` interleaved samples, reading
    /// `hop` of them per iteration.
    pub fn new(total: usize, hop: usize) -> (r: Result<Pacer, PaceError>)
        ensures
            total == 0 ==> r == Err::<Pacer, PaceError>(PaceError::NoSamples),
            total > 0 && hop == 0 ==> r == Err::<Pacer, PaceError>(PaceError::ZeroHop),
            r is Ok <==> total > 0 && hop > 0,
            r matches Ok(p) ==> {
                &&& p.wf()
                &&& p.spec_state() == PlayState::Running
                &&& p.spec_cursor() == 0
                &&& p.spec_total() == total
                &&& p.spec_hop() == hop
            },
    {
        if total == 0 {
            return Err(PaceError::NoSamples);
        }
        if hop == 0 {
            return Err(PaceError::ZeroHop);
        }
        Ok(Pacer { state: PlayState::Running, cursor: 0, total, hop })
    }

    pub fn state(&self) -> (r: PlayState)
        ensures
            r == self.spec_state(),
    {
        self.state
    }

    pub fn cursor(&self) -> (r: usize)
        ensures
            r == self.spec_cursor(),
    {
        self.cursor
    }

    /// Decides one iteration of the loop, given the signal that arrived
    /// since the last one.
    pub fn step(&mut self, signal: Option<Control>) -> (r: Step)
        requires
            old(self).wf(),
        ensures
            final(self).wf(),
            final(self).spec_total() == old(self).spec_total(),
            final(self).spec_hop() == old(self).spec_hop(),
            (final(self).spec_state(), final(self).spec_cursor(), r) == next_step(
                old(self).spec_state(),
                old(self).spec_cursor(),
                old(self).spec_total(),
                old(self).spec_hop(),
                signal,
            ),
    {
        let state: PlayState = match self.state {
            PlayState::Stopped => PlayState::Stopped,
            PlayState::Running => match signal {
                Some(Control::Quit) => PlayState::Stopped,
                Some(Control::Pause) => PlayState::Paused,
                _ => PlayState::Running,
            },
            PlayState::Paused => match signal {
                Some(Control::Quit) => PlayState::Stopped,
                Some(Control::Resume) => PlayState::Running,
                _ => PlayState::Paused,
            },
        };
        match state {
            PlayState::Stopped => {
                self.state = PlayState::Stopped;
                Step::Stop
            },
            PlayState::Paused => {
                self.state = PlayState::Paused;
                Step::Wait
            },
            PlayState::Running => {
                if self.cursor >= self.total {
                    self.state = PlayState::Stopped;
                    return Step::Finished;
                }
                let start: usize = self.cursor;
                let end: usize = if self.hop <= self.total - start {
                    start + self.hop
                } else {
                    self.total
                };
                self.state = PlayState::Running;
                self.cursor = end;
                Step::Feed { start, end, analyse: end - start == self.hop }
            },
        }
    }
}

/// While paused, signals other than resume and quit change nothing: the
/// cursor stays where it was and every iteration only waits, so no samples
/// are read and no band level moves.
pub proof fn lemma_paused_holds_still(
    cursor: nat,
    total: nat,
    hop: nat,
    signals: Seq<Option<Control>>,
)
    requires
        forall|i: int|
            0 <= i < signals.len() ==> #[trigger] signals[i] != Some(Control::Resume)
                && signals[i] != Some(Control::Quit),
    ensures
        run(PlayState::Paused, cursor, total, hop, signals).0 == PlayState::Paused,
        run(PlayState::Paused, cursor, total, hop, signals).1 == cursor,
        forall|i: int|
            0 <= i < signals.len() ==> #[trigger] run(
                PlayState::Paused,
                cursor,
                total,
                hop,
                signals,
            ).2[i] == Step::Wait,
        run(PlayState::Paused, cursor, total, hop, signals).2.len() == signals.len(),
    decreases signals.len(),
{
    if signals.len() > 0 {
        let rest = signals.drop_first();
        assert forall|i: int|
            0 <= i < rest.len() implies #[trigger] rest[i] != Some(Control::Resume) && rest[i]
                != Some(Control::Quit) by {
            assert(rest[i] == signals[i + 1]);
        }
        assert(signals[0] != Some(Control::Resume) && signals[0] != Some(Control::Quit));
        lemma_paused_holds_still(cursor, total, hop, rest);
    }
}

/// Pausing a running pacer and letting any number of iterations pass
/// without resume or quit leaves the cursor where it was and reads nothing;
/// resuming then takes the very step that the pacer would have taken had
/// it never paused.
pub proof fn lemma_pause_then_resume(
    cursor: nat,
    total: nat,
    hop: nat,
    idle: Seq<Option<Control>>,
)
    requires
        forall|i: int|
            0 <= i < idle.len() ==> #[trigger] idle[i] != Some(Control::Resume) && idle[i]
                != Some(Control::Quit),
    ensures
        ({
            let (s, c, steps) = run(
                PlayState::Running,
                cursor,
                total,
                hop,
                seq![Some(Control::Pause)] + idle,
            );
            &&& s == PlayState::Paused
            &&& c == cursor
            &&& forall|i: int| 0 <= i < steps.len() ==> #[trigger] steps[i] == Step::Wait
        }),
        next_step(PlayState::Paused, cursor, total, hop, Some(Control::Resume)) == next_step(
            PlayState::Running,
            cursor,
            total,
            hop,
            None,
        ),
{
    let signals = seq![Some(Control::Pause)] + idle;
    assert(signals.drop_first() =~= idle);
    lemma_paused_holds_still(cursor, total, hop, idle);
}

/// Once quit arrives, whatever the state and whatever follows, no further
/// samples are read: the cursor stays put and every iteration stops.
pub proof fn lemma_quit_halts(
    state: PlayState,
    cursor: nat,
    total: nat,
    hop: nat,
    later: Seq<Option<Control>>,
)
    ensures
        ({
            let (s, c, steps) = run(state, cursor, total, hop, seq![Some(Control::Quit)] + later);
            &&& s == PlayState::Stopped
            &&& c == cursor
            &&& steps.len() == later.len() + 1
            &&& forall|i: int| 0 <= i < steps.len() ==> #[trigger] steps[i] == Step::Stop
        }),
{
    let signals = seq![Some(Control::Quit)] + later;
    assert(signals.drop_first() =~= later);
    lemma_stopped_stays(cursor, total, hop, later);
}

/// A stopped pacer stays stopped whatever signals follow.
pub proof fn lemma_stopped_stays(cursor: nat, total: nat, hop: nat, signals: Seq<Option<Control>>)
    ensures
        ({
            let (s, c, steps) = run(PlayState::Stopped, cursor, total, hop, signals);
            &&& s == PlayState::Stopped
            &&& c == cursor
            &&& steps.len() == signals.len()
            &&& forall|i: int| 0 <= i < steps.len() ==> #[trigger] steps[i] == Step::Stop
        }),
    decreases signals.len(),
{
    if signals.len() > 0 {
        lemma_stopped_stays(cursor, total, hop, signals.drop_first());
    }
}

/// Without signals, a running pacer reads on to the end of the samples and
/// then finishes: after more than `total - cursor` iterations it has
/// stopped with the cursor at the end.
pub proof fn lemma_unpaused_run_finishes(cursor: nat, total: nat, hop: nat, n: nat)
    requires
        cursor <= total,
        hop > 0,
        n > total - cursor,
    ensures
        run(PlayState::Running, cursor, total, hop, Seq::new(n, |i: int| None::<Control>)).0
            == PlayState::Stopped,
        run(PlayState::Running, cursor, total, hop, Seq::new(n, |i: int| None::<Control>)).1
            == total,
    decreases n,
{
    let signals = Seq::new(n, |i: int| None::<Control>);
    let rest = Seq::new((n - 1) as nat, |i: int| None::<Control>);
    assert(signals.drop_first() =~= rest);
    if cursor >= total {
        lemma_stopped_stays(cursor, total, hop, rest);
    } else {
        let next: nat = if cursor + hop <= total {
            cursor + hop
        } else {
            total
        };
        lemma_unpaused_run_finishes(next, total, hop, (n - 1) as nat);
    }
}

} // verus!
