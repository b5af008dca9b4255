//! The decisions of the supervision loop: from its phase and an event to the next phase and
//! the action to perform. Whoever runs the decoder performs the actions and reports the events.
use vstd::prelude::*;
use serde_json::Value;
use crate::catalog::BandCatalog;
use crate::chooser::{outcome, ChooseError, ChooserPlugin};
use crate::params::Params;

verus! {

/// Where the supervision loop stands.
#[derive(Debug, Clone, Copy, PartialEq, Eq, Structural)]
pub enum Phase {
    /// About to pick a band (or to try the last one again).
    SelectingBand,
    /// A decoder runs on the band picked last.
    Running,
    /// The decoder is being stopped and its relay joined.
    Draining,
    /// The configuration is wrong; the run is over.
    Failed,
}

/// What happened, as reported to the supervisor.
pub enum Event {
    /// A band is wanted (at the start, after draining, after a spawn backoff).
    Select,
    /// The decoder could not be started.
    SpawnFailed,
    /// The decoder produced a frame (it has already been forwarded).
    Line(Value),
    /// The idle timer of this episode fired.
    Timeout,
    /// The decoder exited, or its relay stopped.
    Exited,
    /// The decoder is stopped and its relay joined.
    Drained,
}

/// What to do next.
pub enum Action {
    /// Start the decoder on these frequencies, with its relay.
    Spawn(Vec<u32>),
    /// Wait the spawn backoff, then report `Select`.
    Backoff,
    /// Keep waiting for the next frame or the idle timer.
    Wait,
    /// Stop the decoder and join its relay, then report `Drained`.
    Terminate,
    /// Report `Select`.
    Select,
    /// End the run with this configuration error.
    Abort(ChooseError),
}

/// The supervision loop's state: its phase, its policy, and the band of the current episode.
pub struct Supervisor {
    phase: Phase,
    chooser: ChooserPlugin,
    band: Vec<u32>,
    retry: bool,
}

/// A copy of a frequency list.
fn copy_freqs(f: &Vec<u32>) -> (r: Vec<u32>)
    ensures
        r@ == f@,
{
    let mut r: Vec<u32> = Vec::new();
    let mut i: usize = 0;
    while i < f.len()
        invariant
            i <= f.len(),
            r@ == f@.take(i as int),
        decreases f.len() - i,
    {
        r.push(f[i]);
        i = i + 1;
        assert(r@ =~= f@.take(i as int));
    }
    assert(f@.take(i as int) =~= f@);
    r
}

impl Supervisor {
    pub closed spec fn phase(&self) -> Phase {
        self.phase
    }

    pub closed spec fn chooser(&self) -> ChooserPlugin {
        self.chooser
    }

    /// The frequencies of the current episode's band.
    pub closed spec fn band(&self) -> Seq<u32> {
        self.band@
    }

    /// Whether the next `Select` starts the last band again instead of picking one.
    pub closed spec fn retry(&self) -> bool {
        self.retry
    }

    pub open spec fn wf(&self) -> bool {
        &&& self.chooser().wf()
        &&& self.retry() ==> self.phase() == Phase::SelectingBand
    }

    /// A supervisor about to pick its first band with `chooser`.
    pub fn new(chooser: ChooserPlugin) -> (s: Supervisor)
        requires
            chooser.wf(),
        ensures
            s.wf(),
            s.phase() == Phase::SelectingBand,
            s.chooser() == chooser,
            !s.retry(),
    {
        Supervisor { phase: Phase::SelectingBand, chooser, band: Vec::new(), retry: false }
    }

    /// The supervisor's phase.
    pub fn current_phase(&self) -> (p: Phase)
        ensures
            p == self.phase(),
    {
        self.phase
    }

    /// What `step` does, from `before` to `after`, on `event`, with action `a`.
    pub open spec fn stepped(
        before: &Supervisor,
        after: &Supervisor,
        catalog: &BandCatalog,
        p: Map<Seq<char>, Seq<char>>,
        event: &Event,
        a: &Action,
    ) -> bool {
        match (before.phase(), event) {
            (Phase::SelectingBand, Event::Select) => if before.retry() {
                &&& a matches Action::Spawn(f) && f@ == before.band()
                &&& after.phase() == Phase::Running
                &&& after.band() == before.band()
                &&& after.chooser() == before.chooser()
                &&& !after.retry()
            } else {
                exists|res: Result<Seq<u32>, ChooseError>|
                    {
                        &&& ChooserPlugin::chose(&before.chooser(), &after.chooser(), catalog, p, res)
                        &&& !after.retry()
                        &&& match res {
                            Ok(f) => {
                                &&& a matches Action::Spawn(g) && g@ == f
                                &&& after.phase() == Phase::Running
                                &&& after.band() == f
                            },
                            Err(e) => *a == Action::Abort(e) && after.phase() == Phase::Failed,
                        }
                    }
            },
            (Phase::Running, Event::SpawnFailed) => {
                &&& *a == Action::Backoff
                &&& after.phase() == Phase::SelectingBand
                &&& after.retry()
                &&& after.band() == before.band()
                &&& after.chooser() == before.chooser()
            },
            (Phase::Running, Event::Timeout) => if before.chooser().leaves_on_timeout() {
                *a == Action::Terminate && after.phase() == Phase::Draining && after.chooser()
                    == before.chooser() && after.band() == before.band() && !after.retry()
            } else {
                *a == Action::Wait && *after == *before
            },
            (Phase::Running, Event::Exited) => {
                &&& *a == Action::Terminate
                &&& after.phase() == Phase::Draining
                &&& after.chooser() == before.chooser()
                &&& after.band() == before.band()
                &&& !after.retry()
            },
            (Phase::Draining, Event::Drained) => {
                &&& *a == Action::Select
                &&& after.phase() == Phase::SelectingBand
                &&& after.chooser() == before.chooser()
                &&& !after.retry()
            },
            _ => *a == Action::Wait && *after == *before,
        }
    }

    /// Takes one event: a decoded frame that no policy acts on, or an event out of place in
    /// the current phase, leaves everything as it is.
    pub fn step(&mut self, catalog: &BandCatalog, params: &Params, event: Event) -> (a: Action)
        requires
            old(self).wf(),
            catalog.wf(),
            params.wf(),
        ensures
            final(self).wf(),
            Self::stepped(old(self), final(self), catalog, params@, &event, &a),
    {
        match (self.phase, &event) {
            (Phase::SelectingBand, Event::Select) => {
                if self.retry {
                    self.retry = false;
                    self.phase = Phase::Running;
                    Action::Spawn(copy_freqs(&self.band))
                } else {
                    let ghost before = self.chooser;
                    let r = self.chooser.choose_band(catalog, params);
                    let ghost res = outcome(r);
                    assert(ChooserPlugin::chose(&before, &self.chooser, catalog, params@, res));
                    match r {
                        Ok(f) => {
                            let band = copy_freqs(f);
                            let spawn = copy_freqs(f);
                            self.band = band;
                            self.phase = Phase::Running;
                            Action::Spawn(spawn)
                        },
                        Err(e) => {
                            self.phase = Phase::Failed;
                            Action::Abort(e)
                        },
                    }
                }
            },
            (Phase::Running, Event::SpawnFailed) => {
                self.phase = Phase::SelectingBand;
                self.retry = true;
                Action::Backoff
            },
            (Phase::Running, Event::Line(frame)) => {
                if self.chooser.on_update(frame) {
                    self.phase = Phase::Draining;
                    Action::Terminate
                } else {
                    Action::Wait
                }
            },
            (Phase::Running, Event::Timeout) => {
                if self.chooser.on_timeout() {
                    self.phase = Phase::Draining;
                    Action::Terminate
                } else {
                    Action::Wait
                }
            },
            (Phase::Running, Event::Exited) => {
                self.phase = Phase::Draining;
                Action::Terminate
            },
            (Phase::Draining, Event::Drained) => {
                self.phase = Phase::SelectingBand;
                Action::Select
            },
            _ => Action::Wait,
        }
    }
}

/// An exit of the decoder while it runs never ends the run: the supervisor stops what is left
/// of the episode, returns to selecting a band, and there asks the policy for a new pick; a pick
/// that succeeds spawns a new decoder on it.
pub proof fn lemma_exit_leads_to_new_pick(
    s0: &Supervisor,
    s1: &Supervisor,
    s2: &Supervisor,
    s3: &Supervisor,
    a1: &Action,
    a2: &Action,
    a3: &Action,
    catalog: &BandCatalog,
    p: Map<Seq<char>, Seq<char>>,
)
    requires
        s0.wf(),
        s0.phase() == Phase::Running,
        Supervisor::stepped(s0, s1, catalog, p, &Event::Exited, a1),
        Supervisor::stepped(s1, s2, catalog, p, &Event::Drained, a2),
        Supervisor::stepped(s2, s3, catalog, p, &Event::Select, a3),
    ensures
        *a1 == Action::Terminate,
        s1.phase() == Phase::Draining,
        *a2 == Action::Select,
        s2.phase() == Phase::SelectingBand,
        s2.chooser() == s0.chooser(),
        exists|res: Result<Seq<u32>, ChooseError>|
            {
                &&& ChooserPlugin::chose(&s0.chooser(), &s3.chooser(), catalog, p, res)
                &&& (res matches Ok(f) ==> s3.phase() == Phase::Running && (a3 matches Action::Spawn(
                    g,
                ) && g@ == f))
            },
{
}

} // verus!
