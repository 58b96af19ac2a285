use vstd::prelude::*;

verus! {

use crate::schedule::{ContestDay, ContestDetails, DayView, first_match, max_day};

/// The single mutable session object: the last day advanced to (`None`
/// before any data load) and the schedule driving the contest.
pub struct Contest {
    pub current_day: Option<u8>,
    pub details: ContestDetails,
}

/// Mathematical image of a `Contest`.
#[verifier::ext_equal]
pub ghost struct ContestView {
    pub current_day: Option<u8>,
    pub days: Seq<DayView>,
}

impl View for Contest {
    type V = ContestView;

    open spec fn view(&self) -> ContestView {
        ContestView { current_day: self.current_day, days: self.details@ }
    }
}

/// Signal that a schedule was stored and exactly one scheduler task should
/// be spawned by the caller.
#[derive(Clone, Copy, Debug, PartialEq, Eq, Structural)]
pub struct ScheduleLoaded;

/// Why a data load was rejected.
#[derive(Clone, Copy, Debug, PartialEq, Eq, Structural)]
pub enum LoadError {
    /// The system was not awaiting schedule data.
    NotAwaiting,
    /// No contest session is active.
    NoActiveContest,
    /// The bytes do not hold a well-formed schedule document.
    Malformed,
}

/// What one scheduler tick should do next.
pub enum AdvanceOutcome {
    /// Announce this day's content, then keep ticking.
    Broadcast(ContestDay),
    /// A gap in the schedule: announce nothing, keep ticking.
    Skip,
    /// The schedule is exhausted: announce the end, then terminate.
    Ended,
    /// No contest is active: terminate silently.
    Stopped,
}

/// Mathematical image of an `AdvanceOutcome`.
#[verifier::ext_equal]
pub ghost enum OutcomeView {
    Broadcast(DayView),
    Skip,
    Ended,
    Stopped,
}

impl View for AdvanceOutcome {
    type V = OutcomeView;

    open spec fn view(&self) -> OutcomeView {
        match self {
            AdvanceOutcome::Broadcast(d) => OutcomeView::Broadcast(d@),
            AdvanceOutcome::Skip => OutcomeView::Skip,
            AdvanceOutcome::Ended => OutcomeView::Ended,
            AdvanceOutcome::Stopped => OutcomeView::Stopped,
        }
    }
}

/// Mathematical image of the whole session store: the optional contest and
/// the awaiting-data flag.
#[verifier::ext_equal]
pub ghost struct StoreView {
    pub contest: Option<ContestView>,
    pub awaiting: bool,
}

/// Exclusive owner of the single optional live contest and of the
/// awaiting-data flag. Each operation is one atomic step of the session
/// state machine; callers serialize them under one lock.
pub struct ContestStore {
    contest: Option<Contest>,
    awaiting_data: bool,
}

impl View for ContestStore {
    type V = StoreView;

    closed spec fn view(&self) -> StoreView {
        StoreView {
            contest: match self.contest {
                Some(c) => Some(c@),
                None => None,
            },
            awaiting: self.awaiting_data,
        }
    }
}

/// The state after a start command: a fresh empty contest and the
/// awaiting-data flag raised, unless a contest is already active, in which
/// case nothing changes.
pub open spec fn start_spec(s: StoreView) -> StoreView {
    if s.contest is Some {
        s
    } else {
        StoreView {
            contest: Some(ContestView { current_day: None, days: Seq::empty() }),
            awaiting: true,
        }
    }
}

/// Whether a start command creates a contest in state `s`.
pub open spec fn start_created(s: StoreView) -> bool {
    s.contest is None
}

/// The state after a stop command: slot empty, flag cleared, whatever held.
pub open spec fn stop_spec(s: StoreView) -> StoreView {
    StoreView { contest: None, awaiting: false }
}

/// Whether a data load may touch the state: the system awaits data and a
/// contest is active.
pub open spec fn load_gate(s: StoreView) -> bool {
    s.awaiting && s.contest is Some
}

/// The state after a data load whose parse outcome was `parsed`: outside the
/// gate nothing changes; a well-formed document replaces the schedule and
/// sets the day counter to zero; a malformed one destroys the session.
pub open spec fn apply_load_spec(s: StoreView, parsed: Option<Seq<DayView>>) -> StoreView {
    if !load_gate(s) {
        s
    } else {
        match parsed {
            Some(days) => StoreView {
                contest: Some(ContestView { current_day: Some(0), days }),
                awaiting: s.awaiting,
            },
            None => StoreView { contest: None, awaiting: s.awaiting },
        }
    }
}

/// What a data load returns in state `s` when the parse succeeded iff
/// `parsed_ok`.
pub open spec fn load_result_spec(s: StoreView, parsed_ok: bool) -> Result<
    ScheduleLoaded,
    LoadError,
> {
    if !s.awaiting {
        Err(LoadError::NotAwaiting)
    } else if s.contest is None {
        Err(LoadError::NoActiveContest)
    } else if parsed_ok {
        Ok(ScheduleLoaded)
    } else {
        Err(LoadError::Malformed)
    }
}

/// The day a tick moves the counter to: one past the current day. Where
/// that does not fit the key space, `advance_state_spec` clamps the stored
/// counter.
pub open spec fn next_day_of(d: u8) -> int {
    d + 1
}

/// The state after one scheduler tick.
pub open spec fn advance_state_spec(s: StoreView) -> StoreView {
    match s.contest {
        None => s,
        Some(c) => match c.current_day {
            None => s,
            Some(d) => {
                let next = next_day_of(d);
                if next <= u8::MAX && first_match(c.days, next as u8) is Some {
                    StoreView {
                        contest: Some(ContestView { current_day: Some(next as u8), days: c.days }),
                        awaiting: s.awaiting,
                    }
                } else if max_day(c.days) matches Some(m) && next > m {
                    StoreView { contest: None, awaiting: s.awaiting }
                } else {
                    let clamped = if next <= u8::MAX {
                        next as u8
                    } else {
                        u8::MAX
                    };
                    StoreView {
                        contest: Some(ContestView { current_day: Some(clamped), days: c.days }),
                        awaiting: s.awaiting,
                    }
                }
            },
        },
    }
}

/// What one scheduler tick reports.
pub open spec fn advance_outcome_spec(s: StoreView) -> OutcomeView {
    match s.contest {
        None => OutcomeView::Stopped,
        Some(c) => match c.current_day {
            None => OutcomeView::Skip,
            Some(d) => {
                let next = next_day_of(d);
                if next <= u8::MAX && first_match(c.days, next as u8) is Some {
                    OutcomeView::Broadcast(first_match(c.days, next as u8)->Some_0)
                } else if max_day(c.days) matches Some(m) && next > m {
                    OutcomeView::Ended
                } else {
                    OutcomeView::Skip
                }
            },
        },
    }
}

/// Starting is idempotent: a second start command is a no-op, and after a
/// start exactly one contest is active.
pub proof fn lemma_start_idempotent(s: StoreView)
    ensures
        start_spec(start_spec(s)) == start_spec(s),
        start_spec(s).contest is Some,
{
}

/// Stopping is idempotent and total: whatever held before, after a stop the
/// slot is empty and the awaiting-data flag is down, and stopping again
/// changes nothing.
pub proof fn lemma_stop_idempotent(s: StoreView)
    ensures
        stop_spec(s).contest is None,
        !stop_spec(s).awaiting,
        stop_spec(stop_spec(s)) == stop_spec(s),
{
}

/// A data load is gated: unless the system awaits data with an active
/// contest, no parse outcome touches the state.
pub proof fn lemma_load_gated(s: StoreView, parsed: Option<Seq<DayView>>)
    ensures
        !load_gate(s) ==> apply_load_spec(s, parsed) == s,
        !load_gate(s) ==> load_result_spec(s, parsed is Some) is Err,
{
}

/// After a tick reports the end of the contest, every further tick reports
/// `Stopped` and leaves the state alone.
pub proof fn lemma_post_end_stopped(s: StoreView)
    ensures
        advance_outcome_spec(s) is Ended ==> advance_outcome_spec(advance_state_spec(s))
            is Stopped,
        advance_outcome_spec(s) is Ended ==> advance_state_spec(advance_state_spec(s))
            == advance_state_spec(s),
{
}

/// A stop racing with the ticker: whatever the day counter held, the first
/// tick after a stop observes the empty slot, reports `Stopped` and changes
/// nothing.
pub proof fn lemma_stop_wins_race(s: StoreView)
    ensures
        advance_outcome_spec(stop_spec(s)) is Stopped,
        advance_state_spec(stop_spec(s)) == stop_spec(s),
{
}

impl ContestStore {
    /// An empty session store: no contest, not awaiting data.
    pub fn new() -> (s: ContestStore)
        ensures
            s@ == (StoreView { contest: None, awaiting: false }),
    {
        ContestStore { contest: None, awaiting_data: false }
    }

    /// Whether a contest is currently active.
    pub fn is_active(&self) -> (r: bool)
        ensures
            r == (self@.contest is Some),
    {
        self.contest.is_some()
    }

    /// Whether the next qualifying upload is treated as schedule data.
    pub fn is_awaiting_data(&self) -> (r: bool)
        ensures
            r == self@.awaiting,
    {
        self.awaiting_data
    }

    /// The active contest's day counter, `None` when no contest is active or
    /// no data was loaded yet.
    pub fn current_day(&self) -> (r: Option<u8>)
        ensures
            r == (match self@.contest {
                Some(c) => c.current_day,
                None => None::<u8>,
            }),
    {
        match &self.contest {
            Some(c) => c.current_day,
            None => None,
        }
    }

    /// How many entries the active contest's schedule holds, `None` when no
    /// contest is active.
    pub fn schedule_len(&self) -> (r: Option<usize>)
        ensures
            r == (match self@.contest {
                Some(c) => Some(c.days.len() as usize),
                None => None::<usize>,
            }),
    {
        match &self.contest {
            Some(c) => Some(c.details.0.len()),
            None => None,
        }
    }

    /// Begin a session: create a fresh contest with an empty schedule and no
    /// day counter, and raise the awaiting-data flag. A no-op when a contest
    /// is already active; the returned flag says whether one was created.
    pub fn start_contest(&mut self) -> (created: bool)
        ensures
            final(self)@ == start_spec(old(self)@),
            created == start_created(old(self)@),
    {
        if self.contest.is_some() {
            return false;
        }
        self.contest = Some(
            Contest { current_day: None, details: ContestDetails(Vec::new()) },
        );
        self.awaiting_data = true;
        proof {
            assert(self@ =~~= start_spec(old(self)@));
        }
        true
    }

    /// End any session: clear the slot and the awaiting-data flag. Legal and
    /// a no-op when nothing is active.
    pub fn stop_contest(&mut self)
        ensures
            final(self)@ == stop_spec(old(self)@),
    {
        self.contest = None;
        self.awaiting_data = false;
    }

    /// Abandon the session slot alone (the download-failure path): the
    /// awaiting-data flag is left as it stands.
    pub fn abandon_session(&mut self)
        ensures
            final(self)@ == (StoreView { contest: None, awaiting: old(self)@.awaiting }),
    {
        self.contest = None;
    }

    /// Store the outcome of parsing an upload. Unless the system awaits
    /// data with an active contest, the state is untouched and the error
    /// names the missing precondition. Otherwise a parsed schedule replaces
    /// the contest's schedule and sets the day counter to zero, and the
    /// returned signal instructs the caller to spawn exactly one scheduler
    /// task; a parse fault destroys the session.
    pub fn apply_parsed(&mut self, parsed: Option<ContestDetails>) -> (r: Result<
        ScheduleLoaded,
        LoadError,
    >)
        ensures
            final(self)@ == apply_load_spec(
                old(self)@,
                match parsed {
                    Some(d) => Some(d@),
                    None => None,
                },
            ),
            r == load_result_spec(old(self)@, parsed is Some),
    {
        if !self.awaiting_data {
            return Err(LoadError::NotAwaiting);
        }
        if self.contest.is_none() {
            return Err(LoadError::NoActiveContest);
        }
        match parsed {
            Some(details) => {
                self.contest = Some(Contest { current_day: Some(0), details });
                proof {
                    assert(self@ =~~= apply_load_spec(old(self)@, Some(parsed->Some_0@)));
                }
                Ok(ScheduleLoaded)
            },
            None => {
                self.contest = None;
                Err(LoadError::Malformed)
            },
        }
    }

    /// Parse `bytes` as a schedule document and store the outcome: the whole
    /// data-load step of the upload path. Unless the system awaits data with
    /// an active contest the state is untouched, and each of the two
    /// precondition errors comes back if and only if its precondition is
    /// missing. Otherwise the schedule the bytes hold (`schedule_spec`)
    /// arms the contest at day zero and asks the caller to spawn exactly
    /// one scheduler task, and bytes holding no schedule destroy the
    /// session with `Malformed`. The awaiting-data flag never moves.
    pub fn load_schedule(&mut self, bytes: &[u8]) -> (r: Result<ScheduleLoaded, LoadError>)
        ensures
            final(self)@ == apply_load_spec(old(self)@, crate::parse::schedule_spec(bytes@)),
            r == load_result_spec(old(self)@, crate::parse::schedule_spec(bytes@) is Some),
    {
        let parsed = crate::parse::parse_schedule(bytes);
        let ghost p: Option<Seq<DayView>> = match &parsed {
            Some(d) => Some(d@),
            None => None,
        };
        proof {
            assert(p == crate::parse::schedule_spec(bytes@));
        }
        self.apply_parsed(parsed)
    }

    /// One scheduler tick. With no active contest: `Stopped`, state
    /// untouched. With a contest whose counter was never set: `Skip`. Else
    /// the counter moves one day forward and the new day is looked up: an
    /// entry gives `Broadcast` with its content; past the schedule's largest
    /// key the session is destroyed with `Ended`; a gap gives `Skip`. On an
    /// empty schedule the counter stops one past the largest representable
    /// key rather than grow without bound.
    pub fn advance_day(&mut self) -> (o: AdvanceOutcome)
        ensures
            final(self)@ == advance_state_spec(old(self)@),
            o@ == advance_outcome_spec(old(self)@),
    {
        let c = match self.contest.take() {
            None => {
                return AdvanceOutcome::Stopped;
            },
            Some(c) => c,
        };
        let d = match c.current_day {
            None => {
                self.contest = Some(c);
                proof {
                    assert(self@ =~~= old(self)@);
                }
                return AdvanceOutcome::Skip;
            },
            Some(d) => d,
        };
        if d < u8::MAX {
            let next = d + 1;
            let hit: Option<ContestDay> = match c.details.get_day(next) {
                Some(e) => Some(e.clone()),
                None => None,
            };
            match hit {
                Some(content) => {
                    self.contest = Some(
                        Contest { current_day: Some(next), details: c.details },
                    );
                    proof {
                        assert(self@ =~~= advance_state_spec(old(self)@));
                    }
                    return AdvanceOutcome::Broadcast(content);
                },
                None => {
                    match c.details.get_last_day() {
                        Some(m) if next > m => {
                            self.contest = None;
                            return AdvanceOutcome::Ended;
                        },
                        _ => {
                            self.contest = Some(
                                Contest { current_day: Some(next), details: c.details },
                            );
                            proof {
                                assert(self@ =~~= advance_state_spec(old(self)@));
                            }
                            return AdvanceOutcome::Skip;
                        },
                    }
                },
            }
        } else {
            // The counter already sits at the largest representable key, so
            // the next day can match no entry.
            match c.details.get_last_day() {
                Some(_) => {
                    // next > max holds for every key a schedule can carry.
                    self.contest = None;
                    AdvanceOutcome::Ended
                },
                None => {
                    self.contest = Some(Contest { current_day: Some(d), details: c.details });
                    proof {
                        assert(self@ =~~= advance_state_spec(old(self)@));
                    }
                    AdvanceOutcome::Skip
                },
            }
        }
    }
}

} // verus!
