//! The decisions of the turn protocol: what the match does with what comes
//! in while it waits for the action of the player whose turn it is.
use vstd::prelude::*;
use crate::game::{Action, GameState, GameStatus, PlayerIndex};
use crate::laws::lemma_step_wf;
use crate::model::GameModel;

verus! {

/// What can come in while the match waits.
#[derive(Clone, Copy, Debug, PartialEq, Eq, Structural)]
pub enum TurnEvent {
    /// The deadline of the turn has passed.
    Deadline,
    /// A worker has answered: the turn of the snapshot it answers to, and
    /// the action.
    Response(usize, Action),
}

/// What the match makes of an event.
#[derive(Clone, Copy, Debug, PartialEq, Eq, Structural)]
pub enum Resolution {
    /// The answer was for this turn: its action is played.
    Accepted(Action),
    /// No answer came in time: the player moves forward.
    MissedDeadline,
    /// The answer was for another turn, which is given: it is dropped and
    /// the match waits on.
    Stale(usize),
}

/// The event to handle next, if any: the deadline where it has passed,
/// whether or not an answer has come in as well; else the answer.
pub open spec fn spec_next_event(deadline_passed: bool, response: Option<(usize, Action)>) -> Option<
    TurnEvent,
> {
    if deadline_passed {
        Some(TurnEvent::Deadline)
    } else {
        match response {
            Some(tagged) => Some(TurnEvent::Response(tagged.0, tagged.1)),
            None => None,
        }
    }
}

/// The event to handle next, if any; the deadline comes before an answer.
pub fn next_event(deadline_passed: bool, response: Option<(usize, Action)>) -> (event: Option<TurnEvent>)
    ensures
        event == spec_next_event(deadline_passed, response),
{
    if deadline_passed {
        Some(TurnEvent::Deadline)
    } else {
        match response {
            Some(tagged) => Some(TurnEvent::Response(tagged.0, tagged.1)),
            None => None,
        }
    }
}

/// What the match makes of `event` while it waits for the action of turn
/// `turn`.
pub open spec fn spec_resolve(turn: nat, event: TurnEvent) -> Resolution {
    match event {
        TurnEvent::Deadline => Resolution::MissedDeadline,
        TurnEvent::Response(tag, action) => if tag == turn {
            Resolution::Accepted(action)
        } else {
            Resolution::Stale(tag)
        },
    }
}

/// What the match makes of `event` while it waits for the action of turn
/// `turn`.
pub fn resolve(turn: usize, event: TurnEvent) -> (resolution: Resolution)
    ensures
        resolution == spec_resolve(turn as nat, event),
{
    match event {
        TurnEvent::Deadline => Resolution::MissedDeadline,
        TurnEvent::Response(tag, action) => if tag == turn {
            Resolution::Accepted(action)
        } else {
            Resolution::Stale(tag)
        },
    }
}

impl Resolution {
    /// The action to play, if the wait is over.
    pub open spec fn spec_action(self) -> Option<Action> {
        match self {
            Resolution::Accepted(action) => Some(action),
            Resolution::MissedDeadline => Some(Action::MoveForward),
            Resolution::Stale(_) => None,
        }
    }

    /// The action to play, if the wait is over.
    pub fn action(&self) -> (r: Option<Action>)
        ensures
            r == self.spec_action(),
    {
        match *self {
            Resolution::Accepted(action) => Some(action),
            Resolution::MissedDeadline => Some(Action::MoveForward),
            Resolution::Stale(_) => None,
        }
    }
}

/// The state of the match after `event` has been handled: the next state
/// where the event gives an action, the same state where it does not.
pub open spec fn spec_advance(state: GameModel, event: TurnEvent) -> GameModel {
    match spec_resolve(state.turn, event).spec_action() {
        Some(action) => state.step(action),
        None => state,
    }
}

/// Handles `event` in a running match: plays the action that it gives, if
/// it gives one, and says what was made of it.
pub fn advance(game: &mut GameState, event: TurnEvent) -> (resolution: Resolution)
    requires
        old(game).wf(),
        !old(game)@.is_over(),
    ensures
        resolution == spec_resolve(old(game)@.turn, event),
        final(game)@ == spec_advance(old(game)@, event),
        final(game).wf(),
{
    let resolution = resolve(game.turn, event);
    match resolution.action() {
        Some(action) => {
            game.do_turn(action);
        },
        None => {},
    }
    resolution
}

/// What whoever drives a match has to do next.
#[derive(Debug, PartialEq, Eq)]
pub enum Step {
    /// Hand the snapshot to the worker of the player, and start the clock of
    /// the turn.
    Submit(PlayerIndex, GameState),
    /// Wait for the next event of the turn, and hand it in.
    Wait,
    /// Nothing: the match is over.
    Finished,
}

/// A match and where it stands in its turn: before the snapshot of the turn
/// has gone out, or waiting for the action of the turn.
pub struct Orchestrator {
    pub game: GameState,
    pub awaiting: bool,
}

impl Orchestrator {
    /// The invariant of the match holds, and a finished match waits for
    /// nothing.
    pub open spec fn wf(&self) -> bool {
        self.game.wf() && (self.awaiting ==> !self.game@.is_over())
    }

    /// The orchestrator of a match that is in the state `game`, before its
    /// next snapshot has gone out.
    pub fn new(game: GameState) -> (r: Orchestrator)
        requires
            game.wf(),
        ensures
            r.game == game,
            !r.awaiting,
            r.wf(),
    {
        Orchestrator { game, awaiting: false }
    }

    /// What to do next. In a running match that does not wait yet, a copy
    /// of the state goes to the player whose turn it is, and the match waits
    /// from then on.
    pub fn next_step(&mut self) -> (step: Step)
        requires
            old(self).wf(),
        ensures
            final(self).wf(),
            final(self).game@ == old(self).game@,
            old(self).game@.is_over() ==> step == Step::Finished && !final(self).awaiting,
            !old(self).game@.is_over() ==> final(self).awaiting,
            !old(self).game@.is_over() && old(self).awaiting ==> step == Step::Wait,
            !old(self).game@.is_over() && !old(self).awaiting ==> (step matches Step::Submit(player, snapshot)
                && old(self).game.status == GameStatus::PlayerTurn(player) && snapshot@ == old(self).game@),
    {
        if self.game.is_over() {
            Step::Finished
        } else if self.awaiting {
            Step::Wait
        } else {
            self.awaiting = true;
            Step::Submit(self.game.current_player(), self.game.clone())
        }
    }

    /// Hands in an event. While the match waits, the event is handled as
    /// [`advance`] says, and the wait goes on only after a stale answer. An
    /// event that comes while the match does not wait is dropped.
    pub fn handle(&mut self, event: TurnEvent) -> (resolution: Option<Resolution>)
        requires
            old(self).wf(),
        ensures
            final(self).wf(),
            !old(self).awaiting ==> resolution is None && final(self).game@ == old(self).game@
                && !final(self).awaiting,
            old(self).awaiting ==> {
                &&& resolution == Some(spec_resolve(old(self).game@.turn, event))
                &&& final(self).game@ == spec_advance(old(self).game@, event)
                &&& final(self).awaiting == (spec_resolve(old(self).game@.turn, event) is Stale)
            },
    {
        if !self.awaiting {
            return None;
        }
        let resolution = advance(&mut self.game, event);
        match resolution {
            Resolution::Stale(_) => {},
            _ => {
                self.awaiting = false;
            },
        }
        Some(resolution)
    }
}

/// When the deadline passes the player moves forward and the match goes on
/// to the next turn, whether or not any answer came.
pub proof fn lemma_deadline_moves_on(state: GameModel)
    requires
        state.wf(),
        !state.is_over(),
    ensures
        spec_advance(state, TurnEvent::Deadline) == state.step(Action::MoveForward),
        spec_advance(state, TurnEvent::Deadline).turn == state.turn + 1,
{
    lemma_step_wf(state, Action::MoveForward);
}

/// One action at most is played per turn: once an event has given the
/// action of a turn, an answer tagged with that turn is stale.
pub proof fn lemma_one_action_per_turn(state: GameModel, event: TurnEvent, late: Action)
    requires
        state.wf(),
        !state.is_over(),
        spec_resolve(state.turn, event).spec_action() is Some,
    ensures
        spec_resolve(spec_advance(state, event).turn, TurnEvent::Response(state.turn as usize, late))
            == Resolution::Stale(state.turn as usize),
{
    lemma_step_wf(state, spec_resolve(state.turn, event).spec_action()->Some_0);
}

/// An answer for another turn changes nothing.
pub proof fn lemma_stale_changes_nothing(state: GameModel, tag: usize, action: Action)
    requires
        tag != state.turn,
    ensures
        spec_advance(state, TurnEvent::Response(tag, action)) == state,
{
}

} // verus!
