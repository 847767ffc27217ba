//! The player that always takes the same action.
use vstd::prelude::*;
use crate::game::{Action, GameState, PlayerBehaviour};
use crate::model::GameModel;
use crate::worker::Behaviour;

verus! {

pub struct StaticAction {
    pub action: Action,
}

impl StaticAction {
    /// A player that always takes `action`.
    pub fn new(action: Action) -> (r: StaticAction)
        ensures
            r.action == action,
    {
        StaticAction { action }
    }
}

impl PlayerBehaviour for StaticAction {
    /// The static player chooses its action and stays as it is.
    open spec fn chooses(&self, game: GameModel, action: Action, after: &Self) -> bool {
        action == self.action && *after == *self
    }

    fn act(&mut self, game: &GameState) -> (action: Action) {
        self.action
    }
}

/// A worker that answers every snapshot of a running match with `action`.
pub fn static_action(action: Action) -> (r: Behaviour<StaticAction>)
    ensures
        r.behaviour.action == action,
        r.responses@ == Seq::<(usize, Action)>::empty(),
        !r.ended,
{
    Behaviour::make(StaticAction::new(action))
}

} // verus!
