//! The player that wanders: it goes straight on for a while, turns at
//! random, and avoids what it can see is blocked.
use vstd::prelude::*;
use crate::game::{Action, GameState};
use crate::model::GameModel;

verus! {

/// A turn to the side that a coin picks: left for `true`.
pub fn random_turn(coin: bool) -> (action: Action)
    ensures
        action == if coin {
            Action::TurnLeft
        } else {
            Action::TurnRight
        },
{
    if coin {
        Action::TurnLeft
    } else {
        Action::TurnRight
    }
}

/// Whether the player whose turn it is can move to the cell that `action`
/// leads it to.
pub open spec fn is_free(state: GameModel, action: Action) -> bool {
    let player = state.players[state.status->PlayerTurn_0 as int];
    state.passable(action.spec_apply_to(player.direction).spec_apply_to(player.position))
}

/// Whether the wanderer goes straight on: the cell ahead is free, and it
/// has nowhere to turn to or does not want a change.
pub open spec fn keeps_straight(state: GameModel, change: bool) -> bool {
    is_free(state, Action::MoveForward) && ((!is_free(state, Action::TurnLeft) && !is_free(
        state,
        Action::TurnRight,
    )) || !change)
}

/// The action of the wanderer. Where it does not go straight on it turns
/// away from a side that is blocked, and to the side that the coin picks
/// where both are free.
pub open spec fn wander(state: GameModel, change: bool, coin: bool) -> Action {
    if keeps_straight(state, change) {
        Action::MoveForward
    } else if !is_free(state, Action::TurnLeft) {
        Action::TurnRight
    } else if !is_free(state, Action::TurnRight) {
        Action::TurnLeft
    } else if coin {
        Action::TurnLeft
    } else {
        Action::TurnRight
    }
}

/// The wanderer, which remembers for how many turns it has gone straight.
pub struct StupidRandom {
    pub turns_since_change: usize,
}

impl StupidRandom {
    /// A wanderer that has not gone straight yet.
    pub fn new() -> (r: StupidRandom)
        ensures
            r.turns_since_change == 0,
    {
        StupidRandom { turns_since_change: 0 }
    }

    /// The action for the player whose turn it is, given the outcome of two
    /// draws: whether the wanderer wants a change, which grows likelier the
    /// longer it has gone straight, and a coin for the side to turn to.
    pub fn act_with(&mut self, game: &GameState, change: bool, coin: bool) -> (action: Action)
        requires
            game.wf(),
            !game@.is_over(),
            old(self).turns_since_change < usize::MAX,
        ensures
            action == wander(game@, change, coin),
            final(self).turns_since_change == if keeps_straight(game@, change) {
                old(self).turns_since_change + 1
            } else {
                0
            },
    {
        let player_index = game.current_player();
        let direction = game.players[player_index].direction;
        let position = game.players[player_index].position;
        let forward_pos = direction.apply_to(position);
        let left_pos = direction.left().apply_to(position);
        let right_pos = direction.right().apply_to(position);
        let forward_free = game.can_move_to(forward_pos);
        let left_free = game.can_move_to(left_pos);
        let right_free = game.can_move_to(right_pos);

        if forward_free && ((!left_free && !right_free) || !change) {
            self.turns_since_change += 1;
            Action::MoveForward
        } else {
            self.turns_since_change = 0;
            if !left_free {
                Action::TurnRight
            } else if !right_free {
                Action::TurnLeft
            } else {
                random_turn(coin)
            }
        }
    }
}

} // verus!
