//! The player that is steered by direction hints, as from a keyboard.
use vstd::prelude::*;
use crate::game::{Action, Direction, GameState, PlayerBehaviour};
use crate::model::GameModel;

verus! {

/// The code that a terminal gives for the arrow key down.
pub const KEY_DOWN: i32 = 258;

/// The code that a terminal gives for the arrow key up.
pub const KEY_UP: i32 = 259;

/// The code that a terminal gives for the arrow key left.
pub const KEY_LEFT: i32 = 260;

/// The code that a terminal gives for the arrow key right.
pub const KEY_RIGHT: i32 = 261;

/// The direction that a key stands for: an arrow key, or one of the letters
/// h, j, k and l.
pub open spec fn spec_key_direction(key: i32) -> Option<Direction> {
    if key == KEY_UP || key == 107 {
        Some(Direction::North)
    } else if key == KEY_RIGHT || key == 108 {
        Some(Direction::East)
    } else if key == KEY_DOWN || key == 106 {
        Some(Direction::South)
    } else if key == KEY_LEFT || key == 104 {
        Some(Direction::West)
    } else {
        None
    }
}

/// The direction that `key` stands for, if it stands for one.
pub fn key_direction(key: i32) -> (r: Option<Direction>)
    ensures
        r == spec_key_direction(key),
{
    if key == KEY_UP || key == 107 {
        Some(Direction::North)
    } else if key == KEY_RIGHT || key == 108 {
        Some(Direction::East)
    } else if key == KEY_DOWN || key == 106 {
        Some(Direction::South)
    } else if key == KEY_LEFT || key == 104 {
        Some(Direction::West)
    } else {
        None
    }
}

/// The action by which the player whose turn it is follows a hint: the one
/// that turns it towards the hinted direction, and straight on where there
/// is no hint or the hint points backwards.
pub open spec fn spec_hint_action(state: GameModel, hint: Option<Direction>) -> Action {
    match hint {
        None => Action::MoveForward,
        Some(direction) => match state.players[state.status->PlayerTurn_0 as int].direction.spec_action_for(
            direction,
        ) {
            Some(action) => action,
            None => Action::MoveForward,
        },
    }
}

/// The action by which the player whose turn it is follows `hint`.
pub fn hint_action(game: &GameState, hint: Option<Direction>) -> (action: Action)
    requires
        game.wf(),
        !game@.is_over(),
    ensures
        action == spec_hint_action(game@, hint),
{
    match hint {
        None => Action::MoveForward,
        Some(direction) => {
            match game.players[game.current_player()].direction.action_for(direction) {
                Some(action) => action,
                None => Action::MoveForward,
            }
        },
    }
}

/// A player that follows the hints it was given, one per turn, in the order
/// in which they came.
pub struct KeyboardControlled {
    pub pending: Vec<Direction>,
}

impl KeyboardControlled {
    /// A keyboard player without hints.
    pub fn new() -> (r: KeyboardControlled)
        ensures
            r.pending@ == Seq::<Direction>::empty(),
    {
        KeyboardControlled { pending: Vec::new() }
    }

    /// Takes a hint, to be followed after those that came before it.
    pub fn steer(&mut self, direction: Direction)
        ensures
            final(self).pending@ == old(self).pending@.push(direction),
    {
        self.pending.push(direction);
    }
}

impl PlayerBehaviour for KeyboardControlled {
    /// The keyboard player follows the oldest of its hints and forgets it;
    /// without a hint it goes straight on.
    open spec fn chooses(&self, game: GameModel, action: Action, after: &Self) -> bool {
        if self.pending.len() == 0 {
            action == Action::MoveForward && after.pending@ == self.pending@
        } else {
            action == spec_hint_action(game, Some(self.pending[0])) && after.pending@
                == self.pending@.drop_first()
        }
    }

    fn act(&mut self, game: &GameState) -> (action: Action) {
        if self.pending.len() == 0 {
            Action::MoveForward
        } else {
            let direction = self.pending.remove(0);
            hint_action(game, Some(direction))
        }
    }
}

} // verus!
