//! What holds of every match: the invariant is kept by every turn, a turn is
//! a function of state and action, and a match cannot go on for ever.
use vstd::prelude::*;
use crate::cells::{cells, lemma_cells_len, lemma_subset_of_cells};
use crate::game::{Action, GameStatus, Player, Position, Tile};
use crate::model::{
    count_alive, empty_board, next_alive, place_heads, rotate, seek_alive, set_tile, tile_at, GameModel,
};

verus! {

/// Replacing one player changes the number of alive players by the
/// difference in that player's own flag.
pub proof fn lemma_count_alive_update(players: Seq<Player>, index: int, player: Player)
    requires
        0 <= index < players.len(),
    ensures
        count_alive(players.update(index, player)) + (if players[index].is_alive {
            1nat
        } else {
            0nat
        }) == count_alive(players) + (if player.is_alive {
            1nat
        } else {
            0nat
        }),
    decreases players.len(),
{
    let updated = players.update(index, player);
    if index == players.len() - 1 {
        assert(updated.drop_last() =~= players.drop_last());
    } else {
        lemma_count_alive_update(players.drop_last(), index, player);
        assert(updated.drop_last() =~= players.drop_last().update(index, player));
    }
}

/// Where the count of alive players is positive, some player is alive.
pub proof fn lemma_some_alive(players: Seq<Player>) -> (index: int)
    requires
        count_alive(players) > 0,
    ensures
        0 <= index < players.len(),
        players[index].is_alive,
    decreases players.len(),
{
    if players.last().is_alive {
        players.len() - 1
    } else {
        lemma_some_alive(players.drop_last())
    }
}

/// Where at least two players are alive, another player than `index` is.
pub proof fn lemma_other_alive(players: Seq<Player>, index: int) -> (other: int)
    requires
        0 <= index < players.len(),
        count_alive(players) >= 2,
    ensures
        0 <= other < players.len(),
        other != index,
        players[other].is_alive,
{
    let gone = Player { is_alive: false, ..players[index] };
    lemma_count_alive_update(players, index, gone);
    lemma_some_alive(players.update(index, gone))
}

/// Where exactly one player is alive, two alive players are the same one.
pub proof fn lemma_sole_survivor(players: Seq<Player>, a: int, b: int)
    requires
        0 <= a < players.len(),
        0 <= b < players.len(),
        players[a].is_alive,
        players[b].is_alive,
        count_alive(players) == 1,
    ensures
        a == b,
{
    if a != b {
        let gone = Player { is_alive: false, ..players[a] };
        lemma_count_alive_update(players, a, gone);
        let rest = players.update(a, gone);
        let gone_too = Player { is_alive: false, ..rest[b] };
        lemma_count_alive_update(rest, b, gone_too);
    }
}

/// The number of steps in rotation order from `from` to `to`.
pub open spec fn rotation_distance(from: int, to: int, count: int) -> int {
    if to >= from {
        to - from
    } else {
        to + count - from
    }
}

/// A search for an alive player that may look far enough to reach one
/// finds one.
pub proof fn lemma_seek_alive(players: Seq<Player>, from: int, limit: nat, alive: int)
    requires
        0 <= from < players.len(),
        0 <= alive < players.len(),
        players[alive].is_alive,
        limit >= rotation_distance(from, alive, players.len() as int),
    ensures
        0 <= seek_alive(players, from, limit) < players.len(),
        players[seek_alive(players, from, limit)].is_alive,
        rotation_distance(from, seek_alive(players, from, limit), players.len() as int) <= rotation_distance(
            from,
            alive,
            players.len() as int,
        ),
    decreases limit,
{
    if !players[from].is_alive {
        lemma_seek_alive(players, rotate(from, players.len() as int), (limit - 1) as nat, alive);
    }
}

/// Where some player is alive, the next alive player after `current` is a
/// player and is alive.
pub proof fn lemma_next_alive(players: Seq<Player>, current: int)
    requires
        0 <= current < players.len(),
        count_alive(players) > 0,
    ensures
        0 <= next_alive(players, current) < players.len(),
        players[next_alive(players, current)].is_alive,
{
    let alive = lemma_some_alive(players);
    lemma_seek_alive(players, rotate(current, players.len() as int), players.len(), alive);
}

/// Where at least two players are alive, the next alive player after
/// `current` is another player than `current`.
pub proof fn lemma_next_alive_differs(players: Seq<Player>, current: int)
    requires
        0 <= current < players.len(),
        count_alive(players) >= 2,
    ensures
        next_alive(players, current) != current,
{
    let other = lemma_other_alive(players, current);
    lemma_seek_alive(players, rotate(current, players.len() as int), players.len(), other);
}

/// Where the invariant holds, two different players stand on different
/// cells if one of them is alive.
pub proof fn lemma_positions_differ(state: GameModel, a: int, b: int)
    requires
        state.wf(),
        0 <= a < state.players.len(),
        0 <= b < state.players.len(),
        a != b,
        state.players[b].is_alive,
    ensures
        state.players[a].position != state.players[b].position,
{
}

/// Replacing the tile of one cell of the board changes that cell and no
/// other, and keeps the board's dimensions.
pub proof fn lemma_set_tile(state: GameModel, position: Position, tile: Tile)
    requires
        state.board_wf(),
        state.in_bounds(position),
    ensures
        (GameModel { board: set_tile(state.board, position, tile), ..state }).board_wf(),
        tile_at(set_tile(state.board, position, tile), position) == tile,
        forall|q: Position|
            state.in_bounds(q) && q != position ==> #[trigger] tile_at(set_tile(state.board, position, tile), q)
                == tile_at(state.board, q),
{
}

/// The empty cells of a board are finitely many, no more than its cells.
pub proof fn lemma_empty_cells_finite(state: GameModel)
    requires
        state.board_wf(),
    ensures
        state.empty_cells().finite(),
        state.empty_cells().len() <= state.board_width * state.board_height,
{
    lemma_subset_of_cells(state.empty_cells(), state.board_height, state.board_width);
}

/// A turn keeps the invariant of the match, advances the turn counter by
/// one, and uses up one of the turns that remain.
pub proof fn lemma_step_wf(state: GameModel, action: Action)
    requires
        state.wf(),
        !state.is_over(),
    ensures
        state.step(action).wf(),
        state.step(action).turn == state.turn + 1,
        state.step(action).remaining() + 1 == state.remaining(),
        state.step(action).board_width == state.board_width,
        state.step(action).board_height == state.board_height,
        state.step(action).players.len() == state.players.len(),
        state.step(action).empty_cells().subset_of(state.empty_cells()),
        state.step(action).alive_count <= state.alive_count <= state.step(action).alive_count + 1,
{
    let after = state.step(action);
    let current = state.status->PlayerTurn_0;
    let player = state.players[current as int];
    let target = action.spec_apply_to(player.direction).spec_apply_to(player.position);
    lemma_count_alive_update(state.players, current as int, after.players[current as int]);
    lemma_empty_cells_finite(state);
    if state.passable(target) {
        // The old cell becomes a wall, then the new one the head.
        let walled = GameModel {
            board: set_tile(state.board, player.position, Tile::PlayerWall(current)),
            ..state
        };
        lemma_set_tile(state, player.position, Tile::PlayerWall(current));
        lemma_set_tile(walled, target, Tile::PlayerHead(current));
        assert(after.empty_cells() =~= state.empty_cells().remove(target));
    } else {
        lemma_set_tile(state, player.position, Tile::Crash);
        assert(after.empty_cells() =~= state.empty_cells());
    }
    lemma_next_alive(after.players, current as int);
}

/// Where every player is alive, the number of alive players is the number
/// of players.
pub proof fn lemma_count_all_alive(players: Seq<Player>)
    requires
        forall|i: int| 0 <= i < players.len() ==> (#[trigger] players[i]).is_alive,
    ensures
        count_alive(players) == players.len(),
    decreases players.len(),
{
    if players.len() > 0 {
        lemma_count_all_alive(players.drop_last());
    }
}

/// The board on which the first `count` heads of a valid start are placed:
/// each of those players' cells holds its head, every other cell is empty,
/// and heads and empty cells together are all the cells of the board.
proof fn lemma_place_heads(width: nat, height: nat, players: Seq<Player>, count: nat)
    requires
        GameModel::valid_start(width, height, players),
        count <= players.len(),
    ensures
        ({
            let placed = GameModel {
                board: place_heads(empty_board(height, width), players, count),
                ..GameModel::initial(width, height, players)
            };
            &&& placed.board_wf()
            &&& forall|i: int|
                0 <= i < count ==> tile_at(placed.board, (#[trigger] players[i]).position) == Tile::PlayerHead(
                    i as usize,
                )
            &&& forall|p: Position|
                placed.in_bounds(p) ==> (match #[trigger] tile_at(placed.board, p) {
                    Tile::Empty => true,
                    Tile::PlayerHead(owner) => owner < count && players[owner as int].position == p,
                    _ => false,
                })
            &&& placed.empty_cells().finite()
            &&& placed.empty_cells().len() + count == width * height
        }),
    decreases count,
{
    let start = GameModel::initial(width, height, players);
    let placed = GameModel { board: place_heads(empty_board(height, width), players, count), ..start };
    if count == 0 {
        assert(placed.empty_cells() =~= cells(height, width));
        lemma_cells_len(height, width);
    } else {
        let fewer = (count - 1) as nat;
        lemma_place_heads(width, height, players, fewer);
        let before = GameModel { board: place_heads(empty_board(height, width), players, fewer), ..start };
        let position = players[fewer as int].position;
        lemma_set_tile(before, position, Tile::PlayerHead(fewer as usize));
        assert(placed.empty_cells() =~= before.empty_cells().remove(position));
    }
}

/// A match that begins with a valid start begins in a state of which the
/// invariant holds.
pub proof fn lemma_initial_wf(width: nat, height: nat, players: Seq<Player>)
    requires
        GameModel::valid_start(width, height, players),
    ensures
        GameModel::initial(width, height, players).wf(),
        GameModel::initial(width, height, players).remaining() == width * height,
{
    lemma_place_heads(width, height, players, players.len());
    lemma_count_all_alive(players);
}

/// A player that heads for a cell off the board or a cell that is not empty
/// is eliminated where it stands. If it was one of two alive players the
/// other one has won; if more were alive the match goes on.
pub proof fn lemma_step_crash(state: GameModel, action: Action)
    requires
        state.wf(),
        !state.is_over(),
        !state.passable(
            action.spec_apply_to(state.players[state.status->PlayerTurn_0 as int].direction).spec_apply_to(
                state.players[state.status->PlayerTurn_0 as int].position,
            ),
        ),
    ensures
        ({
            let current = state.status->PlayerTurn_0;
            let after = state.step(action);
            &&& !after.players[current as int].is_alive
            &&& after.players[current as int].position == state.players[current as int].position
            &&& tile_at(after.board, state.players[current as int].position) == Tile::Crash
            &&& after.alive_count == state.alive_count - 1
            &&& state.alive_count == 2 ==> after.status is Won && after.status->Won_0 != current
                && after.players[after.status->Won_0 as int].is_alive
            &&& state.alive_count > 2 ==> after.status is PlayerTurn
        }),
{
    lemma_step_wf(state, action);
    let current = state.status->PlayerTurn_0;
    lemma_set_tile(state, state.players[current as int].position, Tile::Crash);
}

/// A player that heads for an empty cell of the board moves there: its old
/// cell becomes its wall, the new one its head, nobody is eliminated and the
/// match goes on.
pub proof fn lemma_step_move(state: GameModel, action: Action)
    requires
        state.wf(),
        !state.is_over(),
        state.passable(
            action.spec_apply_to(state.players[state.status->PlayerTurn_0 as int].direction).spec_apply_to(
                state.players[state.status->PlayerTurn_0 as int].position,
            ),
        ),
    ensures
        ({
            let current = state.status->PlayerTurn_0;
            let before = state.players[current as int];
            let target = action.spec_apply_to(before.direction).spec_apply_to(before.position);
            let after = state.step(action);
            &&& after.players[current as int].is_alive
            &&& after.players[current as int].position == target
            &&& tile_at(after.board, target) == Tile::PlayerHead(current)
            &&& tile_at(after.board, before.position) == Tile::PlayerWall(current)
            &&& after.alive_count == state.alive_count
            &&& after.status is PlayerTurn
        }),
{
    lemma_step_wf(state, action);
    let current = state.status->PlayerTurn_0;
    let before = state.players[current as int];
    let target = action.spec_apply_to(before.direction).spec_apply_to(before.position);
    let walled = GameModel { board: set_tile(state.board, before.position, Tile::PlayerWall(current)), ..state };
    lemma_set_tile(state, before.position, Tile::PlayerWall(current));
    lemma_set_tile(walled, target, Tile::PlayerHead(current));
}

/// The state after the players have taken `actions` in turn, beginning in
/// `start`. Actions that come after the match is won are not played.
pub open spec fn play(start: GameModel, actions: Seq<Action>) -> GameModel
    decreases actions.len(),
{
    if actions.len() == 0 {
        start
    } else {
        let before = play(start, actions.drop_last());
        if before.is_over() {
            before
        } else {
            before.step(actions.last())
        }
    }
}

/// A state that a match can be in: what some sequence of actions leads to
/// from a valid start.
pub open spec fn reachable(state: GameModel) -> bool {
    exists|width: nat, height: nat, players: Seq<Player>, actions: Seq<Action>|
        GameModel::valid_start(width, height, players) && state == #[trigger] play(
            GameModel::initial(width, height, players),
            actions,
        )
}

/// A turn is a function of state and action: from equal states, the same
/// action leads to equal states.
pub proof fn lemma_step_deterministic(a: GameModel, b: GameModel, action: Action)
    requires
        a == b,
    ensures
        a.step(action) == b.step(action),
{
}

/// A state and its copy stay equal however many of the same actions are
/// played on both.
pub proof fn lemma_replay_equal(state: GameModel, copy: GameModel, actions: Seq<Action>, played: int)
    requires
        state == copy,
        0 <= played <= actions.len(),
    ensures
        play(state, actions.take(played)) == play(copy, actions.take(played)),
{
}

/// Playing on from a state of which the invariant holds leads to a state
/// of which it holds, with no more players alive than before.
pub proof fn lemma_play_wf(start: GameModel, actions: Seq<Action>)
    requires
        start.wf(),
    ensures
        play(start, actions).wf(),
        play(start, actions).alive_count <= start.alive_count,
        play(start, actions).empty_cells().subset_of(start.empty_cells()),
    decreases actions.len(),
{
    if actions.len() > 0 {
        lemma_play_wf(start, actions.drop_last());
        let before = play(start, actions.drop_last());
        if !before.is_over() {
            lemma_step_wf(before, actions.last());
        }
    }
}

/// The invariant holds of every state that a match can be in.
pub proof fn lemma_reachable_wf(state: GameModel)
    requires
        reachable(state),
    ensures
        state.wf(),
{
    let (width, height, players, actions) = choose|
        width: nat,
        height: nat,
        players: Seq<Player>,
        actions: Seq<Action>,
    |
        GameModel::valid_start(width, height, players) && state == #[trigger] play(
            GameModel::initial(width, height, players),
            actions,
        );
    lemma_initial_wf(width, height, players);
    lemma_play_wf(GameModel::initial(width, height, players), actions);
}

/// In every state that a match can be in, an alive player has exactly one
/// head on the board, at its recorded position.
pub proof fn lemma_one_head_per_alive_player(state: GameModel, player: int)
    requires
        reachable(state),
        0 <= player < state.players.len(),
        state.players[player].is_alive,
    ensures
        forall|p: Position|
            state.in_bounds(p) ==> (#[trigger] tile_at(state.board, p) == Tile::PlayerHead(player as usize) <==> p
                == state.players[player].position),
{
    lemma_reachable_wf(state);
}

/// In every state that a match can be in, `alive_count` is the number of
/// players that are alive, and a turn lowers it by one at most.
pub proof fn lemma_alive_count(state: GameModel, action: Action)
    requires
        reachable(state),
    ensures
        state.alive_count == count_alive(state.players),
        !state.is_over() ==> state.step(action).alive_count == count_alive(state.step(action).players)
            && state.step(action).alive_count <= state.alive_count <= state.step(action).alive_count + 1,
{
    lemma_reachable_wf(state);
    if !state.is_over() {
        lemma_step_wf(state, action);
    }
}

/// In every state that a match can be in, the match is over exactly when
/// one player is left alive, and the winner is that player.
pub proof fn lemma_over_iff_one_alive(state: GameModel)
    requires
        reachable(state),
    ensures
        state.is_over() <==> state.alive_count == 1,
        state.status matches GameStatus::Won(winner) ==> winner < state.players.len() && forall|i: int|
            0 <= i < state.players.len() ==> ((#[trigger] state.players[i]).is_alive <==> i == winner),
{
    lemma_reachable_wf(state);
    if let GameStatus::Won(winner) = state.status {
        assert forall|i: int| 0 <= i < state.players.len() implies ((#[trigger] state.players[i]).is_alive <==> i
            == winner) by {
            if state.players[i].is_alive {
                lemma_sole_survivor(state.players, i, winner as int);
            }
        }
    }
}

/// A cell that is not empty stays as it is or changes to another tile that
/// is not empty: a turn never empties a cell.
pub proof fn lemma_step_never_empties(state: GameModel, action: Action, position: Position)
    requires
        state.wf(),
        !state.is_over(),
        state.in_bounds(position),
        !(tile_at(state.board, position) is Empty),
    ensures
        !(tile_at(state.step(action).board, position) is Empty),
{
    lemma_step_wf(state, action);
}

/// A match ends: from a state of which the invariant holds, no more turns
/// can be played than cells are empty and players alive.
pub proof fn lemma_play_ends(start: GameModel, actions: Seq<Action>)
    requires
        start.wf(),
        actions.len() > start.remaining(),
    ensures
        play(start, actions).is_over(),
{
    lemma_play_bound(start, actions);
}

/// While a match runs, each action played uses up one of the turns that
/// remain.
proof fn lemma_play_bound(start: GameModel, actions: Seq<Action>)
    requires
        start.wf(),
    ensures
        play(start, actions).wf(),
        !play(start, actions).is_over() ==> play(start, actions).remaining() + actions.len()
            == start.remaining(),
    decreases actions.len(),
{
    lemma_play_wf(start, actions);
    if actions.len() > 0 {
        lemma_play_bound(start, actions.drop_last());
        let before = play(start, actions.drop_last());
        if !before.is_over() {
            lemma_step_wf(before, actions.last());
        }
    }
}

} // verus!
