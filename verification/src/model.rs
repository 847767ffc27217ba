//! The mathematical model of a match: what a state is, when it is well
//! formed, and what one turn does to it.
use vstd::prelude::*;
use crate::game::{Action, GameStatus, Player, Position, Tile};

verus! {

/// The tile of `board` at `position`.
pub open spec fn tile_at(board: Seq<Seq<Tile>>, position: Position) -> Tile {
    board[position.0 as int][position.1 as int]
}

/// `board` with the tile at `position` replaced by `tile`.
pub open spec fn set_tile(board: Seq<Seq<Tile>>, position: Position, tile: Tile) -> Seq<Seq<Tile>> {
    board.update(position.0 as int, board[position.0 as int].update(position.1 as int, tile))
}

/// The number of players of `players` that are alive.
pub open spec fn count_alive(players: Seq<Player>) -> nat
    decreases players.len(),
{
    if players.len() == 0 {
        0
    } else {
        count_alive(players.drop_last()) + if players.last().is_alive {
            1nat
        } else {
            0nat
        }
    }
}

/// The index that follows `index` in the rotation of `count` players.
pub open spec fn rotate(index: int, count: int) -> int {
    if index + 1 >= count {
        0
    } else {
        index + 1
    }
}

/// The first index at or after `from` in rotation order whose player is
/// alive, looking at no more than `limit` further players.
pub open spec fn seek_alive(players: Seq<Player>, from: int, limit: nat) -> int
    decreases limit,
{
    if limit == 0 || players[from].is_alive {
        from
    } else {
        seek_alive(players, rotate(from, players.len() as int), (limit - 1) as nat)
    }
}

/// The next alive player after `current` in rotation order. It is `current`
/// itself where no other player is alive.
pub open spec fn next_alive(players: Seq<Player>, current: int) -> int {
    seek_alive(players, rotate(current, players.len() as int), players.len())
}

/// A board of `height` rows and `width` columns with every cell empty.
pub open spec fn empty_board(height: nat, width: nat) -> Seq<Seq<Tile>> {
    Seq::new(height, |r: int| Seq::new(width, |c: int| Tile::Empty))
}

/// `board` with the heads of the first `count` players placed at their
/// positions, in the order of the player list.
pub open spec fn place_heads(board: Seq<Seq<Tile>>, players: Seq<Player>, count: nat) -> Seq<Seq<Tile>>
    decreases count,
{
    if count == 0 {
        board
    } else {
        set_tile(
            place_heads(board, players, (count - 1) as nat),
            players[count - 1].position,
            Tile::PlayerHead((count - 1) as usize),
        )
    }
}

/// The state of a match as a mathematical value.
pub struct GameModel {
    pub turn: nat,
    pub players: Seq<Player>,
    pub alive_count: nat,
    pub status: GameStatus,
    pub board_width: nat,
    pub board_height: nat,
    pub board: Seq<Seq<Tile>>,
}

impl GameModel {
    /// The state in which a match on a board of `width` by `height` begins:
    /// every player's head is placed, nothing else is on the board, and the
    /// first turn is the first player's.
    pub open spec fn initial(width: nat, height: nat, players: Seq<Player>) -> GameModel {
        GameModel {
            turn: 0,
            players,
            alive_count: count_alive(players),
            status: GameStatus::PlayerTurn(0),
            board_width: width,
            board_height: height,
            board: place_heads(empty_board(height, width), players, players.len()),
        }
    }

    /// What a match can begin with: a board whose cells can be counted in a
    /// `usize`, and at least two players, all alive, on distinct cells of
    /// the board.
    pub open spec fn valid_start(width: nat, height: nat, players: Seq<Player>) -> bool {
        &&& width <= usize::MAX
        &&& height <= usize::MAX
        &&& width * height <= usize::MAX
        &&& 2 <= players.len() <= usize::MAX
        &&& forall|i: int|
            0 <= i < players.len() ==> (#[trigger] players[i]).is_alive && players[i].position.0 < height
                && players[i].position.1 < width
        &&& forall|i: int, j: int|
            0 <= i < j < players.len() ==> (#[trigger] players[i]).position != (#[trigger] players[j]).position
    }

    /// Whether `position` lies on the board.
    pub open spec fn in_bounds(self, position: Position) -> bool {
        position.0 < self.board_height && position.1 < self.board_width
    }

    /// Whether a player may move to `position`: it lies on the board and is
    /// empty.
    pub open spec fn passable(self, position: Position) -> bool {
        self.in_bounds(position) && tile_at(self.board, position) is Empty
    }

    /// The empty cells of the board.
    pub open spec fn empty_cells(self) -> Set<Position> {
        Set::new(|p: Position| self.passable(p))
    }

    /// An upper bound on the number of turns that can still be played: every
    /// turn fills an empty cell or eliminates a player.
    pub open spec fn remaining(self) -> nat {
        self.empty_cells().len() + self.alive_count
    }

    /// Whether the match has ended.
    pub open spec fn is_over(self) -> bool {
        self.status is Won
    }

    /// The board has the recorded dimensions, and its cells can be counted
    /// in a `usize`.
    pub open spec fn board_wf(self) -> bool {
        &&& self.board.len() == self.board_height
        &&& forall|r: int| 0 <= r < self.board_height ==> (#[trigger] self.board[r]).len() == self.board_width
        &&& self.board_height <= usize::MAX
        &&& self.board_width <= usize::MAX
        &&& self.board_width * self.board_height <= usize::MAX
    }

    /// The invariant of a match.
    ///
    /// Every player stands on the board; `alive_count` counts the alive
    /// players; an alive player's cell holds its head and a dead player's
    /// cell its crash; every head on the board belongs to the alive player
    /// recorded at that cell; while the match runs it is the turn of an alive
    /// player and at least two are alive; once it is won exactly one is alive,
    /// the winner; and the turn counter leaves room for the turns that
    /// remain.
    pub open spec fn wf(self) -> bool {
        &&& self.board_wf()
        &&& self.players.len() <= usize::MAX
        &&& forall|i: int| 0 <= i < self.players.len() ==> self.in_bounds((#[trigger] self.players[i]).position)
        &&& self.alive_count == count_alive(self.players)
        &&& forall|i: int|
            0 <= i < self.players.len() ==> tile_at(self.board, (#[trigger] self.players[i]).position) == (
            if self.players[i].is_alive {
                Tile::PlayerHead(i as usize)
            } else {
                Tile::Crash
            })
        &&& forall|p: Position|
            self.in_bounds(p) ==> (#[trigger] tile_at(self.board, p) matches Tile::PlayerHead(owner) ==> owner
                < self.players.len() && self.players[owner as int].is_alive && self.players[owner as int].position
                == p)
        &&& match self.status {
            GameStatus::PlayerTurn(current) => current < self.players.len()
                && self.players[current as int].is_alive && self.alive_count >= 2,
            GameStatus::Won(winner) => winner < self.players.len() && self.players[winner as int].is_alive
                && self.alive_count == 1,
        }
        &&& self.turn + self.remaining() <= usize::MAX
    }

    /// The state after the player whose turn it is takes `action`.
    ///
    /// The player turns as the action says and heads for the next cell in
    /// its new direction. If that cell is on the board and empty, the old
    /// cell becomes the player's wall and the new one its head. Otherwise the
    /// old cell becomes a crash and the player is eliminated. The turn passes
    /// to the next alive player in rotation order, who has won if no other
    /// player is alive.
    pub open spec fn step(self, action: Action) -> GameModel
        recommends
            self.wf(),
            !self.is_over(),
    {
        let current = self.status->PlayerTurn_0;
        let player = self.players[current as int];
        let direction = action.spec_apply_to(player.direction);
        let target = direction.spec_apply_to(player.position);
        let moved = self.passable(target);
        let players = self.players.update(
            current as int,
            if moved {
                Player { direction, position: target, ..player }
            } else {
                Player { direction, is_alive: false, ..player }
            },
        );
        let board = if moved {
            set_tile(
                set_tile(self.board, player.position, Tile::PlayerWall(current)),
                target,
                Tile::PlayerHead(current),
            )
        } else {
            set_tile(self.board, player.position, Tile::Crash)
        };
        let alive_count = if moved {
            self.alive_count
        } else {
            (self.alive_count - 1) as nat
        };
        let next = next_alive(players, current as int) as usize;
        GameModel {
            turn: self.turn + 1,
            players,
            alive_count,
            status: if alive_count == 1 {
                GameStatus::Won(next)
            } else {
                GameStatus::PlayerTurn(next)
            },
            board,
            ..self
        }
    }
}

} // verus!
