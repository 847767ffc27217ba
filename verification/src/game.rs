//! The grid engine: the state of a match and its single transition.
use vstd::prelude::*;
use vstd::set_lib::lemma_len_subset;
use crate::laws::{
    lemma_empty_cells_finite, lemma_initial_wf, lemma_set_tile, lemma_some_alive, lemma_step_wf,
    rotation_distance,
};
use crate::model::{count_alive, empty_board, next_alive, place_heads, seek_alive, set_tile, tile_at, GameModel};

verus! {

/// A cell of the board, as (row, column).
pub type Position = (usize, usize);

/// The index of a player, fixed when the match is created.
pub type PlayerIndex = usize;

/// The row or column before `x`; stepping off the low edge wraps to the
/// largest coordinate, which lies outside every board.
pub open spec fn coord_before(x: usize) -> usize {
    if x == 0 {
        usize::MAX
    } else {
        (x - 1) as usize
    }
}

/// The row or column after `x`, wrapping at the largest coordinate.
pub open spec fn coord_after(x: usize) -> usize {
    if x == usize::MAX {
        0
    } else {
        (x + 1) as usize
    }
}

#[derive(Clone, Copy, Debug, PartialEq, Eq, Structural)]
pub enum Direction {
    North,
    West,
    South,
    East,
}

#[derive(Clone, Copy, Debug, PartialEq, Eq, Structural)]
pub enum Action {
    MoveForward,
    TurnLeft,
    TurnRight,
}

/// A participant of a match. A player is known by its index in the player
/// list, which never changes.
#[derive(Debug, PartialEq, Eq)]
pub struct Player {
    pub name: String,
    pub position: Position,
    pub direction: Direction,
    pub is_alive: bool,
}

impl Clone for Player {
    fn clone(&self) -> (r: Player)
        ensures
            r == *self,
    {
        Player {
            name: self.name.clone(),
            position: self.position,
            direction: self.direction,
            is_alive: self.is_alive,
        }
    }
}

/// A strategy by which a player chooses its action. It may keep state from
/// one turn to the next.
pub trait PlayerBehaviour {
    /// Whether this behaviour, asked in the state `game`, may choose
    /// `action` and be `after` from then on. A behaviour that does not say
    /// may choose any action.
    open spec fn chooses(&self, game: GameModel, action: Action, after: &Self) -> bool {
        true
    }

    /// The action for the player whose turn it is in `game`, a running
    /// match.
    fn act(&mut self, game: &GameState) -> (action: Action)
        requires
            game.wf(),
            !game@.is_over(),
        ensures
            old(self).chooses(game@, action, final(self)),
    ;
}

/// What a cell of the board holds. A cell that is no longer empty never
/// becomes empty again.
#[derive(Clone, Copy, Debug, PartialEq, Eq, Structural)]
pub enum Tile {
    Empty,
    PlayerWall(PlayerIndex),
    PlayerHead(PlayerIndex),
    Crash,
}

/// Whose turn it is, or who has won. `Won` is final.
#[derive(Clone, Copy, Debug, PartialEq, Eq, Structural)]
pub enum GameStatus {
    PlayerTurn(PlayerIndex),
    Won(PlayerIndex),
}

impl Tile {
    /// Whether a player may move onto this tile: only an empty one.
    pub open spec fn spec_is_passable(self) -> bool {
        self is Empty
    }

    /// Whether a player may move onto this tile: only an empty one.
    pub fn is_passable(&self) -> (r: bool)
        ensures
            r == self.spec_is_passable(),
    {
        match *self {
            Tile::Empty => true,
            _ => false,
        }
    }
}

impl GameStatus {
    /// Whether the match has ended.
    pub open spec fn spec_is_over(self) -> bool {
        self is Won
    }

    /// Whether the match has ended.
    pub fn is_over(&self) -> (r: bool)
        ensures
            r == self.spec_is_over(),
    {
        match *self {
            GameStatus::PlayerTurn(_) => false,
            _ => true,
        }
    }
}

impl Direction {
    /// The direction after a quarter turn counter-clockwise.
    pub open spec fn spec_left(self) -> Direction {
        match self {
            Direction::North => Direction::West,
            Direction::East => Direction::North,
            Direction::South => Direction::East,
            Direction::West => Direction::South,
        }
    }

    /// The direction after a quarter turn clockwise.
    pub open spec fn spec_right(self) -> Direction {
        match self {
            Direction::North => Direction::East,
            Direction::East => Direction::South,
            Direction::South => Direction::West,
            Direction::West => Direction::North,
        }
    }

    /// The cell next to `position` in this direction. North is towards row
    /// zero and West towards column zero.
    pub open spec fn spec_apply_to(self, position: Position) -> Position {
        match self {
            Direction::North => (coord_before(position.0), position.1),
            Direction::West => (position.0, coord_before(position.1)),
            Direction::South => (coord_after(position.0), position.1),
            Direction::East => (position.0, coord_after(position.1)),
        }
    }

    /// The action that turns a player facing `self` towards `target`, if one
    /// action can: none reverses the direction.
    pub open spec fn spec_action_for(self, target: Direction) -> Option<Action> {
        if self == target {
            Some(Action::MoveForward)
        } else if self.spec_left() == target {
            Some(Action::TurnLeft)
        } else if self.spec_right() == target {
            Some(Action::TurnRight)
        } else {
            None
        }
    }

    /// The direction after a quarter turn counter-clockwise.
    pub fn left(&self) -> (r: Direction)
        ensures
            r == self.spec_left(),
    {
        match *self {
            Direction::North => Direction::West,
            Direction::East => Direction::North,
            Direction::South => Direction::East,
            Direction::West => Direction::South,
        }
    }

    /// The direction after a quarter turn clockwise.
    pub fn right(&self) -> (r: Direction)
        ensures
            r == self.spec_right(),
    {
        match *self {
            Direction::North => Direction::East,
            Direction::East => Direction::South,
            Direction::South => Direction::West,
            Direction::West => Direction::North,
        }
    }

    /// The cell next to `position` in this direction.
    pub fn apply_to(&self, position: Position) -> (r: Position)
        ensures
            r == self.spec_apply_to(position),
    {
        let (row, column) = position;
        match *self {
            Direction::North => (if row == 0 { usize::MAX } else { row - 1 }, column),
            Direction::West => (row, if column == 0 { usize::MAX } else { column - 1 }),
            Direction::South => (if row == usize::MAX { 0 } else { row + 1 }, column),
            Direction::East => (row, if column == usize::MAX { 0 } else { column + 1 }),
        }
    }

    /// The action that turns a player facing `self` towards `target`; none
    /// where `target` is the opposite direction.
    pub fn action_for(&self, target: Direction) -> (r: Option<Action>)
        ensures
            r == self.spec_action_for(target),
            r matches Some(action) ==> action.spec_apply_to(*self) == target,
            r is None <==> target == self.spec_left().spec_left(),
    {
        if *self == target {
            Some(Action::MoveForward)
        } else if self.left() == target {
            Some(Action::TurnLeft)
        } else if self.right() == target {
            Some(Action::TurnRight)
        } else {
            None
        }
    }
}

impl Action {
    /// The direction a player faces after taking this action while facing
    /// `direction`.
    pub open spec fn spec_apply_to(self, direction: Direction) -> Direction {
        match self {
            Action::MoveForward => direction,
            Action::TurnLeft => direction.spec_left(),
            Action::TurnRight => direction.spec_right(),
        }
    }

    /// The direction a player faces after taking this action while facing
    /// `direction`.
    pub fn apply_to(&self, direction: Direction) -> (r: Direction)
        ensures
            r == self.spec_apply_to(direction),
    {
        match *self {
            Action::MoveForward => direction,
            Action::TurnLeft => direction.left(),
            Action::TurnRight => direction.right(),
        }
    }
}

/// The empty cells that come before row `row`, column `column` when the
/// board is read row by row.
spec fn scanned(state: GameModel, row: int, column: int) -> Set<Position> {
    Set::new(|p: Position| state.passable(p) && (p.0 < row || (p.0 == row && p.1 < column)))
}

/// The state of a match. There is one per match: it is created by
/// [`GameState::new`] and changed by [`GameState::do_turn`] alone, and
/// whoever wants to look ahead works on a clone.
#[derive(Debug, PartialEq, Eq)]
pub struct GameState {
    pub turn: usize,
    pub players: Vec<Player>,
    pub alive_count: usize,
    pub status: GameStatus,
    pub board_width: usize,
    pub board_height: usize,
    pub board: Vec<Vec<Tile>>,
}

impl View for GameState {
    type V = GameModel;

    open spec fn view(&self) -> GameModel {
        GameModel {
            turn: self.turn as nat,
            players: self.players@,
            alive_count: self.alive_count as nat,
            status: self.status,
            board_width: self.board_width as nat,
            board_height: self.board_height as nat,
            board: Seq::new(self.board@.len(), |r: int| self.board@[r]@),
        }
    }
}

impl GameState {
    /// The invariant of a match holds of this state.
    pub open spec fn wf(&self) -> bool {
        self@.wf()
    }

    /// Begins a match on a board of `board_width` by `board_height`: places
    /// the head of every player, in the order of the list, and gives the
    /// first turn to the first player.
    ///
    /// The invariant of a match holds of the result where the start is
    /// valid: at least two players, all alive, on distinct cells.
    pub fn new(board_width: usize, board_height: usize, players: Vec<Player>) -> (state: GameState)
        requires
            board_width * board_height <= usize::MAX,
            forall|i: int|
                0 <= i < players.len() ==> (#[trigger] players[i]).position.0 < board_height
                    && players[i].position.1 < board_width,
        ensures
            state@ == GameModel::initial(board_width as nat, board_height as nat, players@),
            state@.board_wf(),
            GameModel::valid_start(board_width as nat, board_height as nat, players@) ==> state.wf(),
    {
        let mut board: Vec<Vec<Tile>> = Vec::new();
        let mut r: usize = 0;
        while r < board_height
            invariant
                r <= board_height,
                board.len() == r,
                forall|k: int|
                    0 <= k < r ==> (#[trigger] board[k])@ == Seq::new(board_width as nat, |c: int| Tile::Empty),
            decreases board_height - r,
        {
            let mut row: Vec<Tile> = Vec::new();
            let mut c: usize = 0;
            while c < board_width
                invariant
                    c <= board_width,
                    row.len() == c,
                    forall|k: int| 0 <= k < c ==> row[k] == Tile::Empty,
                decreases board_width - c,
            {
                row.push(Tile::Empty);
                c += 1;
            }
            board.push(row);
            r += 1;
        }
        let ghost start = GameModel::initial(board_width as nat, board_height as nat, players@);
        let mut state = GameState {
            turn: 0,
            players,
            alive_count: 0,
            status: GameStatus::PlayerTurn(0),
            board_width,
            board_height,
            board,
        };
        state.alive_count = state.count_alive();
        assert(state@.board =~= empty_board(board_height as nat, board_width as nat));
        let mut i: usize = 0;
        while i < state.players.len()
            invariant
                i <= state.players.len(),
                state@.board_wf(),
                state.players@ == start.players,
                forall|k: int|
                    0 <= k < state.players.len() ==> state@.in_bounds((#[trigger] state.players[k]).position),
                state@ == (GameModel {
                    board: place_heads(
                        empty_board(board_height as nat, board_width as nat),
                        start.players,
                        i as nat,
                    ),
                    ..start
                }),
            decreases state.players.len() - i,
        {
            let position = state.players[i].position;
            proof {
                lemma_set_tile(state@, position, Tile::PlayerHead(i));
            }
            state.board_set(position, Tile::PlayerHead(i));
            i += 1;
        }
        proof {
            if GameModel::valid_start(board_width as nat, board_height as nat, state.players@) {
                lemma_initial_wf(board_width as nat, board_height as nat, state.players@);
            }
        }
        state
    }

    /// Whether the board has the recorded dimensions and its cells can be
    /// counted in a `usize`.
    pub fn is_board_wf(&self) -> (r: bool)
        ensures
            r == self@.board_wf(),
    {
        if self.board.len() != self.board_height || self.board_width.checked_mul(self.board_height).is_none() {
            return false;
        }
        let mut row: usize = 0;
        while row < self.board.len()
            invariant
                row <= self.board.len(),
                self.board.len() == self.board_height,
                forall|k: int| 0 <= k < row ==> (#[trigger] self@.board[k]).len() == self.board_width,
            decreases self.board.len() - row,
        {
            if self.board[row].len() != self.board_width {
                assert(self@.board[row as int].len() != self.board_width);
                return false;
            }
            row += 1;
        }
        true
    }

    /// The number of players that are alive.
    pub fn count_alive(&self) -> (r: usize)
        ensures
            r == count_alive(self.players@),
    {
        let mut alive_count: usize = 0;
        let mut i: usize = 0;
        while i < self.players.len()
            invariant
                i <= self.players.len(),
                alive_count <= i,
                alive_count == count_alive(self.players@.take(i as int)),
            decreases self.players.len() - i,
        {
            assert(self.players@.take(i + 1).drop_last() =~= self.players@.take(i as int));
            if self.players[i].is_alive {
                alive_count += 1;
            }
            i += 1;
        }
        assert(self.players@.take(self.players.len() as int) =~= self.players@);
        alive_count
    }

    /// The number of empty cells of the board.
    pub fn count_empty(&self) -> (r: usize)
        requires
            self@.board_wf(),
        ensures
            r == self@.empty_cells().len(),
    {
        let mut count: usize = 0;
        let mut row: usize = 0;
        proof {
            lemma_empty_cells_finite(self@);
            assert(scanned(self@, 0, 0) =~= Set::<Position>::empty());
        }
        while row < self.board_height
            invariant
                self@.board_wf(),
                self@.empty_cells().finite(),
                self@.empty_cells().len() <= usize::MAX,
                row <= self.board_height,
                count == scanned(self@, row as int, 0).len(),
            decreases self.board_height - row,
        {
            let mut column: usize = 0;
            while column < self.board_width
                invariant
                    self@.board_wf(),
                    self@.empty_cells().finite(),
                    self@.empty_cells().len() <= usize::MAX,
                    row < self.board_height,
                    column <= self.board_width,
                    count == scanned(self@, row as int, column as int).len(),
                decreases self.board_width - column,
            {
                proof {
                    let before = scanned(self@, row as int, column as int);
                    let after = scanned(self@, row as int, column + 1);
                    lemma_len_subset(before, self@.empty_cells());
                    lemma_len_subset(after, self@.empty_cells());
                    if self@.passable((row, column)) {
                        assert(after =~= before.insert((row, column)));
                    } else {
                        assert(after =~= before);
                    }
                }
                if self.board[row][column].is_passable() {
                    count += 1;
                }
                column += 1;
            }
            assert(scanned(self@, row as int, self.board_width as int) =~= scanned(self@, row + 1, 0));
            row += 1;
        }
        assert(scanned(self@, self.board_height as int, 0) =~= self@.empty_cells());
        count
    }

    /// Whether every player stands on the board, on its head if it is alive
    /// and on its crash if it is not.
    fn players_match_board(&self) -> (r: bool)
        requires
            self@.board_wf(),
        ensures
            r == ((forall|i: int|
                0 <= i < self.players.len() ==> self@.in_bounds((#[trigger] self.players[i]).position))
                && (forall|i: int|
                0 <= i < self.players.len() ==> tile_at(self@.board, (#[trigger] self.players[i]).position) == (
                if self.players[i].is_alive {
                    Tile::PlayerHead(i as usize)
                } else {
                    Tile::Crash
                }))),
    {
        let mut i: usize = 0;
        while i < self.players.len()
            invariant
                self@.board_wf(),
                i <= self.players.len(),
                forall|k: int| 0 <= k < i ==> self@.in_bounds((#[trigger] self.players[k]).position),
                forall|k: int|
                    0 <= k < i ==> tile_at(self@.board, (#[trigger] self.players[k]).position) == (
                    if self.players[k].is_alive {
                        Tile::PlayerHead(k as usize)
                    } else {
                        Tile::Crash
                    }),
            decreases self.players.len() - i,
        {
            let (row, column) = self.players[i].position;
            if row >= self.board_height || column >= self.board_width {
                return false;
            }
            let expected = if self.players[i].is_alive {
                Tile::PlayerHead(i)
            } else {
                Tile::Crash
            };
            if self.board[row][column] != expected {
                return false;
            }
            i += 1;
        }
        true
    }

    /// Whether every head on the board belongs to an alive player that is
    /// recorded at that cell.
    fn heads_match_players(&self) -> (r: bool)
        requires
            self@.board_wf(),
        ensures
            r == (forall|p: Position|
                self@.in_bounds(p) ==> (#[trigger] tile_at(self@.board, p) matches Tile::PlayerHead(owner)
                    ==> owner < self.players.len() && self.players[owner as int].is_alive
                    && self.players[owner as int].position == p)),
    {
        let mut row: usize = 0;
        while row < self.board_height
            invariant
                self@.board_wf(),
                row <= self.board_height,
                forall|p: Position|
                    self@.in_bounds(p) && p.0 < row ==> (#[trigger] tile_at(self@.board, p) matches Tile::PlayerHead(
                        owner,
                    ) ==> owner < self.players.len() && self.players[owner as int].is_alive
                        && self.players[owner as int].position == p),
            decreases self.board_height - row,
        {
            let mut column: usize = 0;
            while column < self.board_width
                invariant
                    self@.board_wf(),
                    row < self.board_height,
                    column <= self.board_width,
                    forall|p: Position|
                        self@.in_bounds(p) && (p.0 < row || (p.0 == row && p.1 < column)) ==> (#[trigger] tile_at(
                            self@.board,
                            p,
                        ) matches Tile::PlayerHead(owner) ==> owner < self.players.len()
                            && self.players[owner as int].is_alive && self.players[owner as int].position == p),
                decreases self.board_width - column,
            {
                match self.board[row][column] {
                    Tile::PlayerHead(owner) => {
                        if owner >= self.players.len() {
                            return false;
                        }
                        let (owner_row, owner_column) = self.players[owner].position;
                        if !self.players[owner].is_alive || owner_row != row || owner_column != column {
                            assert(tile_at(self@.board, (row, column)) == Tile::PlayerHead(owner));
                            return false;
                        }
                    },
                    _ => {},
                }
                column += 1;
            }
            row += 1;
        }
        true
    }

    /// Whether the invariant of a match holds of this state.
    pub fn is_wf(&self) -> (r: bool)
        ensures
            r == self.wf(),
    {
        if !self.is_board_wf() {
            return false;
        }
        if !self.players_match_board() || !self.heads_match_players() {
            return false;
        }
        if self.alive_count != self.count_alive() {
            return false;
        }
        let status_fits = match self.status {
            GameStatus::PlayerTurn(current) => current < self.players.len() && self.players[current].is_alive
                && self.alive_count >= 2,
            GameStatus::Won(winner) => winner < self.players.len() && self.players[winner].is_alive
                && self.alive_count == 1,
        };
        if !status_fits {
            return false;
        }
        let empty = self.count_empty();
        match self.turn.checked_add(empty) {
            Some(sum) => sum.checked_add(self.alive_count).is_some(),
            None => false,
        }
    }

    /// Whether a match can begin with `players` on a board of `board_width`
    /// by `board_height`: the cells of the board can be counted, and there
    /// are at least two players, all alive, on distinct cells of the board.
    pub fn is_valid_start(board_width: usize, board_height: usize, players: &Vec<Player>) -> (r: bool)
        ensures
            r == GameModel::valid_start(board_width as nat, board_height as nat, players@),
    {
        if board_width.checked_mul(board_height).is_none() || players.len() < 2 {
            return false;
        }
        let mut i: usize = 0;
        while i < players.len()
            invariant
                i <= players.len(),
                forall|k: int|
                    0 <= k < i ==> (#[trigger] players[k]).is_alive && players[k].position.0 < board_height
                        && players[k].position.1 < board_width,
                forall|k: int, j: int|
                    0 <= k < j < i ==> (#[trigger] players[k]).position != (#[trigger] players[j]).position,
            decreases players.len() - i,
        {
            let (row, column) = players[i].position;
            if !players[i].is_alive || row >= board_height || column >= board_width {
                return false;
            }
            let mut j: usize = 0;
            while j < i
                invariant
                    j <= i < players.len(),
                    (row, column) == players[i as int].position,
                    forall|k: int| 0 <= k < j ==> (#[trigger] players[k]).position != players[i as int].position,
                decreases i - j,
            {
                let (other_row, other_column) = players[j].position;
                if other_row == row && other_column == column {
                    return false;
                }
                j += 1;
            }
            i += 1;
        }
        true
    }

    /// Begins a match as [`GameState::new`] does, if a match can begin with
    /// these players on this board.
    pub fn try_new(board_width: usize, board_height: usize, players: Vec<Player>) -> (r: Option<GameState>)
        ensures
            r is Some <==> GameModel::valid_start(board_width as nat, board_height as nat, players@),
            r matches Some(state) ==> state@ == GameModel::initial(
                board_width as nat,
                board_height as nat,
                players@,
            ) && state.wf(),
    {
        if GameState::is_valid_start(board_width, board_height, &players) {
            Some(GameState::new(board_width, board_height, players))
        } else {
            None
        }
    }

    fn board_set(&mut self, position: Position, tile: Tile)
        requires
            old(self)@.board_wf(),
            old(self)@.in_bounds(position),
        ensures
            final(self)@ == (GameModel { board: set_tile(old(self)@.board, position, tile), ..old(self)@ }),
    {
        let (row, column) = position;
        self.board[row][column] = tile;
        assert(self@.board =~= set_tile(old(self)@.board, position, tile));
    }

    fn move_to(&mut self, player: PlayerIndex, position: Position)
        requires
            old(self)@.board_wf(),
            player < old(self).players.len(),
            old(self)@.in_bounds(old(self).players[player as int].position),
            old(self)@.in_bounds(position),
        ensures
            final(self)@ == (GameModel {
                board: set_tile(
                    set_tile(
                        old(self)@.board,
                        old(self).players[player as int].position,
                        Tile::PlayerWall(player),
                    ),
                    position,
                    Tile::PlayerHead(player),
                ),
                players: old(self).players@.update(
                    player as int,
                    Player { position, ..old(self).players[player as int] },
                ),
                ..old(self)@
            }),
    {
        let old_pos = self.players[player].position;
        self.board_set(old_pos, Tile::PlayerWall(player));
        proof {
            lemma_set_tile(old(self)@, old_pos, Tile::PlayerWall(player));
        }
        self.board_set(position, Tile::PlayerHead(player));
        self.players[player].position = position;
    }

    /// Whether a player may move to `position`: it lies on the board and is
    /// empty.
    pub fn can_move_to(&self, position: Position) -> (r: bool)
        requires
            self@.board_wf(),
        ensures
            r == self@.passable(position),
    {
        let (row, column) = position;
        if row < self.board_height && column < self.board_width {
            assert(self@.board[row as int].len() == self.board_width);
            self.board[row][column].is_passable()
        } else {
            false
        }
    }

    /// The next alive player after `current` in rotation order.
    pub fn player_after(&self, current: PlayerIndex) -> (r: PlayerIndex)
        requires
            current < self.players.len(),
            count_alive(self.players@) >= 1,
        ensures
            r == next_alive(self.players@, current as int),
            r < self.players.len(),
            self.players[r as int].is_alive,
    {
        let count: usize = self.players.len();
        let mut cur: usize = if current + 1 >= count {
            0
        } else {
            current + 1
        };
        let ghost alive: int = 0;
        let ghost mut limit: nat = count as nat;
        proof {
            alive = lemma_some_alive(self.players@);
        }
        while !self.players[cur].is_alive
            invariant
                cur < count,
                count == self.players.len(),
                0 <= alive < count,
                self.players[alive].is_alive,
                limit >= rotation_distance(cur as int, alive, count as int),
                seek_alive(self.players@, cur as int, limit) == next_alive(self.players@, current as int),
            decreases limit,
        {
            cur = if cur + 1 >= count {
                0
            } else {
                cur + 1
            };
            proof {
                limit = (limit - 1) as nat;
            }
        }
        cur
    }

    /// Whether the match has ended.
    pub fn is_over(&self) -> (r: bool)
        ensures
            r == self@.is_over(),
    {
        match self.status {
            GameStatus::PlayerTurn(_) => false,
            _ => true,
        }
    }

    /// The player whose turn it is. Only a running match has one.
    pub fn current_player(&self) -> (r: PlayerIndex)
        requires
            !self@.is_over(),
        ensures
            self.status == GameStatus::PlayerTurn(r),
    {
        match self.status {
            GameStatus::PlayerTurn(current) => current,
            GameStatus::Won(_) => vstd::pervasive::unreached(),
        }
    }

    /// The player who has won. Only a finished match has one.
    pub fn winner(&self) -> (r: PlayerIndex)
        requires
            self@.is_over(),
        ensures
            self.status == GameStatus::Won(r),
    {
        match self.status {
            GameStatus::Won(winner) => winner,
            GameStatus::PlayerTurn(_) => vstd::pervasive::unreached(),
        }
    }

    /// Plays one turn: the player whose turn it is takes `action`.
    pub fn do_turn(&mut self, action: Action)
        requires
            old(self).wf(),
            !old(self)@.is_over(),
        ensures
            final(self)@ == old(self)@.step(action),
            final(self).wf(),
            final(self).turn == old(self).turn + 1,
            final(self).alive_count <= old(self).alive_count <= final(self).alive_count + 1,
            final(self)@.remaining() + 1 == old(self)@.remaining(),
    {
        proof {
            lemma_step_wf(self@, action);
        }
        let current = self.current_player();
        let cur_direction = self.players[current].direction;
        let new_direction = action.apply_to(cur_direction);
        self.players[current].direction = new_direction;
        let cur_position = self.players[current].position;
        let new_position = new_direction.apply_to(cur_position);

        if self.can_move_to(new_position) {
            self.move_to(current, new_position);
            assert(self.players@ =~= old(self)@.step(action).players);
        } else {
            self.board_set(cur_position, Tile::Crash);
            self.players[current].is_alive = false;
            self.alive_count -= 1;
            assert(self.players@ =~= old(self)@.step(action).players);
        }

        let next_player = self.player_after(current);
        if self.alive_count == 1 {
            self.status = GameStatus::Won(next_player)
        } else {
            self.status = GameStatus::PlayerTurn(next_player)
        }

        self.turn += 1;
    }
}

impl Clone for GameState {
    /// An independent copy of the state, equal to it.
    fn clone(&self) -> (r: GameState)
        ensures
            r@ == self@,
    {
        let mut players: Vec<Player> = Vec::new();
        let mut i: usize = 0;
        while i < self.players.len()
            invariant
                i <= self.players.len(),
                players.len() == i,
                forall|k: int| 0 <= k < i ==> players[k] == self.players[k],
            decreases self.players.len() - i,
        {
            players.push(self.players[i].clone());
            i += 1;
        }
        let mut board: Vec<Vec<Tile>> = Vec::new();
        let mut r: usize = 0;
        while r < self.board.len()
            invariant
                r <= self.board.len(),
                board.len() == r,
                forall|k: int| 0 <= k < r ==> board[k]@ == self.board[k]@,
            decreases self.board.len() - r,
        {
            let mut row: Vec<Tile> = Vec::new();
            let mut c: usize = 0;
            while c < self.board[r].len()
                invariant
                    r < self.board.len(),
                    c <= self.board[r as int].len(),
                    row.len() == c,
                    forall|k: int| 0 <= k < c ==> row[k] == self.board[r as int][k],
                decreases self.board[r as int].len() - c,
            {
                row.push(self.board[r][c]);
                c += 1;
            }
            board.push(row);
            r += 1;
        }
        let copy = GameState {
            turn: self.turn,
            players,
            alive_count: self.alive_count,
            status: self.status,
            board_width: self.board_width,
            board_height: self.board_height,
            board,
        };
        assert(copy.players@ =~= self.players@);
        assert(copy@.board =~= self@.board);
        copy
    }
}

} // verus!
