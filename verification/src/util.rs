//! The space estimator: how many cells a player could still reach.
use vstd::prelude::*;
use vstd::set_lib::lemma_len_subset;
use crate::game::{Direction, GameState, Position};
use crate::cells::{cells, lemma_cells_len};
use crate::laws::lemma_empty_cells_finite;
use crate::model::GameModel;

verus! {

/// One step in some direction leads from `a` to `b`.
pub open spec fn adjacent(a: Position, b: Position) -> bool {
    exists|d: Direction| #[trigger] d.spec_apply_to(a) == b
}

/// `path` is a walk over empty cells of the board, each next to the one
/// before it.
pub open spec fn is_path(state: GameModel, path: Seq<Position>) -> bool {
    &&& path.len() > 0
    &&& forall|i: int| 0 <= i < path.len() ==> state.passable(#[trigger] path[i])
    &&& forall|i: int| 0 <= i < path.len() - 1 ==> adjacent(#[trigger] path[i], path[i + 1])
}

/// `target` can be reached from `position` by stepping onto a neighbouring
/// cell and walking on over empty cells. The cell at `position` itself need
/// not be empty.
pub open spec fn reaches(state: GameModel, position: Position, target: Position) -> bool {
    exists|path: Seq<Position>| #[trigger]
        is_path(state, path) && adjacent(position, path[0]) && path.last() == target
}

/// The cells that can be reached from `position`.
pub open spec fn flood_region(position: Position, state: GameModel) -> Set<Position> {
    Set::new(|target: Position| reaches(state, position, target))
}

/// Every empty neighbour of `cell` belongs to `found`.
pub open spec fn settled(state: GameModel, found: Set<Position>, cell: Position) -> bool {
    forall|d: Direction| state.passable(#[trigger] d.spec_apply_to(cell)) ==> found.contains(d.spec_apply_to(cell))
}

/// An empty neighbour of `position` can be reached from it.
pub proof fn lemma_region_seed(state: GameModel, position: Position, d: Direction)
    requires
        state.passable(d.spec_apply_to(position)),
    ensures
        flood_region(position, state).contains(d.spec_apply_to(position)),
{
    let path = seq![d.spec_apply_to(position)];
    assert(is_path(state, path));
}

/// An empty neighbour of a cell that can be reached can be reached too.
pub proof fn lemma_region_step(state: GameModel, position: Position, cell: Position, d: Direction)
    requires
        flood_region(position, state).contains(cell),
        state.passable(d.spec_apply_to(cell)),
    ensures
        flood_region(position, state).contains(d.spec_apply_to(cell)),
{
    let path = choose|path: Seq<Position>| #[trigger]
        is_path(state, path) && adjacent(position, path[0]) && path.last() == cell;
    let longer = path.push(d.spec_apply_to(cell));
    assert(is_path(state, longer));
}

/// Every cell that can be reached is empty.
pub proof fn lemma_region_empty(state: GameModel, position: Position)
    ensures
        flood_region(position, state).subset_of(state.empty_cells()),
{
}

/// Every cell of a walk that starts next to `position` belongs to a set that
/// holds the empty neighbours of `position` and of each of its own cells.
proof fn lemma_walk_stays(
    state: GameModel,
    position: Position,
    found: Set<Position>,
    path: Seq<Position>,
    upto: int,
)
    requires
        is_path(state, path),
        adjacent(position, path[0]),
        settled(state, found, position),
        forall|p: Position| found.contains(p) ==> settled(state, found, p),
        0 <= upto < path.len(),
    ensures
        found.contains(path[upto]),
    decreases upto,
{
    if upto > 0 {
        lemma_walk_stays(state, position, found, path, upto - 1);
    }
}

/// A set of cells that can be reached from `position`, that holds the empty
/// neighbours of `position` and of each of its own cells, is the set of all
/// cells that can be reached from `position`.
pub proof fn lemma_region_closed(state: GameModel, position: Position, found: Set<Position>)
    requires
        found.subset_of(flood_region(position, state)),
        settled(state, found, position),
        forall|p: Position| found.contains(p) ==> settled(state, found, p),
    ensures
        found == flood_region(position, state),
{
    assert forall|q: Position| flood_region(position, state).contains(q) implies found.contains(q) by {
        let path = choose|path: Seq<Position>| #[trigger]
            is_path(state, path) && adjacent(position, path[0]) && path.last() == q;
        lemma_walk_stays(state, position, found, path, path.len() - 1);
    }
}

/// Where no neighbour of `position` is empty, nothing can be reached.
pub proof fn lemma_region_blocked(state: GameModel, position: Position)
    requires
        forall|d: Direction| !state.passable(#[trigger] d.spec_apply_to(position)),
    ensures
        flood_region(position, state) == Set::<Position>::empty(),
{
    lemma_region_closed(state, position, Set::<Position>::empty());
}

/// The number of steps between two cells, along rows and columns.
pub open spec fn steps_between(a: Position, b: Position) -> int {
    (if a.0 >= b.0 {
        a.0 - b.0
    } else {
        b.0 - a.0
    }) + (if a.1 >= b.1 {
        a.1 - b.1
    } else {
        b.1 - a.1
    })
}

/// On a board of which every cell but the one at `position` is empty, every
/// other cell can be reached from `position`.
proof fn lemma_open_board_reaches(state: GameModel, position: Position, target: Position)
    requires
        state.board_wf(),
        state.in_bounds(position),
        state.in_bounds(target),
        target != position,
        forall|q: Position| state.in_bounds(q) && q != position ==> state.passable(q),
    ensures
        flood_region(position, state).contains(target),
    decreases steps_between(target, position),
{
    if steps_between(target, position) == 1 {
        let d = if target.0 > position.0 {
            Direction::South
        } else if target.0 < position.0 {
            Direction::North
        } else if target.1 > position.1 {
            Direction::East
        } else {
            Direction::West
        };
        lemma_region_seed(state, position, d);
    } else {
        let (d, nearer): (Direction, Position) = if target.0 > position.0 {
            (Direction::South, ((target.0 - 1) as usize, target.1))
        } else if target.0 < position.0 {
            (Direction::North, ((target.0 + 1) as usize, target.1))
        } else if target.1 > position.1 {
            (Direction::East, (target.0, (target.1 - 1) as usize))
        } else {
            (Direction::West, (target.0, (target.1 + 1) as usize))
        };
        lemma_open_board_reaches(state, position, nearer);
        lemma_region_step(state, position, nearer, d);
    }
}

/// On a board of which every cell is empty but the one at `position`, the
/// cells that can be reached from `position` are all the others: one less
/// than the board has.
pub proof fn lemma_open_board(state: GameModel, position: Position)
    requires
        state.board_wf(),
        state.in_bounds(position),
        !state.passable(position),
        forall|q: Position| state.in_bounds(q) && q != position ==> state.passable(q),
    ensures
        flood_region(position, state) == cells(state.board_height, state.board_width).remove(position),
        flood_region(position, state).len() == state.board_width * state.board_height - 1,
{
    let all = cells(state.board_height, state.board_width);
    lemma_region_empty(state, position);
    assert forall|q: Position| all.remove(position).contains(q) implies flood_region(position, state).contains(
        q,
    ) by {
        lemma_open_board_reaches(state, position, q);
    }
    lemma_cells_len(state.board_height, state.board_width);
}

/// `flooded` has one flag for each cell of the board.
spec fn grid_wf(flooded: &Vec<Vec<bool>>, state: GameModel) -> bool {
    &&& flooded.len() == state.board_height
    &&& forall|r: int| 0 <= r < flooded.len() ==> (#[trigger] flooded[r]).len() == state.board_width
}

/// The cells whose flag is set.
spec fn marked(flooded: &Vec<Vec<bool>>, state: GameModel) -> Set<Position> {
    Set::new(|p: Position| state.in_bounds(p) && flooded[p.0 as int][p.1 as int])
}

/// Looks at one cell: if it is empty and was not found before, it is marked,
/// counted, and put on the stack of cells whose neighbours are still to be
/// looked at.
fn fill(
    pos: Position,
    game: &GameState,
    flooded: &mut Vec<Vec<bool>>,
    count: &mut usize,
    stack: &mut Vec<Position>,
)
    requires
        game@.board_wf(),
        grid_wf(old(flooded), game@),
        marked(old(flooded), game@).subset_of(game@.empty_cells()),
        *old(count) == marked(old(flooded), game@).len(),
    ensures
        grid_wf(final(flooded), game@),
        marked(final(flooded), game@).subset_of(game@.empty_cells()),
        *final(count) == marked(final(flooded), game@).len(),
        game@.passable(pos) && !marked(old(flooded), game@).contains(pos) ==> {
            &&& marked(final(flooded), game@) == marked(old(flooded), game@).insert(pos)
            &&& *final(count) == *old(count) + 1
            &&& final(stack)@ == old(stack)@.push(pos)
        },
        !(game@.passable(pos) && !marked(old(flooded), game@).contains(pos)) ==> {
            &&& marked(final(flooded), game@) == marked(old(flooded), game@)
            &&& *final(count) == *old(count)
            &&& final(stack)@ == old(stack)@
        },
{
    let (r, c) = pos;
    if game.can_move_to(pos) && !flooded[r][c] {
        proof {
            let found = marked(flooded, game@);
            lemma_empty_cells_finite(game@);
            lemma_len_subset(found, game@.empty_cells());
            lemma_len_subset(found.insert(pos), game@.empty_cells());
        }
        flooded[r][c] = true;
        *count += 1;
        stack.push(pos);
        assert(marked(flooded, game@) =~= marked(old(flooded), game@).insert(pos));
    }
}

/// Looks at the four neighbours of `pos`.
fn fill_around(
    pos: Position,
    game: &GameState,
    flooded: &mut Vec<Vec<bool>>,
    count: &mut usize,
    stack: &mut Vec<Position>,
)
    requires
        game@.board_wf(),
        grid_wf(old(flooded), game@),
        marked(old(flooded), game@).subset_of(game@.empty_cells()),
        *old(count) == marked(old(flooded), game@).len(),
    ensures
        grid_wf(final(flooded), game@),
        marked(final(flooded), game@).subset_of(game@.empty_cells()),
        *final(count) == marked(final(flooded), game@).len(),
        marked(old(flooded), game@).subset_of(marked(final(flooded), game@)),
        settled(game@, marked(final(flooded), game@), pos),
        forall|q: Position|
            #![trigger marked(final(flooded), game@).contains(q)]
            marked(final(flooded), game@).contains(q) && !marked(old(flooded), game@).contains(q) ==> {
                &&& exists|d: Direction| #[trigger] d.spec_apply_to(pos) == q
                &&& final(stack)@.contains(q)
            },
        final(stack).len() >= old(stack).len(),
        final(stack).len() - old(stack).len() == *final(count) - *old(count),
        forall|i: int| 0 <= i < old(stack).len() ==> final(stack)[i] == old(stack)[i],
        forall|i: int|
            old(stack).len() <= i < final(stack).len() ==> marked(final(flooded), game@).contains(
                #[trigger] final(stack)[i],
            ),
{
    let ghost found0 = marked(flooded, game@);
    fill(Direction::North.apply_to(pos), game, flooded, count, stack);
    let ghost found1 = marked(flooded, game@);
    let ghost stack1 = stack@;
    fill(Direction::East.apply_to(pos), game, flooded, count, stack);
    let ghost found2 = marked(flooded, game@);
    let ghost stack2 = stack@;
    fill(Direction::South.apply_to(pos), game, flooded, count, stack);
    let ghost found3 = marked(flooded, game@);
    let ghost stack3 = stack@;
    fill(Direction::West.apply_to(pos), game, flooded, count, stack);
    proof {
        let found4 = marked(flooded, game@);
        let stack4 = stack@;
        // A cell that was found in this round was pushed when it was found,
        // and is still where it was pushed.
        assert forall|q: Position| #![trigger found4.contains(q)] found4.contains(q) && !found0.contains(q) implies {
            &&& exists|d: Direction| #[trigger] d.spec_apply_to(pos) == q
            &&& stack4.contains(q)
        } by {
            if found1.contains(q) {
                assert(stack4[stack1.len() - 1] == q);
            } else if found2.contains(q) {
                assert(stack4[stack2.len() - 1] == q);
            } else if found3.contains(q) {
                assert(stack4[stack3.len() - 1] == q);
            } else {
                assert(stack4[stack4.len() - 1] == q);
            }
        }
    }
}

/// The number of cells that can be reached from `position`: the cells to
/// which a walk over empty cells leads that starts on one of the four
/// neighbours of `position`. The cell at `position` itself counts only if it
/// is empty and such a walk comes back to it. The board is not changed.
pub fn flood_count(position: Position, game: &GameState) -> (count: usize)
    requires
        game@.board_wf(),
    ensures
        flood_region(position, game@).finite(),
        count == flood_region(position, game@).len(),
        count <= game@.empty_cells().len(),
        (forall|d: Direction| !game@.passable(#[trigger] d.spec_apply_to(position))) ==> count == 0,
{
    let mut flooded: Vec<Vec<bool>> = Vec::new();
    let mut r: usize = 0;
    while r < game.board_height
        invariant
            r <= game.board_height,
            flooded.len() == r,
            forall|k: int|
                0 <= k < r ==> (#[trigger] flooded[k])@ == Seq::new(game.board_width as nat, |c: int| false),
        decreases game.board_height - r,
    {
        let mut row: Vec<bool> = Vec::new();
        let mut c: usize = 0;
        while c < game.board_width
            invariant
                c <= game.board_width,
                row.len() == c,
                forall|k: int| 0 <= k < c ==> !row[k],
            decreases game.board_width - c,
        {
            row.push(false);
            c += 1;
        }
        flooded.push(row);
        r += 1;
    }
    let mut count: usize = 0;
    let mut stack: Vec<Position> = Vec::new();
    proof {
        lemma_empty_cells_finite(game@);
        lemma_region_empty(game@, position);
        assert(marked(&flooded, game@) =~= Set::<Position>::empty());
    }
    fill_around(position, game, &mut flooded, &mut count, &mut stack);
    proof {
        let found = marked(&flooded, game@);
        assert forall|q: Position| found.contains(q) implies flood_region(position, game@).contains(q) by {
            let d = choose|d: Direction| #[trigger] d.spec_apply_to(position) == q;
            lemma_region_seed(game@, position, d);
        }
    }
    while stack.len() > 0
        invariant
            game@.board_wf(),
            game@.empty_cells().finite(),
            flood_region(position, game@).subset_of(game@.empty_cells()),
            grid_wf(&flooded, game@),
            marked(&flooded, game@).subset_of(game@.empty_cells()),
            marked(&flooded, game@).subset_of(flood_region(position, game@)),
            count == marked(&flooded, game@).len(),
            settled(game@, marked(&flooded, game@), position),
            forall|i: int| 0 <= i < stack.len() ==> marked(&flooded, game@).contains(#[trigger] stack[i]),
            forall|p: Position|
                marked(&flooded, game@).contains(p) ==> settled(game@, marked(&flooded, game@), p)
                    || stack@.contains(p),
        decreases game@.empty_cells().len() - count, stack.len(),
    {
        let ghost found_before = marked(&flooded, game@);
        let ghost stack_before = stack@;
        let pos = stack.pop().unwrap();
        fill_around(pos, game, &mut flooded, &mut count, &mut stack);
        proof {
            let found = marked(&flooded, game@);
            lemma_len_subset(found, game@.empty_cells());
            assert forall|q: Position| found.contains(q) implies flood_region(position, game@).contains(
                q,
            ) by {
                if !found_before.contains(q) {
                    let d = choose|d: Direction| #[trigger] d.spec_apply_to(pos) == q;
                    lemma_region_step(game@, position, pos, d);
                }
            }
            assert forall|p: Position| found.contains(p) implies settled(game@, found, p) || stack@.contains(
                p,
            ) by {
                if found_before.contains(p) && p != pos && !settled(game@, found_before, p) {
                    // It was on the stack below the cell that was popped, and still is.
                    assert(stack_before.contains(p));
                    let i = choose|i: int| 0 <= i < stack_before.len() && stack_before[i] == p;
                    assert(stack@[i] == p);
                }
            }
        }
    }
    proof {
        let found = marked(&flooded, game@);
        assert forall|p: Position| found.contains(p) implies settled(game@, found, p) by {
            assert(!stack@.contains(p));
        }
        lemma_region_closed(game@, position, found);
        lemma_len_subset(found, game@.empty_cells());
        if forall|d: Direction| !game@.passable(#[trigger] d.spec_apply_to(position)) {
            lemma_region_blocked(game@, position);
        }
    }
    count
}

} // verus!
