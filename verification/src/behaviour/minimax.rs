//! The anytime search: it looks ahead for as long as its time budget and a
//! series of trials allow, and values what it has not looked into by the
//! space that the players can still reach.
use vstd::prelude::*;
use crate::game::{Action, GameState, GameStatus, PlayerBehaviour, PlayerIndex, Position};
use crate::laws::{lemma_next_alive_differs, lemma_positions_differ, lemma_step_wf};
use crate::model::{next_alive, GameModel};
use crate::score::{lemma_below_after_not_below, lemma_below_transitive, Score};
use crate::util::{flood_count, flood_region};
use crate::worker::Behaviour;

verus! {

/// The time in nanoseconds that the search takes for one candidate action
/// unless told otherwise.
pub const TARGET_ACT_TIME: u64 = 50000000;

/// The trial that decides, node by node, whether the search looks further
/// ahead. The search asks it only while the time budget is not used up, and
/// is correct whatever it answers.
pub trait ExploreTrial {
    /// Whether a trial for a node at `depth`, `elapsed_ns` nanoseconds into
    /// a budget of `budget_ns`, may come out as `deeper` and leave this
    /// source of trials as `after`. A source that does not say may come out
    /// either way.
    open spec fn draws(&self, depth: usize, elapsed_ns: u64, budget_ns: u64, deeper: bool, after: &Self) -> bool {
        true
    }

    /// Whether to look below a node at `depth`, `elapsed_ns` nanoseconds
    /// into a budget of `budget_ns`.
    fn explore_deeper(&mut self, depth: usize, elapsed_ns: u64, budget_ns: u64) -> (deeper: bool)
        ensures
            old(self).draws(depth, elapsed_ns, budget_ns, deeper, final(self)),
    ;
}

/// The trial without chance: the search looks ahead down to a fixed depth,
/// whatever the time.
pub struct DepthLimit {
    pub limit: usize,
}

impl ExploreTrial for DepthLimit {
    open spec fn draws(&self, depth: usize, elapsed_ns: u64, budget_ns: u64, deeper: bool, after: &Self) -> bool {
        deeper == (depth < self.limit) && *after == *self
    }

    fn explore_deeper(&mut self, depth: usize, elapsed_ns: u64, budget_ns: u64) -> (deeper: bool) {
        depth < self.limit
    }
}

/// The player that chooses its action by the anytime search.
pub struct Minimax<T: ExploreTrial> {
    /// The trials that end the search below a node.
    pub trial: T,
    /// The time in nanoseconds that the search takes for one candidate
    /// action.
    pub budget_ns: u64,
}

impl<T: ExploreTrial> Minimax<T> {
    /// A player that searches with the default budget.
    pub fn new(trial: T) -> (r: Self)
        ensures
            r.trial == trial,
            r.budget_ns == TARGET_ACT_TIME,
    {
        Minimax { trial, budget_ns: TARGET_ACT_TIME }
    }

    /// A player that searches with a budget of `budget_ns` nanoseconds.
    pub fn with_budget(trial: T, budget_ns: u64) -> (r: Self)
        ensures
            r.trial == trial,
            r.budget_ns == budget_ns,
    {
        Minimax { trial, budget_ns }
    }
}

/// How far a search looked below a state: not at all, or into each of the
/// three states that follow it.
pub enum Explored {
    Leaf,
    Node(Box<Explored>, Box<Explored>, Box<Explored>),
}

/// The larger of the distances in rows and in columns between two cells.
pub open spec fn chebyshev(a: Position, b: Position) -> int {
    let rows = if a.0 >= b.0 {
        a.0 - b.0
    } else {
        b.0 - a.0
    };
    let columns = if a.1 >= b.1 {
        a.1 - b.1
    } else {
        b.1 - a.1
    };
    if rows >= columns {
        rows
    } else {
        columns
    }
}

/// The score of a finished match: a victory if `player` has won it, else a
/// defeat.
pub open spec fn terminal_score(player: PlayerIndex, state: GameModel) -> Score {
    if state.status == GameStatus::Won(player) {
        Score::Won
    } else {
        Score::Lost
    }
}

/// The score of a running match without looking ahead. It compares the
/// space that `player` can reach with the space that the next alive player
/// after it can reach.
pub open spec fn static_score(player: PlayerIndex, state: GameModel) -> Score {
    let other = next_alive(state.players, player as int);
    let ours = state.players[player as int].position;
    let theirs = state.players[other].position;
    let our_space = flood_region(ours, state).len();
    let their_space = flood_region(theirs, state).len();
    if our_space > their_space {
        Score::Ahead(our_space as usize)
    } else if our_space < their_space {
        if our_space == 0 {
            Score::Lost
        } else {
            Score::Behind(our_space as usize)
        }
    } else {
        Score::Level(our_space as usize, chebyshev(ours, theirs) as usize)
    }
}

/// The scores of the three states that follow a state, taken together: the
/// lowest of them where the layer minimizes, else the highest.
pub open spec fn fold_scores(minimize: bool, forward: Score, left: Score, right: Score) -> Score {
    if minimize {
        Score::Won.spec_min(forward).spec_min(left).spec_min(right)
    } else {
        Score::Lost.spec_max(forward).spec_max(left).spec_max(right)
    }
}

/// The score of `state` for `player` when the search has looked as far as
/// `explored` says: a finished match has its final score, a state that was
/// not looked into its static score, and any other the fold of the scores
/// of the three states that follow it, in which the layers alternate.
pub open spec fn search_value(player: PlayerIndex, state: GameModel, minimize: bool, explored: Explored) -> Score
    decreases explored,
{
    if state.is_over() {
        terminal_score(player, state)
    } else {
        match explored {
            Explored::Leaf => static_score(player, state),
            Explored::Node(forward, left, right) => fold_scores(
                minimize,
                search_value(player, state.step(Action::MoveForward), !minimize, *forward),
                search_value(player, state.step(Action::TurnLeft), !minimize, *left),
                search_value(player, state.step(Action::TurnRight), !minimize, *right),
            ),
        }
    }
}

/// The action with the highest of three scores, the first of them where
/// several are highest.
pub open spec fn best_action(forward: Score, left: Score, right: Score) -> Action {
    if forward.below(left) {
        if left.below(right) {
            Action::TurnRight
        } else {
            Action::TurnLeft
        }
    } else {
        if forward.below(right) {
            Action::TurnRight
        } else {
            Action::MoveForward
        }
    }
}

/// The score of the action in a choice between three.
pub open spec fn score_of(action: Action, forward: Score, left: Score, right: Score) -> Score {
    match action {
        Action::MoveForward => forward,
        Action::TurnLeft => left,
        Action::TurnRight => right,
    }
}

/// The action that is chosen has the highest of the three scores, and every
/// action that is tried before it has a score strictly below.
pub proof fn lemma_best_action_highest(forward: Score, left: Score, right: Score)
    requires
        forward.valid(),
        left.valid(),
        right.valid(),
    ensures
        ({
            let chosen = best_action(forward, left, right);
            let best = score_of(chosen, forward, left, right);
            &&& !best.below(forward)
            &&& !best.below(left)
            &&& !best.below(right)
            &&& chosen == Action::TurnLeft ==> forward.below(left)
            &&& chosen == Action::TurnRight ==> forward.below(right) && left.below(right)
        }),
{
    if forward.below(left) {
        if left.below(right) {
            lemma_below_transitive(forward, left, right);
        }
    } else {
        if forward.below(right) {
            lemma_below_after_not_below(left, forward, right);
        }
    }
}

/// The larger of the distances in rows and in columns between two cells.
pub fn position_distance(a: Position, b: Position) -> (r: usize)
    ensures
        r == chebyshev(a, b),
{
    let (ar, ac) = a;
    let (br, bc) = b;
    let rows: usize = if ar >= br {
        ar - br
    } else {
        br - ar
    };
    let columns: usize = if ac >= bc {
        ac - bc
    } else {
        bc - ac
    };
    if rows >= columns {
        rows
    } else {
        columns
    }
}

/// The state that follows `game` when the player whose turn it is takes
/// `action`. `game` itself is not changed.
pub fn game_apply_action(game: &GameState, action: Action) -> (r: GameState)
    requires
        game.wf(),
        !game@.is_over(),
    ensures
        r@ == game@.step(action),
        r.wf(),
{
    let mut new_game = game.clone();
    new_game.do_turn(action);
    new_game
}

/// Whether the time budget is used up: more than nine tenths of it have
/// passed. A budget of zero is used up from the start.
pub open spec fn spec_past_cutoff(elapsed_ns: u64, budget_ns: u64) -> bool {
    budget_ns == 0 || elapsed_ns * 10 > budget_ns * 9
}

/// Whether the time budget is used up after `elapsed_ns` nanoseconds.
pub fn past_cutoff(elapsed_ns: u64, budget_ns: u64) -> (r: bool)
    ensures
        r == spec_past_cutoff(elapsed_ns, budget_ns),
{
    budget_ns == 0 || (elapsed_ns as u128) * 10 > (budget_ns as u128) * 9
}

/// The score of a running match for `player` without looking ahead.
pub fn evaluate(player: PlayerIndex, game: &GameState) -> (score: Score)
    requires
        game.wf(),
        !game@.is_over(),
        player < game.players.len(),
    ensures
        score == static_score(player, game@),
        score.valid(),
{
    let our_pos = game.players[player].position;
    let other_player = game.player_after(player);
    let their_pos = game.players[other_player].position;
    let our_space = flood_count(our_pos, game);
    let their_space = flood_count(their_pos, game);
    if our_space > their_space {
        Score::Ahead(our_space)
    } else if our_space < their_space {
        if our_space == 0 {
            Score::Lost
        } else {
            Score::Behind(our_space)
        }
    } else {
        proof {
            lemma_next_alive_differs(game@.players, player as int);
            lemma_positions_differ(game@, player as int, other_player as int);
        }
        Score::Level(our_space, position_distance(our_pos, their_pos))
    }
}

/// The action with the highest of three scores, the first of them where
/// several are highest.
pub fn choose_action(forward: Score, left: Score, right: Score) -> (action: Action)
    requires
        forward.valid(),
        left.valid(),
        right.valid(),
    ensures
        action == best_action(forward, left, right),
        !score_of(action, forward, left, right).below(forward),
        !score_of(action, forward, left, right).below(left),
        !score_of(action, forward, left, right).below(right),
        action == Action::TurnLeft ==> forward.below(left),
        action == Action::TurnRight ==> forward.below(right) && left.below(right),
{
    proof {
        lemma_best_action_highest(forward, left, right);
    }
    let mut best_action = Action::MoveForward;
    let mut best_score = forward;
    if best_score.is_below(&left) {
        best_action = Action::TurnLeft;
        best_score = left;
    }
    if best_score.is_below(&right) {
        best_action = Action::TurnRight;
    }
    best_action
}

/// Reads the clock by `time::precise_time_ns`: a count of nanoseconds since
/// a moment that is not specified. Nothing is claimed of the value.
#[verifier::external_body]
fn precise_time_ns() -> (now: u64) {
    time::precise_time_ns()
}

/// What the search makes of one node: whether `score` can be the score of
/// `state` for `player`, found at `depth` when `elapsed_ns` nanoseconds of
/// a budget of `budget_ns` have passed, by a search that begins with the
/// source of trials `before` and leaves it as `after`.
///
/// A finished match has its final score and no trial is drawn. Neither is
/// one drawn once the budget is used up: the state has its static score.
/// Else one trial is drawn. Where it fails the state has its static score;
/// where it succeeds the state has the fold of the scores that the search
/// finds for the three states that follow, each looked into as far as the
/// clock and the trials allowed there.
pub open spec fn node_outcome<T: ExploreTrial>(
    player: PlayerIndex,
    state: GameModel,
    depth: usize,
    minimize: bool,
    elapsed_ns: u64,
    budget_ns: u64,
    before: T,
    after: T,
    score: Score,
) -> bool {
    if state.is_over() || spec_past_cutoff(elapsed_ns, budget_ns) {
        score == search_value(player, state, minimize, Explored::Leaf) && after == before
    } else {
        exists|deeper: bool, drawn: T|
            {
                &&& #[trigger] before.draws(depth, elapsed_ns, budget_ns, deeper, &drawn)
                &&& !deeper ==> score == search_value(player, state, minimize, Explored::Leaf) && after
                    == drawn
                &&& deeper ==> exists|forward: Explored, left: Explored, right: Explored|
                    score == #[trigger] search_value(
                        player,
                        state,
                        minimize,
                        Explored::Node(Box::new(forward), Box::new(left), Box::new(right)),
                    )
            }
    }
}

/// What the search makes of a choice: whether `action` can be chosen in
/// `state` by a search with a budget of `budget_ns` nanoseconds for each
/// candidate, which begins with the source of trials `before` and leaves it
/// as `after`.
///
/// The three states that follow `state` are scored one after the other as
/// [`node_outcome`] says, at depth zero and as layers that minimize, each at
/// some reading of the clock, and the best of the three actions is chosen.
pub open spec fn act_outcome<T: ExploreTrial>(
    state: GameModel,
    budget_ns: u64,
    before: T,
    after: T,
    action: Action,
) -> bool {
    let player = state.status->PlayerTurn_0;
    exists|first: T, second: T, forward: Score, left: Score, right: Score, wait: u64, longer: u64, longest: u64|
        #![trigger
            node_outcome(player, state.step(Action::MoveForward), 0, true, wait, budget_ns, before, first, forward),
            node_outcome(player, state.step(Action::TurnLeft), 0, true, longer, budget_ns, first, second, left),
            node_outcome(player, state.step(Action::TurnRight), 0, true, longest, budget_ns, second, after, right)]
        {
            &&& node_outcome(
                player,
                state.step(Action::MoveForward),
                0,
                true,
                wait,
                budget_ns,
                before,
                first,
                forward,
            )
            &&& node_outcome(player, state.step(Action::TurnLeft), 0, true, longer, budget_ns, first, second, left)
            &&& node_outcome(
                player,
                state.step(Action::TurnRight),
                0,
                true,
                longest,
                budget_ns,
                second,
                after,
                right,
            )
            &&& action == best_action(forward, left, right)
        }
}

/// The time in nanoseconds from `start_time` to `now`, two readings of the
/// clock; zero where `now` is the earlier one.
pub open spec fn spec_elapsed(start_time: u64, now: u64) -> u64 {
    if now >= start_time {
        (now - start_time) as u64
    } else {
        0
    }
}

/// The time in nanoseconds from `start_time` to `now`.
pub fn elapsed(start_time: u64, now: u64) -> (r: u64)
    ensures
        r == spec_elapsed(start_time, now),
{
    if now >= start_time {
        now - start_time
    } else {
        0
    }
}

/// The score of `game` for `player`, found by looking ahead for as long as
/// the budget and the trials allow.
///
/// A finished match has its final score. Otherwise the clock is read and
/// the search goes on as [`explore_at`] says.
///
/// The depth must leave room for the layers that can follow, of which there
/// are no more than turns remain in the match: a depth that is not above
/// the turn of `game` always does.
pub fn explore<T: ExploreTrial>(
    player: PlayerIndex,
    game: &GameState,
    depth: usize,
    minimize: bool,
    start_time: u64,
    budget_ns: u64,
    trial: &mut T,
) -> (score: Score)
    requires
        game.wf(),
        player < game.players.len(),
        depth + game@.remaining() <= usize::MAX,
    ensures
        score.valid(),
        exists|explored: Explored| score == #[trigger] search_value(player, game@, minimize, explored),
        exists|elapsed_ns: u64| #[trigger]
            node_outcome(
                player,
                game@,
                depth,
                minimize,
                elapsed_ns,
                budget_ns,
                *old(trial),
                *final(trial),
                score,
            ),
        game@.is_over() || budget_ns == 0 ==> {
            &&& score == search_value(player, game@, minimize, Explored::Leaf)
            &&& *final(trial) == *old(trial)
        },
    decreases game@.remaining(), 1nat,
{
    let now: u64 = if game.status.is_over() {
        start_time
    } else {
        precise_time_ns()
    };
    explore_at(player, game, depth, minimize, start_time, now, budget_ns, trial)
}

/// The score of `game` for `player` when the clock reads `now`.
///
/// A finished match has its final score. Once the budget is used up, or
/// when the trial says so, the search stops and the static score is
/// returned. Else each of the three actions is tried on a copy of the
/// state, and the scores of the three results are folded, by the lowest
/// where `minimize` holds and by the highest where it does not; the layer
/// below folds the other way.
pub fn explore_at<T: ExploreTrial>(
    player: PlayerIndex,
    game: &GameState,
    depth: usize,
    minimize: bool,
    start_time: u64,
    now: u64,
    budget_ns: u64,
    trial: &mut T,
) -> (score: Score)
    requires
        game.wf(),
        player < game.players.len(),
        depth + game@.remaining() <= usize::MAX,
    ensures
        score.valid(),
        exists|explored: Explored| score == #[trigger] search_value(player, game@, minimize, explored),
        node_outcome(
            player,
            game@,
            depth,
            minimize,
            spec_elapsed(start_time, now),
            budget_ns,
            *old(trial),
            *final(trial),
            score,
        ),
    decreases game@.remaining(), 0nat,
{
    if game.status.is_over() {
        return if game.winner() == player {
            Score::Won
        } else {
            Score::Lost
        };
    }
    let elapsed_ns: u64 = elapsed(start_time, now);
    if past_cutoff(elapsed_ns, budget_ns) || !trial.explore_deeper(depth, elapsed_ns, budget_ns) {
        let score = evaluate(player, game);
        assert(score == search_value(player, game@, minimize, Explored::Leaf));
        return score;
    }
    proof {
        lemma_step_wf(game@, Action::MoveForward);
        lemma_step_wf(game@, Action::TurnLeft);
        lemma_step_wf(game@, Action::TurnRight);
    }
    let below: bool = !minimize;
    let forward_game = game_apply_action(game, Action::MoveForward);
    let forward = explore(player, &forward_game, depth + 1, below, start_time, budget_ns, trial);
    let left_game = game_apply_action(game, Action::TurnLeft);
    let left = explore(player, &left_game, depth + 1, below, start_time, budget_ns, trial);
    let right_game = game_apply_action(game, Action::TurnRight);
    let right = explore(player, &right_game, depth + 1, below, start_time, budget_ns, trial);
    let score = if minimize {
        Score::Won.min(forward).min(left).min(right)
    } else {
        Score::Lost.max(forward).max(left).max(right)
    };
    proof {
        // How far the search looked below the three states says how far it
        // looked below this one.
        let f = choose|e: Explored| forward == #[trigger] search_value(player, forward_game@, below, e);
        let l = choose|e: Explored| left == #[trigger] search_value(player, left_game@, below, e);
        let r = choose|e: Explored| right == #[trigger] search_value(player, right_game@, below, e);
        let explored = Explored::Node(Box::new(f), Box::new(l), Box::new(r));
        assert(score == search_value(player, game@, minimize, explored));
    }
    score
}

/// The action that the search chooses for the player whose turn it is.
///
/// Each of the three actions is tried on a copy of the state and the result
/// is scored by [`explore`], with a budget of `budget_ns` nanoseconds each,
/// as a layer that minimizes. The action with the highest score is chosen,
/// the first of them where several are highest. With a budget of zero the
/// three results have their static scores.
pub fn act<T: ExploreTrial>(game: &GameState, budget_ns: u64, trial: &mut T) -> (action: Action)
    requires
        game.wf(),
        !game@.is_over(),
    ensures
        act_outcome(game@, budget_ns, *old(trial), *final(trial), action),
        exists|forward: Explored, left: Explored, right: Explored|
            action == best_action(
                #[trigger] search_value(
                    game.status->PlayerTurn_0,
                    game@.step(Action::MoveForward),
                    true,
                    forward,
                ),
                #[trigger] search_value(game.status->PlayerTurn_0, game@.step(Action::TurnLeft), true, left),
                #[trigger] search_value(game.status->PlayerTurn_0, game@.step(Action::TurnRight), true, right),
            ),
        budget_ns == 0 ==> {
            &&& action == best_action(
                search_value(game.status->PlayerTurn_0, game@.step(Action::MoveForward), true, Explored::Leaf),
                search_value(game.status->PlayerTurn_0, game@.step(Action::TurnLeft), true, Explored::Leaf),
                search_value(game.status->PlayerTurn_0, game@.step(Action::TurnRight), true, Explored::Leaf),
            )
            &&& *final(trial) == *old(trial)
        },
{
    let player_index = game.current_player();
    proof {
        lemma_step_wf(game@, Action::MoveForward);
        lemma_step_wf(game@, Action::TurnLeft);
        lemma_step_wf(game@, Action::TurnRight);
    }
    let forward_game = game_apply_action(game, Action::MoveForward);
    let forward = explore(player_index, &forward_game, 0, true, precise_time_ns(), budget_ns, trial);
    let ghost first = *trial;
    let left_game = game_apply_action(game, Action::TurnLeft);
    let left = explore(player_index, &left_game, 0, true, precise_time_ns(), budget_ns, trial);
    let ghost second = *trial;
    let right_game = game_apply_action(game, Action::TurnRight);
    let right = explore(player_index, &right_game, 0, true, precise_time_ns(), budget_ns, trial);
    let action = choose_action(forward, left, right);
    proof {
        // The three searches came one after the other: each began with the
        // source of trials as the one before had left it.
        let wait = choose|e: u64| #[trigger]
            node_outcome(player_index, forward_game@, 0, true, e, budget_ns, *old(trial), first, forward);
        let longer = choose|e: u64| #[trigger]
            node_outcome(player_index, left_game@, 0, true, e, budget_ns, first, second, left);
        let longest = choose|e: u64| #[trigger]
            node_outcome(player_index, right_game@, 0, true, e, budget_ns, second, *trial, right);
        assert(node_outcome(player_index, forward_game@, 0, true, wait, budget_ns, *old(trial), first, forward));
        assert(node_outcome(player_index, left_game@, 0, true, longer, budget_ns, first, second, left));
        assert(node_outcome(player_index, right_game@, 0, true, longest, budget_ns, second, *trial, right));
        assert(act_outcome(game@, budget_ns, *old(trial), *trial, action));
    }
    action
}

impl<T: ExploreTrial> PlayerBehaviour for Minimax<T> {
    /// The search player chooses what [`act`] may choose within its budget,
    /// and keeps its budget.
    open spec fn chooses(&self, game: GameModel, action: Action, after: &Self) -> bool {
        &&& after.budget_ns == self.budget_ns
        &&& act_outcome(game, self.budget_ns, self.trial, after.trial, action)
        &&& exists|forward: Explored, left: Explored, right: Explored|
            action == best_action(
                #[trigger] search_value(game.status->PlayerTurn_0, game.step(Action::MoveForward), true, forward),
                #[trigger] search_value(game.status->PlayerTurn_0, game.step(Action::TurnLeft), true, left),
                #[trigger] search_value(game.status->PlayerTurn_0, game.step(Action::TurnRight), true, right),
            )
        &&& self.budget_ns == 0 ==> action == best_action(
            search_value(game.status->PlayerTurn_0, game.step(Action::MoveForward), true, Explored::Leaf),
            search_value(game.status->PlayerTurn_0, game.step(Action::TurnLeft), true, Explored::Leaf),
            search_value(game.status->PlayerTurn_0, game.step(Action::TurnRight), true, Explored::Leaf),
        )
    }

    fn act(&mut self, game: &GameState) -> (action: Action) {
        self::act(game, self.budget_ns, &mut self.trial)
    }
}

/// A worker that answers every snapshot of a running match with the
/// action that the search chooses within the default budget.
pub fn minimax<T: ExploreTrial>(trial: T) -> (r: Behaviour<Minimax<T>>)
    ensures
        r.behaviour.trial == trial,
        r.behaviour.budget_ns == TARGET_ACT_TIME,
        r.responses@ == Seq::<(usize, Action)>::empty(),
        !r.ended,
{
    Behaviour::make(Minimax::new(trial))
}

} // verus!
