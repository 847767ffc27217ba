use ron::behaviour::minimax::{
    act, choose_action, elapsed, evaluate, explore, explore_at, game_apply_action, past_cutoff,
    position_distance, DepthLimit, ExploreTrial, Minimax, TARGET_ACT_TIME,
};
use ron::game::{Action, Direction, GameState, GameStatus, Player, PlayerBehaviour, Tile};
use ron::score::Score;

fn player(position: (usize, usize), direction: Direction) -> Player {
    Player { name: format!("at {:?}", position), position, direction, is_alive: true }
}

/// A trial that must never be asked.
struct Unasked;

impl ExploreTrial for Unasked {
    fn explore_deeper(&mut self, _depth: usize, _elapsed_ns: u64, _budget_ns: u64) -> bool {
        panic!("the search asked for a trial");
    }
}

/// A trial that lets the search look `limit` layers ahead, and counts how
/// often it is asked.
struct ToDepth {
    limit: usize,
    asked: usize,
}

impl ExploreTrial for ToDepth {
    fn explore_deeper(&mut self, depth: usize, _elapsed_ns: u64, _budget_ns: u64) -> bool {
        self.asked += 1;
        depth < self.limit
    }
}

/// A trial that records what it is told, and lets the search look down to
/// the fifth layer.
struct Recording {
    seen: Vec<(usize, u64, u64)>,
}

impl ExploreTrial for Recording {
    fn explore_deeper(&mut self, depth: usize, elapsed_ns: u64, budget_ns: u64) -> bool {
        self.seen.push((depth, elapsed_ns, budget_ns));
        depth < 5
    }
}

fn walled(mut game: GameState, walls: &[(usize, usize)]) -> GameState {
    for &(r, c) in walls {
        game.board[r][c] = Tile::PlayerWall(0);
    }
    assert!(game.is_wf());
    game
}

fn corridor() -> GameState {
    GameState::new(3, 1, vec![player((0, 0), Direction::East), player((0, 2), Direction::West)])
}

#[test]
fn position_distance_is_the_larger_of_the_two_differences() {
    assert_eq!(position_distance((0, 0), (3, 5)), 5);
    assert_eq!(position_distance((3, 5), (0, 0)), 5);
    assert_eq!(position_distance((7, 2), (3, 4)), 4);
    assert_eq!(position_distance((2, 2), (2, 2)), 0);
    assert_eq!(position_distance((0, 0), (usize::MAX, 1)), usize::MAX);
}

#[test]
fn the_default_budget_is_fifty_milliseconds() {
    assert_eq!(TARGET_ACT_TIME, 50_000_000);
}

#[test]
fn the_budget_is_used_up_past_nine_tenths() {
    assert!(!past_cutoff(0, 50_000_000));
    assert!(!past_cutoff(45_000_000, 50_000_000));
    assert!(past_cutoff(45_000_001, 50_000_000));
    assert!(past_cutoff(50_000_000, 50_000_000));
    assert!(!past_cutoff(9, 10));
    assert!(past_cutoff(10, 10));
    assert!(past_cutoff(u64::MAX, u64::MAX));
    assert!(!past_cutoff(0, u64::MAX));
}

#[test]
fn a_budget_of_zero_is_used_up_at_once() {
    assert!(past_cutoff(0, 0));
    assert!(past_cutoff(1, 0));
}

#[test]
fn scores_are_ordered_as_their_numbers() {
    let rising = [
        Score::Lost,
        Score::Behind(1),
        Score::Behind(2),
        Score::Behind(1000),
        Score::Level(0, 1),
        Score::Level(1, 2),
        Score::Level(1, 1),
        Score::Level(99, 1),
        Score::Ahead(1),
        Score::Level(101, 1),
        Score::Ahead(2),
        Score::Ahead(usize::MAX),
        Score::Won,
    ];
    for i in 0..rising.len() {
        for j in 0..rising.len() {
            assert_eq!(rising[i].is_below(&rising[j]), i < j, "{:?} below {:?}", rising[i], rising[j]);
        }
    }
}

#[test]
fn equal_numbers_are_not_below_each_other() {
    let pairs = [
        (Score::Ahead(1), Score::Level(100, 1)),
        (Score::Level(1, 2), Score::Level(2, 4)),
        (Score::Level(0, 1), Score::Level(0, 7)),
        (Score::Ahead(3), Score::Level(600, 2)),
        (Score::Lost, Score::Lost),
        (Score::Won, Score::Won),
    ];
    for (a, b) in pairs {
        assert!(!a.is_below(&b));
        assert!(!b.is_below(&a));
    }
}

#[test]
fn large_scores_are_ordered_without_overflow() {
    let big = usize::MAX;
    assert!(Score::Level(big, 1).is_below(&Score::Ahead(big)));
    assert!(!Score::Ahead(big).is_below(&Score::Level(big, 1)));
    assert!(Score::Level(big, big).is_below(&Score::Ahead(1)));
    assert!(Score::Level(big - 1, big).is_below(&Score::Level(big, big)));
    assert!(Score::Level(big, big).is_below(&Score::Level(big, big - 1)));
    assert!(Score::Behind(big - 1).is_below(&Score::Behind(big)));
    assert!(Score::Behind(big).is_below(&Score::Level(0, big)));
}

#[test]
fn min_and_max_take_the_other_on_a_tie() {
    assert_eq!(Score::Won.min(Score::Ahead(2)), Score::Ahead(2));
    assert_eq!(Score::Ahead(2).min(Score::Behind(3)), Score::Behind(3));
    assert_eq!(Score::Behind(3).min(Score::Ahead(2)), Score::Behind(3));
    assert_eq!(Score::Ahead(1).min(Score::Level(100, 1)), Score::Level(100, 1));
    assert_eq!(Score::Lost.max(Score::Behind(3)), Score::Behind(3));
    assert_eq!(Score::Ahead(2).max(Score::Behind(3)), Score::Ahead(2));
    assert_eq!(Score::Ahead(1).max(Score::Level(100, 1)), Score::Level(100, 1));
    assert_eq!(Score::Lost.max(Score::Lost), Score::Lost);
    assert_eq!(Score::Won.min(Score::Won), Score::Won);
}

#[test]
fn the_first_of_the_highest_scores_is_chosen() {
    assert_eq!(choose_action(Score::Lost, Score::Lost, Score::Lost), Action::MoveForward);
    assert_eq!(choose_action(Score::Won, Score::Won, Score::Won), Action::MoveForward);
    assert_eq!(choose_action(Score::Level(1, 1), Score::Ahead(1), Score::Ahead(1)), Action::TurnLeft);
    assert_eq!(choose_action(Score::Ahead(1), Score::Level(100, 1), Score::Lost), Action::MoveForward);
    assert_eq!(choose_action(Score::Behind(1), Score::Behind(2), Score::Behind(3)), Action::TurnRight);
    assert_eq!(choose_action(Score::Behind(1), Score::Lost, Score::Behind(2)), Action::TurnRight);
    assert_eq!(choose_action(Score::Ahead(2), Score::Lost, Score::Ahead(2)), Action::MoveForward);
    assert_eq!(choose_action(Score::Lost, Score::Ahead(2), Score::Ahead(2)), Action::TurnLeft);
    assert_eq!(choose_action(Score::Lost, Score::Behind(5), Score::Won), Action::TurnRight);
}

#[test]
fn more_space_scores_a_hundred_times_the_space() {
    let game = walled(
        GameState::new(5, 3, vec![player((1, 0), Direction::East), player((1, 4), Direction::West)]),
        &[(0, 3), (1, 3), (2, 3)],
    );
    assert_eq!(evaluate(0, &game), Score::Ahead(8));
}

#[test]
fn less_space_scores_minus_a_thousand_by_the_space() {
    let game = walled(
        GameState::new(5, 3, vec![player((1, 0), Direction::East), player((1, 4), Direction::West)]),
        &[(0, 3), (1, 3), (2, 3)],
    );
    assert_eq!(evaluate(1, &game), Score::Behind(2));
}

#[test]
fn equal_space_scores_the_space_by_the_distance() {
    let game = walled(
        GameState::new(5, 3, vec![player((1, 0), Direction::East), player((1, 4), Direction::West)]),
        &[(0, 2), (1, 2), (2, 2)],
    );
    assert_eq!(evaluate(0, &game), Score::Level(5, 4));
    assert_eq!(evaluate(1, &game), Score::Level(5, 4));
    let game = GameState::new(5, 4, vec![player((0, 1), Direction::East), player((3, 3), Direction::West)]);
    assert_eq!(evaluate(0, &game), Score::Level(18, 3));
}

#[test]
fn no_space_against_some_is_a_defeat() {
    let game = walled(
        GameState::new(3, 3, vec![player((0, 0), Direction::East), player((2, 2), Direction::West)]),
        &[(0, 1), (1, 0)],
    );
    assert_eq!(evaluate(0, &game), Score::Lost);
    assert_eq!(evaluate(1, &game), Score::Ahead(5));
}

#[test]
fn no_space_on_both_sides_scores_zero() {
    let game = GameState::new(2, 1, vec![player((0, 0), Direction::East), player((0, 1), Direction::West)]);
    assert_eq!(evaluate(0, &game), Score::Level(0, 1));
}

#[test]
fn the_opponent_is_the_next_alive_player() {
    let game = GameState::new(
        7,
        1,
        vec![player((0, 0), Direction::East), player((0, 3), Direction::East), player((0, 6), Direction::West)],
    );
    assert_eq!(evaluate(0, &game), Score::Behind(2));
    assert_eq!(evaluate(1, &game), Score::Ahead(4));
    assert_eq!(evaluate(2, &game), Score::Level(2, 6));
}

#[test]
fn a_dead_player_is_not_the_opponent() {
    let mut game = GameState::new(
        5,
        5,
        vec![player((0, 0), Direction::East), player((4, 4), Direction::South), player((2, 2), Direction::North)],
    );
    game.do_turn(Action::MoveForward);
    game.do_turn(Action::MoveForward);
    assert_eq!(game.status, GameStatus::PlayerTurn(2));
    assert!(!game.players[1].is_alive);
    assert_eq!(evaluate(0, &game), Score::Level(21, 2));
}

#[test]
fn game_apply_action_plays_on_a_copy() {
    let game = GameState::new(5, 5, vec![player((2, 2), Direction::North), player((4, 4), Direction::West)]);
    let before = game.clone();
    let next = game_apply_action(&game, Action::TurnRight);
    assert_eq!(game, before);
    assert_eq!(next.turn, 1);
    assert_eq!(next.players[0].position, (2, 3));
    assert_eq!(next.board[2][3], Tile::PlayerHead(0));
    assert_eq!(next.board[2][2], Tile::PlayerWall(0));
    assert_eq!(next.status, GameStatus::PlayerTurn(1));
    let mut played = game.clone();
    played.do_turn(Action::TurnRight);
    assert_eq!(next, played);
}

#[test]
fn a_finished_match_scores_by_its_winner() {
    let mut game = corridor();
    game.do_turn(Action::TurnLeft);
    assert_eq!(game.status, GameStatus::Won(1));
    assert_eq!(explore(1, &game, 0, true, 0, u64::MAX, &mut Unasked), Score::Won);
    assert_eq!(explore(0, &game, 0, true, 0, u64::MAX, &mut Unasked), Score::Lost);
    assert_eq!(explore(0, &game, 0, false, 0, 0, &mut Unasked), Score::Lost);
}

#[test]
fn without_budget_the_search_gives_the_static_score() {
    let game = walled(
        GameState::new(5, 3, vec![player((1, 0), Direction::East), player((1, 4), Direction::West)]),
        &[(0, 3), (1, 3), (2, 3)],
    );
    assert_eq!(explore(0, &game, 0, true, 0, 0, &mut Unasked), Score::Ahead(8));
    assert_eq!(explore(1, &game, 0, false, 0, 0, &mut Unasked), Score::Behind(2));
}

#[test]
fn a_failed_trial_gives_the_static_score() {
    let game = walled(
        GameState::new(5, 3, vec![player((1, 0), Direction::East), player((1, 4), Direction::West)]),
        &[(0, 2), (1, 2), (2, 2)],
    );
    let mut trial = ToDepth { limit: 0, asked: 0 };
    assert_eq!(explore(0, &game, 0, true, u64::MAX, u64::MAX, &mut trial), Score::Level(5, 4));
    assert_eq!(trial.asked, 1);
}

#[test]
fn the_search_folds_by_the_lowest_or_the_highest() {
    // One layer down: moving forward gives a state of no space on both
    // sides, and either turn leaves the board.
    let game = corridor();
    let mut trial = ToDepth { limit: 1, asked: 0 };
    assert_eq!(explore(0, &game, 0, false, u64::MAX, u64::MAX, &mut trial), Score::Level(0, 1));
    assert_eq!(trial.asked, 2);
    let mut trial = ToDepth { limit: 1, asked: 0 };
    assert_eq!(explore(0, &game, 0, true, u64::MAX, u64::MAX, &mut trial), Score::Lost);
    let mut trial = ToDepth { limit: 1, asked: 0 };
    assert_eq!(explore(1, &game, 0, true, u64::MAX, u64::MAX, &mut trial), Score::Level(0, 1));
    let mut trial = ToDepth { limit: 1, asked: 0 };
    assert_eq!(explore(1, &game, 0, false, u64::MAX, u64::MAX, &mut trial), Score::Won);
}

#[test]
fn the_layers_alternate() {
    // Two layers down every line has ended: after the first player moves
    // forward, whatever the second does loses.
    let game = corridor();
    let mut trial = ToDepth { limit: 5, asked: 0 };
    assert_eq!(explore(0, &game, 0, false, u64::MAX, u64::MAX, &mut trial), Score::Won);
    assert_eq!(trial.asked, 2);
    let mut trial = ToDepth { limit: 5, asked: 0 };
    assert_eq!(explore(0, &game, 0, true, u64::MAX, u64::MAX, &mut trial), Score::Lost);
    let mut trial = ToDepth { limit: 5, asked: 0 };
    assert_eq!(explore(1, &game, 0, false, u64::MAX, u64::MAX, &mut trial), Score::Won);
    let mut trial = ToDepth { limit: 5, asked: 0 };
    assert_eq!(explore(1, &game, 0, true, u64::MAX, u64::MAX, &mut trial), Score::Lost);
}

#[test]
fn an_expired_deadline_still_gives_an_action() {
    let game = GameState::new(3, 3, vec![player((0, 0), Direction::North), player((2, 2), Direction::South)]);
    // Forward and left leave the board; right leads to equal space.
    assert_eq!(act(&game, 0, &mut Unasked), Action::TurnRight);
    let game = GameState::new(40, 20, vec![player((10, 12), Direction::North), player((10, 28), Direction::South)]);
    let action = act(&game, 0, &mut Unasked);
    assert!(matches!(action, Action::MoveForward | Action::TurnLeft | Action::TurnRight));
    // The three states have the same space on both sides, 797 cells; going
    // right brings the players closest: 797/15 against 797/16 and 797/17.
    assert_eq!(action, Action::TurnRight);
}

#[test]
fn when_every_action_loses_the_first_is_chosen() {
    let game = walled(
        GameState::new(3, 3, vec![player((0, 0), Direction::South), player((2, 2), Direction::West)]),
        &[(0, 1), (1, 0)],
    );
    assert_eq!(act(&game, 0, &mut Unasked), Action::MoveForward);
    let mut trial = ToDepth { limit: 3, asked: 0 };
    assert_eq!(act(&game, u64::MAX, &mut trial), Action::MoveForward);
    assert_eq!(trial.asked, 0);
}

#[test]
fn the_search_finds_the_winning_move() {
    let game = corridor();
    let mut trial = ToDepth { limit: 5, asked: 0 };
    assert_eq!(act(&game, u64::MAX, &mut trial), Action::MoveForward);
    assert_eq!(trial.asked, 1);
    assert_eq!(act(&game, 0, &mut Unasked), Action::MoveForward);
}

#[test]
fn a_deeper_search_scores_by_the_worst_answer() {
    let game = GameState::new(4, 2, vec![player((0, 0), Direction::East), player((1, 3), Direction::West)]);
    let forward = game_apply_action(&game, Action::MoveForward);
    let left = game_apply_action(&game, Action::TurnLeft);
    let right = game_apply_action(&game, Action::TurnRight);
    assert_eq!(left.status, GameStatus::Won(1));
    assert_eq!(evaluate(0, &forward), Score::Level(5, 2));
    assert_eq!(evaluate(0, &right), Score::Level(5, 3));
    // One layer further down the second player has answered. Its turn to
    // the left leaves the board; of the other two answers the one that
    // keeps it further away is worse for the first player.
    let mut trial = ToDepth { limit: 1, asked: 0 };
    assert_eq!(explore(0, &forward, 0, true, u64::MAX, u64::MAX, &mut trial), Score::Level(4, 2));
    assert_eq!(trial.asked, 3);
    let mut trial = ToDepth { limit: 1, asked: 0 };
    assert_eq!(explore(0, &right, 0, true, u64::MAX, u64::MAX, &mut trial), Score::Level(4, 3));
    let mut trial = ToDepth { limit: 1, asked: 0 };
    assert_eq!(explore(0, &forward, 0, false, u64::MAX, u64::MAX, &mut trial), Score::Won);
    let mut trial = ToDepth { limit: 1, asked: 0 };
    assert_eq!(act(&game, u64::MAX, &mut trial), Action::MoveForward);
    assert_eq!(trial.asked, 6);
    assert_eq!(act(&game, 0, &mut Unasked), Action::MoveForward);
}

#[test]
fn with_three_players_a_crash_is_scored_by_space() {
    // With three players a crash does not end the match, and the state after
    // it is scored like any other: by the space around the crashed player
    // and around the next alive one.
    let game = GameState::new(
        7,
        1,
        vec![player((0, 0), Direction::East), player((0, 3), Direction::East), player((0, 6), Direction::West)],
    );
    let forward = game_apply_action(&game, Action::MoveForward);
    let left = game_apply_action(&game, Action::TurnLeft);
    assert_eq!(left.status, GameStatus::PlayerTurn(1));
    assert!(!left.players[0].is_alive);
    assert_eq!(evaluate(0, &forward), Score::Behind(1));
    assert_eq!(evaluate(0, &left), Score::Behind(2));
    assert_eq!(act(&game, 0, &mut Unasked), Action::TurnLeft);
}

#[test]
fn the_search_player_uses_its_budget() {
    let game = GameState::new(3, 3, vec![player((0, 0), Direction::North), player((2, 2), Direction::South)]);
    let mut searcher = Minimax::with_budget(Unasked, 0);
    assert_eq!(searcher.budget_ns, 0);
    assert_eq!(searcher.act(&game), Action::TurnRight);
    let searcher = Minimax::new(ToDepth { limit: 0, asked: 0 });
    assert_eq!(searcher.budget_ns, TARGET_ACT_TIME);
    let mut searcher = Minimax::with_budget(ToDepth { limit: 0, asked: 0 }, u64::MAX);
    assert_eq!(searcher.act(&game), Action::TurnRight);
    assert_eq!(searcher.trial.asked, 1);
}

#[test]
fn the_search_terminates_on_its_own() {
    // Every trial succeeds and the budget never runs out: the search ends
    // because the match does.
    let game = GameState::new(3, 2, vec![player((0, 0), Direction::East), player((1, 2), Direction::West)]);
    let mut trial = ToDepth { limit: usize::MAX, asked: 0 };
    let action = act(&game, u64::MAX, &mut trial);
    assert!(trial.asked > 3);
    assert!(matches!(action, Action::MoveForward | Action::TurnLeft | Action::TurnRight));
}

#[test]
fn with_three_players_the_layers_still_alternate() {
    // The layers alternate whoever moves: below the layer of the second
    // player, which is folded by the lowest, the layer of the third player
    // is folded by the highest, as if the third played for the first.
    let mut game = GameState::new(
        7,
        1,
        vec![player((0, 0), Direction::East), player((0, 3), Direction::East), player((0, 6), Direction::West)],
    );
    game.do_turn(Action::MoveForward);
    assert_eq!(game.status, GameStatus::PlayerTurn(1));
    // What the third player can do after the second has moved forward.
    let second_forward = game_apply_action(&game, Action::MoveForward);
    assert_eq!(second_forward.status, GameStatus::PlayerTurn(2));
    assert_eq!(evaluate(0, &game_apply_action(&second_forward, Action::MoveForward)), Score::Ahead(1));
    assert_eq!(evaluate(0, &game_apply_action(&second_forward, Action::TurnLeft)), Score::Level(1, 3));
    assert_eq!(evaluate(0, &game_apply_action(&second_forward, Action::TurnRight)), Score::Level(1, 3));
    // What it can do after the second has crashed.
    let second_left = game_apply_action(&game, Action::TurnLeft);
    assert_eq!(second_left.status, GameStatus::PlayerTurn(2));
    assert_eq!(evaluate(0, &game_apply_action(&second_left, Action::MoveForward)), Score::Level(1, 4));
    assert_eq!(game_apply_action(&second_left, Action::TurnLeft).status, GameStatus::Won(0));
    let mut trial = ToDepth { limit: 2, asked: 0 };
    assert_eq!(explore(0, &game, 0, true, u64::MAX, u64::MAX, &mut trial), Score::Ahead(1));
    assert_eq!(trial.asked, 9);
    // Folded by the lowest in both layers it would have been 1/4.
    assert!(Score::Level(1, 4).is_below(&Score::Ahead(1)));
}

#[test]
fn elapsed_is_the_difference_of_two_readings() {
    assert_eq!(elapsed(100, 146), 46);
    assert_eq!(elapsed(100, 100), 0);
    assert_eq!(elapsed(0, u64::MAX), u64::MAX);
    // A clock that went back counts as no time passed.
    assert_eq!(elapsed(146, 100), 0);
}

#[test]
fn past_the_deadline_the_search_gives_the_static_score() {
    let game = walled(
        GameState::new(5, 3, vec![player((1, 0), Direction::East), player((1, 4), Direction::West)]),
        &[(0, 3), (1, 3), (2, 3)],
    );
    // Of a budget of 50, 46 have passed and 45 are nine tenths.
    assert_eq!(explore_at(0, &game, 0, true, 100, 146, 50, &mut Unasked), Score::Ahead(8));
    assert_eq!(explore_at(0, &game, 0, true, 0, u64::MAX, u64::MAX, &mut Unasked), Score::Ahead(8));
    // After 45 the trial is still asked.
    let mut trial = ToDepth { limit: 0, asked: 0 };
    assert_eq!(explore_at(0, &game, 0, true, 100, 145, 50, &mut trial), Score::Ahead(8));
    assert_eq!(trial.asked, 1);
    // So it is where the clock went back.
    let mut trial = ToDepth { limit: 0, asked: 0 };
    assert_eq!(explore_at(0, &game, 0, true, 146, 100, 50, &mut trial), Score::Ahead(8));
    assert_eq!(trial.asked, 1);
}

#[test]
fn the_trial_is_told_depth_time_and_budget() {
    let game = corridor();
    let mut trial = Recording { seen: Vec::new() };
    assert_eq!(explore_at(0, &game, 3, false, 1000, 1007, u64::MAX, &mut trial), Score::Won);
    assert_eq!(trial.seen.len(), 2);
    assert_eq!(trial.seen[0], (3, 7, u64::MAX));
    assert_eq!(trial.seen[1].0, 4);
    assert_eq!(trial.seen[1].2, u64::MAX);
    // With a small budget the layer below is past the deadline by the time
    // it reads the clock, and is not looked into.
    let mut trial = Recording { seen: Vec::new() };
    assert_eq!(explore_at(0, &game, 3, false, 0, 7, 500, &mut trial), Score::Level(0, 1));
    assert_eq!(trial.seen, vec![(3, 7, 500)]);
}

#[test]
fn a_depth_limit_decides_without_chance() {
    let game = GameState::new(4, 2, vec![player((0, 0), Direction::East), player((1, 3), Direction::West)]);
    let forward = game_apply_action(&game, Action::MoveForward);
    let mut limit = DepthLimit { limit: 0 };
    assert_eq!(explore(0, &forward, 0, true, u64::MAX, u64::MAX, &mut limit), Score::Level(5, 2));
    let mut limit = DepthLimit { limit: 1 };
    assert_eq!(explore(0, &forward, 0, true, u64::MAX, u64::MAX, &mut limit), Score::Level(4, 2));
    assert_eq!(explore(0, &forward, 1, true, u64::MAX, u64::MAX, &mut limit), Score::Level(5, 2));
    assert_eq!(limit.limit, 1);
    assert_eq!(act(&game, u64::MAX, &mut limit), Action::MoveForward);
    let mut searcher = Minimax::with_budget(DepthLimit { limit: 20 }, u64::MAX);
    assert_eq!(searcher.act(&corridor()), Action::MoveForward);
}
