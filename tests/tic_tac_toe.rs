use minimax_strategy::{
    construct_alpha_beta_strategy, obeys_negation_law, Action, Actor, AlphaBetaStrategy, Evaluator,
    NegamaxStrategy, Rule, State, Strategy,
};

const LINES: [[usize; 3]; 8] = [
    [0, 1, 2],
    [3, 4, 5],
    [6, 7, 8],
    [0, 3, 6],
    [1, 4, 7],
    [2, 5, 8],
    [0, 4, 8],
    [2, 4, 6],
];

#[derive(Debug, Clone, Copy, PartialEq, Eq)]
struct Board {
    cells: [Option<Actor>; 9],
}

impl State for Board {}

#[derive(Debug, Clone, Copy, PartialEq, Eq)]
struct Mark {
    actor: Actor,
    cell: usize,
}

impl Action for Mark {
    fn actor(&self) -> Actor {
        self.actor
    }
}

fn board(marks: &[(usize, Actor)]) -> Board {
    let mut b = Board { cells: [None; 9] };
    for &(cell, actor) in marks {
        b.cells[cell] = Some(actor);
    }
    b
}

fn winner(b: &Board) -> Option<Actor> {
    for line in LINES.iter() {
        if let Some(a) = b.cells[line[0]] {
            if b.cells[line[1]] == Some(a) && b.cells[line[2]] == Some(a) {
                return Some(a);
            }
        }
    }
    None
}

struct TicTacToe;

impl Rule for TicTacToe {
    type S = Board;
    type A = Mark;

    fn is_game_over(state: &Board) -> bool {
        winner(state).is_some() || state.cells.iter().all(|c| c.is_some())
    }

    fn iterate_available_actions(state: &Board, actor: Actor) -> Vec<Mark> {
        if Self::is_game_over(state) {
            return Vec::new();
        }
        (0..9)
            .filter(|&cell| state.cells[cell].is_none())
            .map(|cell| Mark { actor, cell })
            .collect()
    }

    fn translate_state(state: &Board, action: &Mark) -> Board {
        assert!(state.cells[action.cell].is_none());
        let mut next = *state;
        next.cells[action.cell] = Some(action.actor);
        next
    }
}

struct WinLoss;

impl Evaluator<Board> for WinLoss {
    fn evaluate_payoff_for(actor: Actor, state: &Board) -> i64 {
        match winner(state) {
            Some(w) if w == actor => 1,
            Some(_) => -1,
            None => 0,
        }
    }
}

/// Full-width minimax without pruning, first best move kept on ties.
fn full_width_value(depth: usize, state: &Board, mover: Actor, target: Actor) -> Option<i64> {
    if depth == 0 || TicTacToe::is_game_over(state) {
        return Some(WinLoss::evaluate_payoff_for(target, state));
    }
    let mut best: Option<i64> = None;
    for m in TicTacToe::iterate_available_actions(state, mover) {
        let next = TicTacToe::translate_state(state, &m);
        if let Some(v) = full_width_value(depth - 1, &next, m.actor().opponent(), target) {
            best = match best {
                None => Some(v),
                Some(b) if mover == target && v > b => Some(v),
                Some(b) if mover != target && v < b => Some(v),
                keep => keep,
            };
        }
    }
    best
}

fn full_width_choice(depth: usize, state: &Board, actor: Actor) -> Option<Mark> {
    let moves = TicTacToe::iterate_available_actions(state, actor);
    let child_depth = if depth == 0 { 0 } else { depth - 1 };
    let mut best: Option<(i64, Mark)> = None;
    for m in moves.iter() {
        let next = TicTacToe::translate_state(state, m);
        if let Some(v) = full_width_value(child_depth, &next, actor.opponent(), actor) {
            match best {
                Some((b, _)) if v <= b => {}
                _ => best = Some((v, *m)),
            }
        }
    }
    match best {
        Some((_, m)) => Some(m),
        None => moves.first().copied(),
    }
}

fn strategy(depth: usize) -> AlphaBetaStrategy<TicTacToe, WinLoss> {
    construct_alpha_beta_strategy(depth)
}

#[test]
fn empty_board_full_depth_never_loses() {
    let empty = board(&[]);
    let mark = strategy(9).select_action(&empty, Actor::First).unwrap();
    assert_eq!(Actor::First, mark.actor);
    let next = TicTacToe::translate_state(&empty, &mark);
    // With best play from both sides after this move, First does not lose.
    assert_eq!(Some(0), full_width_value(8, &next, Actor::Second, Actor::First));
}

#[test]
fn blocks_an_immediate_threat() {
    // Second holds 6 and 7 and threatens 8; First has no win of its own.
    let b = board(&[(2, Actor::First), (4, Actor::First), (6, Actor::Second), (7, Actor::Second)]);
    let mark = strategy(9).select_action(&b, Actor::First).unwrap();
    assert_eq!(Mark { actor: Actor::First, cell: 8 }, mark);
    let mark2 = strategy(2).select_action(&b, Actor::First).unwrap();
    assert_eq!(8, mark2.cell);
}

#[test]
fn takes_an_immediate_win() {
    // First holds 0 and 1; playing 2 wins at once.
    let b = board(&[(0, Actor::First), (1, Actor::First), (3, Actor::Second), (4, Actor::Second)]);
    let mark = strategy(9).select_action(&b, Actor::First).unwrap();
    assert_eq!(2, mark.cell);
}

#[test]
fn drawn_full_board_gives_no_move() {
    let (x, o) = (Actor::First, Actor::Second);
    let b = board(&[
        (0, x), (1, o), (2, x),
        (3, x), (4, o), (5, o),
        (6, o), (7, x), (8, x),
    ]);
    assert!(TicTacToe::is_game_over(&b));
    assert_eq!(None, strategy(9).select_action(&b, Actor::First));
    assert_eq!(None, strategy(0).select_action(&b, Actor::Second));
}

#[test]
fn won_board_gives_no_move() {
    let b = board(&[(0, Actor::Second), (4, Actor::Second), (8, Actor::Second), (1, Actor::First), (2, Actor::First)]);
    assert_eq!(None, strategy(5).select_action(&b, Actor::First));
}

#[test]
fn chosen_move_is_legal_at_every_depth() {
    let b = board(&[(4, Actor::First), (0, Actor::Second)]);
    let legal = TicTacToe::iterate_available_actions(&b, Actor::First);
    for depth in 0..8 {
        let mark = strategy(depth).select_action(&b, Actor::First).unwrap();
        assert!(legal.contains(&mark));
    }
}

#[test]
fn repeated_calls_agree() {
    let s = strategy(6);
    let b = board(&[(0, Actor::First), (4, Actor::Second)]);
    let first = s.select_action(&b, Actor::First);
    let second = s.select_action(&b, Actor::First);
    assert_eq!(first, second);
    let other = strategy(6).select_action(&b, Actor::First);
    assert_eq!(first, other);
}

#[test]
fn trait_call_matches_inherent_call() {
    let s = strategy(4);
    let b = board(&[(0, Actor::First), (4, Actor::Second), (8, Actor::First)]);
    let via_trait = <AlphaBetaStrategy<TicTacToe, WinLoss> as Strategy<Board, Mark>>::select_action(&s, &b, Actor::Second);
    assert_eq!(s.select_action(&b, Actor::Second), via_trait);
}

fn reachable(state: Board, mover: Actor, out: &mut Vec<(Board, Actor)>) {
    if out.iter().any(|(b, a)| *b == state && *a == mover) {
        return;
    }
    out.push((state, mover));
    for m in TicTacToe::iterate_available_actions(&state, mover) {
        reachable(TicTacToe::translate_state(&state, &m), mover.opponent(), out);
    }
}

#[test]
fn pruning_agrees_with_full_width_search() {
    // Every position reachable after the first three marks, searched to the end.
    let mut positions = Vec::new();
    let start = board(&[(0, Actor::First), (4, Actor::Second), (5, Actor::First)]);
    reachable(start, Actor::Second, &mut positions);
    let s = strategy(9);
    let mut compared = 0;
    for (b, mover) in positions.iter() {
        if TicTacToe::is_game_over(b) {
            continue;
        }
        assert_eq!(full_width_choice(9, b, *mover), s.select_action(b, *mover));
        compared += 1;
    }
    assert!(compared > 50);
}

#[test]
fn pruning_agrees_with_full_width_search_at_shallow_depths() {
    let b = board(&[(4, Actor::First), (0, Actor::Second)]);
    for depth in 0..6 {
        assert_eq!(full_width_choice(depth, &b, Actor::First), strategy(depth).select_action(&b, Actor::First));
    }
}

fn negamax(depth: usize) -> NegamaxStrategy<TicTacToe, WinLoss> {
    NegamaxStrategy::new(depth)
}

#[test]
fn negamax_empty_board_never_loses() {
    let empty = board(&[]);
    let mark = negamax(9).select_action(&empty, Actor::First).unwrap();
    let next = TicTacToe::translate_state(&empty, &mark);
    assert_eq!(Some(0), full_width_value(8, &next, Actor::Second, Actor::First));
}

#[test]
fn negamax_blocks_an_immediate_threat() {
    let b = board(&[(2, Actor::First), (4, Actor::First), (6, Actor::Second), (7, Actor::Second)]);
    assert_eq!(Some(Mark { actor: Actor::First, cell: 8 }), negamax(9).select_action(&b, Actor::First));
}

#[test]
fn negamax_terminal_board_gives_no_move() {
    let b = board(&[(0, Actor::Second), (4, Actor::Second), (8, Actor::Second), (1, Actor::First), (2, Actor::First)]);
    assert_eq!(None, negamax(9).select_action(&b, Actor::First));
}

#[test]
fn negamax_agrees_with_alpha_beta() {
    let mut positions = Vec::new();
    let start = board(&[(4, Actor::First), (0, Actor::Second), (8, Actor::First)]);
    reachable(start, Actor::Second, &mut positions);
    for depth in [0, 1, 2, 3, 9] {
        for (b, mover) in positions.iter() {
            assert_eq!(strategy(depth).select_action(b, *mover), negamax(depth).select_action(b, *mover));
        }
    }
}

#[test]
fn negation_law_holds_on_reachable_positions() {
    let mut positions = Vec::new();
    reachable(board(&[(4, Actor::First)]), Actor::Second, &mut positions);
    assert!(positions.len() > 100);
    for (b, _) in positions.iter() {
        assert!(obeys_negation_law::<Board, WinLoss>(b));
        for a in [Actor::First, Actor::Second] {
            assert_eq!(WinLoss::evaluate_payoff_for(a.opponent(), b), -WinLoss::evaluate_payoff_for(a, b));
        }
    }
}

/// Rewards a win for either player: not zero-sum.
struct AnyWin;

impl Evaluator<Board> for AnyWin {
    fn evaluate_payoff_for(_actor: Actor, state: &Board) -> i64 {
        if winner(state).is_some() {
            1
        } else {
            0
        }
    }
}

/// Zero-sum in name only: the least payoff has no negation.
struct Extreme;

impl Evaluator<Board> for Extreme {
    fn evaluate_payoff_for(actor: Actor, _state: &Board) -> i64 {
        match actor {
            Actor::First => i64::MIN,
            Actor::Second => i64::MAX,
        }
    }
}

#[test]
fn negation_law_violations_are_flagged() {
    let won = board(&[(0, Actor::First), (1, Actor::First), (2, Actor::First), (3, Actor::Second), (4, Actor::Second)]);
    assert!(!obeys_negation_law::<Board, AnyWin>(&won));
    // Where nobody has won, both payoffs are zero and the law holds.
    assert!(obeys_negation_law::<Board, AnyWin>(&board(&[])));
    assert!(!obeys_negation_law::<Board, Extreme>(&won));
}
