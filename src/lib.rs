//! Depth-bounded minimax search with alpha-beta pruning for two-player,
//! zero-sum, perfect-information games.
mod cow_ref;
pub mod minimax;
mod node;
mod strategy;
mod window;

pub use cow_ref::CowRef;
pub use node::TreeNode;
pub use strategy::{
    construct_alpha_beta_strategy, lemma_select_action_deterministic, obeys_negation_law,
    AlphaBetaStrategy, NegamaxStrategy,
};
pub use window::Window;
use vstd::prelude::*;

verus! {

/// A player of a two-player game.
#[derive(Debug, Clone, Copy, PartialEq, Eq, Structural, Hash)]
pub enum Actor {
    /// The player who moves first.
    First,
    /// The player who moves second.
    Second,
}

impl Actor {
    /// The other player.
    pub open spec fn spec_opponent(self) -> Actor {
        match self {
            Actor::First => Actor::Second,
            Actor::Second => Actor::First,
        }
    }

    /// Returns the player who moves against this one.
    pub fn opponent(&self) -> (r: Actor)
        ensures
            r == self.spec_opponent(),
            r != *self,
    {
        match self {
            Actor::First => Actor::Second,
            Actor::Second => Actor::First,
        }
    }
}

/// Taking the opponent twice gives back the same player.
pub proof fn lemma_opponent_involution(a: Actor)
    ensures
        a.spec_opponent().spec_opponent() == a,
        a.spec_opponent() != a,
{
}

/// Both players, the first mover first.
pub fn actors() -> (r: [Actor; 2])
    ensures
        r@ == seq![Actor::First, Actor::Second],
{
    [Actor::First, Actor::Second]
}

/// A game position.
pub trait State {}

/// A move in a game, made by one of the players.
pub trait Action {
    /// The player who makes this move.
    /// An implementation checked by Verus defines it; left alone it is unspecified.
    open spec fn spec_actor(&self) -> Actor {
        arbitrary()
    }

    /// Returns the player who makes this move.
    fn actor(&self) -> (r: Actor)
        ensures
            r == self.spec_actor(),
    ;
}

/// The rules of a game: when it is over, which moves are legal, and what a
/// move does to a position.
pub trait Rule {
    /// The positions of the game.
    type S: State;
    /// The moves of the game.
    type A: Action;

    /// Whether the game has ended in `state`.
    /// An implementation checked by Verus defines it; left alone it is unspecified.
    open spec fn spec_game_over(state: Self::S) -> bool {
        arbitrary()
    }

    /// The legal moves of `actor` in `state`, in the order in which they are tried.
    /// An implementation checked by Verus defines it; left alone it is unspecified.
    open spec fn spec_actions(state: Self::S, actor: Actor) -> Seq<Self::A> {
        arbitrary()
    }

    /// The position that `action` leads to from `state`.
    /// An implementation checked by Verus defines it; left alone it is unspecified.
    open spec fn spec_translate(state: Self::S, action: Self::A) -> Self::S {
        arbitrary()
    }

    /// Returns whether the game has ended in `state`.
    fn is_game_over(state: &Self::S) -> (r: bool)
        ensures
            r == Self::spec_game_over(*state),
    ;

    /// Returns the legal moves of `actor` in `state`.
    fn iterate_available_actions(state: &Self::S, actor: Actor) -> (r: Vec<Self::A>)
        ensures
            r@ == Self::spec_actions(*state, actor),
    ;

    /// Returns the position that `action` leads to from `state`. The move
    /// must be legal there.
    fn translate_state(state: &Self::S, action: &Self::A) -> (r: Self::S)
        requires
            exists|actor: Actor| #[trigger] Self::spec_actions(*state, actor).contains(*action),
        ensures
            r == Self::spec_translate(*state, *action),
    ;
}

/// Scores positions for a player; a greater payoff is better for that player.
pub trait Evaluator<S> {
    /// The payoff of `state` for `actor`.
    /// An implementation checked by Verus defines it; left alone it is unspecified.
    open spec fn spec_payoff(actor: Actor, state: S) -> i64 {
        arbitrary()
    }

    /// Returns the payoff of `state` for `actor`.
    fn evaluate_payoff_for(actor: Actor, state: &S) -> (r: i64)
        ensures
            r == Self::spec_payoff(actor, *state),
    ;
}

/// Picks moves for a player.
pub trait Strategy<S, A> {
    /// Returns the move that `actor` should make in `state`, or `None` when
    /// the game is over or `actor` has no legal move.
    fn select_action(&self, state: &S, actor: Actor) -> Option<A>;
}

} // verus!
