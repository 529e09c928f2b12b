//! The full-width minimax value of a position, without pruning, as the
//! measure that the search is held to.
use crate::window::Window;
use crate::{Action, Actor, Evaluator, Rule};
use vstd::prelude::*;

verus! {

/// Folds the value `c` of one more child into the best value `prev` found so
/// far. A child without a value is skipped; on a tie the earlier child stays.
pub open spec fn combine(prev: Option<int>, c: Option<int>, maximize: bool) -> Option<int> {
    match c {
        None => prev,
        Some(v) => match prev {
            None => Some(v),
            Some(p) => if (maximize && v > p) || (!maximize && v < p) {
                Some(v)
            } else {
                Some(p)
            },
        },
    }
}

/// The minimax value, for `target`, of `state` with `mover` to move and
/// `depth` plies left to look at. A position that is over, or that the
/// depth does not let us look past, is worth what the evaluator says. Any
/// other position is worth the best of its children for the mover: the
/// greatest when the mover is `target`, the least otherwise. `None` when no
/// child has a value, in particular when the mover has no legal move.
pub open spec fn minimax_value<R: Rule, E: Evaluator<R::S>>(
    depth: nat,
    state: R::S,
    mover: Actor,
    target: Actor,
) -> Option<int>
    decreases depth, 0nat, 0nat,
{
    if depth == 0 || R::spec_game_over(state) {
        Some(E::spec_payoff(target, state) as int)
    } else {
        let acts = R::spec_actions(state, mover);
        minimax_prefix::<R, E>((depth - 1) as nat, state, acts, target, mover == target, acts.len())
    }
}

/// The best value of the children that the first `k` moves of `acts` lead to
/// from `state`, each looked at `depth` plies deep.
pub open spec fn minimax_prefix<R: Rule, E: Evaluator<R::S>>(
    depth: nat,
    state: R::S,
    acts: Seq<R::A>,
    target: Actor,
    maximize: bool,
    k: nat,
) -> Option<int>
    decreases depth, 1nat, k,
{
    if k == 0 || k > acts.len() {
        None
    } else {
        let a = acts[k - 1];
        combine(
            minimax_prefix::<R, E>(depth, state, acts, target, maximize, (k - 1) as nat),
            minimax_value::<R, E>(
                depth,
                R::spec_translate(state, a),
                a.spec_actor().spec_opponent(),
                target,
            ),
            maximize,
        )
    }
}

/// The value of the child that `a` leads to from `state`.
pub open spec fn child_value<R: Rule, E: Evaluator<R::S>>(
    depth: nat,
    state: R::S,
    a: R::A,
    target: Actor,
) -> Option<int> {
    minimax_value::<R, E>(depth, R::spec_translate(state, a), a.spec_actor().spec_opponent(), target)
}

/// The index, among the first `k` moves of `acts`, of the first move whose
/// child has the greatest value; `None` when no child has a value.
pub open spec fn best_index<R: Rule, E: Evaluator<R::S>>(
    depth: nat,
    state: R::S,
    acts: Seq<R::A>,
    target: Actor,
    k: nat,
) -> Option<int>
    decreases k,
{
    if k == 0 || k > acts.len() {
        None
    } else {
        let prev = minimax_prefix::<R, E>(depth, state, acts, target, true, (k - 1) as nat);
        let c = child_value::<R, E>(depth, state, acts[k - 1], target);
        if c is Some && (prev is None || c->0 > prev->0) {
            Some(k - 1)
        } else {
            best_index::<R, E>(depth, state, acts, target, (k - 1) as nat)
        }
    }
}

/// How deep the children of the root are looked at when the search looks
/// `depth` plies ahead: the root is always expanded, so a depth of zero
/// searches one ply, as a depth of one does.
pub open spec fn child_depth(depth: nat) -> nat {
    if depth == 0 {
        0
    } else {
        (depth - 1) as nat
    }
}

/// The move that full-width minimax picks for `actor` in `state`, looking
/// `depth` plies ahead (at least one): the first legal move whose child has
/// the greatest value, or the first legal move when no child has a value.
/// `None` exactly when the game is over in `state` or `actor` has no legal
/// move.
pub open spec fn minimax_choice<R: Rule, E: Evaluator<R::S>>(
    depth: nat,
    state: R::S,
    actor: Actor,
) -> Option<R::A> {
    let acts = R::spec_actions(state, actor);
    let d: nat = child_depth(depth);
    if R::spec_game_over(state) || acts.len() == 0 {
        None
    } else {
        match best_index::<R, E>(d, state, acts, actor, acts.len()) {
            Some(i) => Some(acts[i]),
            None => Some(acts[0]),
        }
    }
}

/// What a search over the window `w` may return as `v` for a position whose
/// minimax value is `m`: `m` itself when `v` is inside the window, and a bound
/// on `m` from the side that `v` lies on when it is outside.
pub open spec fn bounded_by(v: int, m: int, w: Window) -> bool {
    &&& v < w.min ==> m <= v
    &&& w.contains(v) ==> m == v
    &&& v > w.max ==> m >= v
}

/// Once some of the first `k` children has a value, so does every longer
/// prefix, and that value only gets better for the mover.
pub proof fn lemma_prefix_monotone<R: Rule, E: Evaluator<R::S>>(
    depth: nat,
    state: R::S,
    acts: Seq<R::A>,
    target: Actor,
    maximize: bool,
    k: nat,
    j: nat,
)
    requires
        k <= j <= acts.len(),
        minimax_prefix::<R, E>(depth, state, acts, target, maximize, k) is Some,
    ensures
        minimax_prefix::<R, E>(depth, state, acts, target, maximize, j) is Some,
        maximize ==> minimax_prefix::<R, E>(depth, state, acts, target, maximize, j)->0
            >= minimax_prefix::<R, E>(depth, state, acts, target, maximize, k)->0,
        !maximize ==> minimax_prefix::<R, E>(depth, state, acts, target, maximize, j)->0
            <= minimax_prefix::<R, E>(depth, state, acts, target, maximize, k)->0,
    decreases j - k,
{
    if j > k {
        lemma_prefix_monotone::<R, E>(depth, state, acts, target, maximize, k, (j - 1) as nat);
    }
}

/// What `best_index` picks among the first `k` children: it exists exactly
/// when some child has a value, that child's value is the maximizing prefix
/// value, no child is worth more, and every earlier child is worth less.
pub proof fn lemma_best_index<R: Rule, E: Evaluator<R::S>>(
    depth: nat,
    state: R::S,
    acts: Seq<R::A>,
    target: Actor,
    k: nat,
)
    requires
        k <= acts.len(),
    ensures
        best_index::<R, E>(depth, state, acts, target, k) is Some <==> minimax_prefix::<R, E>(
            depth,
            state,
            acts,
            target,
            true,
            k,
        ) is Some,
        best_index::<R, E>(depth, state, acts, target, k) matches Some(i) ==> {
            let best = minimax_prefix::<R, E>(depth, state, acts, target, true, k)->0;
            &&& 0 <= i < k
            &&& child_value::<R, E>(depth, state, acts[i], target) == Some(best)
            &&& forall|j: int|
                0 <= j < k && #[trigger] child_value::<R, E>(depth, state, acts[j], target) is Some
                    ==> child_value::<R, E>(depth, state, acts[j], target)->0 <= best
            &&& forall|j: int|
                0 <= j < i && #[trigger] child_value::<R, E>(depth, state, acts[j], target) is Some
                    ==> child_value::<R, E>(depth, state, acts[j], target)->0 < best
        },
        best_index::<R, E>(depth, state, acts, target, k) is None ==> forall|j: int|
            0 <= j < k ==> #[trigger] child_value::<R, E>(depth, state, acts[j], target) is None,
    decreases k,
{
    if k > 0 {
        lemma_best_index::<R, E>(depth, state, acts, target, (k - 1) as nat);
    }
}

/// Whenever the game is not over and `actor` has a legal move, the move
/// chosen for it is one of them.
pub proof fn lemma_choice_is_legal<R: Rule, E: Evaluator<R::S>>(depth: nat, state: R::S, actor: Actor)
    requires
        !R::spec_game_over(state),
        R::spec_actions(state, actor).len() > 0,
    ensures
        minimax_choice::<R, E>(depth, state, actor) matches Some(a) && R::spec_actions(
            state,
            actor,
        ).contains(a),
{
    let acts = R::spec_actions(state, actor);
    let d: nat = child_depth(depth);
    lemma_best_index::<R, E>(d, state, acts, actor, acts.len());
    match best_index::<R, E>(d, state, acts, actor, acts.len()) {
        Some(i) => assert(acts[i] == acts[i]),
        None => assert(acts[0] == acts[0]),
    }
}

/// When the game is over or `actor` has no legal move, no move is chosen.
pub proof fn lemma_no_legal_move_no_choice<R: Rule, E: Evaluator<R::S>>(
    depth: nat,
    state: R::S,
    actor: Actor,
)
    requires
        R::spec_game_over(state) || R::spec_actions(state, actor).len() == 0,
    ensures
        minimax_choice::<R, E>(depth, state, actor) is None,
{
}

/// When the game is not over and some legal move of `actor` leads to a
/// position with a value, the chosen move is the first one whose position is
/// worth the most to `actor`.
pub proof fn lemma_choice_is_optimal<R: Rule, E: Evaluator<R::S>>(depth: nat, state: R::S, actor: Actor)
    requires
        !R::spec_game_over(state),
        exists|j: int|
            0 <= j < R::spec_actions(state, actor).len() && #[trigger] child_value::<R, E>(
                child_depth(depth),
                state,
                R::spec_actions(state, actor)[j],
                actor,
            ) is Some,
    ensures
        ({
            let acts = R::spec_actions(state, actor);
            let d: nat = child_depth(depth);
            exists|i: int|
                {
                    &&& 0 <= i < acts.len()
                    &&& minimax_choice::<R, E>(depth, state, actor) == Some(acts[i])
                    &&& #[trigger] child_value::<R, E>(d, state, acts[i], actor) is Some
                    &&& forall|j: int|
                        0 <= j < acts.len() && #[trigger] child_value::<R, E>(
                            d,
                            state,
                            acts[j],
                            actor,
                        ) is Some
                            ==> child_value::<R, E>(d, state, acts[j], actor)->0 <= child_value::<
                            R,
                            E,
                        >(d, state, acts[i], actor)->0
                    &&& forall|j: int|
                        0 <= j < i && #[trigger] child_value::<R, E>(d, state, acts[j], actor) is Some
                            ==> child_value::<R, E>(d, state, acts[j], actor)->0 < child_value::<
                            R,
                            E,
                        >(d, state, acts[i], actor)->0
                }
        }),
{
    let acts = R::spec_actions(state, actor);
    let d: nat = child_depth(depth);
    lemma_best_index::<R, E>(d, state, acts, actor, acts.len());
    let i = best_index::<R, E>(d, state, acts, actor, acts.len())->0;
    assert(child_value::<R, E>(d, state, acts[i], actor) is Some);
}

/// With a search depth of zero, in a game not yet over, the chosen move is
/// the first legal move whose resulting position the evaluator scores highest
/// for `actor`: one ply, with no further lookahead.
pub proof fn lemma_depth_zero_one_ply<R: Rule, E: Evaluator<R::S>>(state: R::S, actor: Actor)
    requires
        !R::spec_game_over(state),
        R::spec_actions(state, actor).len() > 0,
    ensures
        ({
            let acts = R::spec_actions(state, actor);
            exists|i: int|
                {
                    &&& 0 <= i < acts.len()
                    &&& minimax_choice::<R, E>(0, state, actor) == Some(acts[i])
                    &&& forall|j: int|
                        0 <= j < acts.len() ==> E::spec_payoff(
                            actor,
                            R::spec_translate(state, #[trigger] acts[j]),
                        )
                            <= E::spec_payoff(actor, R::spec_translate(state, acts[i]))
                    &&& forall|j: int|
                        0 <= j < i ==> E::spec_payoff(actor, R::spec_translate(state, #[trigger] acts[j]))
                            < E::spec_payoff(actor, R::spec_translate(state, acts[i]))
                }
        }),
{
    let acts = R::spec_actions(state, actor);
    assert(child_value::<R, E>(0, state, acts[0], actor) is Some);
    lemma_choice_is_optimal::<R, E>(0, state, actor);
    let i = choose|i: int|
        {
            &&& 0 <= i < acts.len()
            &&& minimax_choice::<R, E>(0, state, actor) == Some(acts[i])
            &&& #[trigger] child_value::<R, E>(0, state, acts[i], actor) is Some
            &&& forall|j: int|
                0 <= j < acts.len() && #[trigger] child_value::<R, E>(0, state, acts[j], actor) is Some
                    ==> child_value::<R, E>(0, state, acts[j], actor)->0 <= child_value::<R, E>(
                    0,
                    state,
                    acts[i],
                    actor,
                )->0
            &&& forall|j: int|
                0 <= j < i && #[trigger] child_value::<R, E>(0, state, acts[j], actor) is Some
                    ==> child_value::<R, E>(0, state, acts[j], actor)->0 < child_value::<R, E>(
                    0,
                    state,
                    acts[i],
                    actor,
                )->0
        };
    assert forall|j: int| 0 <= j < acts.len() implies E::spec_payoff(
        actor,
        R::spec_translate(state, #[trigger] acts[j]),
    ) <= E::spec_payoff(actor, R::spec_translate(state, acts[i])) by {
        assert(child_value::<R, E>(0, state, acts[j], actor) is Some);
    }
    assert forall|j: int| 0 <= j < i implies E::spec_payoff(
        actor,
        R::spec_translate(state, #[trigger] acts[j]),
    ) < E::spec_payoff(actor, R::spec_translate(state, acts[i])) by {
        assert(child_value::<R, E>(0, state, acts[j], actor) is Some);
    }
}

/// The negation of a value, when there is one.
pub open spec fn negate(o: Option<int>) -> Option<int> {
    match o {
        Some(v) => Some(-v),
        None => None,
    }
}

/// The zero-sum law of an evaluator: in every position, what one player
/// gains the other loses.
pub open spec fn zero_sum<S, E: Evaluator<S>>() -> bool {
    forall|s: S| #[trigger] E::spec_payoff(Actor::Second, s) == -E::spec_payoff(Actor::First, s)
}

/// Under the zero-sum law, the payoff of either player's opponent is the
/// negation of that player's payoff.
pub proof fn lemma_zero_sum_negates<S, E: Evaluator<S>>(a: Actor, s: S)
    requires
        zero_sum::<S, E>(),
    ensures
        E::spec_payoff(a.spec_opponent(), s) == -E::spec_payoff(a, s),
        E::spec_payoff(a, s) > i64::MIN,
{
    assert(E::spec_payoff(Actor::Second, s) == -E::spec_payoff(Actor::First, s));
}

/// The zero-sum law in `state` and in every position that up to `depth`
/// plies of legal play can reach from it, `mover` moving first: the
/// positions that a search of that depth looks at.
pub open spec fn zero_sum_within<R: Rule, E: Evaluator<R::S>>(depth: nat, state: R::S, mover: Actor) -> bool
    decreases depth,
{
    &&& E::spec_payoff(Actor::Second, state) == -E::spec_payoff(Actor::First, state)
    &&& depth > 0 && !R::spec_game_over(state) ==> forall|i: int|
        0 <= i < R::spec_actions(state, mover).len() ==> zero_sum_within::<R, E>(
            (depth - 1) as nat,
            R::spec_translate(state, #[trigger] R::spec_actions(state, mover)[i]),
            R::spec_actions(state, mover)[i].spec_actor().spec_opponent(),
        )
}

/// An evaluator that obeys the zero-sum law everywhere obeys it in every
/// position a search reaches.
pub proof fn lemma_zero_sum_within<R: Rule, E: Evaluator<R::S>>(depth: nat, state: R::S, mover: Actor)
    requires
        zero_sum::<R::S, E>(),
    ensures
        zero_sum_within::<R, E>(depth, state, mover),
    decreases depth,
{
    if depth > 0 && !R::spec_game_over(state) {
        let acts = R::spec_actions(state, mover);
        assert forall|i: int| 0 <= i < acts.len() implies zero_sum_within::<R, E>(
            (depth - 1) as nat,
            R::spec_translate(state, #[trigger] acts[i]),
            acts[i].spec_actor().spec_opponent(),
        ) by {
            lemma_zero_sum_within::<R, E>(
                (depth - 1) as nat,
                R::spec_translate(state, acts[i]),
                acts[i].spec_actor().spec_opponent(),
            );
        }
    }
}

/// Every legal move of a player is tagged with that player.
pub open spec fn actions_tagged<R: Rule>() -> bool {
    forall|s: R::S, a: Actor, i: int|
        0 <= i < R::spec_actions(s, a).len() ==> (#[trigger] R::spec_actions(s, a)[i]).spec_actor() == a
}

/// The negamax value of `state` for `mover`, the player to move there,
/// looking `depth` plies ahead: each child's value is taken from the side of
/// the player to move in it, and negated.
pub open spec fn negamax_value<R: Rule, E: Evaluator<R::S>>(depth: nat, state: R::S, mover: Actor) -> Option<
    int,
>
    decreases depth, 0nat, 0nat,
{
    if depth == 0 || R::spec_game_over(state) {
        Some(E::spec_payoff(mover, state) as int)
    } else {
        let acts = R::spec_actions(state, mover);
        negamax_prefix::<R, E>((depth - 1) as nat, state, acts, acts.len())
    }
}

/// The greatest negated negamax value of the children that the first `k`
/// moves of `acts` lead to from `state`.
pub open spec fn negamax_prefix<R: Rule, E: Evaluator<R::S>>(
    depth: nat,
    state: R::S,
    acts: Seq<R::A>,
    k: nat,
) -> Option<int>
    decreases depth, 1nat, k,
{
    if k == 0 || k > acts.len() {
        None
    } else {
        let a = acts[k - 1];
        combine(
            negamax_prefix::<R, E>(depth, state, acts, (k - 1) as nat),
            negate(negamax_value::<R, E>(depth, R::spec_translate(state, a), a.spec_actor().spec_opponent())),
            true,
        )
    }
}

/// Under the zero-sum law in the positions that `depth` plies reach, with
/// moves tagged by their player, negamax and
/// minimax agree: the negamax value is the minimax value for the mover, and
/// its negation the minimax value for the mover's opponent.
pub proof fn lemma_negamax_is_minimax<R: Rule, E: Evaluator<R::S>>(
    depth: nat,
    state: R::S,
    mover: Actor,
    target: Actor,
)
    requires
        zero_sum_within::<R, E>(depth, state, mover),
        actions_tagged::<R>(),
    ensures
        minimax_value::<R, E>(depth, state, mover, target) == (if mover == target {
            negamax_value::<R, E>(depth, state, mover)
        } else {
            negate(negamax_value::<R, E>(depth, state, mover))
        }),
    decreases depth, 0nat, 0nat,
{
    if depth == 0 || R::spec_game_over(state) {
        assert(E::spec_payoff(Actor::Second, state) == -E::spec_payoff(Actor::First, state));
    } else {
        let acts = R::spec_actions(state, mover);
        lemma_negamax_prefix::<R, E>((depth - 1) as nat, state, acts, mover, target, acts.len());
    }
}

/// The prefix form of `lemma_negamax_is_minimax`, over the legal moves of
/// `mover`.
pub proof fn lemma_negamax_prefix<R: Rule, E: Evaluator<R::S>>(
    depth: nat,
    state: R::S,
    acts: Seq<R::A>,
    mover: Actor,
    target: Actor,
    k: nat,
)
    requires
        forall|i: int|
            0 <= i < acts.len() ==> zero_sum_within::<R, E>(
                depth,
                R::spec_translate(state, #[trigger] acts[i]),
                acts[i].spec_actor().spec_opponent(),
            ),
        actions_tagged::<R>(),
        acts == R::spec_actions(state, mover),
        k <= acts.len(),
    ensures
        minimax_prefix::<R, E>(depth, state, acts, target, mover == target, k) == (if mover == target {
            negamax_prefix::<R, E>(depth, state, acts, k)
        } else {
            negate(negamax_prefix::<R, E>(depth, state, acts, k))
        }),
    decreases depth, 1nat, k,
{
    if k > 0 {
        let a = acts[k - 1];
        assert(a.spec_actor() == mover);
        lemma_negamax_prefix::<R, E>(depth, state, acts, mover, target, (k - 1) as nat);
        lemma_negamax_is_minimax::<R, E>(
            depth,
            R::spec_translate(state, a),
            a.spec_actor().spec_opponent(),
            target,
        );
    }
}

/// Once some of the first `k` children has a negamax value, so does every
/// longer prefix, and that value never falls.
pub proof fn lemma_prefix_negamax_monotone<R: Rule, E: Evaluator<R::S>>(
    depth: nat,
    state: R::S,
    acts: Seq<R::A>,
    k: nat,
    j: nat,
)
    requires
        k <= j <= acts.len(),
        negamax_prefix::<R, E>(depth, state, acts, k) is Some,
    ensures
        negamax_prefix::<R, E>(depth, state, acts, j) is Some,
        negamax_prefix::<R, E>(depth, state, acts, j)->0 >= negamax_prefix::<R, E>(depth, state, acts, k)->0,
    decreases j - k,
{
    if j > k {
        lemma_prefix_negamax_monotone::<R, E>(depth, state, acts, k, (j - 1) as nat);
    }
}

} // verus!
