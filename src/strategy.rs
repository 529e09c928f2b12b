//! Picking a move by depth-bounded search with alpha-beta pruning, in a
//! minimax and a negamax form.
use crate::cow_ref::CowRef;
use crate::minimax::{
    actions_tagged, best_index, bounded_by, child_depth, child_value, combine,
    lemma_negamax_is_minimax, lemma_prefix_monotone, lemma_prefix_negamax_monotone, minimax_choice,
    minimax_prefix, minimax_value, negamax_prefix, negamax_value, negate, zero_sum_within,
};
use crate::node::TreeNode;
use crate::window::Window;
use crate::{Action, Actor, Evaluator, Rule, Strategy};
use core::marker::PhantomData;
use vstd::prelude::*;

verus! {

/// A node of the search tree: a position, the move that led to it, and its
/// payoff once the search has found one.
struct MinimaxNode<'a, S, A> {
    /// The position; the root's is borrowed from the caller.
    state: CowRef<'a, S>,
    /// The move that led here; `None` at the root.
    cause_action: Option<A>,
    /// The payoff of this position, for the player the search scores it for.
    payoff: Option<i64>,
}

impl<'a, S, A: Action> MinimaxNode<'a, S, A> {
    /// The player to move here: the opponent of whoever made the move that
    /// led here, or `target` at the root.
    spec fn mover(&self, target: Actor) -> Actor {
        match self.cause_action {
            Some(a) => a.spec_actor().spec_opponent(),
            None => target,
        }
    }

    fn new(state: CowRef<'a, S>, cause_action: Option<A>, payoff: Option<i64>) -> (r: Self)
        ensures
            r.state == state,
            r.cause_action == cause_action,
            r.payoff == payoff,
    {
        MinimaxNode { state, cause_action, payoff }
    }

    fn ref_state(&self) -> (r: &S)
        ensures
            *r == self.state.value(),
    {
        self.state.as_ref()
    }
}

/// The minimax value of `node` for `target`, looking `depth` plies below it.
spec fn node_value<'a, R: Rule, E: Evaluator<R::S>>(
    node: MinimaxNode<'a, R::S, R::A>,
    depth: nat,
    target: Actor,
) -> Option<int> {
    minimax_value::<R, E>(depth, node.state.value(), node.mover(target), target)
}

/// The node `c` is the child that the move at index `i` of `acts` leads to
/// from `s`.
spec fn kept_from<'a, R: Rule>(
    c: TreeNode<MinimaxNode<'a, R::S, R::A>>,
    s: R::S,
    acts: Seq<R::A>,
    i: int,
) -> bool {
    &&& 0 <= i < acts.len()
    &&& c.item.cause_action == Some(acts[i])
    &&& c.item.state.value() == R::spec_translate(s, acts[i])
}

/// The move at index `i` of `acts` is the first whose child is worth `v` at
/// full width, every earlier child with a value being worth less to the mover
/// (more, when the mover minimizes).
spec fn first_best<R: Rule, E: Evaluator<R::S>>(
    depth: nat,
    s: R::S,
    acts: Seq<R::A>,
    target: Actor,
    maximize: bool,
    i: int,
    v: int,
) -> bool {
    &&& child_value::<R, E>(depth, s, acts[i], target) == Some(v)
    &&& forall|j: int|
        0 <= j < i && #[trigger] child_value::<R, E>(depth, s, acts[j], target) is Some ==> if maximize {
            child_value::<R, E>(depth, s, acts[j], target)->0 < v
        } else {
            child_value::<R, E>(depth, s, acts[j], target)->0 > v
        }
}

/// What the minimax search leaves under a node, searched `depth` plies deep
/// for `target` over `range` with result `r`, going from `before` to `after`.
/// A leaf is worth the evaluator's payoff and keeps its child. A node without
/// a value keeps its child too. Otherwise the child kept is the one that a
/// legal move of the mover leads to, worth `r`; when `r` lies inside `range`
/// it is the first legal move whose child is worth `r`.
spec fn keeps_best<'a, R: Rule, E: Evaluator<R::S>>(
    before: TreeNode<MinimaxNode<'a, R::S, R::A>>,
    after: TreeNode<MinimaxNode<'a, R::S, R::A>>,
    depth: nat,
    target: Actor,
    range: Window,
    r: Option<i64>,
) -> bool {
    let s = before.item.state.value();
    let mover = before.item.mover(target);
    let acts = R::spec_actions(s, mover);
    if depth == 0 || R::spec_game_over(s) {
        r == Some(E::spec_payoff(target, s)) && after.child == before.child
    } else if r is None {
        after.child == before.child
    } else {
        match after.child {
            Some(c) => exists|i: int|
                #![trigger acts[i]]
                {
                    &&& kept_from::<R>(*c, s, acts, i)
                    &&& c.item.payoff == r
                    &&& range.contains(r->0 as int) ==> first_best::<R, E>(
                        (depth - 1) as nat,
                        s,
                        acts,
                        target,
                        mover == target,
                        i,
                        r->0 as int,
                    )
                },
            None => false,
        }
    }
}

/// The negated negamax value of the child that `a` leads to from `s`: its
/// worth to the player who makes the move.
spec fn negamax_child<R: Rule, E: Evaluator<R::S>>(depth: nat, s: R::S, a: R::A) -> Option<int> {
    negate(negamax_value::<R, E>(depth, R::spec_translate(s, a), a.spec_actor().spec_opponent()))
}

/// The move at index `i` of `acts` is the first whose child is worth `v` to
/// the mover by negamax, every earlier child with a value being worth less.
spec fn first_best_negamax<R: Rule, E: Evaluator<R::S>>(
    depth: nat,
    s: R::S,
    acts: Seq<R::A>,
    i: int,
    v: int,
) -> bool {
    &&& negamax_child::<R, E>(depth, s, acts[i]) == Some(v)
    &&& forall|j: int|
        0 <= j < i && #[trigger] negamax_child::<R, E>(depth, s, acts[j]) is Some
            ==> negamax_child::<R, E>(depth, s, acts[j])->0 < v
}

/// What the negamax search leaves under a node that a move led to, searched
/// `depth` plies deep over `range` with result `r`, going from `before` to
/// `after`. A leaf is worth the evaluator's payoff for the mover and keeps its
/// child. A node without a value keeps its child too. Otherwise the child kept
/// is the one that a legal move of the mover leads to, worth `-r` from its own
/// side; when `r` lies inside `range` it is the first legal move whose child
/// is worth `r` to the mover.
spec fn keeps_best_negamax<'a, R: Rule, E: Evaluator<R::S>>(
    before: TreeNode<MinimaxNode<'a, R::S, R::A>>,
    after: TreeNode<MinimaxNode<'a, R::S, R::A>>,
    depth: nat,
    range: Window,
    r: Option<i64>,
) -> bool {
    let s = before.item.state.value();
    let mover = before.item.cause_action->0.spec_actor().spec_opponent();
    let acts = R::spec_actions(s, mover);
    if depth == 0 || R::spec_game_over(s) {
        r == Some(E::spec_payoff(mover, s)) && after.child == before.child
    } else if r is None {
        after.child == before.child
    } else {
        match after.child {
            Some(c) => exists|i: int|
                #![trigger acts[i]]
                {
                    &&& kept_from::<R>(*c, s, acts, i)
                    &&& c.item.payoff is Some && c.item.payoff->0 == -r->0
                    &&& range.contains(r->0 as int) ==> first_best_negamax::<R, E>(
                        (depth - 1) as nat,
                        s,
                        acts,
                        i,
                        r->0 as int,
                    )
                },
            None => false,
        }
    }
}

/// Where a search of a maximizing node over `range` stands once its best
/// child so far is worth `b`, the children searched are worth `sofar` at
/// full width and all its children `all`. Without a cutoff, `b` bounds
/// `sofar` from above, and equals it when inside `range`, and the window left
/// for the next child is `range` raised to `b`. With a cutoff, `b` lies above
/// `range` and bounds `all` from below.
spec fn raising(b: int, sofar: int, all: Option<int>, window: Window, range: Window, cut: bool) -> bool {
    if !cut {
        &&& sofar <= b
        &&& b >= range.min ==> sofar == b
        &&& b <= range.max
        &&& window.max == range.max
        &&& window.min == (if b > range.min {
            b
        } else {
            range.min as int
        })
    } else {
        &&& b > range.max
        &&& all is Some
        &&& all->0 >= b
    }
}

/// The same as `raising`, for a minimizing node: the window left is `range`
/// lowered to `b`, and a cutoff leaves `b` below `range`.
spec fn lowering(b: int, sofar: int, all: Option<int>, window: Window, range: Window, cut: bool) -> bool {
    if !cut {
        &&& sofar >= b
        &&& b <= range.max ==> sofar == b
        &&& b >= range.min
        &&& window.min == range.min
        &&& window.max == (if b < range.max {
            b
        } else {
            range.max as int
        })
    } else {
        &&& b < range.min
        &&& all is Some
        &&& all->0 <= b
    }
}

/// Chooses moves in two-player zero-sum games by minimax search with
/// alpha-beta pruning, `R` giving the rules and `E` scoring positions.
pub struct AlphaBetaStrategy<R, E> {
    /// How many plies ahead the search looks.
    search_depth: usize,
    _r: PhantomData<R>,
    _e: PhantomData<E>,
}

impl<R: Rule, E: Evaluator<R::S>> AlphaBetaStrategy<R, E> {
    /// How many plies ahead the search looks.
    pub closed spec fn depth(&self) -> nat {
        self.search_depth as nat
    }

    /// Scores `current_node` for `consideration_target` by searching
    /// `remaining_depth` plies below it over the window `payoff_range`, and
    /// keeps under it the best child found. The result is `None` when the
    /// node has no value (no child of it has one), and otherwise bounds its
    /// minimax value as `bounded_by` says.
    fn construct_best_game_tree_alpha_beta<'a>(
        &self,
        remaining_depth: usize,
        consideration_target: Actor,
        current_node: &mut TreeNode<MinimaxNode<'a, R::S, R::A>>,
        payoff_range: Window,
    ) -> (r: Option<i64>)
        requires
            payoff_range.wf(),
        ensures
            final(current_node).item.state == old(current_node).item.state,
            final(current_node).item.cause_action == old(current_node).item.cause_action,
            final(current_node).item.payoff == r,
            r is Some <==> node_value::<R, E>(
                old(current_node).item,
                remaining_depth as nat,
                consideration_target,
            ) is Some,
            r matches Some(v) ==> bounded_by(
                v as int,
                node_value::<R, E>(old(current_node).item, remaining_depth as nat, consideration_target)->0,
                payoff_range,
            ),
            keeps_best::<R, E>(
                *old(current_node),
                *final(current_node),
                remaining_depth as nat,
                consideration_target,
                payoff_range,
                r,
            ),
            old(current_node).child is None ==> final(current_node).line_len() <= remaining_depth,
        decreases remaining_depth,
    {
        let ghost target = consideration_target;
        let ghost node0 = *current_node;
        let ghost s = current_node.item.state.value();
        if remaining_depth == 0 || R::is_game_over(current_node.item.ref_state()) {
            let payoff = E::evaluate_payoff_for(consideration_target, current_node.item.ref_state());
            current_node.item.payoff = Some(payoff);
            return Some(payoff);
        }
        let next_actor = match &current_node.item.cause_action {
            Some(action) => action.actor().opponent(),
            None => consideration_target,
        };
        let maximize = next_actor == consideration_target;
        let current_state = current_node.item.ref_state();
        let mut actions = R::iterate_available_actions(current_state, next_actor);
        let ghost acts = actions@;
        let next_depth: usize = remaining_depth - 1;
        let ghost d = next_depth as nat;
        let n = actions.len();
        let mut window = payoff_range;
        let mut best: Option<i64> = None;
        let mut best_child: Option<TreeNode<MinimaxNode<'a, R::S, R::A>>> = None;
        let mut cut = false;
        let mut i: usize = 0;
        let ghost mut kept: int = 0;
        while i < n && !cut
            invariant
                n == acts.len(),
                i <= n,
                target == consideration_target,
                maximize == (next_actor == target),
                best is None ==> best_child is None,
                best is None ==> forall|j: int|
                    0 <= j < i ==> #[trigger] child_value::<R, E>(d, s, acts[j], target) is None,
                best matches Some(b) ==> best_child matches Some(ch) && kept_from::<R>(ch, s, acts, kept)
                    && ch.item.payoff == Some(b) && ch.line_len() <= d && kept < i,
                best matches Some(b) ==> (!cut ==> forall|j: int|
                    0 <= j < i && #[trigger] child_value::<R, E>(d, s, acts[j], target) is Some
                        ==> if maximize {
                        child_value::<R, E>(d, s, acts[j], target)->0 <= b
                    } else {
                        child_value::<R, E>(d, s, acts[j], target)->0 >= b
                    }),
                best matches Some(b) ==> (!cut && payoff_range.contains(b as int) ==> first_best::<R, E>(
                    d,
                    s,
                    acts,
                    target,
                    maximize,
                    kept,
                    b as int,
                )),
                acts == R::spec_actions(s, next_actor),
                d == next_depth as nat,
                next_depth + 1 == remaining_depth,
                actions@ =~= acts.subrange(i as int, n as int),
                *current_state == s,
                window.wf(),
                best is Some <==> minimax_prefix::<R, E>(d, s, acts, target, maximize, i as nat) is Some,
                best matches Some(b) ==> if maximize {
                    raising(
                        b as int,
                        minimax_prefix::<R, E>(d, s, acts, target, maximize, i as nat)->0,
                        minimax_prefix::<R, E>(d, s, acts, target, maximize, n as nat),
                        window,
                        payoff_range,
                        cut,
                    )
                } else {
                    lowering(
                        b as int,
                        minimax_prefix::<R, E>(d, s, acts, target, maximize, i as nat)->0,
                        minimax_prefix::<R, E>(d, s, acts, target, maximize, n as nat),
                        window,
                        payoff_range,
                        cut,
                    )
                },
                best is None ==> window == payoff_range && !cut,
            decreases n - i,
        {
            proof {
                assert(actions@.len() > 0);
            }
            let action = actions.remove(0);
            proof {
                assert(acts[i as int] == action);
                assert(acts.contains(action));
            }
            let next_state = R::translate_state(current_state, &action);
            let mut child = TreeNode::new(MinimaxNode::new(CowRef::Owned(next_state), Some(action), None));
            let ghost child0 = child;
            let c = self.construct_best_game_tree_alpha_beta(
                next_depth,
                consideration_target,
                &mut child,
                window,
            );
            let ghost cm = child_value::<R, E>(d, s, acts[i as int], target);
            proof {
                assert(node_value::<R, E>(child0.item, d, target) == cm);
                assert(acts.subrange(i as int, n as int).remove(0) =~= acts.subrange(i + 1, n as int));
                assert(minimax_prefix::<R, E>(d, s, acts, target, maximize, (i + 1) as nat) == combine(
                    minimax_prefix::<R, E>(d, s, acts, target, maximize, i as nat),
                    cm,
                    maximize,
                ));
            }
            i = i + 1;
            match c {
                None => {},
                Some(cv) => {
                    let better = match best {
                        None => true,
                        Some(b) => if maximize {
                            cv > b
                        } else {
                            cv < b
                        },
                    };
                    if better {
                        best = Some(cv);
                        best_child = Some(child);
                        proof {
                            kept = i - 1;
                        }
                        let next = if maximize {
                            window.raise_min(cv)
                        } else {
                            window.lower_max(cv)
                        };
                        match next {
                            Some(w) => window = w,
                            None => {
                                cut = true;
                                proof {
                                    lemma_prefix_monotone::<R, E>(
                                        d,
                                        s,
                                        acts,
                                        target,
                                        maximize,
                                        i as nat,
                                        n as nat,
                                    );
                                }
                            },
                        }
                    }
                },
            }
        }
        match best_child {
            Some(ch) => current_node.replace_child(ch),
            None => {},
        }
        current_node.item.payoff = best;
        best
    }
}

impl<R: Rule, E: Evaluator<R::S>> AlphaBetaStrategy<R, E> {
    /// Makes a strategy that looks `search_depth` plies ahead.
    pub fn new(search_depth: usize) -> (r: Self)
        ensures
            r.depth() == search_depth,
    {
        AlphaBetaStrategy { search_depth, _r: PhantomData, _e: PhantomData }
    }

    /// Returns the move that `actor` should make in `state`: the first legal
    /// move whose position has the greatest minimax value for `actor`,
    /// looking `depth()` plies ahead (one ply when the depth is zero). When
    /// no move leads to a position with a value, the first legal move is
    /// returned. `None` exactly when the game is over in `state` or `actor`
    /// has no legal move.
    pub fn select_action(&self, state: &R::S, actor: Actor) -> (r: Option<R::A>)
        ensures
            r == minimax_choice::<R, E>(self.depth(), *state, actor),
    {
        if R::is_game_over(state) {
            return None;
        }
        let mut actions = R::iterate_available_actions(state, actor);
        let ghost acts = actions@;
        let n = actions.len();
        if n == 0 {
            return None;
        }
        let next_depth: usize = if self.search_depth == 0 {
            0
        } else {
            self.search_depth - 1
        };
        let ghost d = next_depth as nat;
        let mut root = TreeNode::new(MinimaxNode::new(CowRef::Borrowed(state), None, None));
        let mut best: Option<i64> = None;
        let mut i: usize = 0;
        while i < n
            invariant
                n == acts.len(),
                n > 0,
                i <= n,
                acts == R::spec_actions(*state, actor),
                actions@ =~= acts.subrange(i as int, n as int),
                d == next_depth as nat,
                d == (child_depth(self.depth())),
                best is Some <==> minimax_prefix::<R, E>(d, *state, acts, actor, true, i as nat) is Some,
                best matches Some(b) ==> minimax_prefix::<R, E>(
                    d,
                    *state,
                    acts,
                    actor,
                    true,
                    i as nat,
                )->0 == b,
                i > 0 ==> root.child is Some && root.child->0.item.cause_action == Some(
                    acts[match best_index::<R, E>(d, *state, acts, actor, i as nat) {
                        Some(j) => j,
                        None => 0,
                    }],
                ),
            decreases n - i,
        {
            proof {
                assert(actions@.len() > 0);
            }
            let action = actions.remove(0);
            proof {
                assert(acts[i as int] == action);
                assert(acts.contains(action));
            }
            let next_state = R::translate_state(state, &action);
            let mut child = TreeNode::new(MinimaxNode::new(CowRef::Owned(next_state), Some(action), None));
            let window = match best {
                Some(b) => Window::new(b, i64::MAX),
                None => Window::new(i64::MIN, i64::MAX),
            };
            let ghost child0 = child;
            let c = self.construct_best_game_tree_alpha_beta(next_depth, actor, &mut child, window);
            let ghost cm = child_value::<R, E>(d, *state, acts[i as int], actor);
            proof {
                assert(node_value::<R, E>(child0.item, d, actor) == cm);
                assert(acts.subrange(i as int, n as int).remove(0) =~= acts.subrange(i + 1, n as int));
                assert(minimax_prefix::<R, E>(d, *state, acts, actor, true, (i + 1) as nat) == combine(
                    minimax_prefix::<R, E>(d, *state, acts, actor, true, i as nat),
                    cm,
                    true,
                ));
            }
            let improved = match c {
                Some(cv) => match best {
                    None => true,
                    Some(b) => cv > b,
                },
                None => false,
            };
            if improved || i == 0 {
                root.replace_child(child);
            }
            if improved {
                best = c;
            }
            i = i + 1;
        }
        match root.into_child() {
            Some(node) => node.into_inner().cause_action,
            None => None,
        }
    }
}

impl<R: Rule, E: Evaluator<R::S>> Strategy<R::S, R::A> for AlphaBetaStrategy<R, E> {
    fn select_action(&self, state: &R::S, actor: Actor) -> (r: Option<R::A>)
        ensures
            r == minimax_choice::<R, E>(self.depth(), *state, actor),
    {
        AlphaBetaStrategy::<R, E>::select_action(self, state, actor)
    }
}

/// The move chosen depends on the rules, the evaluator, the depth, the
/// position and the player alone: two strategies of the same depth choose
/// the same move for the same player in the same position, call after call.
pub proof fn lemma_select_action_deterministic<R: Rule, E: Evaluator<R::S>>(
    x: AlphaBetaStrategy<R, E>,
    y: AlphaBetaStrategy<R, E>,
    state: R::S,
    actor: Actor,
)
    requires
        x.depth() == y.depth(),
    ensures
        minimax_choice::<R, E>(x.depth(), state, actor) == minimax_choice::<R, E>(y.depth(), state, actor),
{
}

/// Makes a strategy that looks `search_depth` plies ahead.
pub fn construct_alpha_beta_strategy<R: Rule, E: Evaluator<R::S>>(search_depth: usize) -> (r:
    AlphaBetaStrategy<R, E>)
    ensures
        r.depth() == search_depth,
{
    AlphaBetaStrategy::new(search_depth)
}

/// Chooses moves in two-player zero-sum games by negamax search with
/// alpha-beta pruning: one maximizing rule for both players, each child's
/// payoff negated. It needs an evaluator that obeys the zero-sum law in the
/// positions its search reaches, and then picks the same moves as
/// `AlphaBetaStrategy`.
pub struct NegamaxStrategy<R, E> {
    /// How many plies ahead the search looks.
    search_depth: usize,
    _r: PhantomData<R>,
    _e: PhantomData<E>,
}

impl<R: Rule, E: Evaluator<R::S>> NegamaxStrategy<R, E> {
    /// How many plies ahead the search looks.
    pub closed spec fn depth(&self) -> nat {
        self.search_depth as nat
    }

    /// Makes a strategy that looks `search_depth` plies ahead.
    pub fn new(search_depth: usize) -> (r: Self)
        ensures
            r.depth() == search_depth,
    {
        NegamaxStrategy { search_depth, _r: PhantomData, _e: PhantomData }
    }

    /// Scores `current_node`, which a move led to, for the player to move
    /// there, by searching `remaining_depth` plies below it over the window
    /// `payoff_range`, and keeps under it the best child found. The result is
    /// `None` when the node has no value, and otherwise bounds its negamax
    /// value as `bounded_by` says.
    fn negamax_alpha_beta<'a>(
        &self,
        remaining_depth: usize,
        current_node: &mut TreeNode<MinimaxNode<'a, R::S, R::A>>,
        payoff_range: Window,
    ) -> (r: Option<i64>)
        requires
            zero_sum_within::<R, E>(
                remaining_depth as nat,
                old(current_node).item.state.value(),
                old(current_node).item.cause_action->0.spec_actor().spec_opponent(),
            ),
            payoff_range.wf(),
            payoff_range.min > i64::MIN,
            old(current_node).item.cause_action is Some,
        ensures
            final(current_node).item.state == old(current_node).item.state,
            final(current_node).item.cause_action == old(current_node).item.cause_action,
            final(current_node).item.payoff == r,
            r is Some <==> negamax_value::<R, E>(
                remaining_depth as nat,
                old(current_node).item.state.value(),
                old(current_node).item.cause_action->0.spec_actor().spec_opponent(),
            ) is Some,
            r matches Some(v) ==> v > i64::MIN && bounded_by(
                v as int,
                negamax_value::<R, E>(
                    remaining_depth as nat,
                    old(current_node).item.state.value(),
                    old(current_node).item.cause_action->0.spec_actor().spec_opponent(),
                )->0,
                payoff_range,
            ),
            keeps_best_negamax::<R, E>(
                *old(current_node),
                *final(current_node),
                remaining_depth as nat,
                payoff_range,
                r,
            ),
            old(current_node).child is None ==> final(current_node).line_len() <= remaining_depth,
        decreases remaining_depth,
    {
        let ghost s = current_node.item.state.value();
        let mover = match &current_node.item.cause_action {
            Some(action) => action.actor().opponent(),
            // not reached: a move led to every node searched here
            None => Actor::First,
        };
        if remaining_depth == 0 || R::is_game_over(current_node.item.ref_state()) {
            let payoff = E::evaluate_payoff_for(mover, current_node.item.ref_state());
            proof {
                assert(E::spec_payoff(Actor::Second, s) == -E::spec_payoff(Actor::First, s));
            }
            current_node.item.payoff = Some(payoff);
            return Some(payoff);
        }
        let current_state = current_node.item.ref_state();
        let mut actions = R::iterate_available_actions(current_state, mover);
        let ghost acts = actions@;
        let next_depth: usize = remaining_depth - 1;
        let ghost d = next_depth as nat;
        let n = actions.len();
        let mut window = payoff_range;
        let mut best: Option<i64> = None;
        let mut best_child: Option<TreeNode<MinimaxNode<'a, R::S, R::A>>> = None;
        let mut cut = false;
        let mut i: usize = 0;
        let ghost mut kept: int = 0;
        while i < n && !cut
            invariant
                forall|j: int|
                    0 <= j < acts.len() ==> zero_sum_within::<R, E>(
                        d,
                        R::spec_translate(s, #[trigger] acts[j]),
                        acts[j].spec_actor().spec_opponent(),
                    ),
                best is None ==> best_child is None,
                best is None ==> forall|j: int|
                    0 <= j < i ==> #[trigger] negamax_child::<R, E>(d, s, acts[j]) is None,
                best matches Some(b) ==> best_child matches Some(ch) && kept_from::<R>(ch, s, acts, kept)
                    && ch.item.payoff is Some && ch.item.payoff->0 == -b && ch.line_len() <= d && kept < i,
                best matches Some(b) ==> (!cut ==> forall|j: int|
                    0 <= j < i && #[trigger] negamax_child::<R, E>(d, s, acts[j]) is Some
                        ==> negamax_child::<R, E>(d, s, acts[j])->0 <= b),
                best matches Some(b) ==> (!cut && payoff_range.contains(b as int)
                    ==> first_best_negamax::<R, E>(d, s, acts, kept, b as int)),
                n == acts.len(),
                i <= n,
                acts == R::spec_actions(s, mover),
                d == next_depth as nat,
                next_depth + 1 == remaining_depth,
                actions@ =~= acts.subrange(i as int, n as int),
                *current_state == s,
                window.wf(),
                window.min > i64::MIN,
                best is Some <==> negamax_prefix::<R, E>(d, s, acts, i as nat) is Some,
                best matches Some(b) ==> b > i64::MIN,
                best matches Some(b) ==> raising(
                    b as int,
                    negamax_prefix::<R, E>(d, s, acts, i as nat)->0,
                    negamax_prefix::<R, E>(d, s, acts, n as nat),
                    window,
                    payoff_range,
                    cut,
                ),
                best is None ==> window == payoff_range && !cut,
            decreases n - i,
        {
            proof {
                assert(actions@.len() > 0);
            }
            let action = actions.remove(0);
            proof {
                assert(acts[i as int] == action);
                assert(acts.contains(action));
            }
            let next_state = R::translate_state(current_state, &action);
            let mut child = TreeNode::new(MinimaxNode::new(CowRef::Owned(next_state), Some(action), None));
            let child_window = Window::new(-window.max, -window.min);
            let c = self.negamax_alpha_beta(next_depth, &mut child, child_window);
            let ghost cm = negamax_child::<R, E>(d, s, acts[i as int]);
            proof {
                assert(acts.subrange(i as int, n as int).remove(0) =~= acts.subrange(i + 1, n as int));
                assert(negamax_prefix::<R, E>(d, s, acts, (i + 1) as nat) == combine(
                    negamax_prefix::<R, E>(d, s, acts, i as nat),
                    cm,
                    true,
                ));
            }
            i = i + 1;
            match c {
                None => {},
                Some(cv) => {
                    let v = -cv;
                    let better = match best {
                        None => true,
                        Some(b) => v > b,
                    };
                    if better {
                        best = Some(v);
                        best_child = Some(child);
                        proof {
                            kept = i - 1;
                        }
                        match window.raise_min(v) {
                            Some(w) => window = w,
                            None => {
                                cut = true;
                                proof {
                                    lemma_prefix_negamax_monotone::<R, E>(d, s, acts, i as nat, n as nat);
                                }
                            },
                        }
                    }
                },
            }
        }
        match best_child {
            Some(ch) => current_node.replace_child(ch),
            None => {},
        }
        current_node.item.payoff = best;
        best
    }
}

impl<R: Rule, E: Evaluator<R::S>> NegamaxStrategy<R, E> {
    /// Returns the move that `actor` should make in `state`. When the
    /// evaluator obeys the zero-sum law in every position the search reaches
    /// and every legal move is tagged with its player, this is the move that full-width minimax picks, as for
    /// `AlphaBetaStrategy`: `None` exactly when the game is over in `state` or
    /// `actor` has no legal move.
    pub fn select_action(&self, state: &R::S, actor: Actor) -> (r: Option<R::A>)
        requires
            zero_sum_within::<R, E>(child_depth(self.depth()) + 1, *state, actor),
            actions_tagged::<R>(),
        ensures
            r == minimax_choice::<R, E>(self.depth(), *state, actor),
    {
        if R::is_game_over(state) {
            return None;
        }
        let mut actions = R::iterate_available_actions(state, actor);
        let ghost acts = actions@;
        let n = actions.len();
        if n == 0 {
            return None;
        }
        let next_depth: usize = if self.search_depth == 0 {
            0
        } else {
            self.search_depth - 1
        };
        let ghost d = next_depth as nat;
        let mut root = TreeNode::new(MinimaxNode::new(CowRef::Borrowed(state), None, None));
        let mut best: Option<i64> = None;
        let mut i: usize = 0;
        while i < n
            invariant
                forall|j: int|
                    0 <= j < acts.len() ==> zero_sum_within::<R, E>(
                        d,
                        R::spec_translate(*state, #[trigger] acts[j]),
                        acts[j].spec_actor().spec_opponent(),
                    ),
                actions_tagged::<R>(),
                n == acts.len(),
                n > 0,
                i <= n,
                acts == R::spec_actions(*state, actor),
                actions@ =~= acts.subrange(i as int, n as int),
                d == next_depth as nat,
                d == child_depth(self.depth()),
                best is Some <==> minimax_prefix::<R, E>(d, *state, acts, actor, true, i as nat) is Some,
                best matches Some(b) ==> minimax_prefix::<R, E>(
                    d,
                    *state,
                    acts,
                    actor,
                    true,
                    i as nat,
                )->0 == b,
                best matches Some(b) ==> b > i64::MIN,
                i > 0 ==> root.child is Some && root.child->0.item.cause_action == Some(
                    acts[match best_index::<R, E>(d, *state, acts, actor, i as nat) {
                        Some(j) => j,
                        None => 0,
                    }],
                ),
            decreases n - i,
        {
            proof {
                assert(actions@.len() > 0);
            }
            let action = actions.remove(0);
            proof {
                assert(acts[i as int] == action);
                assert(acts.contains(action));
            }
            let next_state = R::translate_state(state, &action);
            let mut child = TreeNode::new(MinimaxNode::new(CowRef::Owned(next_state), Some(action), None));
            let child_window = match best {
                Some(b) => Window::new(-i64::MAX, -b),
                None => Window::new(-i64::MAX, i64::MAX),
            };
            let c = self.negamax_alpha_beta(next_depth, &mut child, child_window);
            let ghost cm = child_value::<R, E>(d, *state, acts[i as int], actor);
            proof {
                assert(acts[i as int].spec_actor() == actor);
                lemma_negamax_is_minimax::<R, E>(
                    d,
                    R::spec_translate(*state, acts[i as int]),
                    actor.spec_opponent(),
                    actor,
                );
                assert(acts.subrange(i as int, n as int).remove(0) =~= acts.subrange(i + 1, n as int));
                assert(minimax_prefix::<R, E>(d, *state, acts, actor, true, (i + 1) as nat) == combine(
                    minimax_prefix::<R, E>(d, *state, acts, actor, true, i as nat),
                    cm,
                    true,
                ));
            }
            let value = match c {
                Some(cv) => Some(-cv),
                None => None,
            };
            let improved = match value {
                Some(v) => match best {
                    None => true,
                    Some(b) => v > b,
                },
                None => false,
            };
            if improved || i == 0 {
                root.replace_child(child);
            }
            if improved {
                best = value;
            }
            i = i + 1;
        }
        match root.into_child() {
            Some(node) => node.into_inner().cause_action,
            None => None,
        }
    }
}

/// Returns whether the evaluator `E` obeys the zero-sum law in `state`: the
/// payoff of the second player is the negation of the first player's.
/// `NegamaxStrategy` needs this to hold in every position its search reaches.
pub fn obeys_negation_law<S, E: Evaluator<S>>(state: &S) -> (r: bool)
    ensures
        r == (E::spec_payoff(Actor::Second, *state) == -E::spec_payoff(Actor::First, *state)),
{
    let first = E::evaluate_payoff_for(Actor::First, state);
    let second = E::evaluate_payoff_for(Actor::Second, state);
    if first == i64::MIN {
        false
    } else {
        second == -first
    }
}

} // verus!
