//! Walking a solved game tree to store its strategies: the decisions the walk makes.
//!
//! The tools read each decision node of a solved game and store, per hand and action,
//! how often the hand takes the action. Nodes are named by the board (`KhQs6h`, then
//! `KhQs6h-3h` once a turn card is dealt) and by the actions taken to reach them
//! (`Check,Bet(275)` or `Check-Bet(275)`).
use vstd::prelude::*;
use vstd::string::StringExecFns;

use crate::cards::{card_text, card_to_string, dealable_cards, dealable_from};

verus! {

/// An action at a node of the game tree, as the solver offers it.
#[derive(Debug, Clone, Copy, PartialEq, Eq, Structural)]
pub enum PlayAction {
    Unset,
    Fold,
    Check,
    Call,
    Bet(i32),
    Raise(i32),
    AllIn(i32),
    Chance(u8),
}

/// The history of a node reached by taking `step` after `history`: the step alone at the
/// root, otherwise the history, the separator and the step.
pub open spec fn history_after(history: Seq<char>, step: Seq<char>, sep: Seq<char>) -> Seq<char> {
    if history.len() == 0 {
        step
    } else {
        history + sep + step
    }
}

/// The history of the node reached by taking `step` after `history`.
pub fn extend_history(history: &str, step: &str, sep: &str) -> (r: String)
    ensures
        r@ == history_after(history@, step@, sep@),
{
    if history.is_empty() {
        step.to_owned()
    } else {
        let mut r = history.to_owned();
        r.append(sep);
        r.append(step);
        r
    }
}

/// The board once `card` is dealt on it: the board, `-`, then the card.
pub open spec fn board_after(board: Seq<char>, card: u8) -> Seq<char> {
    board + "-"@ + card_text(card)
}

/// The board once `card` is dealt on it, e.g. `KhQs6h-3h`.
pub fn board_with_card(board: &str, card: u8) -> (r: String)
    ensures
        r@ == board_after(board@, card),
{
    let mut r = board.to_owned();
    r.append("-");
    let c = card_to_string(card);
    r.append(c.as_str());
    r
}

/// The label of the player to act: `OOP` for player 0, `IP` otherwise.
pub open spec fn position_text(player: usize) -> Seq<char> {
    if player == 0 {
        "OOP"@
    } else {
        "IP"@
    }
}

/// The label of the player to act.
pub fn position_label(player: usize) -> (r: &'static str)
    ensures
        r@ == position_text(player),
{
    if player == 0 {
        "OOP"
    } else {
        "IP"
    }
}

/// The children of a chance node: each card it can deal with the board it leads to,
/// cards in increasing order.
pub fn chance_children(board: &str, possible: u64) -> (r: Vec<(u8, String)>)
    ensures
        r@.len() == dealable_from(possible, 0).len(),
        forall|k: int|
            0 <= k < r@.len() ==> {
                &&& (#[trigger] r@[k]).0 == dealable_from(possible, 0)[k]
                &&& r@[k].1@ == board_after(board@, dealable_from(possible, 0)[k])
            },
{
    let cards = dealable_cards(possible);
    let mut r: Vec<(u8, String)> = Vec::new();
    let mut i: usize = 0;
    while i < cards.len()
        invariant
            i <= cards@.len(),
            cards@ == dealable_from(possible, 0),
            r@.len() == i,
            forall|k: int|
                0 <= k < i ==> {
                    &&& (#[trigger] r@[k]).0 == cards@[k]
                    &&& r@[k].1@ == board_after(board@, cards@[k])
                },
        decreases cards@.len() - i,
    {
        let card = cards[i];
        r.push((card, board_with_card(board, card)));
        i = i + 1;
    }
    r
}

/// The histories of the children of a decision node, one per action label, in action order.
pub fn child_histories(history: &str, labels: &Vec<String>, sep: &str) -> (r: Vec<String>)
    ensures
        r@.len() == labels@.len(),
        forall|k: int|
            0 <= k < r@.len() ==> (#[trigger] r@[k])@ == history_after(history@, labels@[k]@, sep@),
{
    let mut r: Vec<String> = Vec::new();
    let mut i: usize = 0;
    while i < labels.len()
        invariant
            i <= labels@.len(),
            r@.len() == i,
            forall|k: int|
                0 <= k < i ==> (#[trigger] r@[k])@ == history_after(history@, labels@[k]@, sep@),
        decreases labels@.len() - i,
    {
        r.push(extend_history(history, labels[i].as_str(), sep));
        i = i + 1;
    }
    r
}

/// Where a hand's frequency for an action sits in a node's strategy: the strategy lists,
/// action by action, the frequency of every hand.
pub fn strategy_index(hand: usize, action: usize, num_hands: usize) -> (i: usize)
    requires
        action * num_hands + hand <= usize::MAX,
    ensures
        i == action * num_hands + hand,
{
    hand + action * num_hands
}

/// Actions after which a line of flop play is not followed: a call or a fold closes the
/// betting, and a chance action deals the next street.
pub open spec fn closes_line(a: PlayAction) -> bool {
    a is Call || a is Fold || a is Chance
}

/// Whether an action closes the line of play.
pub fn ends_line(a: &PlayAction) -> (b: bool)
    ensures
        b == closes_line(*a),
{
    match a {
        PlayAction::Call | PlayAction::Fold | PlayAction::Chance(_) => true,
        _ => false,
    }
}

/// How many actions deep the depth-first flop walk still reads nodes.
pub const FLOP_WALK_DEPTH: usize = 4;

/// Whether the depth-first flop walk reads a node: it is not terminal and fewer than
/// `FLOP_WALK_DEPTH` actions lead to it.
pub fn reads_flop_node(is_terminal: bool, depth: usize) -> (b: bool)
    ensures
        b == (!is_terminal && depth < FLOP_WALK_DEPTH),
{
    !is_terminal && depth < FLOP_WALK_DEPTH
}

/// Whether the depth-first flop walk follows an action: the action does not close the line
/// and the node it leads to is not terminal.
pub fn follows_action(a: &PlayAction, lands_on_terminal: bool) -> (b: bool)
    ensures
        b == (!lands_on_terminal && !closes_line(*a)),
{
    !lands_on_terminal && !ends_line(a)
}

/// The position of the first action in `available` equal to `a`.
pub fn find_action(available: &Vec<PlayAction>, a: PlayAction) -> (r: Option<usize>)
    ensures
        match r {
            Some(i) => i < available@.len() && available@[i as int] == a && forall|j: int|
                0 <= j < i ==> #[trigger] available@[j] != a,
            None => forall|j: int| 0 <= j < available@.len() ==> #[trigger] available@[j] != a,
        },
{
    let mut i: usize = 0;
    while i < available.len()
        invariant
            i <= available@.len(),
            forall|j: int| 0 <= j < i ==> #[trigger] available@[j] != a,
        decreases available@.len() - i,
    {
        if available[i] == a {
            return Some(i);
        }
        i = i + 1;
    }
    None
}

/// A node of the breadth-first flop walk: the actions from the root, and its history text.
pub struct NodePath {
    pub actions: Vec<PlayAction>,
    pub history: String,
}

/// How many actions deep the breadth-first flop walk still reads nodes.
pub const FLOP_QUEUE_DEPTH: usize = 6;

/// A node that ends its street: it offers no action, or only chance actions.
pub open spec fn street_over(available: Seq<PlayAction>) -> bool {
    available.len() == 0 || forall|i: int| 0 <= i < available.len() ==> (#[trigger] available[i]) is Chance
}

/// The children that the breadth-first walk queues for a node, from its first `n` actions:
/// one per action that does not close the line, with the action added to the path and its
/// label to the history (after `-`).
pub open spec fn queued_children(
    actions: Seq<PlayAction>,
    history: Seq<char>,
    available: Seq<PlayAction>,
    labels: Seq<Seq<char>>,
    n: nat,
) -> Seq<(Seq<PlayAction>, Seq<char>)>
    decreases n,
{
    if n == 0 {
        Seq::empty()
    } else {
        let r = queued_children(actions, history, available, labels, (n - 1) as nat);
        let a = available[n - 1];
        if closes_line(a) {
            r
        } else {
            r.push((actions.push(a), history_after(history, labels[n - 1], "-"@)))
        }
    }
}

/// The paths and histories of a list of nodes.
pub open spec fn path_views(v: Seq<NodePath>) -> Seq<(Seq<PlayAction>, Seq<char>)> {
    v.map_values(|p: NodePath| (p.actions@, p.history@))
}

/// Whether the breadth-first walk reads a node and queues its children: the walk reached
/// it, it is not terminal, its street goes on, and fewer than `FLOP_QUEUE_DEPTH` actions lead to it.
pub open spec fn expands(path_len: nat, reached: bool, is_terminal: bool, available: Seq<PlayAction>) -> bool {
    reached && !is_terminal && !street_over(available) && path_len < FLOP_QUEUE_DEPTH
}

/// Whether a node ends its street.
fn ends_street(available: &Vec<PlayAction>) -> (b: bool)
    ensures
        b == street_over(available@),
{
    if available.len() == 0 {
        return true;
    }
    let mut i: usize = 0;
    while i < available.len()
        invariant
            i <= available@.len(),
            forall|j: int| 0 <= j < i ==> (#[trigger] available@[j]) is Chance,
        decreases available@.len() - i,
    {
        match available[i] {
            PlayAction::Chance(_) => {},
            _ => {
                return false;
            },
        }
        i = i + 1;
    }
    true
}

/// What the breadth-first flop walk does at the node that `path` leads to: `None` when it
/// skips the node, otherwise the children to queue, in action order. `reached` says whether
/// every action of the path could be played; `labels` names the node's actions.
pub fn visit_queued_node(
    path: &NodePath,
    reached: bool,
    is_terminal: bool,
    available: &Vec<PlayAction>,
    labels: &Vec<String>,
) -> (r: Option<Vec<NodePath>>)
    requires
        labels@.len() == available@.len(),
    ensures
        r is Some <==> expands(path.actions@.len(), reached, is_terminal, available@),
        r matches Some(children) ==> path_views(children@) == queued_children(
            path.actions@,
            path.history@,
            available@,
            labels@.map_values(|l: String| l@),
            available@.len(),
        ),
{
    if !reached || is_terminal || ends_street(available) || path.actions.len() >= FLOP_QUEUE_DEPTH {
        return None;
    }
    let ghost label_texts = labels@.map_values(|l: String| l@);
    let mut children: Vec<NodePath> = Vec::new();
    let mut i: usize = 0;
    while i < available.len()
        invariant
            i <= available@.len() == labels@.len(),
            label_texts == labels@.map_values(|l: String| l@),
            path_views(children@) == queued_children(
                path.actions@,
                path.history@,
                available@,
                label_texts,
                i as nat,
            ),
        decreases available@.len() - i,
    {
        let a = available[i];
        if !ends_line(&a) {
            let mut actions = path.actions.clone();
            actions.push(a);
            let history = extend_history(path.history.as_str(), labels[i].as_str(), "-");
            children.push(NodePath { actions, history });
            assert(path_views(children@) =~= queued_children(
                path.actions@,
                path.history@,
                available@,
                label_texts,
                (i + 1) as nat,
            ));
        }
        i = i + 1;
    }
    Some(children)
}

/// Every child that the breadth-first walk queues is one action deeper than its parent,
/// extends the parent's path by an action that keeps the line open, and so a walk that
/// starts at the root never queues a path longer than `FLOP_QUEUE_DEPTH`.
pub proof fn lemma_queued_children_shape(
    actions: Seq<PlayAction>,
    history: Seq<char>,
    available: Seq<PlayAction>,
    labels: Seq<Seq<char>>,
    n: nat,
)
    requires
        n <= available.len(),
    ensures
        forall|k: int|
            0 <= k < queued_children(actions, history, available, labels, n).len() ==> {
                let child = #[trigger] queued_children(actions, history, available, labels, n)[k];
                &&& child.0.len() == actions.len() + 1
                &&& child.0.drop_last() == actions
                &&& !closes_line(child.0.last())
            },
        actions.len() < FLOP_QUEUE_DEPTH ==> forall|k: int|
            0 <= k < queued_children(actions, history, available, labels, n).len()
                ==> (#[trigger] queued_children(actions, history, available, labels, n)[k]).0.len()
                <= FLOP_QUEUE_DEPTH,
    decreases n,
{
    if n > 0 {
        lemma_queued_children_shape(actions, history, available, labels, (n - 1) as nat);
        let a = available[n - 1];
        assert(actions.push(a).drop_last() =~= actions);
        let r = queued_children(actions, history, available, labels, (n - 1) as nat);
        let q = queued_children(actions, history, available, labels, n);
        assert forall|k: int| 0 <= k < q.len() implies {
            &&& (#[trigger] q[k]).0.len() == actions.len() + 1
            &&& q[k].0.drop_last() == actions
            &&& !closes_line(q[k].0.last())
        } by {
            if k < r.len() {
                assert(q[k] == r[k]);
            }
        }
    }
}

/// Checks, bets, raises and all-ins keep a line of flop play open, so the walks follow
/// them; calls, folds and chance actions close it.
pub proof fn lemma_open_actions(amount: i32, card: u8)
    ensures
        !closes_line(PlayAction::Check),
        !closes_line(PlayAction::Bet(amount)),
        !closes_line(PlayAction::Raise(amount)),
        !closes_line(PlayAction::AllIn(amount)),
        closes_line(PlayAction::Call),
        closes_line(PlayAction::Fold),
        closes_line(PlayAction::Chance(card)),
{
}

/// When each of a node's actions is a check, a bet, a raise or an all-in, the breadth-first
/// walk queues one child per action, in action order: the path with the action added, and
/// the history with the action's label after `-`.
pub proof fn lemma_open_actions_all_queued(
    actions: Seq<PlayAction>,
    history: Seq<char>,
    available: Seq<PlayAction>,
    labels: Seq<Seq<char>>,
    n: nat,
)
    requires
        n <= available.len(),
        forall|i: int|
            0 <= i < n ==> {
                let a = #[trigger] available[i];
                a is Check || a is Bet || a is Raise || a is AllIn
            },
    ensures
        queued_children(actions, history, available, labels, n).len() == n,
        forall|k: int|
            0 <= k < n ==> #[trigger] queued_children(actions, history, available, labels, n)[k] == (
                actions.push(available[k]),
                history_after(history, labels[k], "-"@),
            ),
    decreases n,
{
    if n > 0 {
        lemma_open_actions_all_queued(actions, history, available, labels, (n - 1) as nat);
        let r = queued_children(actions, history, available, labels, (n - 1) as nat);
        let q = queued_children(actions, history, available, labels, n);
        let a = available[n - 1];
        assert(!closes_line(a));
        assert forall|k: int| 0 <= k < n implies #[trigger] q[k] == (
            actions.push(available[k]),
            history_after(history, labels[k], "-"@),
        ) by {
            if k < n - 1 {
                assert(q[k] == r[k]);
            }
        }
    }
}

} // verus!
