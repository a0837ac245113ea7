//! The depth-first walk over a whole solved tree that stores every decision node.
//!
//! The walk is a state machine: the caller, who holds the game, reports what kind of
//! node it stands at, and the walk answers what to do next: store the node under its
//! name, enter a child (by action index, or by card code at a chance node), go back to
//! the parent, or stop. Chance nodes deal each possible card in increasing order, and
//! decision nodes are stored before their actions are tried in order. A node is named by
//! its board (`KhQs6h-3d` once a turn is dealt) and its action path (`Check,Bet(275)`).
use vstd::prelude::*;

use crate::cards::dealable_from;
use crate::tree::{board_after, chance_children, child_histories, history_after};

verus! {

/// What the caller finds at the node it stands at.
pub enum NodeInfo {
    /// The hand is over.
    Terminal,
    /// A card is dealt; the mask has a bit set for each card that can come.
    Chance(u64),
    /// A player acts; the labels name the actions, in order.
    Decision(Vec<String>),
}

/// What the walk asks the caller to do.
pub enum WalkStep {
    /// Store the strategy of the node the caller stands at, under this board and path.
    Store { board: String, path: String },
    /// Take the child with this index (an action index, or a card code at a chance node).
    Enter(usize),
    /// Go back to the parent of the node the caller stands at.
    Leave,
    /// The walk is over.
    Finished,
}

/// A child of a node: what to play to reach it, and its name.
pub struct Child {
    pub play: usize,
    pub board: String,
    pub path: String,
}

/// A node on the way from the root to where the caller stands.
struct Frame {
    board: String,
    path: String,
    children: Vec<Child>,
    next: usize,
}

/// What the walk waits for.
#[derive(PartialEq, Eq, Structural)]
pub enum Phase {
    /// The caller reports the node it has reached.
    Arriving,
    /// The caller has stored the node.
    Storing,
    /// The caller has gone back to the parent.
    Returning,
    /// Nothing; the walk is over.
    Done,
}

/// The depth-first walk over a tree rooted at a flop board.
pub struct FullTreeWalk {
    root_board: String,
    frames: Vec<Frame>,
    phase: Phase,
}

/// The node named `child` lies one step below the node named `parent`: either a card
/// was dealt, which extends the board after `-`, or an action was taken, which extends the
/// path after `,`. A name is a (board, action path) pair.
pub open spec fn one_step_below(parent: (Seq<char>, Seq<char>), child: (Seq<char>, Seq<char>)) -> bool {
    ||| child.1 == parent.1 && exists|card: u8| child.0 == #[trigger] board_after(parent.0, card)
    ||| child.0 == parent.0 && exists|label: Seq<char>|
        child.1 == #[trigger] history_after(parent.1, label, ","@)
}

impl FullTreeWalk {
    /// What the walk waits for.
    pub closed spec fn phase(&self) -> Phase {
        self.phase
    }

    /// How many nodes lie on the way from the root down to the deepest node whose
    /// children are being tried.
    pub closed spec fn depth(&self) -> nat {
        self.frames@.len()
    }

    /// The flop the walk starts from.
    pub closed spec fn root(&self) -> Seq<char> {
        self.root_board@
    }

    /// The names of the nodes on the way from the root to the deepest node whose children
    /// are being tried, root first.
    pub closed spec fn way(&self) -> Seq<(Seq<char>, Seq<char>)> {
        self.frames@.map_values(|f: Frame| (f.board@, f.path@))
    }

    /// What to play to reach each child of the `k`-th node on the way, in the order tried.
    pub closed spec fn plays_at(&self, k: int) -> Seq<usize> {
        self.frames@[k].children@.map_values(|c: Child| c.play)
    }

    /// The names of the children of the `k`-th node on the way, in the order tried.
    pub closed spec fn names_at(&self, k: int) -> Seq<(Seq<char>, Seq<char>)> {
        self.frames@[k].children@.map_values(|c: Child| (c.board@, c.path@))
    }

    /// How many children of the `k`-th node on the way have been entered.
    pub closed spec fn cursor_at(&self, k: int) -> nat {
        self.frames@[k].next as nat
    }

    /// The name (board, path) of the node the caller reaches or stands at: the root, the
    /// deepest node on the way, or the child of it that was entered last.
    pub closed spec fn current_name(&self) -> (Seq<char>, Seq<char>) {
        if self.frames@.len() == 0 {
            (self.root_board@, ""@)
        } else {
            let top = self.frames@.last();
            if top.next == 0 {
                (top.board@, top.path@)
            } else {
                (top.children@[top.next - 1].board@, top.children@[top.next - 1].path@)
            }
        }
    }

    /// The children of a frame are one step below it, and not more were entered than it has.
    closed spec fn frame_wf(f: Frame) -> bool {
        &&& f.next <= f.children@.len()
        &&& forall|c: int|
            0 <= c < f.children@.len() ==> one_step_below(
                (f.board@, f.path@),
                ((#[trigger] f.children@[c]).board@, f.children@[c].path@),
            )
    }

    /// `down` is the child last entered from `up`.
    closed spec fn linked(up: Frame, down: Frame) -> bool {
        &&& up.next >= 1
        &&& down.board@ == up.children@[up.next - 1].board@
        &&& down.path@ == up.children@[up.next - 1].path@
    }

    /// The frames form the way from the root: each is the child last entered from the one above.
    pub closed spec fn wf(&self) -> bool {
        &&& forall|k: int| 0 <= k < self.frames@.len() ==> Self::frame_wf(#[trigger] self.frames@[k])
        &&& self.frames@.len() > 0 ==> self.frames@[0].board@ == self.root_board@
            && self.frames@[0].path@ == ""@
        &&& forall|i: int, j: int|
            0 <= i && j == i + 1 && j < self.frames@.len() ==> #[trigger] Self::linked(
                self.frames@[i],
                self.frames@[j],
            )
        &&& self.phase == Phase::Arriving && self.frames@.len() > 0 ==> self.frames@.last().next
            >= 1
        &&& self.phase == Phase::Storing ==> self.frames@.len() > 0 && self.frames@.last().next
            == 0
        &&& self.phase == Phase::Returning ==> self.frames@.len() > 0
        &&& self.phase == Phase::Done ==> self.frames@.len() == 0
    }

    /// `other` has the same first `n` nodes on its way as `self`, with the same children
    /// and the same number of them entered.
    pub open spec fn same_below(&self, other: &Self, n: int) -> bool {
        &&& self.root() == other.root()
        &&& n <= self.depth()
        &&& n <= other.depth()
        &&& self.way().take(n) == other.way().take(n)
        &&& forall|k: int|
            0 <= k < n ==> #[trigger] self.plays_at(k) == other.plays_at(k) && self.names_at(k)
                == other.names_at(k) && self.cursor_at(k) == other.cursor_at(k)
    }

    /// A walk that starts at the root of a tree on the given flop.
    pub fn new(board: &str) -> (w: Self)
        ensures
            w.wf(),
            w.phase() == Phase::Arriving,
            w.depth() == 0,
            w.root() == board@,
            w.current_name() == (board@, ""@),
    {
        FullTreeWalk { root_board: board.to_owned(), frames: Vec::new(), phase: Phase::Arriving }
    }

    /// Enters the next child of the deepest node; returns what to play to reach it.
    #[verifier::rlimit(40)]
    fn enter_next(&mut self) -> (play: usize)
        requires
            old(self).wf(),
            old(self).frames@.len() > 0,
            old(self).frames@.last().next < old(self).frames@.last().children@.len(),
        ensures
            final(self).wf(),
            ({
                let top = old(self).depth() - 1;
                let c = old(self).cursor_at(top);
                &&& play == old(self).plays_at(top)[c as int]
                &&& final(self).phase() == Phase::Arriving
                &&& final(self).depth() == old(self).depth()
                &&& old(self).same_below(final(self), top)
                &&& final(self).way() == old(self).way()
                &&& final(self).plays_at(top) == old(self).plays_at(top)
                &&& final(self).names_at(top) == old(self).names_at(top)
                &&& final(self).cursor_at(top) == c + 1
                &&& final(self).current_name() == old(self).names_at(top)[c as int]
            }),
    {
        let ghost old_self = *old(self);
        let last = self.frames.len() - 1;
        let mut top = self.frames.pop().unwrap();
        let count = top.children.len();
        let play = top.children[top.next].play;
        assert(top.next < count);
        top.next = top.next + 1;
        self.frames.push(top);
        self.phase = Phase::Arriving;
        assert forall|i: int, j: int|
            0 <= i && j == i + 1 && j < self.frames@.len() implies #[trigger] Self::linked(
            self.frames@[i],
            self.frames@[j],
        ) by {
            assert(Self::linked(old_self.frames@[i], old_self.frames@[j]));
            if j < last {
                assert(self.frames@[j] == old_self.frames@[j]);
            }
            assert(self.frames@[i] == old_self.frames@[i]);
        }
        assert forall|k: int| 0 <= k < self.frames@.len() implies Self::frame_wf(
            #[trigger] self.frames@[k],
        ) by {
            if k < last {
                assert(self.frames@[k] == old_self.frames@[k]);
            } else {
                assert(Self::frame_wf(old_self.frames@[k]));
            }
        }
        assert(self.way() =~= old_self.way());
        assert forall|k: int| 0 <= k < last implies #[trigger] self.plays_at(k)
            == old_self.plays_at(k) && self.names_at(k) == old_self.names_at(k)
            && self.cursor_at(k) == old_self.cursor_at(k) by {
            assert(self.frames@[k] == old_self.frames@[k]);
        }
        assert(self.plays_at(last as int) =~= old_self.plays_at(last as int));
        assert(self.names_at(last as int) =~= old_self.names_at(last as int));
        play
    }

    /// Leaves the deepest node, which is not the root, once all its children were entered.
    #[verifier::rlimit(40)]
    fn leave_top(&mut self)
        requires
            old(self).wf(),
            old(self).frames@.len() > 1,
        ensures
            final(self).wf(),
            ({
                let top = old(self).depth() - 1;
                &&& final(self).phase() == Phase::Returning
                &&& final(self).depth() == top
                &&& old(self).same_below(final(self), top)
                &&& final(self).way() == old(self).way().drop_last()
            }),
    {
        let ghost old_self = *old(self);
        let last = self.frames.len() - 1;
        let _ = self.frames.pop();
        self.phase = Phase::Returning;
        assert forall|i: int, j: int|
            0 <= i && j == i + 1 && j < self.frames@.len() implies #[trigger] Self::linked(
            self.frames@[i],
            self.frames@[j],
        ) by {
            assert(Self::linked(old_self.frames@[i], old_self.frames@[j]));
            assert(self.frames@[j] == old_self.frames@[j]);
            assert(self.frames@[i] == old_self.frames@[i]);
        }
        assert forall|k: int| 0 <= k < self.frames@.len() implies Self::frame_wf(
            #[trigger] self.frames@[k],
        ) by {
            assert(self.frames@[k] == old_self.frames@[k]);
        }
        assert(self.way() =~= old_self.way().drop_last());
        assert(self.way().take(last as int) =~= old_self.way().take(last as int));
        assert forall|k: int| 0 <= k < last implies #[trigger] self.plays_at(k)
            == old_self.plays_at(k) && self.names_at(k) == old_self.names_at(k)
            && self.cursor_at(k) == old_self.cursor_at(k) by {
            assert(self.frames@[k] == old_self.frames@[k]);
        }
    }

    /// The next step once the deepest node has been stored or a child has been left:
    /// enter its next child, or leave it (or finish, at the root) when none is left.
    fn advance(&mut self) -> (step: WalkStep)
        requires
            old(self).wf(),
            old(self).frames@.len() > 0,
        ensures
            final(self).wf(),
            Self::resumed(old(self), final(self), step),
    {
        let n = self.frames.len();
        let has_next = self.frames[n - 1].next < self.frames[n - 1].children.len();
        if has_next {
            let play = self.enter_next();
            WalkStep::Enter(play)
        } else if n == 1 {
            let _ = self.frames.pop();
            self.phase = Phase::Done;
            WalkStep::Finished
        } else {
            self.leave_top();
            WalkStep::Leave
        }
    }

    /// The name of the node the caller reaches, as strings.
    fn current_strings(&self) -> (r: (String, String))
        requires
            self.wf(),
            self.phase() == Phase::Arriving,
        ensures
            (r.0@, r.1@) == self.current_name(),
    {
        let n = self.frames.len();
        if n == 0 {
            proof {
                reveal_strlit("");
            }
            let empty = String::new();
            assert(empty@ =~= ""@);
            (self.root_board.clone(), empty)
        } else {
            let top = &self.frames[n - 1];
            let c = &top.children[top.next - 1];
            (c.board.clone(), c.path.clone())
        }
    }

    /// Starts trying the children of the node the caller reached: pushes it on the way.
    #[verifier::rlimit(40)]
    fn push_node(&mut self, board: String, path: String, children: Vec<Child>)
        requires
            old(self).wf(),
            old(self).phase() == Phase::Arriving,
            (board@, path@) == old(self).current_name(),
            forall|c: int|
                0 <= c < children@.len() ==> one_step_below(
                    (board@, path@),
                    ((#[trigger] children@[c]).board@, children@[c].path@),
                ),
        ensures
            final(self).wf(),
            final(self).phase() == Phase::Storing,
            final(self).depth() == old(self).depth() + 1,
            old(self).same_below(final(self), old(self).depth() as int),
            final(self).way() == old(self).way().push(old(self).current_name()),
            final(self).plays_at(old(self).depth() as int) == children@.map_values(|c: Child| c.play),
            final(self).names_at(old(self).depth() as int) == children@.map_values(
                |c: Child| (c.board@, c.path@),
            ),
            final(self).cursor_at(old(self).depth() as int) == 0,
    {
        let ghost old_self = *old(self);
        let n = self.frames.len();
        self.frames.push(Frame { board, path, children, next: 0 });
        self.phase = Phase::Storing;
        assert forall|i: int, j: int|
            0 <= i && j == i + 1 && j < self.frames@.len() implies #[trigger] Self::linked(
            self.frames@[i],
            self.frames@[j],
        ) by {
            assert(self.frames@[i] == old_self.frames@[i]);
            if j < n {
                assert(Self::linked(old_self.frames@[i], old_self.frames@[j]));
                assert(self.frames@[j] == old_self.frames@[j]);
            }
        }
        assert forall|k: int| 0 <= k < self.frames@.len() implies Self::frame_wf(
            #[trigger] self.frames@[k],
        ) by {
            if k < n {
                assert(self.frames@[k] == old_self.frames@[k]);
            }
        }
        assert(self.way() =~= old_self.way().push(old_self.current_name()));
        assert(self.way().take(n as int) =~= old_self.way().take(n as int));
        assert forall|k: int| 0 <= k < n implies #[trigger] self.plays_at(k)
            == old_self.plays_at(k) && self.names_at(k) == old_self.names_at(k)
            && self.cursor_at(k) == old_self.cursor_at(k) by {
            assert(self.frames@[k] == old_self.frames@[k]);
        }
    }

    /// The caller has reached the node the walk expected and says what it is. A terminal
    /// node is left at once; a decision node is to be stored, under the name of the node
    /// reached; a chance node has its first possible card dealt, or is left if none can come.
    pub fn arrived(&mut self, node: NodeInfo) -> (step: WalkStep)
        requires
            old(self).wf(),
            old(self).phase() == Phase::Arriving,
        ensures
            final(self).wf(),
            match node {
                NodeInfo::Terminal => if old(self).depth() == 0 {
                    &&& step is Finished
                    &&& final(self).phase() == Phase::Done
                    &&& final(self).depth() == 0
                } else {
                    &&& step is Leave
                    &&& final(self).phase() == Phase::Returning
                    &&& final(self).depth() == old(self).depth()
                    &&& old(self).same_below(final(self), old(self).depth() as int)
                    &&& final(self).way() == old(self).way()
                },
                NodeInfo::Decision(labels) => {
                    let d = old(self).depth() as int;
                    let name = old(self).current_name();
                    &&& step matches WalkStep::Store { board, path } && (board@, path@) == name
                    &&& final(self).phase() == Phase::Storing
                    &&& final(self).depth() == d + 1
                    &&& old(self).same_below(final(self), d)
                    &&& final(self).way() == old(self).way().push(name)
                    &&& final(self).plays_at(d) == Seq::new(labels@.len(), |i: int| i as usize)
                    &&& final(self).names_at(d) == Seq::new(
                        labels@.len(),
                        |i: int| (name.0, history_after(name.1, labels@[i]@, ","@)),
                    )
                    &&& final(self).cursor_at(d) == 0
                },
                NodeInfo::Chance(mask) => {
                    let d = old(self).depth() as int;
                    let name = old(self).current_name();
                    let cards = dealable_from(mask, 0);
                    if cards.len() > 0 {
                        &&& step == WalkStep::Enter(cards[0] as usize)
                        &&& final(self).phase() == Phase::Arriving
                        &&& final(self).depth() == d + 1
                        &&& old(self).same_below(final(self), d)
                        &&& final(self).way() == old(self).way().push(name)
                        &&& final(self).plays_at(d) == cards.map_values(|c: u8| c as usize)
                        &&& final(self).names_at(d) == cards.map_values(
                            |c: u8| (board_after(name.0, c), name.1),
                        )
                        &&& final(self).cursor_at(d) == 1
                        &&& final(self).current_name() == (board_after(name.0, cards[0]), name.1)
                    } else if d == 0 {
                        &&& step is Finished
                        &&& final(self).phase() == Phase::Done
                        &&& final(self).depth() == 0
                    } else {
                        &&& step is Leave
                        &&& final(self).phase() == Phase::Returning
                        &&& final(self).depth() == d
                        &&& old(self).same_below(final(self), d)
                        &&& final(self).way() == old(self).way()
                    }
                },
            },
    {
        let ghost old_self = *old(self);
        match node {
            NodeInfo::Terminal => {
                if self.frames.len() == 0 {
                    self.phase = Phase::Done;
                    WalkStep::Finished
                } else {
                    self.phase = Phase::Returning;
                    assert(self.way() =~= old_self.way());
                    WalkStep::Leave
                }
            },
            NodeInfo::Decision(labels) => {
                let (board, path) = self.current_strings();
                let children = decision_children(&board, &path, &labels);
                let store = WalkStep::Store { board: board.clone(), path: path.clone() };
                self.push_node(board, path, children);
                store
            },
            NodeInfo::Chance(mask) => {
                let (board, path) = self.current_strings();
                let children = dealt_children(&board, &path, mask);
                self.push_node(board, path, children);
                let ghost pushed = *self;
                let step = self.advance();
                proof {
                    if dealable_from(mask, 0).len() == 0 {
                        assert(pushed.way().drop_last() =~= old_self.way());
                    }
                }
                step
            },
        }
    }

    /// The caller has stored the node it stands at; the walk goes on from it.
    pub fn stored(&mut self) -> (step: WalkStep)
        requires
            old(self).wf(),
            old(self).phase() == Phase::Storing,
        ensures
            final(self).wf(),
            Self::resumed(old(self), final(self), step),
    {
        self.advance()
    }

    /// The caller has gone back to the parent; the walk goes on from it.
    pub fn returned(&mut self) -> (step: WalkStep)
        requires
            old(self).wf(),
            old(self).phase() == Phase::Returning,
        ensures
            final(self).wf(),
            Self::resumed(old(self), final(self), step),
    {
        self.advance()
    }

    /// How the walk goes on from the deepest node on its way once that node was stored or
    /// a child of it was left: the next child is entered, or, when all were, the node is
    /// left (or, at the root, the walk finishes).
    pub open spec fn resumed(old: &Self, new: &Self, step: WalkStep) -> bool {
        let top = old.depth() - 1;
        let c = old.cursor_at(top);
        if c < old.plays_at(top).len() {
            &&& step == WalkStep::Enter(old.plays_at(top)[c as int])
            &&& new.phase() == Phase::Arriving
            &&& new.depth() == old.depth()
            &&& old.same_below(new, top)
            &&& new.way() == old.way()
            &&& new.plays_at(top) == old.plays_at(top)
            &&& new.names_at(top) == old.names_at(top)
            &&& new.cursor_at(top) == c + 1
            &&& new.current_name() == old.names_at(top)[c as int]
        } else if old.depth() == 1 {
            &&& step is Finished
            &&& new.phase() == Phase::Done
            &&& new.depth() == 0
        } else {
            &&& step is Leave
            &&& new.phase() == Phase::Returning
            &&& new.depth() == top
            &&& old.same_below(new, top)
            &&& new.way() == old.way().drop_last()
        }
    }
}

/// The children of a decision node: one per action, in order, each named by the
/// node's path extended with the action's label.
fn decision_children(board: &String, path: &String, labels: &Vec<String>) -> (r: Vec<Child>)
    ensures
        r@.map_values(|c: Child| c.play) == Seq::new(labels@.len(), |i: int| i as usize),
        r@.map_values(|c: Child| (c.board@, c.path@)) == Seq::new(
            labels@.len(),
            |i: int| (board@, history_after(path@, labels@[i]@, ","@)),
        ),
        forall|c: int|
            0 <= c < r@.len() ==> one_step_below(
                (board@, path@),
                ((#[trigger] r@[c]).board@, r@[c].path@),
            ),
{
    let paths = child_histories(path.as_str(), labels, ",");
    let mut r: Vec<Child> = Vec::new();
    let mut i: usize = 0;
    while i < paths.len()
        invariant
            i <= paths@.len() == labels@.len(),
            forall|k: int|
                0 <= k < paths@.len() ==> (#[trigger] paths@[k])@ == history_after(
                    path@,
                    labels@[k]@,
                    ","@,
                ),
            r@.len() == i,
            forall|k: int|
                0 <= k < i ==> {
                    &&& (#[trigger] r@[k]).play == k
                    &&& r@[k].board@ == board@
                    &&& r@[k].path@ == history_after(path@, labels@[k]@, ","@)
                },
        decreases paths@.len() - i,
    {
        r.push(Child { play: i, board: board.clone(), path: paths[i].clone() });
        i = i + 1;
    }
    assert(r@.map_values(|c: Child| c.play) =~= Seq::new(labels@.len(), |i: int| i as usize));
    assert(r@.map_values(|c: Child| (c.board@, c.path@)) =~= Seq::new(
        labels@.len(),
        |i: int| (board@, history_after(path@, labels@[i]@, ","@)),
    ));
    assert forall|c: int| 0 <= c < r@.len() implies one_step_below(
        (board@, path@),
        ((#[trigger] r@[c]).board@, r@[c].path@),
    ) by {
        assert(r@[c].path@ == history_after(path@, labels@[c]@, ","@));
    }
    r
}

/// The children of a chance node: one per card that can come, in increasing order,
/// each named by the node's board with the card dealt.
fn dealt_children(board: &String, path: &String, mask: u64) -> (r: Vec<Child>)
    ensures
        r@.map_values(|c: Child| c.play) == dealable_from(mask, 0).map_values(|c: u8| c as usize),
        r@.map_values(|c: Child| (c.board@, c.path@)) == dealable_from(mask, 0).map_values(
            |c: u8| (board_after(board@, c), path@),
        ),
        forall|c: int|
            0 <= c < r@.len() ==> one_step_below(
                (board@, path@),
                ((#[trigger] r@[c]).board@, r@[c].path@),
            ),
{
    let kids = chance_children(board.as_str(), mask);
    let ghost cards = dealable_from(mask, 0);
    let mut r: Vec<Child> = Vec::new();
    let mut i: usize = 0;
    while i < kids.len()
        invariant
            i <= kids@.len() == cards.len(),
            cards == dealable_from(mask, 0),
            forall|k: int|
                0 <= k < kids@.len() ==> {
                    &&& (#[trigger] kids@[k]).0 == cards[k]
                    &&& kids@[k].1@ == board_after(board@, cards[k])
                },
            r@.len() == i,
            forall|k: int|
                0 <= k < i ==> {
                    &&& (#[trigger] r@[k]).play == cards[k] as usize
                    &&& r@[k].board@ == board_after(board@, cards[k])
                    &&& r@[k].path@ == path@
                },
        decreases kids@.len() - i,
    {
        let (card, b) = &kids[i];
        r.push(Child { play: *card as usize, board: b.clone(), path: path.clone() });
        i = i + 1;
    }
    assert(r@.map_values(|c: Child| c.play) =~= cards.map_values(|c: u8| c as usize));
    assert(r@.map_values(|c: Child| (c.board@, c.path@)) =~= cards.map_values(
        |c: u8| (board_after(board@, c), path@),
    ));
    assert forall|c: int| 0 <= c < r@.len() implies one_step_below(
        (board@, path@),
        ((#[trigger] r@[c]).board@, r@[c].path@),
    ) by {
        assert(r@[c].board@ == board_after(board@, cards[c]));
    }
    r
}

/// The way of a walk leads from the root one step at a time, down to the node the caller
/// reaches: every node stored is named by the flop, the cards dealt since, and the actions
/// taken since, in order.
pub proof fn lemma_way_from_root(w: FullTreeWalk)
    requires
        w.wf(),
    ensures
        w.depth() > 0 ==> w.way()[0] == (w.root(), ""@),
        forall|i: int, j: int|
            0 <= i && j == i + 1 && j < w.way().len() ==> one_step_below(
                #[trigger] w.way()[i],
                #[trigger] w.way()[j],
            ),
        w.phase() == Phase::Arriving && w.depth() > 0 ==> one_step_below(
            w.way().last(),
            w.current_name(),
        ),
        w.phase() == Phase::Arriving && w.depth() == 0 ==> w.current_name() == (w.root(), ""@),
{
    assert forall|i: int, j: int|
        0 <= i && j == i + 1 && j < w.way().len() implies one_step_below(
        #[trigger] w.way()[i],
        #[trigger] w.way()[j],
    ) by {
        assert(FullTreeWalk::linked(w.frames@[i], w.frames@[j]));
        let up = w.frames@[i];
        assert(FullTreeWalk::frame_wf(up));
        assert(one_step_below(
            (up.board@, up.path@),
            (up.children@[up.next - 1].board@, up.children@[up.next - 1].path@),
        ));
    }
    if w.phase() == Phase::Arriving && w.depth() > 0 {
        let top = w.frames@.last();
        assert(FullTreeWalk::frame_wf(w.frames@[w.frames@.len() - 1]));
        assert(one_step_below(
            (top.board@, top.path@),
            (top.children@[top.next - 1].board@, top.children@[top.next - 1].path@),
        ));
    }
}

} // verus!
