//! The continuation-tree representation of a staged, possibly-branching
//! computation over a mutable state value.
//!
//! A [`RngNode`] describes one hero turn (or a whole battle) as a composition
//! of deterministic steps and probabilistic branches. Actions are owned
//! command values (implementors of [`RngStep`]) carrying only copyable
//! payload; identifiers in the payload (a hero index, an effect id) are
//! resolved against the state when the action runs.

use vstd::prelude::*;

verus! {

/// Branch weights are fixed-point fractions: a weight of `w` stands for the
/// probability `w / CHANCE_DENOM`. The two weights of a branch always sum to
/// exactly `CHANCE_DENOM`.
pub const CHANCE_DENOM: u32 = 1_000_000;

/// A state value the engine can thread through a tree: it must expose a
/// mathematical view and support an exact duplicate, taken at every branch
/// point so that each path owns its copy exclusively.
pub trait RngState: Sized + View {
    /// Produces an independent copy with the same abstract value.
    fn duplicate(&self) -> (r: Self)
        ensures
            r@ == self@,
    ;
}

/// An owned command that mutates a state value in place. `step` is the
/// mathematical meaning of the command; `run_step` must realize it exactly.
pub trait RngStep<S: RngState>: Sized + Copy {
    /// The state view after running this command on a state with view `s`.
    spec fn step(&self, s: <S as View>::V) -> <S as View>::V;

    /// Runs the command against the state.
    fn run_step(&self, s: &mut S)
        ensures
            final(s)@ == self.step(old(s)@),
    ;
}

/// A tree value describing a staged computation:
/// do nothing further (`End`), run an action then continue (`Always`),
/// split into two probability-weighted continuations (`Two`), or emit a
/// diagnostic label then continue (`Label`).
pub enum RngNode<A> {
    End,
    Always(A, Box<RngNode<A>>),
    Two(RngInstance<A>, RngInstance<A>),
    Label(String, Box<RngNode<A>>),
}

/// One weighted continuation of a branch.
pub struct RngInstance<A> {
    pub chance: u32,
    pub node: Box<RngNode<A>>,
}

/// An incomplete branch: holds the first weighted instance and waits for the
/// complementary one (see [`RngNode::branch_two`] and [`RngNodeNeedOne::or`]).
pub struct RngNodeNeedOne<A>(pub RngInstance<A>);

/// The result of splicing `cont` onto every terminal reachable in `n`,
/// preserving branch weights and label structure.
pub open spec fn spec_then<A>(n: RngNode<A>, cont: RngNode<A>) -> RngNode<A>
    decreases n,
{
    match n {
        RngNode::End => cont,
        RngNode::Always(a, next) => RngNode::Always(a, Box::new(spec_then(*next, cont))),
        RngNode::Two(i1, i2) => RngNode::Two(
            RngInstance { chance: i1.chance, node: Box::new(spec_then(*i1.node, cont)) },
            RngInstance { chance: i2.chance, node: Box::new(spec_then(*i2.node, cont)) },
        ),
        RngNode::Label(name, next) => RngNode::Label(name, Box::new(spec_then(*next, cont))),
    }
}

/// The fold of [`spec_then`] over a sequence of subtrees, left to right,
/// starting from the terminal node: the meaning of [`RngNode::for_each`].
pub open spec fn spec_for_each<A>(nodes: Seq<RngNode<A>>) -> RngNode<A>
    decreases nodes.len(),
{
    if nodes.len() == 0 {
        RngNode::End
    } else {
        spec_then(spec_for_each(nodes.drop_last()), nodes.last())
    }
}

/// Sequencing is associative: appending `f` and afterwards `g` rewrites the
/// tree to exactly the value that appending `f.and_then(g)` once does, so every reachable
/// terminal sees the same accumulated actions and the same branch structure.
pub proof fn lemma_then_associative<A>(a: RngNode<A>, f: RngNode<A>, g: RngNode<A>)
    ensures
        spec_then(spec_then(a, f), g) == spec_then(a, spec_then(f, g)),
    decreases a,
{
    match a {
        RngNode::End => {},
        RngNode::Always(_, next) => {
            lemma_then_associative(*next, f, g);
        },
        RngNode::Two(i1, i2) => {
            lemma_then_associative(*i1.node, f, g);
            lemma_then_associative(*i2.node, f, g);
        },
        RngNode::Label(_, next) => {
            lemma_then_associative(*next, f, g);
        },
    }
}

impl<A: Copy> RngNode<A> {
    /// Builds a step node: always runs `action` once control reaches it.
    pub fn always(action: A) -> (r: Self)
        ensures
            r == RngNode::Always(action, Box::new(RngNode::<A>::End)),
    {
        RngNode::Always(action, Box::new(RngNode::End))
    }

    /// Starts a branch whose first instance has weight `chance` (clamped to
    /// `CHANCE_DENOM`) and continues with `node`. The branch is completed by
    /// [`RngNodeNeedOne::or`], which supplies the complementary instance.
    pub fn branch_two(chance: u32, node: Self) -> (r: RngNodeNeedOne<A>)
        ensures
            r.0.chance == if chance > CHANCE_DENOM { CHANCE_DENOM as int } else { chance as int },
            *r.0.node == node,
    {
        let clamped = if chance > CHANCE_DENOM { CHANCE_DENOM } else { chance };
        RngNodeNeedOne(RngInstance { chance: clamped, node: Box::new(node) })
    }

    /// Produces an independent copy with the same value.
    pub fn dup_node(&self) -> (r: Self)
        ensures
            r == *self,
        decreases self,
    {
        match self {
            RngNode::End => RngNode::End,
            RngNode::Always(a, next) => RngNode::Always(*a, Box::new(next.dup_node())),
            RngNode::Two(i1, i2) => RngNode::Two(
                RngInstance { chance: i1.chance, node: Box::new(i1.node.dup_node()) },
                RngInstance { chance: i2.chance, node: Box::new(i2.node.dup_node()) },
            ),
            RngNode::Label(name, next) => RngNode::Label(name.clone(), Box::new(next.dup_node())),
        }
    }

    /// The central composition law: splices `cont` onto every terminal
    /// reachable in this tree, preserving branch weights and label positions.
    /// A terminal becomes `cont`; a step, branch or label keeps its shape and
    /// passes the continuation on to each of its subtrees.
    pub fn and_then(self, cont: Self) -> (r: Self)
        ensures
            r == spec_then(self, cont),
        decreases self,
    {
        match self {
            RngNode::End => cont,
            RngNode::Always(a, next) => RngNode::Always(a, Box::new((*next).and_then(cont))),
            RngNode::Two(i1, i2) => {
                let cont2 = cont.dup_node();
                RngNode::Two(
                    RngInstance { chance: i1.chance, node: Box::new((*i1.node).and_then(cont)) },
                    RngInstance { chance: i2.chance, node: Box::new((*i2.node).and_then(cont2)) },
                )
            },
            RngNode::Label(name, next) => RngNode::Label(name, Box::new((*next).and_then(cont))),
        }
    }

    /// Folds a sequence of subtrees into a single node by chaining `and_then`
    /// calls, one per element, preserving left-to-right order: element `i`'s
    /// subtree only runs after element `i - 1`'s has fully completed on a
    /// given path.
    pub fn for_each(nodes: &Vec<Self>) -> (r: Self)
        ensures
            r == spec_for_each(nodes@),
    {
        let mut r = RngNode::End;
        let mut i: usize = 0;
        while i < nodes.len()
            invariant
                i <= nodes.len(),
                r == spec_for_each(nodes@.take(i as int)),
            decreases nodes.len() - i,
        {
            proof {
                assert(nodes@.take(i + 1).drop_last() =~= nodes@.take(i as int));
                assert(nodes@.take(i + 1).last() == nodes@[i as int]);
            }
            r = r.and_then(nodes[i].dup_node());
            i = i + 1;
        }
        proof {
            assert(nodes@.take(nodes@.len() as int) =~= nodes@);
        }
        r
    }

    /// Wraps this node so the observer is notified of `label` when execution
    /// reaches this point, before the wrapped node's effects run.
    pub fn set_label(self, label: String) -> (r: Self)
        ensures
            r == RngNode::Label(label, Box::new(self)),
    {
        RngNode::Label(label, Box::new(self))
    }
}

/// Payload bound for [`IntStep`] arithmetic: a step whose operand or current
/// state lies outside this range leaves the state unchanged, so every step is
/// total and free of overflow.
pub const INT_STEP_BOUND: i64 = 1_000_000_000;

/// Whether a value is small enough for [`IntStep`] arithmetic.
pub open spec fn int_step_in_range(x: i64) -> bool {
    -INT_STEP_BOUND <= x <= INT_STEP_BOUND
}

impl RngState for i64 {
    fn duplicate(&self) -> (r: Self) {
        *self
    }
}

/// A deterministic integer state standing in for battle state: simple owned
/// commands over an `i64`, used to exercise the engine.
#[derive(Clone, Copy, PartialEq, Eq, Structural)]
pub enum IntStep {
    Add(i64),
    Mul(i64),
    Sub(i64),
}

impl RngStep<i64> for IntStep {
    open spec fn step(&self, s: i64) -> i64 {
        match *self {
            IntStep::Add(k) => if int_step_in_range(s) && int_step_in_range(k) {
                (s + k) as i64
            } else {
                s
            },
            IntStep::Mul(k) => if int_step_in_range(s) && int_step_in_range(k) {
                (s * k) as i64
            } else {
                s
            },
            IntStep::Sub(k) => if int_step_in_range(s) && int_step_in_range(k) {
                (s - k) as i64
            } else {
                s
            },
        }
    }

    fn run_step(&self, s: &mut i64) {
        match *self {
            IntStep::Add(k) => {
                if -INT_STEP_BOUND <= *s && *s <= INT_STEP_BOUND && -INT_STEP_BOUND <= k
                    && k <= INT_STEP_BOUND {
                    *s = *s + k;
                }
            },
            IntStep::Mul(k) => {
                if -INT_STEP_BOUND <= *s && *s <= INT_STEP_BOUND && -INT_STEP_BOUND <= k
                    && k <= INT_STEP_BOUND {
                    proof {
                        assert(-INT_STEP_BOUND * INT_STEP_BOUND <= (*s) * k <= INT_STEP_BOUND
                            * INT_STEP_BOUND) by (nonlinear_arith)
                            requires
                                -INT_STEP_BOUND <= *s <= INT_STEP_BOUND,
                                -INT_STEP_BOUND <= k <= INT_STEP_BOUND,
                        ;
                    }
                    *s = *s * k;
                }
            },
            IntStep::Sub(k) => {
                if -INT_STEP_BOUND <= *s && *s <= INT_STEP_BOUND && -INT_STEP_BOUND <= k
                    && k <= INT_STEP_BOUND {
                    *s = *s - k;
                }
            },
        }
    }
}

impl<A> RngInstance<A> {
    /// Consumes the instance, yielding the continuation subtree that runs
    /// once this instance of the branch is taken.
    pub fn run_action(self) -> (r: RngNode<A>)
        ensures
            r == *self.node,
    {
        *self.node
    }
}

impl<A: Copy> RngNodeNeedOne<A> {
    /// Completes the branch: the second instance continues with `node` and
    /// receives the complementary weight, so that the two weights always sum
    /// to exactly `CHANCE_DENOM`, whatever weight the branch was opened with.
    pub fn or(self, node: RngNode<A>) -> (r: RngNode<A>)
        ensures
            r matches RngNode::Two(i1, i2) && {
                &&& i1.chance <= CHANCE_DENOM
                &&& i1.chance + i2.chance == CHANCE_DENOM
                &&& i1.chance == if self.0.chance > CHANCE_DENOM { CHANCE_DENOM as int } else {
                    self.0.chance as int
                }
                &&& *i1.node == *self.0.node
                &&& *i2.node == node
            },
    {
        let RngNodeNeedOne(first) = self;
        let clamped = if first.chance > CHANCE_DENOM { CHANCE_DENOM } else { first.chance };
        let second = RngInstance { chance: CHANCE_DENOM - clamped, node: Box::new(node) };
        RngNode::Two(RngInstance { chance: clamped, node: first.node }, second)
    }
}

} // verus!
