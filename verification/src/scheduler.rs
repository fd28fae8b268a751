//! Executes a computation tree against a state value.
//!
//! A run consumes one (node, state) pair at a time: non-branching steps are
//! executed in a loop on the current path, and at a branch point the state is
//! duplicated so that each instance owns an independent copy. A path whose
//! branch count would exceed the configured maximum depth is abandoned
//! silently: no observer callback fires for it, and its probability mass is
//! not redistributed into the surviving paths — a deliberate approximation
//! that bounds total fan-out to at most `2^max_depth` paths.
//!
//! [`rng_node_run`] drives all paths to completion here, in depth-first
//! order. [`run_to_suspension`] runs a single path only until it ends or
//! forks, so that an embedder may hand the two fork continuations to a worker
//! pool as independent, asynchronous units of continued execution; sibling
//! paths then report to the observer in no guaranteed relative order.

use vstd::prelude::*;
use crate::rng::{RngNode, RngState, RngStep, spec_then, spec_for_each};

verus! {

/// The terminal outcomes of a tree: for each path that reaches a terminal
/// node within the depth bound, the depth at which it ends and the state view
/// it ends with, in depth-first order (first instance before second).
pub open spec fn spec_ends<S: RngState, A: RngStep<S>>(
    n: RngNode<A>,
    s: <S as View>::V,
    depth: u32,
    max_depth: u32,
) -> Seq<(u32, <S as View>::V)>
    decreases n,
{
    match n {
        RngNode::End => seq![(depth, s)],
        RngNode::Always(a, next) => spec_ends::<S, A>(*next, a.step(s), depth, max_depth),
        RngNode::Two(i1, i2) => if depth >= max_depth {
            Seq::empty()
        } else {
            spec_ends::<S, A>(*i1.node, s, (depth + 1) as u32, max_depth) + spec_ends::<S, A>(
                *i2.node,
                s,
                (depth + 1) as u32,
                max_depth,
            )
        },
        RngNode::Label(_, next) => spec_ends::<S, A>(*next, s, depth, max_depth),
    }
}

/// The labels crossed by a run of the tree, in depth-first order. Which
/// labels are reached depends only on the tree structure and the depth bound,
/// never on the state.
pub open spec fn spec_labels<A>(n: RngNode<A>, depth: u32, max_depth: u32) -> Seq<Seq<char>>
    decreases n,
{
    match n {
        RngNode::End => Seq::empty(),
        RngNode::Always(_, next) => spec_labels(*next, depth, max_depth),
        RngNode::Two(i1, i2) => if depth >= max_depth {
            Seq::empty()
        } else {
            spec_labels(*i1.node, (depth + 1) as u32, max_depth) + spec_labels(
                *i2.node,
                (depth + 1) as u32,
                max_depth,
            )
        },
        RngNode::Label(name, next) => seq![name@] + spec_labels(*next, depth, max_depth),
    }
}

/// The number of nodes in a tree; the termination measure of the runs.
pub open spec fn node_size<A>(n: RngNode<A>) -> nat
    decreases n,
{
    match n {
        RngNode::End => 1,
        RngNode::Always(_, next) => 1 + node_size(*next),
        RngNode::Two(i1, i2) => 1 + node_size(*i1.node) + node_size(*i2.node),
        RngNode::Label(_, next) => 1 + node_size(*next),
    }
}

/// Two to the given power: the fan-out bound of a run.
pub open spec fn pow2(k: nat) -> nat
    decreases k,
{
    if k == 0 {
        1
    } else {
        2 * pow2((k - 1) as nat)
    }
}

/// The depth cutoff law: starting within the depth bound, no terminal outcome
/// lies beyond `max_depth` branch crossings, and a run produces at most
/// `2^(max_depth - depth)` terminal outcomes, however the tree branches.
pub proof fn lemma_depth_cutoff<S: RngState, A: RngStep<S>>(
    n: RngNode<A>,
    s: <S as View>::V,
    depth: u32,
    max_depth: u32,
)
    requires
        depth <= max_depth,
    ensures
        forall|i: int|
            0 <= i < spec_ends::<S, A>(n, s, depth, max_depth).len() ==> (#[trigger] spec_ends::<
                S,
                A,
            >(n, s, depth, max_depth)[i]).0 <= max_depth,
        spec_ends::<S, A>(n, s, depth, max_depth).len() <= pow2((max_depth - depth) as nat),
    decreases n,
{
    match n {
        RngNode::End => {
            assert(pow2((max_depth - depth) as nat) >= 1) by {
                lemma_pow2_positive((max_depth - depth) as nat);
            }
        },
        RngNode::Always(a, next) => {
            lemma_depth_cutoff::<S, A>(*next, a.step(s), depth, max_depth);
        },
        RngNode::Two(i1, i2) => {
            if depth < max_depth {
                lemma_depth_cutoff::<S, A>(*i1.node, s, (depth + 1) as u32, max_depth);
                lemma_depth_cutoff::<S, A>(*i2.node, s, (depth + 1) as u32, max_depth);
                assert(pow2((max_depth - depth) as nat) == 2 * pow2(
                    (max_depth - (depth + 1)) as nat,
                ));
            }
        },
        RngNode::Label(_, next) => {
            lemma_depth_cutoff::<S, A>(*next, s, depth, max_depth);
        },
    }
}

proof fn lemma_pow2_positive(k: nat)
    ensures
        pow2(k) >= 1,
    decreases k,
{
    if k > 0 {
        lemma_pow2_positive((k - 1) as nat);
    }
}

/// A passive callback sink: invoked once per label crossing and once per
/// terminal state reached. `seen_labels` and `seen_ends` are the abstract
/// histories of what the observer has been told, each in the order of
/// notification.
pub trait RngObserver<S: RngState>: Sized {
    /// The label crossings reported so far.
    spec fn seen_labels(&self) -> Seq<Seq<char>>;

    /// The terminal outcomes reported so far: depth and final state view.
    spec fn seen_ends(&self) -> Seq<(u32, <S as View>::V)>;

    /// Reports that execution crossed a diagnostic label.
    fn rng_did_reach_label(&mut self, label: String)
        ensures
            final(self).seen_labels() == old(self).seen_labels().push(label@),
            final(self).seen_ends() == old(self).seen_ends(),
    ;

    /// Reports that one path reached a terminal node with final state `ss`
    /// after `depth` branch crossings.
    fn rng_did_reach_end(&mut self, ss: S, depth: u32)
        ensures
            final(self).seen_ends() == old(self).seen_ends().push((depth, ss@)),
            final(self).seen_labels() == old(self).seen_labels(),
    ;
}

/// One event of a single-path run segment, for embedders that drive the
/// fan-out themselves (see [`run_to_suspension`]).
pub enum RngEvent<S> {
    ReachedLabel(String),
    ReachedEnd(u32, S),
}

/// The two continuations of a branch taken at `depth`, each with an
/// exclusively owned copy of the state.
pub struct RngFork<S, A> {
    pub depth: u32,
    pub first: RngNode<A>,
    pub first_state: S,
    pub second: RngNode<A>,
    pub second_state: S,
}

/// The terminal outcomes among a sequence of events, in order.
pub open spec fn events_ends<S: RngState>(evts: Seq<RngEvent<S>>) -> Seq<(u32, <S as View>::V)>
    decreases evts.len(),
{
    if evts.len() == 0 {
        Seq::empty()
    } else {
        events_ends::<S>(evts.drop_last()) + (match evts.last() {
            RngEvent::ReachedEnd(d, s) => seq![(d, s@)],
            RngEvent::ReachedLabel(_) => Seq::empty(),
        })
    }
}

/// The label crossings among a sequence of events, in order.
pub open spec fn events_labels<S: RngState>(evts: Seq<RngEvent<S>>) -> Seq<Seq<char>>
    decreases evts.len(),
{
    if evts.len() == 0 {
        Seq::empty()
    } else {
        events_labels::<S>(evts.drop_last()) + (match evts.last() {
            RngEvent::ReachedEnd(_, _) => Seq::empty(),
            RngEvent::ReachedLabel(name) => seq![name@],
        })
    }
}

/// Runs one path until it ends, is abandoned by the depth cutoff, or reaches
/// a branch. Straight-line steps and labels are executed in a loop on the
/// caller's thread of control; at a branch within the depth bound, the state
/// is duplicated and the two weighted continuations are returned so the
/// caller can schedule them as independent units of work.
///
/// The returned events, together with the outcomes of the fork continuations
/// (if any), account for exactly the outcomes and labels of the whole tree.
#[verifier::loop_isolation(false)]
pub fn run_to_suspension<S: RngState, A: RngStep<S>>(
    node: RngNode<A>,
    ss: S,
    depth: u32,
    max_depth: u32,
) -> (r: (Vec<RngEvent<S>>, Option<RngFork<S, A>>))
    ensures
        (r.1 matches Option::None ==> {
            &&& events_ends::<S>(r.0@) == spec_ends::<S, A>(node, ss@, depth, max_depth)
            &&& events_labels::<S>(r.0@) == spec_labels(node, depth, max_depth)
        }),
        (r.1 matches Option::Some(f) ==> {
            &&& f.depth <= max_depth
            &&& f.first_state@ == f.second_state@
            &&& node_size(f.first) + node_size(f.second) < node_size(node)
            &&& spec_ends::<S, A>(node, ss@, depth, max_depth) == events_ends::<S>(r.0@)
                + spec_ends::<S, A>(f.first, f.first_state@, f.depth, max_depth) + spec_ends::<
                S,
                A,
            >(f.second, f.second_state@, f.depth, max_depth)
            &&& spec_labels(node, depth, max_depth) == events_labels::<S>(r.0@) + spec_labels(
                f.first,
                f.depth,
                max_depth,
            ) + spec_labels(f.second, f.depth, max_depth)
        }),
{
    let ghost n0 = node;
    let ghost s0 = ss@;
    let mut evts: Vec<RngEvent<S>> = Vec::new();
    let mut cur = node;
    let mut st = ss;
    loop
        invariant
            spec_ends::<S, A>(n0, s0, depth, max_depth) == events_ends::<S>(evts@) + spec_ends::<
                S,
                A,
            >(cur, st@, depth, max_depth),
            spec_labels(n0, depth, max_depth) == events_labels::<S>(evts@) + spec_labels(
                cur,
                depth,
                max_depth,
            ),
            node_size(cur) <= node_size(n0),
        decreases node_size(cur),
    {
        match cur {
            RngNode::End => {
                let ghost pre = evts@;
                let ghost outcome = (depth, st@);
                evts.push(RngEvent::ReachedEnd(depth, st));
                proof {
                    assert(evts@.drop_last() =~= pre);
                    assert(events_ends::<S>(evts@) =~= events_ends::<S>(pre) + seq![outcome]);
                    assert(events_labels::<S>(evts@) =~= events_labels::<S>(pre));
                    assert(events_ends::<S>(evts@) =~= spec_ends::<S, A>(
                        n0,
                        s0,
                        depth,
                        max_depth,
                    ));
                    assert(events_labels::<S>(evts@) =~= spec_labels(n0, depth, max_depth));
                }
                return (evts, Option::None);
            },
            RngNode::Always(a, next) => {
                a.run_step(&mut st);
                cur = *next;
            },
            RngNode::Two(i1, i2) => {
                if depth >= max_depth {
                    proof {
                        assert(events_ends::<S>(evts@) =~= spec_ends::<S, A>(
                            n0,
                            s0,
                            depth,
                            max_depth,
                        ));
                        assert(events_labels::<S>(evts@) =~= spec_labels(n0, depth, max_depth));
                    }
                    return (evts, Option::None);
                }
                let st2 = st.duplicate();
                let fork = RngFork {
                    depth: depth + 1,
                    first: *i1.node,
                    first_state: st,
                    second: *i2.node,
                    second_state: st2,
                };
                proof {
                    assert(spec_ends::<S, A>(n0, s0, depth, max_depth) =~= events_ends::<S>(evts@)
                        + spec_ends::<S, A>(fork.first, fork.first_state@, fork.depth, max_depth)
                        + spec_ends::<S, A>(
                        fork.second,
                        fork.second_state@,
                        fork.depth,
                        max_depth,
                    ));
                    assert(spec_labels(n0, depth, max_depth) =~= events_labels::<S>(evts@)
                        + spec_labels(fork.first, fork.depth, max_depth) + spec_labels(
                        fork.second,
                        fork.depth,
                        max_depth,
                    ));
                }
                return (evts, Option::Some(fork));
            },
            RngNode::Label(name, next) => {
                let ghost pre = evts@;
                let ghost namev = name@;
                evts.push(RngEvent::ReachedLabel(name));
                proof {
                    assert(evts@.drop_last() =~= pre);
                    assert(events_labels::<S>(evts@) =~= events_labels::<S>(pre) + seq![namev]);
                    assert(events_ends::<S>(evts@) =~= events_ends::<S>(pre));
                    assert(events_labels::<S>(pre) + seq![namev] + spec_labels(
                        *next,
                        depth,
                        max_depth,
                    ) =~= events_labels::<S>(pre) + (seq![namev] + spec_labels(
                        *next,
                        depth,
                        max_depth,
                    )));
                }
                cur = *next;
            },
        }
    }
}

/// One pending path of a run: a subtree, the state it owns, and the number of
/// branch crossings taken to reach it.
struct PathTask<S, A> {
    node: RngNode<A>,
    state: S,
    depth: u32,
}

/// The terminal outcomes still owed by a stack of pending paths, topmost
/// (that is, next-processed) path first.
spec fn stack_ends<S: RngState, A: RngStep<S>>(st: Seq<PathTask<S, A>>, max_depth: u32) -> Seq<
    (u32, <S as View>::V),
>
    decreases st.len(),
{
    if st.len() == 0 {
        Seq::empty()
    } else {
        spec_ends::<S, A>(st.last().node, st.last().state@, st.last().depth, max_depth)
            + stack_ends::<S, A>(st.drop_last(), max_depth)
    }
}

/// The label crossings still owed by a stack of pending paths.
spec fn stack_labels<S: RngState, A: RngStep<S>>(st: Seq<PathTask<S, A>>, max_depth: u32) -> Seq<
    Seq<char>,
>
    decreases st.len(),
{
    if st.len() == 0 {
        Seq::empty()
    } else {
        spec_labels(st.last().node, st.last().depth, max_depth) + stack_labels::<S, A>(
            st.drop_last(),
            max_depth,
        )
    }
}

/// The total number of tree nodes owned by a stack of pending paths; the
/// termination measure of [`rng_node_run`].
spec fn stack_size<S, A>(st: Seq<PathTask<S, A>>) -> nat
    decreases st.len(),
{
    if st.len() == 0 {
        0
    } else {
        node_size(st.last().node) + stack_size(st.drop_last())
    }
}

/// Drives every path of the tree to completion, reporting each label crossing
/// and each terminal state to the observer. Non-branching steps run in a loop
/// without call-stack growth; at a branch within the depth bound the state is
/// duplicated and both instances are continued at depth + 1; a branch at the
/// depth bound abandons the path silently. Paths are processed depth-first,
/// first instance before second.
#[verifier::loop_isolation(false)]
pub fn rng_node_run<S: RngState, A: RngStep<S>, O: RngObserver<S>>(
    node: RngNode<A>,
    ss: S,
    observer: &mut O,
    depth: u32,
    max_depth: u32,
)
    ensures
        final(observer).seen_ends() == old(observer).seen_ends() + spec_ends::<S, A>(
            node,
            ss@,
            depth,
            max_depth,
        ),
        final(observer).seen_labels() == old(observer).seen_labels() + spec_labels(
            node,
            depth,
            max_depth,
        ),
{
    let ghost n0 = node;
    let ghost s0 = ss@;
    let ghost e0 = observer.seen_ends();
    let ghost l0 = observer.seen_labels();
    let mut stack: Vec<PathTask<S, A>> = Vec::new();
    let start = PathTask { node, state: ss, depth };
    let ghost gstart = start;
    stack.push(start);
    proof {
        assert(stack@.last() == gstart);
        assert(stack@.drop_last() =~= Seq::<PathTask<S, A>>::empty());
        assert(stack_ends::<S, A>(Seq::<PathTask<S, A>>::empty(), max_depth)
            =~= Seq::<(u32, <S as View>::V)>::empty());
        assert(stack_labels::<S, A>(Seq::<PathTask<S, A>>::empty(), max_depth)
            =~= Seq::<Seq<char>>::empty());
        assert(stack_ends::<S, A>(stack@, max_depth) =~= spec_ends::<S, A>(
            n0,
            s0,
            depth,
            max_depth,
        ));
        assert(stack_labels::<S, A>(stack@, max_depth) =~= spec_labels(n0, depth, max_depth));
    }
    while stack.len() != 0
        invariant
            observer.seen_ends() + stack_ends::<S, A>(stack@, max_depth) == e0 + spec_ends::<S, A>(
                n0,
                s0,
                depth,
                max_depth,
            ),
            observer.seen_labels() + stack_labels::<S, A>(stack@, max_depth) == l0 + spec_labels(
                n0,
                depth,
                max_depth,
            ),
        decreases stack_size(stack@),
    {
        let ghost prestack = stack@;
        let task = stack.pop().unwrap();
        let ghost gtask = task;
        proof {
            assert(prestack.last() == gtask);
            assert(prestack.drop_last() =~= stack@);
            assert(stack_ends::<S, A>(prestack, max_depth) == spec_ends::<S, A>(
                gtask.node,
                gtask.state@,
                gtask.depth,
                max_depth,
            ) + stack_ends::<S, A>(stack@, max_depth));
            assert(stack_labels::<S, A>(prestack, max_depth) == spec_labels(
                gtask.node,
                gtask.depth,
                max_depth,
            ) + stack_labels::<S, A>(stack@, max_depth));
            assert(stack_size(prestack) == node_size(gtask.node) + stack_size(stack@));
        }
        let PathTask { node: tnode, state: mut tstate, depth: tdepth } = task;
        match tnode {
            RngNode::End => {
                let ghost seen = observer.seen_ends();
                let ghost outcome = (tdepth, gtask.state@);
                observer.rng_did_reach_end(tstate, tdepth);
                proof {
                    assert(observer.seen_ends() =~= seen + seq![outcome]);
                    assert((seen + seq![outcome]) + stack_ends::<S, A>(stack@, max_depth)
                        =~= seen + (seq![outcome] + stack_ends::<S, A>(stack@, max_depth)));
                    assert(Seq::<Seq<char>>::empty() + stack_labels::<S, A>(stack@, max_depth)
                        =~= stack_labels::<S, A>(stack@, max_depth));
                }
            },
            RngNode::Always(a, next) => {
                a.run_step(&mut tstate);
                let fresh = PathTask { node: *next, state: tstate, depth: tdepth };
                let ghost gfresh = fresh;
                let ghost mid = stack@;
                stack.push(fresh);
                proof {
                    assert(stack@.last() == gfresh);
                    assert(stack@.drop_last() =~= mid);
                    assert(stack_ends::<S, A>(stack@, max_depth) == spec_ends::<S, A>(
                        gfresh.node,
                        gfresh.state@,
                        gfresh.depth,
                        max_depth,
                    ) + stack_ends::<S, A>(mid, max_depth));
                    assert(stack_labels::<S, A>(stack@, max_depth) == spec_labels(
                        gfresh.node,
                        gfresh.depth,
                        max_depth,
                    ) + stack_labels::<S, A>(mid, max_depth));
                    assert(stack_size(stack@) == node_size(gfresh.node) + stack_size(mid));
                }
            },
            RngNode::Two(i1, i2) => {
                if tdepth < max_depth {
                    let tstate2 = tstate.duplicate();
                    let second = PathTask { node: *i2.node, state: tstate2, depth: tdepth + 1 };
                    let first = PathTask { node: *i1.node, state: tstate, depth: tdepth + 1 };
                    let ghost gsecond = second;
                    let ghost gfirst = first;
                    let ghost mid = stack@;
                    stack.push(second);
                    let ghost mid2 = stack@;
                    stack.push(first);
                    proof {
                        assert(mid2.last() == gsecond);
                        assert(mid2.drop_last() =~= mid);
                        assert(stack@.last() == gfirst);
                        assert(stack@.drop_last() =~= mid2);
                        let le = spec_ends::<S, A>(
                            gfirst.node,
                            gfirst.state@,
                            gfirst.depth,
                            max_depth,
                        );
                        let re = spec_ends::<S, A>(
                            gsecond.node,
                            gsecond.state@,
                            gsecond.depth,
                            max_depth,
                        );
                        assert(stack_ends::<S, A>(mid2, max_depth) == re + stack_ends::<S, A>(
                            mid,
                            max_depth,
                        ));
                        assert(stack_ends::<S, A>(stack@, max_depth) == le + (re + stack_ends::<
                            S,
                            A,
                        >(mid, max_depth)));
                        assert((le + re) + stack_ends::<S, A>(mid, max_depth) =~= le + (re
                            + stack_ends::<S, A>(mid, max_depth)));
                        let ll = spec_labels(gfirst.node, gfirst.depth, max_depth);
                        let rl = spec_labels(gsecond.node, gsecond.depth, max_depth);
                        assert(stack_labels::<S, A>(mid2, max_depth) == rl + stack_labels::<S, A>(
                            mid,
                            max_depth,
                        ));
                        assert(stack_labels::<S, A>(stack@, max_depth) == ll + (rl
                            + stack_labels::<S, A>(mid, max_depth)));
                        assert((ll + rl) + stack_labels::<S, A>(mid, max_depth) =~= ll + (rl
                            + stack_labels::<S, A>(mid, max_depth)));
                        assert(stack_size(mid2) == node_size(gsecond.node) + stack_size(mid));
                        assert(stack_size(stack@) == node_size(gfirst.node) + stack_size(mid2));
                    }
                } else {
                    proof {
                        assert(Seq::<(u32, <S as View>::V)>::empty() + stack_ends::<S, A>(
                            stack@,
                            max_depth,
                        ) =~= stack_ends::<S, A>(stack@, max_depth));
                        assert(Seq::<Seq<char>>::empty() + stack_labels::<S, A>(
                            stack@,
                            max_depth,
                        ) =~= stack_labels::<S, A>(stack@, max_depth));
                    }
                }
            },
            RngNode::Label(name, next) => {
                let ghost seenl = observer.seen_labels();
                let ghost namev = name@;
                observer.rng_did_reach_label(name);
                let fresh = PathTask { node: *next, state: tstate, depth: tdepth };
                let ghost gfresh = fresh;
                let ghost mid = stack@;
                stack.push(fresh);
                proof {
                    assert(stack@.last() == gfresh);
                    assert(stack@.drop_last() =~= mid);
                    assert(stack_ends::<S, A>(stack@, max_depth) == spec_ends::<S, A>(
                        gfresh.node,
                        gfresh.state@,
                        gfresh.depth,
                        max_depth,
                    ) + stack_ends::<S, A>(mid, max_depth));
                    assert(stack_labels::<S, A>(stack@, max_depth) == spec_labels(
                        gfresh.node,
                        gfresh.depth,
                        max_depth,
                    ) + stack_labels::<S, A>(mid, max_depth));
                    assert(stack_size(stack@) == node_size(gfresh.node) + stack_size(mid));
                    assert(observer.seen_labels() =~= seenl + seq![namev]);
                    assert((seenl + seq![namev]) + (spec_labels(gfresh.node, gfresh.depth,
                        max_depth) + stack_labels::<S, A>(mid, max_depth)) =~= seenl + ((
                    seq![namev] + spec_labels(gfresh.node, gfresh.depth, max_depth))
                        + stack_labels::<S, A>(mid, max_depth)));
                }
            },
        }
    }
    proof {
        assert(stack_ends::<S, A>(stack@, max_depth) =~= Seq::<(u32, <S as View>::V)>::empty());
        assert(stack_labels::<S, A>(stack@, max_depth) =~= Seq::<Seq<char>>::empty());
        assert(observer.seen_ends() + Seq::<(u32, <S as View>::V)>::empty()
            =~= observer.seen_ends());
        assert(observer.seen_labels() + Seq::<Seq<char>>::empty() =~= observer.seen_labels());
    }
}

/// A simple observer that collects everything it is told: each terminal
/// state with its depth, and each label crossing, in notification order.
pub struct DataCollector<S> {
    snapshots: Vec<(u32, S)>,
    labels: Vec<String>,
}

impl<S: RngState> DataCollector<S> {
    /// An empty collector.
    pub fn new() -> (r: Self)
        ensures
            r.seen_ends() == Seq::<(u32, <S as View>::V)>::empty(),
            r.seen_labels() == Seq::<Seq<char>>::empty(),
            r.results_len() == 0,
    {
        let r = DataCollector { snapshots: Vec::new(), labels: Vec::new() };
        proof {
            assert(r.seen_ends() =~= Seq::<(u32, <S as View>::V)>::empty());
            assert(r.seen_labels() =~= Seq::<Seq<char>>::empty());
        }
        r
    }

    /// The number of terminal outcomes collected.
    pub closed spec fn results_len(&self) -> nat {
        self.snapshots@.len()
    }

    /// The collected terminal outcomes, in notification order.
    pub fn results(&self) -> (r: &Vec<(u32, S)>)
        ensures
            r@.len() == self.seen_ends().len(),
            forall|i: int|
                0 <= i < r@.len() ==> self.seen_ends()[i] == ((#[trigger] r@[i]).0, r@[i].1@),
    {
        &self.snapshots
    }

    /// The collected label crossings, in notification order.
    pub fn collected_labels(&self) -> (r: &Vec<String>)
        ensures
            r@.len() == self.seen_labels().len(),
            forall|i: int| 0 <= i < r@.len() ==> self.seen_labels()[i] == (#[trigger] r@[i])@,
    {
        &self.labels
    }
}

impl<S: RngState> RngObserver<S> for DataCollector<S> {
    closed spec fn seen_labels(&self) -> Seq<Seq<char>> {
        self.labels@.map_values(|l: String| l@)
    }

    closed spec fn seen_ends(&self) -> Seq<(u32, <S as View>::V)> {
        self.snapshots@.map_values(|p: (u32, S)| (p.0, p.1@))
    }

    fn rng_did_reach_label(&mut self, label: String) {
        let ghost pre = self.labels@;
        self.labels.push(label);
        proof {
            assert(self.seen_labels() =~= old(self).seen_labels().push(label@));
        }
    }

    fn rng_did_reach_end(&mut self, ss: S, depth: u32) {
        let ghost v = ss@;
        self.snapshots.push((depth, ss));
        proof {
            assert(self.seen_ends() =~= old(self).seen_ends().push((depth, v)));
        }
    }
}

/// The step nodes of a sequence of actions, one per element, in order.
pub open spec fn spec_step_nodes<A>(actions: Seq<A>) -> Seq<RngNode<A>> {
    actions.map_values(|a: A| RngNode::Always(a, Box::new(RngNode::End)))
}

/// The state view after applying a sequence of actions in order.
pub open spec fn spec_fold_steps<S: RngState, A: RngStep<S>>(
    actions: Seq<A>,
    s: <S as View>::V,
) -> <S as View>::V
    decreases actions.len(),
{
    if actions.len() == 0 {
        s
    } else {
        actions.last().step(spec_fold_steps::<S, A>(actions.drop_last(), s))
    }
}

/// The fold-order law: folding a sequence of state-mutating steps with
/// `for_each` and running the result yields exactly the outcomes of running
/// the continuation from the state obtained by applying the steps manually in
/// sequence — however the resulting tree is later extended by sequencing.
pub proof fn lemma_for_each_order<S: RngState, A: RngStep<S>>(
    actions: Seq<A>,
    cont: RngNode<A>,
    s: <S as View>::V,
    depth: u32,
    max_depth: u32,
)
    ensures
        spec_ends::<S, A>(
            spec_then(spec_for_each(spec_step_nodes(actions)), cont),
            s,
            depth,
            max_depth,
        ) == spec_ends::<S, A>(cont, spec_fold_steps::<S, A>(actions, s), depth, max_depth),
    decreases actions.len(),
{
    if actions.len() == 0 {
        assert(spec_step_nodes(actions) =~= Seq::<RngNode<A>>::empty());
    } else {
        let front = actions.drop_last();
        let a = actions.last();
        let step_node = RngNode::Always(a, Box::new(RngNode::<A>::End));
        assert(spec_step_nodes(actions).drop_last() =~= spec_step_nodes(front));
        assert(spec_step_nodes(actions).last() == step_node);
        let f = spec_for_each(spec_step_nodes(front));
        crate::rng::lemma_then_associative(f, step_node, cont);
        assert(spec_then(RngNode::<A>::End, cont) == cont);
        assert(spec_then(step_node, cont) == RngNode::Always(a, Box::new(cont)));
        lemma_for_each_order::<S, A>(front, RngNode::Always(a, Box::new(cont)), s, depth, max_depth);
    }
}

/// Bumps a completion counter by one. An embedder that waits for a known
/// number of concurrently reported paths pairs this with its own notification
/// primitive.
pub fn inc_and_notify(count: &mut i32)
    requires
        *old(count) < i32::MAX,
    ensures
        *final(count) == *old(count) + 1,
{
    *count = *count + 1;
}

} // verus!
