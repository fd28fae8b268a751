use battlesim::rng::{IntStep, RngNode, RngStep, CHANCE_DENOM};
use battlesim::scheduler::{inc_and_notify, rng_node_run, run_to_suspension, DataCollector, RngEvent};
use std::sync::{Arc, Condvar, Mutex};
use threadpool::ThreadPool;

/// The example tree: add 2, then branch with weight 0.32 between
/// (double, add 3) and (triple), then subtract 2 on both paths.
fn example_tree() -> RngNode<IntStep> {
    RngNode::always(IntStep::Add(2)).and_then(
        RngNode::branch_two(
            320_000,
            RngNode::always(IntStep::Mul(2)).and_then(RngNode::always(IntStep::Add(3))),
        )
        .or(RngNode::always(IntStep::Mul(3)))
        .and_then(RngNode::always(IntStep::Sub(2))),
    )
}

#[test]
fn test_structure() {
    let node = example_tree();

    let mut i: i64 = 0;
    if let RngNode::Always(a0, next) = node {
        a0.run_step(&mut i); // i += 2
        if let RngNode::Two(a1, a2) = *next {
            assert_eq!(i, 2);
            assert_eq!(a1.chance, 320_000);
            assert_eq!(a2.chance, CHANCE_DENOM - 320_000);

            let mut i1 = i; // i = 2
            if let RngNode::Always(b, n) = a1.run_action() {
                b.run_step(&mut i1); // i *= 2
                assert_eq!(i1, 4);
                if let RngNode::Always(c, n) = *n {
                    c.run_step(&mut i1); // i += 3
                    assert_eq!(i1, 7); // then -2
                    if let RngNode::Always(d, n) = *n {
                        d.run_step(&mut i1); // i -= 2
                        assert_eq!(i1, 5);
                        assert!(matches!(*n, RngNode::End));
                    } else {
                        assert!(false)
                    }
                } else {
                    assert!(false)
                }
            } else {
                assert!(false)
            }

            let mut i2 = i; // i = 2
            if let RngNode::Always(b, n) = a2.run_action() {
                b.run_step(&mut i2); // i *= 3
                assert_eq!(i2, 6);
                if let RngNode::Always(c, n) = *n {
                    c.run_step(&mut i2); // i -= 2
                    assert_eq!(i2, 4);
                    assert!(matches!(*n, RngNode::End));
                } else {
                    assert!(false)
                }
            } else {
                assert!(false)
            }
        } else {
            assert!(false)
        }
    } else {
        assert!(false)
    }
}

/// Runs one path until it forks, pushing terminal values into `out` and
/// resubmitting the fork continuations to the pool.
fn drive(
    pool: ThreadPool,
    node: RngNode<IntStep>,
    state: i64,
    depth: u32,
    max_depth: u32,
    out: Arc<Mutex<Vec<i64>>>,
    done: Arc<(Mutex<i32>, Condvar)>,
) {
    let (events, fork) = run_to_suspension(node, state, depth, max_depth);
    for e in events {
        if let RngEvent::ReachedEnd(_depth, s) = e {
            out.lock().unwrap().push(s);
            let (count, cvar) = &*done;
            let mut count = count.lock().unwrap();
            if *count < i32::MAX {
                inc_and_notify(&mut count);
            }
            cvar.notify_one();
        }
    }
    if let Some(f) = fork {
        let p1 = pool.clone();
        let p2 = pool.clone();
        let o1 = out.clone();
        let d1 = done.clone();
        let p1_inner = p1.clone();
        p1.execute(move || drive(p1_inner, f.first, f.first_state, f.depth, max_depth, o1, d1));
        let p2_inner = p2.clone();
        p2.execute(move || drive(p2_inner, f.second, f.second_state, f.depth, max_depth, out, done));
    }
}

#[test]
fn test_multithread() {
    let pair = Arc::new((Mutex::new(0), Condvar::new()));
    let results = Arc::new(Mutex::new(Vec::<i64>::new()));

    let node = example_tree();

    let pool = ThreadPool::new(8);
    drive(pool.clone(), node, 0, 0, 10, results.clone(), pair.clone());

    let (count, cvar) = &*pair;
    let mut count = count.lock().unwrap();
    while *count < 2 {
        count = cvar.wait(count).unwrap();
    }

    let results = results.lock().unwrap();
    println!("{:?}", *results);
    assert!(results.contains(&5));
    assert!(results.contains(&4));
}

#[test]
fn run_reports_both_terminal_values() {
    let mut collector: DataCollector<i64> = DataCollector::new();
    rng_node_run(example_tree(), 0, &mut collector, 0, 10);
    let results = collector.results();
    assert_eq!(results.len(), 2);
    assert!(results.contains(&(1, 5)));
    assert!(results.contains(&(1, 4)));
}

/// A perfectly binary-branching tree: `levels` branches on every path, then
/// one step adding 1.
fn binary_tree(levels: u32) -> RngNode<IntStep> {
    if levels == 0 {
        RngNode::always(IntStep::Add(1))
    } else {
        RngNode::branch_two(500_000, binary_tree(levels - 1)).or(binary_tree(levels - 1))
    }
}

#[test]
fn depth_cutoff_bounds_terminal_callbacks() {
    // Within the bound: a binary tree of depth 3 yields exactly 2^3 paths,
    // each ending after 3 branch crossings.
    let mut collector: DataCollector<i64> = DataCollector::new();
    rng_node_run(binary_tree(3), 0, &mut collector, 0, 3);
    assert_eq!(collector.results().len(), 8);
    for (depth, value) in collector.results() {
        assert_eq!(*depth, 3);
        assert_eq!(*value, 1);
    }

    // Beyond the bound: every path needs 3 crossings, the bound allows 2, so
    // no terminal callback fires at all.
    let mut collector: DataCollector<i64> = DataCollector::new();
    rng_node_run(binary_tree(3), 0, &mut collector, 0, 2);
    assert_eq!(collector.results().len(), 0);
}

#[test]
fn branch_weights_sum_to_one() {
    for chance in [0u32, 320_000, 999_999, 1_000_000, 4_000_000_000] {
        let node = RngNode::<IntStep>::branch_two(chance, RngNode::End).or(RngNode::End);
        if let RngNode::Two(a1, a2) = node {
            assert_eq!(a1.chance as u64 + a2.chance as u64, CHANCE_DENOM as u64);
        } else {
            assert!(false)
        }
    }
}

#[test]
fn sequencing_is_associative_observationally() {
    let a = || {
        RngNode::branch_two(250_000, RngNode::always(IntStep::Add(10)))
            .or(RngNode::always(IntStep::Mul(5)))
    };
    let f = || RngNode::always(IntStep::Sub(3)).set_label(String::from("mid"));
    let g = || {
        RngNode::branch_two(900_000, RngNode::always(IntStep::Mul(2)))
            .or(RngNode::always(IntStep::Add(7)))
    };

    let left = a().and_then(f()).and_then(g());
    let right = a().and_then(f().and_then(g()));

    let mut lc: DataCollector<i64> = DataCollector::new();
    rng_node_run(left, 1, &mut lc, 0, 10);
    let mut rc: DataCollector<i64> = DataCollector::new();
    rng_node_run(right, 1, &mut rc, 0, 10);

    assert_eq!(lc.results(), rc.results());
    assert_eq!(lc.collected_labels(), rc.collected_labels());
    assert_eq!(lc.results().len(), 4);
}

#[test]
fn for_each_applies_steps_in_order() {
    let steps = [IntStep::Add(1), IntStep::Mul(3), IntStep::Sub(2)];
    let nodes: Vec<RngNode<IntStep>> = steps.iter().map(|s| RngNode::always(*s)).collect();
    let tree = RngNode::for_each(&nodes);

    // The folded tree, later extended by further sequencing, still applies
    // the steps left to right before the continuation runs.
    let extended = tree.and_then(RngNode::always(IntStep::Add(100)));
    let mut collector: DataCollector<i64> = DataCollector::new();
    rng_node_run(extended, 0, &mut collector, 0, 10);

    let mut manual: i64 = 0;
    for s in steps.iter() {
        s.run_step(&mut manual);
    }
    assert_eq!(manual, 1); // (0 + 1) * 3 - 2

    assert_eq!(collector.results().len(), 1);
    assert_eq!(collector.results()[0], (0, manual + 100));
}
