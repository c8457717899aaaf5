use counter_bench::counter::{perform, Counter};
use counter_bench::workload::{generate_ops, ops_from_draws, Op, ReadRatio, PAYLOAD_BOUND};

fn ratio(numerator: u32, denominator: u32) -> ReadRatio {
    ReadRatio::new(numerator, denominator).unwrap()
}

#[test]
fn op_count_is_counters_times_per_counter() {
    let mut rng = rand::thread_rng();
    for &(n, k) in &[(0usize, 5usize), (3, 0), (1, 1), (4, 7), (10, 100)] {
        let ops = generate_ops(&mut rng, n, k, ratio(1, 2));
        assert_eq!(ops.len(), n * k);
        for (i, op) in ops.iter().enumerate() {
            assert_eq!(op.counter(), i / k);
        }
    }
}

#[test]
fn read_fraction_tracks_ratio() {
    let mut rng = rand::thread_rng();
    for &(num, den) in &[(9u32, 10u32), (1, 2), (1, 4)] {
        let ops = generate_ops(&mut rng, 10, 5000, ratio(num, den));
        let reads = ops.iter().filter(|op| matches!(op, Op::Read { .. })).count();
        let observed = reads as f64 / ops.len() as f64;
        let expected = num as f64 / den as f64;
        assert!((observed - expected).abs() < 0.02, "{} vs {}", observed, expected);
    }
}

#[test]
fn write_payloads_are_below_bound() {
    let mut rng = rand::thread_rng();
    let ops = generate_ops(&mut rng, 20, 500, ratio(0, 1));
    let counters: Vec<Counter> = (0..20).map(|_| Counter::for_payloads()).collect();
    let mut distinct = std::collections::HashSet::new();
    for op in &ops {
        match *op {
            Op::Write { value, .. } => {
                assert!(value < PAYLOAD_BOUND);
                assert_eq!(perform(&counters, *op), value);
                distinct.insert(value);
            }
            Op::Read { .. } => panic!("a read with ratio 0"),
        }
    }
    assert!(distinct.len() > 100);
}

#[test]
fn ratio_outside_unit_interval_is_refused() {
    assert!(ReadRatio::new(1, 0).is_none());
    assert!(ReadRatio::new(0, 0).is_none());
    assert!(ReadRatio::new(3, 2).is_none());
    let q = ReadRatio::new(9, 10).unwrap();
    assert_eq!((q.numerator, q.denominator), (9, 10));
    assert!(ReadRatio::new(0, 1).is_some());
    assert!(ReadRatio::new(5, 5).is_some());
}

#[test]
fn draws_become_operations_in_counter_order() {
    let draws = vec![None, Some(7), Some(0), None, Some(9999), None];
    let ops = ops_from_draws(3, 2, &draws);
    assert_eq!(
        ops,
        vec![
            Op::Read { counter: 0 },
            Op::Write { counter: 0, value: 7 },
            Op::Write { counter: 1, value: 0 },
            Op::Read { counter: 1 },
            Op::Write { counter: 2, value: 9999 },
            Op::Read { counter: 2 },
        ]
    );
    assert!(ops_from_draws(0, 4, &Vec::new()).is_empty());
}
