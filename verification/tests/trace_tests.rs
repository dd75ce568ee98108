use memory_air::mem_ops::{pad_ops, sort_ops, MemAirError, MemoryOp};
use memory_air::session::{prove_trace_phase, trace_columns};

fn scenario_ops() -> Vec<MemoryOp> {
    vec![
        MemoryOp::new(0, 1, 1, 0),
        MemoryOp::new(1, 2, 2, 1),
        MemoryOp::new(1, 3, 0, 2),
        MemoryOp::new(1, 3, 1, 3),
        MemoryOp::new(0, 2, 2, 4),
        MemoryOp::new(0, 1, 1, 5),
    ]
}

#[test]
fn padding_fills_to_the_power_of_two() {
    let ops = scenario_ops();
    let padded = pad_ops(&ops, 4).unwrap();
    assert_eq!(padded.len(), 16);
    assert_eq!(padded[..6], ops[..]);
    for (i, op) in padded[6..].iter().enumerate() {
        assert_eq!(op.rw_flag, 0);
        assert_eq!(op.addr, 15);
        assert_eq!(op.value, 0);
        assert_eq!(op.counter, 6 + i as u32);
    }
}

#[test]
fn padding_rejects_too_many_ops() {
    let mut ops = Vec::new();
    for i in 0..17u32 {
        ops.push(MemoryOp::new(0, 1, 0, i));
    }
    assert_eq!(pad_ops(&ops, 4), Err(MemAirError::TooManyOps));
}

#[test]
fn boundary_sizes_still_succeed() {
    // exactly 2^4 operations: no padding is needed
    let mut ops = Vec::new();
    for i in 0..16u32 {
        ops.push(MemoryOp::new(1, i, i, i));
    }
    let views = prove_trace_phase(&ops, 4).unwrap();
    assert_eq!(views.padded.len(), 16);
    assert_eq!(views.padded[..], ops[..]);

    // no operations at all: the trace is pure padding
    let views = prove_trace_phase(&Vec::new(), 4).unwrap();
    assert_eq!(views.padded.len(), 16);
    assert!(views.padded.iter().all(|op| op.rw_flag == 0 && op.addr == 15 && op.value == 0));
    assert_eq!(views.sorted, views.padded);
}

#[test]
fn sort_orders_by_address_then_counter() {
    let padded = pad_ops(&scenario_ops(), 4).unwrap();
    let sorted = sort_ops(&padded);
    assert_eq!(sorted.len(), 16);
    for w in sorted.windows(2) {
        let (a, b) = (&w[0], &w[1]);
        assert!(a.addr < b.addr || (a.addr == b.addr && a.counter <= b.counter));
    }
    // the first rows are the operations on addresses 1, 2 and 3
    assert_eq!(sorted[0], MemoryOp::new(0, 1, 1, 0));
    assert_eq!(sorted[1], MemoryOp::new(0, 1, 1, 5));
    assert_eq!(sorted[2], MemoryOp::new(1, 2, 2, 1));
    assert_eq!(sorted[3], MemoryOp::new(0, 2, 2, 4));
    assert_eq!(sorted[4], MemoryOp::new(1, 3, 0, 2));
    assert_eq!(sorted[5], MemoryOp::new(1, 3, 1, 3));
    // the padding rows at the maximum address follow in counter order
    for (i, op) in sorted[6..].iter().enumerate() {
        assert_eq!(op.addr, 15);
        assert_eq!(op.counter, 6 + i as u32);
    }
}

#[test]
fn reordering_ops_keeps_the_sorted_view() {
    let ops = scenario_ops();
    let mut shuffled = ops.clone();
    shuffled.reverse();
    shuffled.swap(0, 3);
    let a = prove_trace_phase(&ops, 4).unwrap();
    let b = prove_trace_phase(&shuffled, 4).unwrap();
    assert_eq!(a.sorted, b.sorted);
}

#[test]
fn columns_hold_the_row_fields() {
    let ops = scenario_ops();
    let cols = trace_columns(&ops);
    assert_eq!(cols.len(), 4);
    for col in &cols {
        assert_eq!(col.len(), ops.len());
    }
    for (j, op) in ops.iter().enumerate() {
        assert_eq!(cols[0][j], op.rw_flag);
        assert_eq!(cols[1][j], op.addr);
        assert_eq!(cols[2][j], op.value);
        assert_eq!(cols[3][j], op.counter);
    }
}
