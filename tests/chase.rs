use cpu_fingerprint::chase::{build_cycle, chase};

fn visit_order(list: &[usize], blocks: usize) -> Vec<usize> {
    let mut order = Vec::new();
    let mut p = 0usize;
    for _ in 0..blocks {
        order.push(p);
        p = list[p];
    }
    assert_eq!(p, 0, "the cycle must return to 0 after visiting every block");
    order
}

#[test]
fn cycle_visits_every_index_once_before_returning() {
    for n in [1usize, 2, 3, 5, 64, 1000] {
        let list = build_cycle(n, 1);
        assert_eq!(list.len(), n);
        let mut order = visit_order(&list, n);
        order.sort();
        assert_eq!(order, (0..n).collect::<Vec<_>>());
    }
}

#[test]
fn strided_cycle_visits_every_block_start_once() {
    let (blocks, stride) = (37usize, 512usize);
    let list = build_cycle(blocks, stride);
    assert_eq!(list.len(), blocks * stride);
    let mut order = visit_order(&list, blocks);
    order.sort();
    assert_eq!(order, (0..blocks).map(|b| b * stride).collect::<Vec<_>>());
    for (i, v) in list.iter().enumerate() {
        if i % stride != 0 {
            assert_eq!(*v, 0);
        }
    }
}

#[test]
fn cycle_order_is_shuffled() {
    let n = 1000usize;
    let list = build_cycle(n, 1);
    let order = visit_order(&list, n);
    assert_ne!(order, (0..n).collect::<Vec<_>>());
}

#[test]
fn chase_follows_links() {
    let list = build_cycle(10, 1);
    assert_eq!(chase(&list, 0), 0);
    assert_eq!(chase(&list, 1), list[0]);
    assert_eq!(chase(&list, 2), list[list[0]]);
    assert_eq!(chase(&list, 10), 0);
    assert_eq!(chase(&list, 30), 0);
}
