use jni_bridge::slots::CallbackSlots;
use std::rc::Rc;
use std::sync::{Arc, Mutex};

#[test]
fn single_shot_reference_count_returns() {
    let cb = Rc::new("callback");
    assert_eq!(Rc::strong_count(&cb), 1);
    let mut ctx = CallbackSlots::single(Rc::clone(&cb));
    assert_eq!(Rc::strong_count(&cb), 2);
    assert_eq!(ctx.len(), 1);
    let (taken, release) = ctx.take(0);
    assert!(release);
    let taken = taken.expect("the slot holds the callback");
    assert!(Rc::ptr_eq(&taken, &cb));
    drop(taken);
    drop(ctx);
    assert_eq!(Rc::strong_count(&cb), 1);
}

fn fire_in_order(order: [usize; 2]) {
    let cb0 = Rc::new(0);
    let cb1 = Rc::new(1);
    let mut ctx = CallbackSlots::new(vec![Rc::clone(&cb0), Rc::clone(&cb1)]);
    let mut fired = vec![];
    let (first, release) = ctx.take(order[0]);
    assert!(!release);
    fired.push(*first.expect("first firing finds its slot"));
    let (second, release) = ctx.take(order[1]);
    assert!(release);
    fired.push(*second.expect("second firing finds its slot"));
    assert!(ctx.is_spent());
    assert_eq!(fired, vec![order[0] as i32, order[1] as i32]);
    drop(ctx);
    assert_eq!(Rc::strong_count(&cb0), 1);
    assert_eq!(Rc::strong_count(&cb1), 1);
}

#[test]
fn multi_callback_fires_each_once_in_either_order() {
    fire_in_order([1, 0]);
    fire_in_order([0, 1]);
}

#[test]
fn unfired_slot_keeps_context_alive() {
    let cbs: Vec<Rc<usize>> = (0..3).map(Rc::new).collect();
    let mut ctx = CallbackSlots::new(cbs.iter().cloned().collect());
    let (a, release_a) = ctx.take(2);
    let (b, release_b) = ctx.take(0);
    assert!(!release_a && !release_b);
    assert_eq!(*a.unwrap(), 2);
    assert_eq!(*b.unwrap(), 0);
    assert!(!ctx.is_spent());
    assert_eq!(Rc::strong_count(&cbs[1]), 2);
    assert_eq!(Rc::strong_count(&cbs[0]), 1);
}

#[test]
fn taking_a_slot_twice_finds_it_empty() {
    let mut ctx = CallbackSlots::new(vec![5, 6]);
    assert_eq!(ctx.take(1), (Some(6), false));
    assert_eq!(ctx.take(1), (None, false));
    assert_eq!(ctx.take(0), (Some(5), true));
}

#[test]
fn shared_multi_shot_releases_once() {
    for order in [[0usize, 1], [1, 0]] {
        let cb0 = Arc::new(0);
        let cb1 = Arc::new(1);
        let ctx = Arc::new(Mutex::new(CallbackSlots::new(vec![Arc::clone(&cb0), Arc::clone(&cb1)])));
        let fire = |i: usize| {
            let (cb, release) = ctx.lock().unwrap().take(i);
            (*cb.expect("each slot fires once"), release)
        };
        let results: Vec<(i32, bool)> = order.iter().map(|&i| fire(i)).collect();
        let mut fired: Vec<i32> = results.iter().map(|r| r.0).collect();
        fired.sort();
        assert_eq!(fired, vec![0, 1]);
        assert_eq!(results.iter().filter(|r| r.1).count(), 1);
        assert!(results[1].1);
        assert!(ctx.lock().unwrap().is_spent());
        drop(ctx);
        assert_eq!(Arc::strong_count(&cb0), 1);
        assert_eq!(Arc::strong_count(&cb1), 1);
    }
}
