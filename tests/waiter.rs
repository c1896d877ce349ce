use conetty::{wait_rsp, Error, Frame, Parked, WaitReqMap, WaiterTable};

#[test]
fn wait_req_map_add_and_get() {
    let mut m = WaitReqMap::new();
    m.add(3, "three");
    m.add(5, "five");
    assert!(m.contains(3));
    assert_eq!(m.get(3), Some("three"));
    assert!(!m.contains(3));
    assert_eq!(m.get(3), None);
    assert_eq!(m.get(5), Some("five"));
}

#[test]
fn registered_ids_are_fresh_and_non_zero() {
    let mut t = WaiterTable::new();
    let a = t.register('a').unwrap();
    let b = t.register('b').unwrap();
    let c = t.register('c').unwrap();
    assert_eq!((a, b, c), (1, 2, 3));
    assert_eq!(t.take(b), Some('b'));
    let d = t.register('d').unwrap();
    assert_eq!(d, 4);
}

#[test]
fn reply_reaches_exactly_one_waiter() {
    let mut t = WaiterTable::new();
    let id = t.register("caller").unwrap();
    let delivered = t.deliver(Frame { id, data: vec![1] });
    match delivered {
        Some((w, f)) => {
            assert_eq!(w, "caller");
            assert_eq!(f.data, vec![1]);
        }
        None => panic!("the waiter was not found"),
    }
    assert!(t.deliver(Frame { id, data: vec![2] }).is_none());
}

#[test]
fn reply_without_waiter_is_dropped() {
    let mut t: WaiterTable<u32> = WaiterTable::new();
    let id = t.register(7).unwrap();
    assert!(t.deliver(Frame { id: id + 10, data: Vec::new() }).is_none());
    assert_eq!(t.take(id), Some(7));
}

#[test]
fn timeout_then_larger_timeout_succeeds() {
    let mut t = WaiterTable::new();
    let first = t.register(()).unwrap();
    let r = wait_rsp(&mut t, first, Parked::TimedOut, None);
    assert!(matches!(r, Err(Error::Timeout)));
    assert!(t.deliver(Frame { id: first, data: Vec::new() }).is_none());

    let second = t.register(()).unwrap();
    let (_, frame) = t.deliver(Frame { id: second, data: vec![9] }).unwrap();
    let r = wait_rsp(&mut t, second, Parked::Woken, Some(frame));
    assert_eq!(r.unwrap().data, vec![9]);
}

#[test]
fn canceled_wait_removes_the_waiter() {
    let mut t = WaiterTable::new();
    let id = t.register(1u8).unwrap();
    assert!(wait_rsp(&mut t, id, Parked::Canceled, None).is_err());
    assert_eq!(t.take(id), None);
}

#[test]
fn multiplexed_replies_in_any_order() {
    let mut t = WaiterTable::new();
    let mut ids = Vec::new();
    for i in 0..100u64 {
        ids.push(t.register(i).unwrap());
    }
    let mut completed = 0;
    for (k, id) in ids.iter().enumerate().rev() {
        let (w, f) = t.deliver(Frame { id: *id, data: vec![k as u8] }).unwrap();
        assert_eq!(w, k as u64);
        let r = wait_rsp(&mut t, *id, Parked::Woken, Some(f)).unwrap();
        assert_eq!(r.data, vec![k as u8]);
        completed += 1;
    }
    assert_eq!(completed, 100);
}
