use context_tracker::handle::ContextCurrentWrapper;
use context_tracker::tracker::ContextTracker;
use context_tracker::tracker::TrackerError;

fn ok_op(log: &mut Vec<u64>) -> impl FnOnce(u64) -> Result<u64, (u64, i32)> + '_ {
    move |x: u64| {
        log.push(x);
        Ok(x)
    }
}

fn fail_op(log: &mut Vec<u64>, err: i32) -> impl FnOnce(u64) -> Result<u64, (u64, i32)> + '_ {
    move |x: u64| {
        log.push(x);
        Err((x, err))
    }
}

#[test]
fn register_marks_previous_current_unbound_without_calls() {
    let mut t: ContextTracker<u64> = ContextTracker::default();
    let a = t.insert(10);
    assert_eq!(a, 0);
    assert_eq!(t.current_id(), Some(0));
    let b = t.insert(20);
    assert_eq!(b, 1);
    assert_eq!(t.current_id(), Some(1));
    assert_eq!(t.is_context_current(a), Some(false));
    assert_eq!(t.is_context_current(b), Some(true));
    assert_eq!(t.len(), 2);
    assert!(!t.is_poisoned());
}

#[test]
fn scenario_two_windows() {
    let mut t: ContextTracker<u64> = ContextTracker::default();
    let a = t.insert(10);
    assert_eq!(a, 0);
    assert_eq!(t.current_id(), Some(0));
    let b = t.insert(20);
    assert_eq!(b, 1);
    assert_eq!(t.current_id(), Some(1));
    assert_eq!(t.is_context_current(a), Some(false));

    let mut binds: Vec<u64> = Vec::new();
    let mut unbinds: Vec<u64> = Vec::new();
    {
        let r = t.get_current(a, ok_op(&mut binds), ok_op(&mut unbinds));
        match r {
            Ok(ctx) => assert_eq!(*ctx, 10),
            Err(_) => panic!("bind double was set to succeed"),
        }
    }
    assert_eq!(binds, vec![10]);
    assert_eq!(unbinds, Vec::<u64>::new());
    assert_eq!(t.current_id(), Some(0));
    assert_eq!(t.is_context_current(b), Some(false));

    let h = t.remove(a);
    assert!(h.is_current());
    assert_eq!(h.into_inner(), 10);
    assert_eq!(t.current_id(), None);
    assert_eq!(t.len(), 1);
}

#[test]
fn ensure_current_is_idempotent() {
    let mut t: ContextTracker<u64> = ContextTracker::default();
    let a = t.insert(10);
    let _ = t.insert(20);

    let mut binds: Vec<u64> = Vec::new();
    let mut unbinds: Vec<u64> = Vec::new();
    {
        let r = t.get_current(a, ok_op(&mut binds), ok_op(&mut unbinds));
        assert_eq!(*r.unwrap(), 10);
    }
    assert_eq!(binds.len(), 1);

    let mut binds2: Vec<u64> = Vec::new();
    let mut unbinds2: Vec<u64> = Vec::new();
    {
        let r = t.get_current(a, ok_op(&mut binds2), ok_op(&mut unbinds2));
        assert_eq!(*r.unwrap(), 10);
    }
    assert_eq!(binds2, Vec::<u64>::new());
    assert_eq!(unbinds2, Vec::<u64>::new());
    assert_eq!(t.current_id(), Some(a));
}

#[test]
fn register_then_remove_round_trips_the_resource() {
    let mut t: ContextTracker<u64> = ContextTracker::default();
    let id = t.insert(42);
    let h = t.remove(id);
    assert!(h.is_current());
    assert_eq!(h.into_inner(), 42);
    assert_eq!(t.len(), 0);
    assert_eq!(t.current_id(), None);
}

#[test]
fn rebinding_excludes_previous_context_without_unbind_call() {
    let mut t: ContextTracker<u64> = ContextTracker::default();
    let a = t.insert(10);
    let b = t.insert(20);

    let mut binds: Vec<u64> = Vec::new();
    let mut unbinds: Vec<u64> = Vec::new();
    {
        let r = t.get_current(a, ok_op(&mut binds), ok_op(&mut unbinds));
        assert!(r.is_ok());
    }
    assert_eq!(t.is_context_current(a), Some(true));
    assert_eq!(t.is_context_current(b), Some(false));
    assert_eq!(binds, vec![10]);
    assert_eq!(unbinds, Vec::<u64>::new());
}

#[test]
fn failed_bind_rolls_back_with_one_compensating_unbind() {
    let mut t: ContextTracker<u64> = ContextTracker::default();
    let a = t.insert(10);
    let b = t.insert(20);
    assert_eq!(t.current_id(), Some(b));

    let mut binds: Vec<u64> = Vec::new();
    let mut unbinds: Vec<u64> = Vec::new();
    let r = t.get_current(a, fail_op(&mut binds, -5), ok_op(&mut unbinds));
    match r {
        Err(TrackerError::BindFailed(e)) => assert_eq!(e, -5),
        _ => panic!("expected the bind failure to surface"),
    }
    assert_eq!(binds, vec![10]);
    assert_eq!(unbinds, vec![20]);
    assert_eq!(t.current_id(), None);
    assert_eq!(t.is_context_current(a), Some(false));
    assert_eq!(t.is_context_current(b), Some(false));
    assert!(!t.is_poisoned());
}

#[test]
fn double_failure_poisons_the_tracker() {
    let mut t: ContextTracker<u64> = ContextTracker::default();
    let a = t.insert(10);
    let b = t.insert(20);
    assert_eq!(t.current_id(), Some(b));

    let mut binds: Vec<u64> = Vec::new();
    let mut unbinds: Vec<u64> = Vec::new();
    let r = t.get_current(a, fail_op(&mut binds, -5), fail_op(&mut unbinds, -6));
    match r {
        Err(TrackerError::Fatal(eb, eu)) => {
            assert_eq!(eb, -5);
            assert_eq!(eu, -6);
        }
        _ => panic!("expected the double failure to surface as fatal"),
    }
    assert_eq!(binds, vec![10]);
    assert_eq!(unbinds, vec![20]);
    assert_eq!(t.current_id(), None);
    assert!(t.is_poisoned());
}

#[test]
fn identifiers_are_never_reused() {
    let mut t: ContextTracker<u64> = ContextTracker::default();
    let mut ids: Vec<usize> = Vec::new();
    ids.push(t.insert(100));
    ids.push(t.insert(101));
    ids.push(t.insert(102));
    let _ = t.remove(ids[1]);
    let _ = t.remove(ids[0]);
    ids.push(t.insert(103));
    ids.push(t.insert(104));
    assert_eq!(ids, vec![0, 1, 2, 3, 4]);
    assert_eq!(t.next_context_id(), 5);
    for i in 0..ids.len() {
        for j in 0..ids.len() {
            if i != j {
                assert_ne!(ids[i], ids[j]);
            }
        }
    }
}

#[test]
fn lookup_of_unregistered_identifier_fails() {
    let mut t: ContextTracker<u64> = ContextTracker::default();
    let a = t.insert(10);
    let _ = t.remove(a);
    assert!(!t.contains(a));

    let mut binds: Vec<u64> = Vec::new();
    let mut unbinds: Vec<u64> = Vec::new();
    let r = t.get_current(a, ok_op(&mut binds), ok_op(&mut unbinds));
    match r {
        Err(TrackerError::LookupFailed) => {}
        _ => panic!("expected a lookup failure"),
    }
    assert_eq!(binds, Vec::<u64>::new());
    assert_eq!(unbinds, Vec::<u64>::new());
    assert_eq!(t.is_context_current(a), None);
}

#[test]
fn unbind_current_releases_through_the_platform() {
    let mut t: ContextTracker<u64> = ContextTracker::default();
    let a = t.insert(10);

    let mut unbinds: Vec<u64> = Vec::new();
    let r = t.unbind_current(ok_op(&mut unbinds));
    assert!(r.is_ok());
    assert_eq!(unbinds, vec![10]);
    assert_eq!(t.current_id(), None);
    assert_eq!(t.is_context_current(a), Some(false));

    let mut unbinds2: Vec<u64> = Vec::new();
    let r2 = t.unbind_current(ok_op(&mut unbinds2));
    assert!(r2.is_ok());
    assert_eq!(unbinds2, Vec::<u64>::new());
}

#[test]
fn unbind_current_failure_keeps_the_context_current() {
    let mut t: ContextTracker<u64> = ContextTracker::default();
    let a = t.insert(10);

    let mut unbinds: Vec<u64> = Vec::new();
    let r = t.unbind_current(fail_op(&mut unbinds, 9));
    match r {
        Err(TrackerError::UnbindFailed(e)) => assert_eq!(e, 9),
        _ => panic!("expected the unbind failure to surface"),
    }
    assert_eq!(unbinds, vec![10]);
    assert_eq!(t.current_id(), Some(a));
    assert_eq!(t.is_context_current(a), Some(true));
    assert!(!t.is_poisoned());
}

#[test]
fn failed_bind_with_nothing_current_needs_no_compensation() {
    let mut t: ContextTracker<u64> = ContextTracker::default();
    let a = t.insert(10);
    {
        let mut unbinds: Vec<u64> = Vec::new();
        let r = t.unbind_current(ok_op(&mut unbinds));
        assert!(r.is_ok());
    }
    assert_eq!(t.current_id(), None);

    let mut binds: Vec<u64> = Vec::new();
    let mut unbinds: Vec<u64> = Vec::new();
    let r = t.get_current(a, fail_op(&mut binds, 1), ok_op(&mut unbinds));
    match r {
        Err(TrackerError::BindFailed(e)) => assert_eq!(e, 1),
        _ => panic!("expected the bind failure to surface"),
    }
    assert_eq!(binds, vec![10]);
    assert_eq!(unbinds, Vec::<u64>::new());
    assert_eq!(t.current_id(), None);
    assert!(!t.is_poisoned());
}

#[test]
fn resource_can_be_edited_through_the_returned_borrow() {
    let mut t: ContextTracker<u64> = ContextTracker::default();
    let a = t.insert(10);
    {
        let mut binds: Vec<u64> = Vec::new();
        let mut unbinds: Vec<u64> = Vec::new();
        let r = t.get_current(a, ok_op(&mut binds), ok_op(&mut unbinds));
        let ctx = r.unwrap();
        *ctx = 77;
    }
    let h = t.remove(a);
    assert_eq!(h.into_inner(), 77);
}

#[test]
fn handle_of_wrapper_survives_registration() {
    let mut t: ContextTracker<u64> = ContextTracker::default();
    let id = t.insert(5);
    let h: ContextCurrentWrapper<u64> = t.remove(id);
    match h {
        ContextCurrentWrapper::PossiblyCurrent(c) => assert_eq!(c, 5),
        ContextCurrentWrapper::NotCurrent(_) => panic!("a registered context starts current"),
    }
}
