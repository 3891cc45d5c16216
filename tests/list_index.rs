use java_bindings::handle::HandleTable;
use java_bindings::runtime::{ListError, Runtime};

fn b(s: &str) -> Vec<u8> {
    s.as_bytes().to_vec()
}

fn fork_list(rt: &mut Runtime, name: &str) -> (u64, u64) {
    let fork = rt.fork().unwrap();
    let list = rt.create(b(name), fork).unwrap();
    (fork, list)
}

#[test]
fn fork_list_scenario() {
    let mut rt = Runtime::new();
    let (_fork, list) = fork_list(&mut rt, "L");
    for v in ["a", "b", "c"] {
        rt.add(list, b(v)).unwrap();
    }
    assert_eq!(rt.get(list, 1), Ok(Some(b("b"))));
    assert_eq!(rt.remove_last(list), Ok(Some(b("c"))));
    assert_eq!(rt.size(list), Ok(2));
    rt.truncate(list, 1).unwrap();
    assert_eq!(rt.get(list, 0), Ok(Some(b("a"))));
    assert_eq!(rt.get(list, 1), Ok(None));
    let it = rt.create_iter(list).unwrap();
    assert_eq!(rt.iter_next(it), Ok(Some(b("a"))));
    assert_eq!(rt.iter_next(it), Ok(None));
    assert_eq!(rt.iter_next(it), Ok(None));
}

#[test]
fn snapshot_after_commit_scenario() {
    let mut rt = Runtime::new();
    let (fork, list) = fork_list(&mut rt, "L");
    for v in ["a", "b", "c"] {
        rt.add(list, b(v)).unwrap();
    }
    rt.remove_last(list).unwrap();
    rt.truncate(list, 1).unwrap();
    rt.commit(fork).unwrap();
    let snap = rt.snapshot().unwrap();
    let read = rt.create(b("L"), snap).unwrap();
    assert_eq!(rt.add(read, b("x")), Err(ListError::ProtocolViolation));
    assert_eq!(rt.get(read, 0), Ok(Some(b("a"))));
    assert_eq!(rt.size(read), Ok(1));
}

#[test]
fn adds_read_back_in_order() {
    let mut rt = Runtime::new();
    let (_fork, list) = fork_list(&mut rt, "numbers");
    let vals: Vec<Vec<u8>> = (0u8..20).map(|i| vec![i, i.wrapping_mul(3)]).collect();
    for v in &vals {
        rt.add(list, v.clone()).unwrap();
    }
    for (i, v) in vals.iter().enumerate() {
        assert_eq!(rt.get(list, i as u64), Ok(Some(v.clone())));
    }
    assert_eq!(rt.get_last(list), Ok(Some(vals[19].clone())));
}

#[test]
fn size_after_adds_and_removes() {
    let mut rt = Runtime::new();
    let (_fork, list) = fork_list(&mut rt, "L");
    for i in 0u8..5 {
        rt.add(list, vec![i]).unwrap();
    }
    for _ in 0..3 {
        rt.remove_last(list).unwrap();
    }
    assert_eq!(rt.size(list), Ok(2));
    for _ in 0..4 {
        rt.remove_last(list).unwrap();
    }
    assert_eq!(rt.size(list), Ok(0));
    assert_eq!(rt.remove_last(list), Ok(None));
    assert_eq!(rt.is_empty(list), Ok(true));
}

#[test]
fn truncate_shrinks_or_keeps() {
    let mut rt = Runtime::new();
    let (_fork, list) = fork_list(&mut rt, "L");
    for i in 0u8..4 {
        rt.add(list, vec![i]).unwrap();
    }
    rt.truncate(list, 10).unwrap();
    assert_eq!(rt.size(list), Ok(4));
    rt.truncate(list, 4).unwrap();
    assert_eq!(rt.size(list), Ok(4));
    rt.truncate(list, 2).unwrap();
    assert_eq!(rt.size(list), Ok(2));
    assert_eq!(rt.get(list, 1), Ok(Some(vec![1])));
    rt.truncate(list, u64::MAX).unwrap();
    assert_eq!(rt.size(list), Ok(2));
    rt.truncate(list, 0).unwrap();
    assert_eq!(rt.is_empty(list), Ok(true));
}

#[test]
fn set_then_get_and_out_of_range() {
    let mut rt = Runtime::new();
    let (_fork, list) = fork_list(&mut rt, "L");
    rt.add(list, b("a")).unwrap();
    rt.add(list, b("b")).unwrap();
    rt.set(list, 1, b("z")).unwrap();
    assert_eq!(rt.get(list, 1), Ok(Some(b("z"))));
    assert_eq!(rt.get(list, 0), Ok(Some(b("a"))));
    assert_eq!(rt.set(list, 2, b("y")), Err(ListError::ProtocolViolation));
    assert_eq!(rt.set(list, u64::MAX, b("y")), Err(ListError::ProtocolViolation));
    assert_eq!(rt.size(list), Ok(2));
}

#[test]
fn get_past_end_is_absent_not_empty() {
    let mut rt = Runtime::new();
    let (_fork, list) = fork_list(&mut rt, "L");
    assert_eq!(rt.get(list, 0), Ok(None));
    assert_eq!(rt.get_last(list), Ok(None));
    rt.add(list, Vec::new()).unwrap();
    assert_eq!(rt.get(list, 0), Ok(Some(Vec::new())));
    assert_eq!(rt.get(list, 1), Ok(None));
    assert_eq!(rt.get(list, u64::MAX), Ok(None));
}

#[test]
fn snapshot_refuses_every_change() {
    let mut rt = Runtime::new();
    let (fork, list) = fork_list(&mut rt, "L");
    rt.add(list, b("a")).unwrap();
    rt.commit(fork).unwrap();
    let snap = rt.snapshot().unwrap();
    let read = rt.create(b("L"), snap).unwrap();
    let pv = Err(ListError::ProtocolViolation);
    assert_eq!(rt.add(read, b("x")), pv);
    assert_eq!(rt.remove_last(read), Err(ListError::ProtocolViolation));
    assert_eq!(rt.truncate(read, 0), pv);
    assert_eq!(rt.set(read, 0, b("x")), pv);
    assert_eq!(rt.clear(read), pv);
    assert_eq!(rt.size(read), Ok(1));
    assert_eq!(rt.get(read, 0), Ok(Some(b("a"))));
    assert_eq!(rt.commit(snap), Err(ListError::ProtocolViolation));
}

#[test]
fn iterator_keeps_values_of_its_creation() {
    let mut rt = Runtime::new();
    let (fork, list) = fork_list(&mut rt, "L");
    for v in ["a", "b", "c", "d"] {
        rt.add(list, b(v)).unwrap();
    }
    let it = rt.iter_from(list, 1).unwrap();
    let other = rt.create(b("L"), fork).unwrap();
    rt.set(other, 2, b("changed")).unwrap();
    rt.clear(other).unwrap();
    assert_eq!(rt.size(list), Ok(0));
    assert_eq!(rt.iter_next(it), Ok(Some(b("b"))));
    assert_eq!(rt.iter_next(it), Ok(Some(b("c"))));
    assert_eq!(rt.iter_next(it), Ok(Some(b("d"))));
    assert_eq!(rt.iter_next(it), Ok(None));
}

#[test]
fn iterator_from_past_end_is_exhausted() {
    let mut rt = Runtime::new();
    let (_fork, list) = fork_list(&mut rt, "L");
    rt.add(list, b("a")).unwrap();
    let at_end = rt.iter_from(list, 1).unwrap();
    assert_eq!(rt.iter_next(at_end), Ok(None));
    let past = rt.iter_from(list, u64::MAX).unwrap();
    assert_eq!(rt.iter_next(past), Ok(None));
}

#[test]
fn free_leaves_other_handles_working() {
    let mut rt = Runtime::new();
    let (fork, list) = fork_list(&mut rt, "L");
    let second = rt.create(b("L"), fork).unwrap();
    rt.add(list, b("a")).unwrap();
    let it = rt.create_iter(list).unwrap();
    assert!(rt.free(list));
    assert_eq!(rt.get(list, 0), Err(ListError::InvalidHandle));
    assert!(!rt.free(list));
    assert_eq!(rt.get(second, 0), Ok(Some(b("a"))));
    assert_eq!(rt.iter_next(it), Ok(Some(b("a"))));
    assert!(rt.iter_free(it));
    assert_eq!(rt.iter_next(it), Err(ListError::InvalidHandle));
    assert!(!rt.iter_free(it));
}

#[test]
fn stale_and_null_tokens_are_refused() {
    let mut rt = Runtime::new();
    assert_eq!(rt.size(0), Err(ListError::InvalidHandle));
    assert_eq!(rt.add(7, b("a")), Err(ListError::InvalidHandle));
    assert_eq!(rt.create(b("L"), 3), Err(ListError::InvalidHandle));
    assert_eq!(rt.iter_next(1), Err(ListError::InvalidHandle));
    let (fork, list) = fork_list(&mut rt, "L");
    assert!(rt.free_view(fork));
    assert_eq!(rt.size(list), Err(ListError::InvalidHandle));
    assert_eq!(rt.add(list, b("a")), Err(ListError::InvalidHandle));
    assert_eq!(rt.commit(fork), Err(ListError::InvalidHandle));
    assert!(!rt.free_view(fork));
}

#[test]
fn groups_keep_lists_apart() {
    let mut rt = Runtime::new();
    let fork = rt.fork().unwrap();
    let k1 = rt.create_in_group(b("g"), vec![1], fork).unwrap();
    let k2 = rt.create_in_group(b("g"), vec![2], fork).unwrap();
    let plain = rt.create(b("g"), fork).unwrap();
    rt.add(k1, b("one")).unwrap();
    rt.add(k2, b("two")).unwrap();
    rt.add(k2, b("two again")).unwrap();
    assert_eq!(rt.size(k1), Ok(1));
    assert_eq!(rt.size(k2), Ok(2));
    assert_eq!(rt.size(plain), Ok(0));
    let k1_again = rt.create_in_group(b("g"), vec![1], fork).unwrap();
    assert_eq!(rt.get(k1_again, 0), Ok(Some(b("one"))));
}

#[test]
fn fork_changes_are_invisible_until_commit() {
    let mut rt = Runtime::new();
    let (fork, list) = fork_list(&mut rt, "L");
    rt.add(list, b("a")).unwrap();
    let before = rt.snapshot().unwrap();
    let seen_before = rt.create(b("L"), before).unwrap();
    assert_eq!(rt.size(seen_before), Ok(0));
    rt.commit(fork).unwrap();
    assert_eq!(rt.size(seen_before), Ok(0));
    let after = rt.snapshot().unwrap();
    let seen_after = rt.create(b("L"), after).unwrap();
    assert_eq!(rt.size(seen_after), Ok(1));
    let other_fork = rt.fork().unwrap();
    let other = rt.create(b("L"), other_fork).unwrap();
    rt.clear(other).unwrap();
    assert_eq!(rt.size(list), Ok(1));
    assert_eq!(rt.size(other), Ok(0));
}

#[test]
fn handle_table_issues_fresh_tokens() {
    let mut t: HandleTable<u32> = HandleTable::new();
    let a = t.allocate(10).unwrap();
    let b = t.allocate(20).unwrap();
    assert_eq!((a, b), (1, 2));
    assert_eq!(t.resolve(a), Some(&10));
    assert!(t.destroy(a));
    assert_eq!(t.resolve(a), None);
    assert!(!t.destroy(a));
    assert_eq!(t.resolve(b), Some(&20));
    let c = t.allocate(30).unwrap();
    assert_eq!(c, 3);
    assert_eq!(t.resolve(0), None);
}

#[test]
fn tokens_are_unique_across_kinds() {
    let mut rt = Runtime::new();
    let fork = rt.fork().unwrap();
    let list = rt.create(b("L"), fork).unwrap();
    let it = rt.create_iter(list).unwrap();
    let snap = rt.snapshot().unwrap();
    let mut all = vec![fork, list, it, snap];
    all.sort();
    all.dedup();
    assert_eq!(all.len(), 4);
    assert!(!rt.free(fork));
    assert!(!rt.iter_free(list));
    assert!(!rt.free_view(it));
    assert_eq!(rt.size(it), Err(ListError::InvalidHandle));
    assert_eq!(rt.iter_next(list), Err(ListError::InvalidHandle));
    assert_eq!(rt.create(b("L"), list), Err(ListError::InvalidHandle));
    assert_eq!(rt.size(list), Ok(0));
}
