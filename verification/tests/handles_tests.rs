use netvr::handles::{rewrite_space, InstanceRefs};
use std::collections::HashSet;

#[test]
fn handles_resolve_to_live_instances() {
    let instances: HashSet<u64> = [10].into_iter().collect();
    let mut refs = InstanceRefs::new();
    refs.insert(1, 10);
    refs.insert(2, 20);
    assert_eq!(refs.resolve(&instances, 1), Ok(10));
    assert_eq!(refs.resolve(&instances, 2), Err(-12));
    assert_eq!(refs.resolve(&instances, 3), Err(-12));
}

#[test]
fn released_handles_are_invalid() {
    let instances: HashSet<u64> = [10].into_iter().collect();
    let mut refs = InstanceRefs::new();
    refs.insert(1, 10);
    refs.insert(4, 10);
    assert_eq!(refs.release(&instances, 1), Ok(10));
    assert_eq!(refs.resolve(&instances, 1), Err(-12));
    assert_eq!(refs.release(&instances, 1), Err(-12));
    assert_eq!(refs.resolve(&instances, 4), Ok(10));
}

#[test]
fn stage_spaces_are_redirected() {
    let stage: HashSet<u64> = [5, 6].into_iter().collect();
    assert_eq!(rewrite_space(&stage, Some(99), 5), 99);
    assert_eq!(rewrite_space(&stage, Some(99), 7), 7);
    assert_eq!(rewrite_space(&stage, None, 6), 6);
}
