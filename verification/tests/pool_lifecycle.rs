//! Pool and packet lifecycle: allocation, deferred release, forced collection.

use dpdk::burst::Burst;
use dpdk::cap::CapState;
use dpdk::eal::Eal;

fn fresh_runtime() -> Eal {
    let mut args: Vec<String> = Vec::new();
    Eal::new(&mut args, 0).unwrap()
}

#[test]
fn alloc_returns_fresh_packet() {
    let mut cap = CapState::discovered(Vec::new(), Vec::new());
    let rt = fresh_runtime();
    let pool = rt.create_mpool(&mut cap, 7, 4, 0, 2048, None);
    let pkt = pool.allocate(&mut cap).unwrap();
    assert_eq!(pkt.len(), 0);
    assert_eq!(pkt.capacity(), 2048);
    assert!(pkt.is_empty());
    assert_eq!(cap.pools[0].outstanding, 1);
    cap.free_packet(pkt);
    assert_eq!(cap.pools[0].outstanding, 0);
}

#[test]
fn alloc_exhaustion_returns_none() {
    let mut cap = CapState::discovered(Vec::new(), Vec::new());
    let rt = fresh_runtime();
    let pool = rt.create_mpool(&mut cap, 7, 2, 0, 2048, None);
    let a = pool.allocate(&mut cap);
    let b = pool.allocate(&mut cap);
    let c = pool.allocate(&mut cap);
    assert!(a.is_some());
    assert!(b.is_some());
    assert!(c.is_none());
    assert_eq!(cap.pools[0].outstanding, 2);
    cap.free_packet(a.unwrap());
    cap.free_packet(b.unwrap());
}

#[test]
fn alloc_bulk_is_all_or_nothing() {
    let mut cap = CapState::discovered(Vec::new(), Vec::new());
    let rt = fresh_runtime();
    let pool = rt.create_mpool(&mut cap, 7, 10, 0, 2048, None);
    let mut big = Burst::new(32);
    assert!(!pool.alloc_bulk(&mut cap, &mut big));
    assert_eq!(big.len(), 0);
    assert_eq!(cap.pools[0].outstanding, 0);
    let mut small = Burst::new(8);
    assert!(pool.alloc_bulk(&mut cap, &mut small));
    assert_eq!(small.len(), 8);
    assert_eq!(cap.pools[0].outstanding, 8);
    while let Some(p) = small.pop() {
        cap.free_packet(p);
    }
    assert_eq!(cap.pools[0].outstanding, 0);
}

#[test]
fn deferred_gc_waits_for_outstanding_packets() {
    let mut cap = CapState::discovered(Vec::new(), Vec::new());
    let mut rt = fresh_runtime();
    let pool = rt.create_mpool(&mut cap, 7, 4, 0, 2048, None);
    let a = pool.allocate(&mut cap).unwrap();
    let b = pool.allocate(&mut cap).unwrap();
    pool.dispose(&mut cap, &mut rt);
    // Two packets are still alive: the release must be deferred, not done.
    assert!(!cap.pools[0].released);
    assert_eq!(rt.garbage, vec![0]);
    rt.collect_garbage(&mut cap);
    assert!(!cap.pools[0].released);
    assert_eq!(rt.garbage, vec![0]);
    cap.free_packet(a);
    rt.collect_garbage(&mut cap);
    assert!(!cap.pools[0].released);
    cap.free_packet(b);
    rt.collect_garbage(&mut cap);
    // All buffers returned: the deferred release has now gone through.
    assert!(cap.pools[0].released);
    assert!(rt.garbage.is_empty());
}

#[test]
fn dispose_releases_drained_pool_at_once() {
    let mut cap = CapState::discovered(Vec::new(), Vec::new());
    let mut rt = fresh_runtime();
    let pool = rt.create_mpool(&mut cap, 9, 4, 0, 2048, None);
    let pkt = pool.allocate(&mut cap).unwrap();
    cap.free_packet(pkt);
    pool.dispose(&mut cap, &mut rt);
    assert!(cap.pools[0].released);
    assert!(rt.garbage.is_empty());
}

#[test]
fn finalize_forces_all_deferred_releases() {
    let mut cap = CapState::discovered(Vec::new(), Vec::new());
    let mut rt = fresh_runtime();
    let p1 = rt.create_mpool(&mut cap, 1, 4, 0, 2048, None);
    let p2 = rt.create_mpool(&mut cap, 2, 4, 0, 2048, None);
    let a = p1.allocate(&mut cap).unwrap();
    let b = p2.allocate(&mut cap).unwrap();
    p1.dispose(&mut cap, &mut rt);
    p2.dispose(&mut cap, &mut rt);
    assert_eq!(rt.garbage, vec![0, 1]);
    cap.free_packet(a);
    cap.free_packet(b);
    rt.finalize(&mut cap);
    assert!(cap.pools[0].released);
    assert!(cap.pools[1].released);
}

#[test]
fn pool_names_are_tracked() {
    let mut cap = CapState::discovered(Vec::new(), Vec::new());
    let rt = fresh_runtime();
    assert!(!cap.tag_in_use(7));
    let _pool = rt.create_mpool(&mut cap, 7, 4, 0, 2048, None);
    assert!(cap.tag_in_use(7));
    assert!(!cap.tag_in_use(8));
}
