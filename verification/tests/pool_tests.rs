use static_render::pool::{BundleKey, Checkin, Checkout, Pool, PoolRegistry};

#[test]
fn empty_pool_spawns_up_to_the_ceiling_then_refuses() {
    let mut pool = Pool::new(2, 8);
    assert!(matches!(pool.checkout(), Checkout::Spawn(0)));
    assert!(matches!(pool.checkout(), Checkout::Spawn(1)));
    assert!(matches!(pool.checkout(), Checkout::Refuse));
    assert_eq!(pool.live(), 2);
}

#[test]
fn zero_ceiling_refuses_immediately() {
    let mut pool = Pool::new(0, 8);
    assert!(matches!(pool.checkout(), Checkout::Refuse));
}

#[test]
fn healthy_worker_is_reused_warm() {
    let mut pool = Pool::new(2, 8);
    assert!(matches!(pool.checkout(), Checkout::Spawn(0)));
    assert!(matches!(pool.checkin(true), Checkin::Kept));
    // The warm worker is handed out again instead of spawning a new one.
    assert!(matches!(pool.checkout(), Checkout::Reuse(0)));
}

#[test]
fn unhealthy_worker_is_retired() {
    let mut pool = Pool::new(2, 8);
    assert!(matches!(pool.checkout(), Checkout::Spawn(0)));
    assert!(matches!(pool.checkin(false), Checkin::Retire));
    assert_eq!(pool.live(), 0);
    // The next checkout spawns a fresh worker under a fresh id.
    assert!(matches!(pool.checkout(), Checkout::Spawn(1)));
}

#[test]
fn worn_out_worker_is_recycled() {
    let mut pool = Pool::new(1, 2);
    assert!(matches!(pool.checkout(), Checkout::Spawn(0)));
    assert!(matches!(pool.checkin(true), Checkin::Kept));
    assert!(matches!(pool.checkout(), Checkout::Reuse(0)));
    // Second completed use reaches the limit: recycle instead of keeping.
    assert!(matches!(pool.checkin(true), Checkin::Retire));
}

#[test]
fn spawn_rollback_frees_the_slot() {
    let mut pool = Pool::new(1, 8);
    assert!(matches!(pool.checkout(), Checkout::Spawn(0)));
    pool.spawn_failed();
    assert_eq!(pool.live(), 0);
    assert!(matches!(pool.checkout(), Checkout::Spawn(1)));
}

fn key(id: &[u8], debug: bool) -> BundleKey {
    BundleKey { bundle_id: id.to_vec(), output_path: b"/out".to_vec(), debug }
}

#[test]
fn registry_caches_one_pool_per_key() {
    let mut reg = PoolRegistry::new(4, 8);
    let a = reg.acquire(key(b"bundle-a", false));
    let b = reg.acquire(key(b"bundle-b", false));
    assert_ne!(a, b);
    // The same key comes back to the same pool.
    let a2 = reg.acquire(key(b"bundle-a", false));
    assert_eq!(a, a2);
    // The debug flag is part of the key.
    let a_dbg = reg.acquire(key(b"bundle-a", true));
    assert_ne!(a, a_dbg);
}

#[test]
fn invalidation_drops_the_stale_pool() {
    let mut reg = PoolRegistry::new(4, 8);
    let a = reg.acquire(key(b"bundle-a", false));
    match reg.entries[a].1.checkout() {
        Checkout::Spawn(_) => {},
        _ => panic!("fresh pool should spawn"),
    }
    reg.invalidate(&key(b"bundle-a", false));
    // A fresh acquire creates a fresh, empty pool.
    let a2 = reg.acquire(key(b"bundle-a", false));
    assert_eq!(reg.entries[a2].1.live(), 0);
}
