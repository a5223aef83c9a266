use serverless_backend::conn_pool::{GlobalConnPool, PoolConfig, PooledClient, ReleaseOutcome};
use serverless_backend::types::{ComputeUserInfo, ConnInfo, EndpointId};

fn key_with(endpoint: &str, db: &str, user: &str, options: &[(&str, &str)]) -> ConnInfo {
    ConnInfo::new(
        ComputeUserInfo {
            user: user.to_string(),
            endpoint: EndpointId::from(endpoint.to_string()),
            options: options.iter().map(|(k, v)| (k.to_string(), v.to_string())).collect(),
        },
        db.to_string(),
    )
}

fn key(endpoint: &str, db: &str, user: &str) -> ConnInfo {
    key_with(endpoint, db, user, &[])
}

fn config(max_conns: usize, per_endpoint: usize, ttl: u64) -> PoolConfig {
    PoolConfig { max_conns, max_conns_per_endpoint: per_endpoint, idle_ttl: ttl, gc_horizon: 1000 }
}

fn client(inner: u32, k: ConnInfo) -> PooledClient<u32> {
    PooledClient::new(inner, u128::from(inner), k, 0)
}

fn put(pool: &mut GlobalConnPool<u32>, inner: u32, k: ConnInfo, now: u64) -> ReleaseOutcome<u32> {
    pool.release(client(inner, k), false, now)
}

#[test]
fn new_pool_misses() {
    let mut pool: GlobalConnPool<u32> = GlobalConnPool::new(config(10, 5, 100));
    let (hit, expired) = pool.get(&key("ep1", "main", "u"), 0);
    assert!(hit.is_none());
    assert!(expired.is_empty());
    assert_eq!(pool.len(), 0);
}

#[test]
fn release_then_get_gives_the_same_client() {
    let mut pool: GlobalConnPool<u32> = GlobalConnPool::new(config(10, 5, 100));
    let k = key("ep1", "main", "u");
    assert!(pool.get(&k, 0).0.is_none());
    let c = PooledClient::new(77u32, 9, key("ep1", "main", "u"), 0);
    assert!(matches!(pool.release(c, false, 1), ReleaseOutcome::Pooled));
    assert_eq!(pool.len(), 1);
    let (hit, expired) = pool.get(&k, 1);
    let hit = hit.expect("the released client is served");
    assert_eq!(hit.inner, 77);
    assert_eq!(hit.conn_id, 9);
    assert_eq!(hit.created, 0);
    assert!(hit.conn_info.same_key(&k));
    assert!(!hit.discard && !hit.dirty);
    assert!(expired.is_empty());
    assert_eq!(pool.len(), 0);
    assert!(pool.get(&k, 1).0.is_none());
}

#[test]
fn clients_are_served_first_in_first_out() {
    let mut pool = GlobalConnPool::new(config(10, 5, 100));
    let k = key("ep1", "main", "u");
    put(&mut pool, 1, key("ep1", "main", "u"), 10);
    put(&mut pool, 2, key("ep1", "main", "u"), 11);
    put(&mut pool, 3, key("ep1", "main", "u"), 12);
    assert_eq!(pool.get(&k, 13).0.unwrap().inner, 1);
    assert_eq!(pool.get(&k, 13).0.unwrap().inner, 2);
    assert_eq!(pool.get(&k, 13).0.unwrap().inner, 3);
    assert!(pool.get(&k, 13).0.is_none());
}

#[test]
fn keys_differ_in_each_of_their_parts() {
    let mut pool = GlobalConnPool::new(config(10, 10, 100));
    put(&mut pool, 1, key_with("ep1", "main", "u", &[("a", "1"), ("b", "2")]), 0);
    assert!(pool.get(&key_with("ep2", "main", "u", &[("a", "1"), ("b", "2")]), 0).0.is_none());
    assert!(pool.get(&key_with("ep1", "other", "u", &[("a", "1"), ("b", "2")]), 0).0.is_none());
    assert!(pool.get(&key_with("ep1", "main", "v", &[("a", "1"), ("b", "2")]), 0).0.is_none());
    // the options are compared in order
    assert!(pool.get(&key_with("ep1", "main", "u", &[("b", "2"), ("a", "1")]), 0).0.is_none());
    assert!(pool.get(&key_with("ep1", "main", "u", &[]), 0).0.is_none());
    assert_eq!(
        pool.get(&key_with("ep1", "main", "u", &[("a", "1"), ("b", "2")]), 0).0.unwrap().inner,
        1
    );
}

#[test]
fn expired_clients_are_closed_on_lookup() {
    let mut pool = GlobalConnPool::new(config(10, 5, 100));
    let k = key("ep1", "main", "u");
    put(&mut pool, 1, key("ep1", "main", "u"), 0);
    put(&mut pool, 2, key("ep1", "main", "u"), 50);
    put(&mut pool, 3, key("ep1", "main", "u"), 60);
    // at 101 the first has rested 101 > 100, the second 51
    let (hit, expired) = pool.get(&k, 101);
    assert_eq!(hit.unwrap().inner, 2);
    assert_eq!(expired.len(), 1);
    assert_eq!(expired[0].client, 1);
    assert_eq!(expired[0].last_use, 0);
    assert_eq!(pool.len(), 1);
    // resting exactly as long as the limit is not too long
    let (hit, expired) = pool.get(&k, 160);
    assert_eq!(hit.unwrap().inner, 3);
    assert!(expired.is_empty());
}

#[test]
fn a_lookup_that_finds_only_expired_clients_empties_the_queue() {
    let mut pool = GlobalConnPool::new(config(10, 5, 10));
    let k = key("ep1", "main", "u");
    put(&mut pool, 1, key("ep1", "main", "u"), 0);
    put(&mut pool, 2, key("ep1", "main", "u"), 1);
    let (hit, expired) = pool.get(&k, 100);
    assert!(hit.is_none());
    assert_eq!(expired.iter().map(|e| e.client).collect::<Vec<_>>(), vec![1, 2]);
    assert_eq!(pool.len(), 0);
}

#[test]
fn unhealthy_clients_never_enter_the_pool() {
    let mut pool = GlobalConnPool::new(config(10, 5, 100));
    let mut discarded = client(1, key("ep1", "main", "u"));
    discarded.discard();
    assert!(matches!(pool.release(discarded, false, 0), ReleaseOutcome::Closed(1)));
    let mut dirty = client(2, key("ep1", "main", "u"));
    dirty.mark_dirty();
    assert!(matches!(pool.release(dirty, false, 0), ReleaseOutcome::Closed(2)));
    let closed = client(3, key("ep1", "main", "u"));
    assert!(matches!(pool.release(closed, true, 0), ReleaseOutcome::Closed(3)));
    assert_eq!(pool.len(), 0);
    assert!(pool.get(&key("ep1", "main", "u"), 0).0.is_none());
}

#[test]
fn the_endpoint_cap_evicts_the_least_recently_used() {
    let mut pool = GlobalConnPool::new(config(10, 2, 1000));
    put(&mut pool, 1, key("ep1", "a", "u"), 5);
    put(&mut pool, 2, key("ep1", "b", "u"), 3);
    match put(&mut pool, 3, key("ep1", "a", "u"), 9) {
        ReleaseOutcome::PooledEvicting(victim) => {
            assert_eq!(victim.client, 2);
            assert_eq!(victim.last_use, 3);
        }
        _ => panic!("a client had to leave"),
    }
    assert_eq!(pool.endpoint_len(&"ep1".to_string()), 2);
    assert_eq!(pool.len(), 2);
    assert!(pool.get(&key("ep1", "b", "u"), 9).0.is_none());
    assert_eq!(pool.get(&key("ep1", "a", "u"), 9).0.unwrap().inner, 1);
    assert_eq!(pool.get(&key("ep1", "a", "u"), 9).0.unwrap().inner, 3);
}

#[test]
fn among_equally_old_clients_the_older_queue_gives_way() {
    let mut pool = GlobalConnPool::new(config(10, 2, 1000));
    put(&mut pool, 1, key("ep1", "a", "u"), 7);
    put(&mut pool, 2, key("ep1", "b", "u"), 7);
    match put(&mut pool, 3, key("ep1", "b", "u"), 8) {
        ReleaseOutcome::PooledEvicting(victim) => assert_eq!(victim.client, 1),
        _ => panic!("a client had to leave"),
    }
}

#[test]
fn the_caps_hold_after_every_release() {
    let mut pool = GlobalConnPool::new(config(5, 2, 1000));
    let endpoints = ["ep1", "ep2", "ep3", "ep4"];
    for n in 0..40u32 {
        let ep = endpoints[(n % 4) as usize];
        let db = if n % 3 == 0 { "a" } else { "b" };
        let _ = put(&mut pool, n, key(ep, db, "u"), u64::from(n));
        assert!(pool.len() <= 5);
        for e in endpoints {
            assert!(pool.endpoint_len(&e.to_string()) <= 2);
        }
    }
    assert_eq!(pool.len(), 5);
}

#[test]
fn a_full_pool_closes_the_client_of_an_endpoint_with_nothing_to_give() {
    let mut pool = GlobalConnPool::new(config(2, 2, 1000));
    put(&mut pool, 1, key("ep1", "a", "u"), 0);
    put(&mut pool, 2, key("ep1", "a", "u"), 1);
    assert!(matches!(put(&mut pool, 3, key("ep2", "a", "u"), 2), ReleaseOutcome::Closed(3)));
    assert_eq!(pool.len(), 2);
    // the endpoint that holds clients makes room among its own
    assert!(matches!(
        put(&mut pool, 4, key("ep1", "a", "u"), 3),
        ReleaseOutcome::PooledEvicting(_)
    ));
    assert_eq!(pool.len(), 2);
}

#[test]
fn a_pool_without_room_takes_nothing() {
    let mut pool = GlobalConnPool::new(config(0, 5, 1000));
    assert!(matches!(put(&mut pool, 1, key("ep1", "a", "u"), 0), ReleaseOutcome::Closed(1)));
    let mut pool = GlobalConnPool::new(config(5, 0, 1000));
    assert!(matches!(put(&mut pool, 1, key("ep1", "a", "u"), 0), ReleaseOutcome::Closed(1)));
    assert_eq!(pool.len(), 0);
}

#[test]
fn gc_forgets_empty_endpoints_past_the_horizon() {
    let mut pool = GlobalConnPool::new(config(10, 5, 100));
    put(&mut pool, 1, key("ep1", "a", "u"), 0);
    put(&mut pool, 2, key("ep2", "a", "u"), 0);
    assert!(pool.get(&key("ep1", "a", "u"), 10).0.is_some());
    assert_eq!(pool.endpoint_count(), 2);
    // ep1 is empty and was last touched at 10; the horizon is 1000
    assert_eq!(pool.gc(1010), 0);
    assert_eq!(pool.gc(1011), 1);
    assert_eq!(pool.endpoint_count(), 1);
    assert_eq!(pool.len(), 1);
    // an endpoint that holds a client stays however old it is
    assert_eq!(pool.gc(1_000_000), 0);
    assert_eq!(pool.endpoint_len(&"ep2".to_string()), 1);
}

#[test]
fn the_sweeper_closes_what_has_rested_too_long() {
    let mut pool = GlobalConnPool::new(config(10, 5, 100));
    put(&mut pool, 1, key("ep1", "a", "u"), 0);
    put(&mut pool, 2, key("ep1", "a", "u"), 200);
    put(&mut pool, 3, key("ep1", "b", "u"), 10);
    put(&mut pool, 4, key("ep2", "a", "u"), 20);
    put(&mut pool, 5, key("ep2", "a", "u"), 150);
    let closed = pool.sweep(210);
    assert_eq!(closed.iter().map(|e| e.client).collect::<Vec<_>>(), vec![1, 3, 4]);
    assert_eq!(pool.len(), 2);
    assert_eq!(pool.get(&key("ep1", "a", "u"), 210).0.unwrap().inner, 2);
    assert_eq!(pool.get(&key("ep2", "a", "u"), 210).0.unwrap().inner, 5);
    assert!(pool.sweep(210).is_empty());
}

#[test]
fn a_connection_fatal_failure_keeps_the_client_out_of_the_pool() {
    let mut pool = GlobalConnPool::new(config(10, 5, 100));
    let mut c = client(1, key("ep1", "main", "u"));
    c.note_failure(false);
    assert!(!c.discard);
    c.note_failure(true);
    assert!(c.discard);
    c.note_failure(false);
    assert!(c.discard);
    assert!(matches!(pool.release(c, false, 0), ReleaseOutcome::Closed(1)));
}
