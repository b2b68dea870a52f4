use relay_pool::error::ConnectError;
use relay_pool::pool::{next_attempt, ConnectionPool};

fn names(list: &[&str]) -> Vec<String> {
    list.iter().map(|name| name.to_string()).collect()
}

fn refused(what: &str) -> ConnectError {
    ConnectError::TransportConnect { description: what.to_string() }
}

#[test]
fn new_pool_is_empty() {
    let pool: ConnectionPool<(), u32> = ConnectionPool::new((), "listener-a".to_string());
    assert_eq!(pool.listener_name(), "listener-a");
    assert!(!pool.contains("anything"));
    assert_eq!(pool.get("anything"), None);
    assert!(pool.needs_connect("anything"));
}

#[test]
fn get_or_create_unknown_target_is_not_found() {
    let mut pool: ConnectionPool<(), u32> = ConnectionPool::new((), "l".to_string());
    assert_eq!(pool.connect("kept", Ok(1)), Ok(()));
    let result = pool.get_or_create("ghost", None);
    assert_eq!(result, Err(ConnectError::ConfigNotFound { name: "ghost".to_string() }));
    assert!(!pool.contains("ghost"));
    assert_eq!(pool.get("kept"), Some(&1));
    assert_eq!(pool.listing(&names(&["kept", "ghost"])), vec![("kept".to_string(), &1)]);
}

#[test]
fn get_or_create_not_found_message() {
    let mut pool: ConnectionPool<(), u32> = ConnectionPool::new((), "l".to_string());
    let error = pool.get_or_create("ghost", None).unwrap_err();
    assert_eq!(error.message(), "Target configuration not found for ghost");
}

#[test]
fn get_or_create_connects_on_demand() {
    let mut pool: ConnectionPool<(), u32> = ConnectionPool::new((), "l".to_string());
    assert_eq!(pool.get_or_create("a", Some(Ok(5))), Ok(&5));
    assert!(pool.contains("a"));
    assert!(!pool.needs_connect("a"));
}

#[test]
fn get_or_create_returns_the_kept_connection() {
    let mut pool: ConnectionPool<(), u32> = ConnectionPool::new((), "l".to_string());
    assert_eq!(pool.get_or_create("a", Some(Ok(5))), Ok(&5));
    assert_eq!(pool.get_or_create("a", Some(Ok(6))), Ok(&5));
    assert_eq!(pool.get_or_create("a", None), Ok(&5));
    assert_eq!(pool.get_or_create("a", Some(Err(refused("down")))), Ok(&5));
}

#[test]
fn get_or_create_hands_a_failure_on() {
    let mut pool: ConnectionPool<(), u32> = ConnectionPool::new((), "l".to_string());
    assert_eq!(pool.get_or_create("a", Some(Err(refused("down")))), Err(refused("down")));
    assert!(!pool.contains("a"));
    assert!(pool.needs_connect("a"));
}

#[test]
fn connect_is_idempotent() {
    let mut pool: ConnectionPool<(), &str> = ConnectionPool::new((), "l".to_string());
    assert!(pool.needs_connect("a"));
    assert_eq!(pool.connect("a", Ok("first")), Ok(()));
    assert!(!pool.needs_connect("a"));
    assert_eq!(pool.connect("a", Ok("second")), Ok(()));
    assert_eq!(pool.get("a"), Some(&"first"));
    assert_eq!(pool.connect("a", Err(refused("late"))), Ok(()));
    assert_eq!(pool.get("a"), Some(&"first"));
}

#[test]
fn connect_failure_leaves_the_pool_unchanged() {
    let mut pool: ConnectionPool<(), u32> = ConnectionPool::new((), "l".to_string());
    assert_eq!(pool.connect("a", Ok(1)), Ok(()));
    assert_eq!(pool.connect("b", Err(refused("down"))), Err(refused("down")));
    assert!(pool.contains("a"));
    assert!(!pool.contains("b"));
}

#[test]
fn remove_absent_returns_none() {
    let mut pool: ConnectionPool<(), u32> = ConnectionPool::new((), "l".to_string());
    assert_eq!(pool.remove("a"), None);
    assert_eq!(pool.connect("b", Ok(2)), Ok(()));
    assert_eq!(pool.remove("a"), None);
    assert_eq!(pool.get("b"), Some(&2));
}

#[test]
fn remove_present_returns_the_entry_and_forgets_it() {
    let mut pool: ConnectionPool<(), u32> = ConnectionPool::new((), "l".to_string());
    assert_eq!(pool.connect("a", Ok(1)), Ok(()));
    assert_eq!(pool.connect("b", Ok(2)), Ok(()));
    assert_eq!(pool.connect("c", Ok(3)), Ok(()));
    assert_eq!(pool.remove("b"), Some(2));
    assert_eq!(pool.remove("b"), None);
    assert!(pool.needs_connect("b"));
    assert_eq!(pool.get("a"), Some(&1));
    assert_eq!(pool.get("c"), Some(&3));
    assert_eq!(
        pool.get_or_create("b", None),
        Err(ConnectError::ConfigNotFound { name: "b".to_string() })
    );
    assert_eq!(pool.get_or_create("b", Some(Ok(20))), Ok(&20));
}

#[test]
fn names_are_compared_exactly() {
    let mut pool: ConnectionPool<(), u32> = ConnectionPool::new((), "l".to_string());
    assert_eq!(pool.connect("Svc", Ok(1)), Ok(()));
    assert!(!pool.contains("svc"));
    assert!(!pool.contains("Svc "));
    assert!(!pool.contains(""));
    assert_eq!(pool.connect("", Ok(0)), Ok(()));
    assert_eq!(pool.get(""), Some(&0));
}

#[test]
fn missing_targets_keeps_the_order_of_the_snapshot() {
    let mut pool: ConnectionPool<(), u32> = ConnectionPool::new((), "l".to_string());
    assert_eq!(pool.connect("b", Ok(2)), Ok(()));
    assert_eq!(pool.missing_targets(&names(&["c", "b", "a"])), names(&["c", "a"]));
    assert_eq!(pool.missing_targets(&names(&[])), names(&[]));
    assert_eq!(pool.missing_targets(&names(&["b"])), names(&[]));
}

#[test]
fn list_returns_one_entry_per_target_once_all_succeed() {
    let mut pool: ConnectionPool<(), u32> = ConnectionPool::new((), "l".to_string());
    assert_eq!(pool.connect("b", Ok(2)), Ok(()));
    let snapshot = names(&["a", "b", "c"]);
    let listed = pool.list(&snapshot, vec![Ok(1), Ok(3)]).unwrap();
    assert_eq!(
        listed,
        vec![("a".to_string(), &1), ("b".to_string(), &2), ("c".to_string(), &3)]
    );
}

#[test]
fn list_aborts_on_the_first_failure_and_keeps_what_was_connected() {
    let mut pool: ConnectionPool<(), u32> = ConnectionPool::new((), "l".to_string());
    let snapshot = names(&["first", "second", "third"]);
    let result = pool.list(&snapshot, vec![Ok(1), Err(refused("second is down"))]);
    assert_eq!(result, Err(refused("second is down")));
    assert_eq!(pool.get("first"), Some(&1));
    assert!(!pool.contains("second"));
    assert!(!pool.contains("third"));
}

#[test]
fn list_does_not_look_past_the_first_failure() {
    let mut pool: ConnectionPool<(), u32> = ConnectionPool::new((), "l".to_string());
    let snapshot = names(&["first", "second", "third"]);
    let result = pool.list(&snapshot, vec![Err(refused("one")), Ok(2), Err(refused("three"))]);
    assert_eq!(result, Err(refused("one")));
    assert!(!pool.contains("first"));
    assert!(!pool.contains("second"));
    assert!(!pool.contains("third"));
}

#[test]
fn list_of_an_empty_snapshot_is_empty() {
    let mut pool: ConnectionPool<(), u32> = ConnectionPool::new((), "l".to_string());
    assert_eq!(pool.connect("kept", Ok(9)), Ok(()));
    assert_eq!(pool.list(&names(&[]), vec![]), Ok(vec![]));
    assert!(pool.contains("kept"));
}

#[test]
fn list_leaves_out_targets_that_were_not_attempted() {
    let mut pool: ConnectionPool<(), u32> = ConnectionPool::new((), "l".to_string());
    let snapshot = names(&["a", "b"]);
    assert_eq!(pool.list(&snapshot, vec![Ok(1)]), Ok(vec![("a".to_string(), &1)]));
    assert!(!pool.contains("b"));
}

#[test]
fn list_leaves_out_connections_that_the_snapshot_does_not_name() {
    let mut pool: ConnectionPool<(), u32> = ConnectionPool::new((), "l".to_string());
    assert_eq!(pool.connect("old", Ok(7)), Ok(()));
    let snapshot = names(&["new"]);
    assert_eq!(pool.list(&snapshot, vec![Ok(1)]), Ok(vec![("new".to_string(), &1)]));
    assert_eq!(pool.get("old"), Some(&7));
}

#[test]
fn list_with_everything_connected_needs_no_attempt() {
    let mut pool: ConnectionPool<(), u32> = ConnectionPool::new((), "l".to_string());
    assert_eq!(pool.connect("a", Ok(1)), Ok(()));
    let snapshot = names(&["a"]);
    assert_eq!(
        pool.list(&snapshot, vec![Err(refused("never looked at"))]),
        Ok(vec![("a".to_string(), &1)])
    );
}

#[test]
fn listing_follows_the_snapshot() {
    let mut pool: ConnectionPool<(), u32> = ConnectionPool::new((), "l".to_string());
    assert_eq!(pool.connect("a", Ok(1)), Ok(()));
    assert_eq!(pool.connect("b", Ok(2)), Ok(()));
    assert_eq!(
        pool.listing(&names(&["b", "x", "a"])),
        vec![("b".to_string(), &2), ("a".to_string(), &1)]
    );
}

#[test]
fn len_counts_the_connections() {
    let mut pool: ConnectionPool<(), u32> = ConnectionPool::new((), "l".to_string());
    assert_eq!(pool.len(), 0);
    assert_eq!(pool.connect("a", Ok(1)), Ok(()));
    assert_eq!(pool.connect("b", Ok(2)), Ok(()));
    assert_eq!(pool.connect("a", Ok(3)), Ok(()));
    assert_eq!(pool.len(), 2);
    assert_eq!(pool.remove("a"), Some(1));
    assert_eq!(pool.len(), 1);
    assert_eq!(pool.connect("c", Err(refused("down"))), Err(refused("down")));
    assert_eq!(pool.len(), 1);
}

#[test]
fn next_attempt_follows_the_missing_targets() {
    let missing = names(&["a", "b", "c"]);
    let mut outcomes: Vec<Result<u32, ConnectError>> = vec![];
    assert_eq!(next_attempt(&missing, &outcomes), Some(0));
    outcomes.push(Ok(1));
    assert_eq!(next_attempt(&missing, &outcomes), Some(1));
    outcomes.push(Ok(2));
    assert_eq!(next_attempt(&missing, &outcomes), Some(2));
    outcomes.push(Ok(3));
    assert_eq!(next_attempt(&missing, &outcomes), None);
}

#[test]
fn next_attempt_stops_after_a_failure() {
    let missing = names(&["a", "b", "c"]);
    let outcomes: Vec<Result<u32, ConnectError>> = vec![Ok(1), Err(refused("b is down"))];
    assert_eq!(next_attempt(&missing, &outcomes), None);
    let outcomes: Vec<Result<u32, ConnectError>> = vec![Err(refused("a is down"))];
    assert_eq!(next_attempt(&missing, &outcomes), None);
    let outcomes: Vec<Result<u32, ConnectError>> = vec![Err(refused("a is down")), Ok(2)];
    assert_eq!(next_attempt(&missing, &outcomes), None);
}

#[test]
fn next_attempt_has_nothing_to_do_without_missing_targets() {
    let outcomes: Vec<Result<u32, ConnectError>> = vec![];
    assert_eq!(next_attempt(&names(&[]), &outcomes), None);
    let outcomes: Vec<Result<u32, ConnectError>> = vec![Ok(1), Ok(2)];
    assert_eq!(next_attempt(&names(&["a"]), &outcomes), None);
}

#[test]
fn list_attempts_in_order_and_never_after_a_failure() {
    let mut pool: ConnectionPool<(), u32> = ConnectionPool::new((), "l".to_string());
    let snapshot = names(&["a", "b", "c"]);
    let missing = pool.missing_targets(&snapshot);
    let mut attempted: Vec<String> = vec![];
    let mut outcomes: Vec<Result<u32, ConnectError>> = vec![];
    while let Some(next) = next_attempt(&missing, &outcomes) {
        attempted.push(missing[next].clone());
        if missing[next] == "b" {
            outcomes.push(Err(refused("b is down")));
        } else {
            outcomes.push(Ok(1));
        }
    }
    assert_eq!(attempted, names(&["a", "b"]));
    assert_eq!(pool.list(&snapshot, outcomes), Err(refused("b is down")));
    assert!(pool.contains("a"));
    assert!(!pool.contains("b"));
    assert!(!pool.contains("c"));
}
