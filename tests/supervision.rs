use ppio::{body_failed, join_outcome, Error, Supervisor};

fn user(msg: &str) -> Error {
    Error::User(anyhow::Error::msg(msg.to_string()))
}

fn internal(msg: &str) -> Error {
    Error::Internal(anyhow::Error::msg(msg.to_string()))
}

#[test]
fn inner_returns_the_carried_error() {
    assert_eq!(user("bad input").inner().to_string(), "bad input");
    assert_eq!(internal("closed").inner().to_string(), "closed");
}

#[test]
fn is_user_tells_the_variants_apart() {
    assert!(user("x").is_user());
    assert!(!internal("x").is_user());
}

#[test]
fn body_failure_is_a_user_error() {
    let e = body_failed(anyhow::Error::msg("body broke"));
    assert!(e.is_user());
    assert_eq!(e.inner().to_string(), "body broke");
}

#[test]
fn first_user_error_is_returned_at_once() {
    // Three tasks; the second raises a user error before the others stop.
    let mut sup = Supervisor::new(3);
    let r = sup.on_finished(user("task two failed"));
    match r {
        Some(Error::User(e)) => assert_eq!(e.to_string(), "task two failed"),
        other => panic!("unexpected result: {:?}", other),
    }
    // No other task was waited for.
    assert_eq!(sup.remaining(), 3);
}

#[test]
fn user_error_after_internal_stops() {
    let mut sup = Supervisor::new(3);
    assert!(sup.on_finished(internal("channel closed")).is_none());
    assert_eq!(sup.remaining(), 2);
    match sup.on_finished(user("task two failed")) {
        Some(Error::User(e)) => assert_eq!(e.to_string(), "task two failed"),
        other => panic!("unexpected result: {:?}", other),
    }
}

#[test]
fn all_stopped_without_user_error_is_internal() {
    let mut sup = Supervisor::new(2);
    assert!(sup.on_finished(internal("a")).is_none());
    match sup.on_finished(internal("b")) {
        Some(Error::Internal(e)) => {
            assert_eq!(e.to_string(), "no user errors reported, but all tasks failed")
        }
        other => panic!("unexpected result: {:?}", other),
    }
    assert_eq!(sup.remaining(), 0);
}

#[test]
fn joined_task_keeps_its_error() {
    match join_outcome(Ok(user("u"))) {
        Error::User(e) => assert_eq!(e.to_string(), "u"),
        other => panic!("unexpected: {:?}", other),
    }
    match join_outcome(Ok(internal("i"))) {
        Error::Internal(e) => assert_eq!(e.to_string(), "i"),
        other => panic!("unexpected: {:?}", other),
    }
}

#[test]
fn aborted_task_is_internal() {
    match join_outcome(Err(anyhow::Error::msg("task panicked"))) {
        Error::Internal(e) => assert_eq!(e.to_string(), "task panicked"),
        other => panic!("unexpected: {:?}", other),
    }
}
