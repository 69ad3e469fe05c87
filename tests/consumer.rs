use ppio::{take_state, take_states, Error, Latest, PushDriver, State, StateCheck};

#[test]
fn consumer_hands_items_in_order() {
    let (tx, rx) = async_channel::unbounded::<u32>();
    for i in 0..20u32 {
        tx.try_send(i).unwrap();
    }
    let mut d = PushDriver::new();
    let mut handled = Vec::new();
    for _ in 0..20 {
        assert!(!d.busy());
        let item = d.on_received(rx.try_recv().ok()).unwrap();
        assert!(d.busy());
        handled.push(item);
        assert!(d.on_handled(Ok(())).is_ok());
    }
    assert_eq!(handled, (0..20).collect::<Vec<u32>>());
}

#[test]
fn direct_and_piped_outputs_agree() {
    // The outputs of a body called directly, and the same outputs through a
    // channel into a recording consumer.
    let body = |n: u64| -> Vec<u64> { (0..n).map(|i| i * i).collect() };
    let direct = body(15);
    let (tx, rx) = async_channel::bounded::<u64>(4);
    let mut d = PushDriver::new();
    let mut recorded = Vec::new();
    let mut next = 0usize;
    while recorded.len() < direct.len() {
        while next < direct.len() && tx.try_send(direct[next]).is_ok() {
            next += 1;
        }
        let item = d.on_received(rx.try_recv().ok()).unwrap();
        recorded.push(item);
        d.on_handled(Ok(())).unwrap();
    }
    assert_eq!(recorded, direct);
}

#[test]
fn closed_input_is_internal() {
    let mut d: PushDriver<u32> = PushDriver::new();
    match d.on_received(None) {
        Err(Error::Internal(e)) => assert_eq!(e.to_string(), "receiving on a closed channel"),
        other => panic!("unexpected: {:?}", other),
    }
    assert!(!d.busy());
}

#[test]
fn failing_handler_is_user_error() {
    let mut d = PushDriver::new();
    assert_eq!(d.on_received(Some(3u8)).unwrap(), 3);
    match d.on_handled(Err(anyhow::Error::msg("cannot print"))) {
        Err(Error::User(e)) => assert_eq!(e.to_string(), "cannot print"),
        other => panic!("unexpected: {:?}", other),
    }
}

#[derive(Default)]
struct Parity(Option<bool>, u32);

impl State<bool> for Parity {
    fn updated(self, even: bool) -> Self {
        Parity(Some(even), self.1 + 1)
    }

    fn update(&mut self, even: bool) {
        self.0 = Some(even);
        self.1 += 1;
    }
}

#[test]
fn waiting_states_are_folded_in_order() {
    let (tx, rx) = async_channel::unbounded::<bool>();
    let mut p = Parity::default();
    assert!(take_states(&mut p, &rx, true));
    assert_eq!(p.1, 0);
    tx.try_send(true).unwrap();
    tx.try_send(false).unwrap();
    assert!(take_states(&mut p, &rx, true));
    assert_eq!(p.0, Some(false));
    assert_eq!(p.1, 2);
}

#[test]
fn closed_state_channel_is_no_failure() {
    let (tx, rx) = async_channel::unbounded::<bool>();
    let mut p = Parity::default();
    tx.try_send(true).unwrap();
    drop(tx);
    // The waiting value is folded in, then the channel is seen closed.
    assert!(!take_states(&mut p, &rx, true));
    assert_eq!(p.0, Some(true));
    assert!(!take_states(&mut p, &rx, true));
    assert!(!take_states(&mut p, &rx, false));
    assert_eq!(p.1, 1);
}

#[test]
fn one_look_folds_a_found_value() {
    let mut p = Parity::default();
    assert_eq!(take_state(&mut p, StateCheck::Ready(true)), None);
    assert_eq!((p.0, p.1), (Some(true), 1));
    assert_eq!(take_state(&mut p, StateCheck::Empty), Some(true));
    assert_eq!(take_state(&mut p, StateCheck::Closed), Some(false));
    assert_eq!((p.0, p.1), (Some(true), 1));
}

#[test]
fn default_policy_replaces_the_state() {
    let (tx, rx) = async_channel::unbounded::<u32>();
    let mut cell = Latest::new();
    assert_eq!(cell.get(), None);
    tx.try_send(3).unwrap();
    tx.try_send(9).unwrap();
    assert!(take_states(&mut cell, &rx, true));
    assert_eq!(cell.get(), Some(&9));
    State::update(&mut cell, 4);
    assert_eq!(cell.value, Some(4));
}
