use crossbeam::channel::{bounded, TrySendError};
use fanwatch::producer::{Outcome, ProducerState, ProducerStep, BACKOFF_MS, CHANNEL_CAPACITY};

#[test]
fn the_producer_starts_by_reading() {
    assert_eq!(ProducerState::start(), ProducerState::Reading);
    assert_eq!(ProducerState::start().next_step(), ProducerStep::Read);
}

#[test]
fn a_batch_is_sent_event_by_event() {
    let mut s = ProducerState::start().advance(Outcome::Batch(3));
    assert_eq!(s, ProducerState::Forwarding { next: 0, len: 3 });
    for i in 0..3 {
        assert_eq!(s.next_step(), ProducerStep::Send(i));
        s = s.advance(Outcome::Sent);
    }
    assert_eq!(s, ProducerState::Reading);
    assert_eq!(s.next_step(), ProducerStep::Read);
}

#[test]
fn an_empty_batch_is_followed_by_a_read() {
    let s = ProducerState::start().advance(Outcome::Batch(0));
    assert_eq!(s, ProducerState::Reading);
}

#[test]
fn a_batch_of_one_is_sent_once() {
    let s = ProducerState::start().advance(Outcome::Batch(1));
    assert_eq!(s.next_step(), ProducerStep::Send(0));
    assert_eq!(s.advance(Outcome::Sent), ProducerState::Reading);
}

#[test]
fn a_failed_read_is_followed_by_a_pause_of_250_ms() {
    assert_eq!(BACKOFF_MS, 250);
    let s = ProducerState::start().advance(Outcome::ReadFailed);
    assert_eq!(s, ProducerState::Backoff);
    assert_eq!(s.next_step(), ProducerStep::Pause(250));
    assert_eq!(s.advance(Outcome::Rested), ProducerState::Reading);
}

#[test]
fn reads_are_retried_without_limit() {
    let mut s = ProducerState::start();
    for _ in 0..10_000 {
        assert_eq!(s.next_step(), ProducerStep::Read);
        s = s.advance(Outcome::ReadFailed);
        assert_eq!(s.next_step(), ProducerStep::Pause(BACKOFF_MS));
        s = s.advance(Outcome::Rested);
    }
    assert_eq!(s, ProducerState::Reading);
}

#[test]
fn a_disconnected_channel_drops_the_rest_of_the_batch() {
    let s = ProducerState::start().advance(Outcome::Batch(5)).advance(Outcome::Sent);
    assert_eq!(s.next_step(), ProducerStep::Send(1));
    let s = s.advance(Outcome::Disconnected);
    assert_eq!(s, ProducerState::Reading);
    let s = s.advance(Outcome::Batch(2));
    assert_eq!(s.next_step(), ProducerStep::Send(0));
    assert_eq!(s.advance(Outcome::Disconnected), ProducerState::Reading);
}

#[test]
fn an_outcome_of_another_step_changes_nothing() {
    let reading = ProducerState::Reading;
    for o in [Outcome::Sent, Outcome::Disconnected, Outcome::Rested] {
        assert_eq!(reading.advance(o), reading);
    }
    let forwarding = ProducerState::Forwarding { next: 1, len: 4 };
    for o in [Outcome::Batch(9), Outcome::ReadFailed, Outcome::Rested] {
        assert_eq!(forwarding.advance(o), forwarding);
    }
    let backoff = ProducerState::Backoff;
    for o in [Outcome::Batch(9), Outcome::ReadFailed, Outcome::Sent, Outcome::Disconnected] {
        assert_eq!(backoff.advance(o), backoff);
    }
}

#[test]
fn the_last_index_of_the_largest_batch_does_not_overflow() {
    let s = ProducerState::Forwarding { next: usize::MAX - 1, len: usize::MAX };
    assert_eq!(s.advance(Outcome::Sent), ProducerState::Reading);
    let s = ProducerState::Forwarding { next: usize::MAX, len: usize::MAX };
    assert_eq!(s.advance(Outcome::Sent), ProducerState::Reading);
}

#[test]
fn events_cross_a_channel_in_batch_order() {
    assert_eq!(CHANNEL_CAPACITY, 512);
    let (tx, rx) = bounded::<(usize, usize)>(CHANNEL_CAPACITY);
    let batches = [3usize, 0, 1, 5];
    let mut sent = Vec::new();
    let mut state = ProducerState::start();
    for (b, len) in batches.iter().enumerate() {
        assert_eq!(state.next_step(), ProducerStep::Read);
        state = state.advance(Outcome::Batch(*len));
        while let ProducerStep::Send(i) = state.next_step() {
            tx.send((b, i)).unwrap();
            sent.push((b, i));
            state = state.advance(Outcome::Sent);
        }
    }
    drop(tx);
    let received: Vec<(usize, usize)> = rx.iter().collect();
    assert_eq!(received, sent);
    assert_eq!(
        received,
        vec![(0, 0), (0, 1), (0, 2), (2, 0), (3, 0), (3, 1), (3, 2), (3, 3), (3, 4)]
    );
}

#[test]
fn a_full_channel_holds_the_producer_until_a_slot_is_free() {
    let (tx, rx) = bounded::<usize>(CHANNEL_CAPACITY);
    let len = CHANNEL_CAPACITY + 3;
    let mut state = ProducerState::start().advance(Outcome::Batch(len));
    let mut received = Vec::new();
    let mut stalls = 0;
    while let ProducerStep::Send(i) = state.next_step() {
        match tx.try_send(i) {
            Ok(()) => state = state.advance(Outcome::Sent),
            Err(TrySendError::Full(_)) => {
                assert_eq!(rx.len(), CHANNEL_CAPACITY);
                assert_eq!(state.next_step(), ProducerStep::Send(i));
                stalls += 1;
                received.push(rx.recv().unwrap());
            }
            Err(TrySendError::Disconnected(_)) => unreachable!(),
        }
    }
    assert_eq!(stalls, 3);
    drop(tx);
    received.extend(rx.iter());
    assert_eq!(received, (0..len).collect::<Vec<usize>>());
}

#[test]
fn a_dropped_receiver_ends_the_forwarding() {
    let (tx, rx) = bounded::<usize>(CHANNEL_CAPACITY);
    drop(rx);
    let mut state = ProducerState::start().advance(Outcome::Batch(4));
    let mut attempts = 0;
    while let ProducerStep::Send(i) = state.next_step() {
        attempts += 1;
        state = if tx.send(i).is_ok() {
            state.advance(Outcome::Sent)
        } else {
            state.advance(Outcome::Disconnected)
        };
    }
    assert_eq!(attempts, 1);
    assert_eq!(state, ProducerState::Reading);
}
