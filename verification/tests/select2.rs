use umthombo::select2::{Action2, Either2, Event2, Select2};
use umthombo::Taken;

/// Runs one poll, answering each poll the selector asks for from the given
/// queues; returns what the poll returned and which producers it polled.
fn poll<A, B>(
    s: &mut Select2<A, B>,
    woken_a: bool,
    woken_b: bool,
    results_a: &mut Vec<Option<A>>,
    results_b: &mut Vec<Option<B>>,
) -> (Taken<Either2<A, B>>, Vec<char>) {
    let mut polled = Vec::new();
    let mut action = s.step(Event2::Poll { woken_a, woken_b });
    loop {
        match action {
            Action2::PollA => {
                polled.push('a');
                let r = if results_a.is_empty() { None } else { results_a.remove(0) };
                action = s.step(Event2::PolledA(r));
            }
            Action2::PollB => {
                polled.push('b');
                let r = if results_b.is_empty() { None } else { results_b.remove(0) };
                action = s.step(Event2::PolledB(r));
            }
            Action2::Return(t) => return (t, polled),
            Action2::Ignore => panic!("a poll answered as asked is never ignored"),
        }
    }
}

#[test]
fn both_ready_first_poll_takes_a_and_wakes() {
    let mut s = Select2::new();
    assert!(!s.polled_yet());
    let (t, polled) = poll(&mut s, false, false, &mut vec![Some(1u32), None], &mut vec![Some(2u32)]);
    assert!(matches!(t.output, Some(Either2::A(1))));
    assert!(t.wake);
    // both were polled, then the first again to replace its output
    assert_eq!(polled, vec!['a', 'b', 'a']);
    assert!(s.polled_yet());
    assert!(s.has_backlog());
}

#[test]
fn first_pending_second_ready_takes_b() {
    let mut s: Select2<u8, ()> = Select2::new();
    let (t, polled) = poll(&mut s, false, false, &mut vec![None], &mut vec![Some(()), None]);
    assert!(matches!(t.output, Some(Either2::B(()))));
    assert!(!t.wake);
    assert_eq!(polled, vec!['a', 'b', 'b']);
    assert!(!s.has_backlog());
}

#[test]
fn both_pending_returns_nothing() {
    let mut s: Select2<u8, u8> = Select2::new();
    let (t, polled) = poll(&mut s, false, false, &mut vec![], &mut vec![]);
    assert!(t.output.is_none());
    assert!(!t.wake);
    assert_eq!(polled, vec!['a', 'b']);
}

#[test]
fn waiting_output_is_handed_out_before_any_other_poll() {
    let mut s = Select2::new();
    let (t, _) = poll(&mut s, false, false, &mut vec![Some(10u32), None], &mut vec![Some(20u32)]);
    assert!(matches!(t.output, Some(Either2::A(10))));
    // the second producer still holds 20: a woken first producer is not polled
    let (t, polled) = poll(&mut s, true, true, &mut vec![Some(99)], &mut vec![None]);
    assert!(matches!(t.output, Some(Either2::B(20))));
    assert!(!t.wake);
    assert_eq!(polled, vec!['b']);
}

#[test]
fn after_first_poll_only_woken_are_polled() {
    let mut s: Select2<u8, u8> = Select2::new();
    let _ = poll(&mut s, false, false, &mut vec![], &mut vec![]);
    let (_, polled) = poll(&mut s, false, true, &mut vec![], &mut vec![]);
    assert_eq!(polled, vec!['b']);
    let (_, polled) = poll(&mut s, true, false, &mut vec![], &mut vec![]);
    assert_eq!(polled, vec!['a']);
}

#[test]
fn idle_poll_does_nothing() {
    let mut s: Select2<u8, u8> = Select2::new();
    let _ = poll(&mut s, false, false, &mut vec![], &mut vec![]);
    let action = s.step(Event2::Poll { woken_a: false, woken_b: false });
    match action {
        Action2::Return(t) => assert!(t.output.is_none() && !t.wake),
        _ => panic!("an idle poll returns at once"),
    }
    assert!(!s.has_backlog());
}

#[test]
fn unexpected_result_is_ignored() {
    let mut s: Select2<u8, u8> = Select2::new();
    assert!(matches!(s.step(Event2::PolledA(Some(3))), Action2::Ignore));
    assert!(!s.has_backlog());
    assert!(!s.polled_yet());
    // mid-poll, a result from the producer not asked for is ignored too
    assert!(matches!(s.step(Event2::Poll { woken_a: false, woken_b: false }), Action2::PollA));
    assert!(matches!(s.step(Event2::PolledB(Some(4))), Action2::Ignore));
    assert!(matches!(s.step(Event2::PolledA(None)), Action2::PollB));
}

#[test]
fn unfinished_poll_is_carried_on() {
    let mut s: Select2<u8, u8> = Select2::new();
    assert!(matches!(s.step(Event2::Poll { woken_a: false, woken_b: false }), Action2::PollA));
    // a new poll begins before the first producer's result came: it asks again
    assert!(matches!(s.step(Event2::Poll { woken_a: false, woken_b: true }), Action2::PollA));
    assert!(matches!(s.step(Event2::PolledA(Some(5))), Action2::PollB));
    assert!(matches!(s.step(Event2::PolledB(None)), Action2::PollA));
    assert!(matches!(s.step(Event2::Poll { woken_a: false, woken_b: false }), Action2::PollA));
    match s.step(Event2::PolledA(None)) {
        Action2::Return(t) => assert!(matches!(t.output, Some(Either2::A(5)))),
        _ => panic!("the output is returned"),
    }
}

#[test]
fn no_output_lost_over_polls() {
    // the first producer is always ready; the second is ready once
    let mut s = Select2::new();
    let mut next_a = 0u32;
    let mut got_a = Vec::new();
    let (t, _) = poll(&mut s, false, false, &mut vec![Some(0), Some(1)], &mut vec![Some(100u32)]);
    assert!(matches!(t.output, Some(Either2::A(0))));
    assert!(t.wake);
    got_a.push(0);
    next_a += 2;
    for _ in 0..3 {
        let (t, polled) = poll(&mut s, true, false, &mut vec![Some(next_a)], &mut vec![]);
        next_a += 1;
        match t.output {
            Some(Either2::A(x)) => got_a.push(x),
            _ => panic!("the first producer holds an output"),
        }
        assert!(t.wake);
        assert_eq!(polled, vec!['a']);
    }
    // the first producer keeps winning while it is always ready
    assert_eq!(got_a, vec![0, 1, 2, 3]);
    // once it is pending, the second producer's output comes out: it was kept
    let (t, _) = poll(&mut s, false, false, &mut vec![None], &mut vec![None]);
    assert!(matches!(t.output, Some(Either2::A(4))));
    assert!(t.wake);
    let (t, _) = poll(&mut s, false, false, &mut vec![], &mut vec![None]);
    assert!(matches!(t.output, Some(Either2::B(100))));
    assert!(!t.wake);
}

#[test]
fn try_take_backlog_hands_out_in_order() {
    let mut s = Select2::new();
    let _ = poll(&mut s, false, false, &mut vec![Some(1u8), Some(7)], &mut vec![Some(2u8)]);
    // held now: 7 from the first producer, 2 from the second
    let t = s.try_take_backlog();
    assert!(matches!(t.output, Some(Either2::A(7))));
    assert!(t.wake);
    let t = s.try_take_backlog();
    assert!(matches!(t.output, Some(Either2::B(2))));
    assert!(!t.wake);
    let t = s.try_take_backlog();
    assert!(t.output.is_none() && !t.wake);
}
