use umthombo::select3::{Action3, Either3, Event3, Select3};
use umthombo::Taken;

/// Runs one poll, answering each poll the selector asks for from the given
/// queues; returns what the poll returned and which producers it polled.
fn poll<A, B, C>(
    s: &mut Select3<A, B, C>,
    woken: (bool, bool, bool),
    results_a: &mut Vec<Option<A>>,
    results_b: &mut Vec<Option<B>>,
    results_c: &mut Vec<Option<C>>,
) -> (Taken<Either3<A, B, C>>, Vec<char>) {
    let mut polled = Vec::new();
    let mut action = s.step(Event3::Poll { woken_a: woken.0, woken_b: woken.1, woken_c: woken.2 });
    loop {
        match action {
            Action3::PollA => {
                polled.push('a');
                let r = if results_a.is_empty() { None } else { results_a.remove(0) };
                action = s.step(Event3::PolledA(r));
            }
            Action3::PollB => {
                polled.push('b');
                let r = if results_b.is_empty() { None } else { results_b.remove(0) };
                action = s.step(Event3::PolledB(r));
            }
            Action3::PollC => {
                polled.push('c');
                let r = if results_c.is_empty() { None } else { results_c.remove(0) };
                action = s.step(Event3::PolledC(r));
            }
            Action3::Return(t) => return (t, polled),
            Action3::Ignore => panic!("a poll answered as asked is never ignored"),
        }
    }
}

const NO_WAKES: (bool, bool, bool) = (false, false, false);

#[test]
fn pending_ready_pending_takes_b() {
    let mut s: Select3<u32, u32, u32> = Select3::new();
    let (t, polled) = poll(&mut s, NO_WAKES, &mut vec![], &mut vec![Some(2)], &mut vec![]);
    assert!(matches!(t.output, Some(Either3::B(2))));
    assert!(!t.wake);
    assert_eq!(polled, vec!['a', 'b', 'c', 'b']);
}

#[test]
fn only_third_ready_takes_c() {
    let mut s: Select3<u32, u32, u32> = Select3::new();
    let (t, polled) = poll(&mut s, NO_WAKES, &mut vec![], &mut vec![], &mut vec![Some(3)]);
    assert!(matches!(t.output, Some(Either3::C(3))));
    assert!(!t.wake);
    assert_eq!(polled, vec!['a', 'b', 'c', 'c']);
    assert!(!s.has_backlog());
}

#[test]
fn a_taken_wakes_when_c_waits() {
    let mut s: Select3<u32, u32, u32> = Select3::new();
    let (t, _) = poll(&mut s, NO_WAKES, &mut vec![Some(1)], &mut vec![], &mut vec![Some(3)]);
    assert!(matches!(t.output, Some(Either3::A(1))));
    assert!(t.wake);
}

#[test]
fn b_taken_wakes_only_when_c_waits() {
    let mut s: Select3<u32, u32, u32> = Select3::new();
    let (t, _) = poll(&mut s, NO_WAKES, &mut vec![], &mut vec![Some(2)], &mut vec![Some(3)]);
    assert!(matches!(t.output, Some(Either3::B(2))));
    assert!(t.wake);
    let (t, polled) = poll(&mut s, (true, true, true), &mut vec![], &mut vec![], &mut vec![]);
    assert!(matches!(t.output, Some(Either3::C(3))));
    assert!(!t.wake);
    assert_eq!(polled, vec!['c']);
}

#[test]
fn all_pending_then_woken_c() {
    let mut s: Select3<u32, u32, u32> = Select3::new();
    let (t, _) = poll(&mut s, NO_WAKES, &mut vec![], &mut vec![], &mut vec![]);
    assert!(t.output.is_none() && !t.wake);
    let (t, polled) = poll(&mut s, (false, false, true), &mut vec![], &mut vec![], &mut vec![Some(9)]);
    assert!(matches!(t.output, Some(Either3::C(9))));
    assert_eq!(polled, vec!['c', 'c']);
}

#[test]
fn idle_poll_does_nothing3() {
    let mut s: Select3<u32, u32, u32> = Select3::new();
    let _ = poll(&mut s, NO_WAKES, &mut vec![], &mut vec![], &mut vec![]);
    assert!(s.polled_yet());
    let (t, polled) = poll(&mut s, NO_WAKES, &mut vec![], &mut vec![], &mut vec![]);
    assert!(t.output.is_none() && !t.wake);
    assert!(polled.is_empty());
}

#[test]
fn unexpected_result_is_ignored3() {
    let mut s: Select3<u8, u8, u8> = Select3::new();
    assert!(matches!(s.step(Event3::PolledC(Some(1))), Action3::Ignore));
    assert!(!s.polled_yet());
    assert!(!s.has_backlog());
}

#[test]
fn try_take_backlog_hands_out_in_order3() {
    let mut s: Select3<u8, u8, u8> = Select3::new();
    let _ = poll(&mut s, NO_WAKES, &mut vec![Some(1), Some(4)], &mut vec![Some(2)], &mut vec![Some(3)]);
    let t = s.try_take_backlog();
    assert!(matches!(t.output, Some(Either3::A(4))));
    assert!(t.wake);
    let t = s.try_take_backlog();
    assert!(matches!(t.output, Some(Either3::B(2))));
    assert!(t.wake);
    let t = s.try_take_backlog();
    assert!(matches!(t.output, Some(Either3::C(3))));
    assert!(!t.wake);
}
