//! Selecting over three producers.
//!
//! A poll of the selector is a run of [`Select3::step`]: the caller reports
//! that a poll begins, with which producers were woken, and then performs the
//! actions the selector asks for (polling a producer and reporting what that
//! gave) until the selector returns an output or nothing.
use vstd::multiset::Multiset;
use vstd::prelude::*;

use crate::{handed_out, Backlog, Taken};

verus! {

broadcast use vstd::multiset::group_multiset_axioms;

/// An output of one of three producers.
pub enum Either3<A, B, C> {
    A(A),
    B(B),
    C(C),
}

/// Which producers a poll of the selector polls before it hands out an output.
pub struct Plan3 {
    pub poll_a: bool,
    pub poll_b: bool,
    pub poll_c: bool,
}

/// What the caller reports to the selector.
pub enum Event3<A, B, C> {
    /// A poll begins; the flags say which producers were woken since they
    /// were last polled.
    Poll { woken_a: bool, woken_b: bool, woken_c: bool },
    /// Polling the first producer gave this (`None` while it is pending).
    PolledA(Option<A>),
    /// Polling the second producer gave this (`None` while it is pending).
    PolledB(Option<B>),
    /// Polling the third producer gave this (`None` while it is pending).
    PolledC(Option<C>),
}

/// What the selector asks the caller to do next.
pub enum Action3<A, B, C> {
    /// Poll the first producer and report the result with `PolledA`.
    PollA,
    /// Poll the second producer and report the result with `PolledB`.
    PollB,
    /// Poll the third producer and report the result with `PolledC`.
    PollC,
    /// The poll ends: return the output, if any, and wake the task if asked.
    Return(Taken<Either3<A, B, C>>),
    /// The event did not fit what the selector waits for; nothing changed.
    Ignore,
}

/// Where the selector stands within a poll.
pub enum Phase3<A, B, C> {
    /// No poll is under way.
    Idle,
    /// The planned polls whose results were not reported yet.
    Polling { poll_a: bool, poll_b: bool, poll_c: bool },
    /// An output was taken; its producer is polled again before it is returned.
    Handing(Taken<Either3<A, B, C>>),
}

/// The state of a three-way selector: the output each producer has made ready
/// and that was not handed out yet, whether the producers were ever polled,
/// and where a poll under way stands.
pub struct SelectState3<A, B, C> {
    pub a: Option<A>,
    pub b: Option<B>,
    pub c: Option<C>,
    pub polled_yet: bool,
    pub phase: Phase3<A, B, C>,
}

/// The outputs held in the first producer's backlog.
pub open spec fn held3_a<A, B, C>(a: Option<A>) -> Multiset<Either3<A, B, C>> {
    match a {
        Some(x) => Multiset::singleton(Either3::A(x)),
        None => Multiset::empty(),
    }
}

/// The outputs held in the second producer's backlog.
pub open spec fn held3_b<A, B, C>(b: Option<B>) -> Multiset<Either3<A, B, C>> {
    match b {
        Some(y) => Multiset::singleton(Either3::B(y)),
        None => Multiset::empty(),
    }
}

/// The outputs held in the third producer's backlog.
pub open spec fn held3_c<A, B, C>(c: Option<C>) -> Multiset<Either3<A, B, C>> {
    match c {
        Some(z) => Multiset::singleton(Either3::C(z)),
        None => Multiset::empty(),
    }
}

/// The outputs that an event reports.
pub open spec fn reported3<A, B, C>(event: Event3<A, B, C>) -> Multiset<Either3<A, B, C>> {
    match event {
        Event3::Poll { .. } => Multiset::empty(),
        Event3::PolledA(r) => held3_a::<A, B, C>(r),
        Event3::PolledB(r) => held3_b::<A, B, C>(r),
        Event3::PolledC(r) => held3_c::<A, B, C>(r),
    }
}

/// The outputs that an action returns.
pub open spec fn returned3<A, B, C>(action: Action3<A, B, C>) -> Multiset<Either3<A, B, C>> {
    match action {
        Action3::Return(t) => handed_out(t.output),
        _ => Multiset::empty(),
    }
}

/// The poll that hands out an output taken from the backlogs asks for:
/// polling again the producer whose output it is.
pub open spec fn repoll3<A, B, C>(t: Taken<Either3<A, B, C>>) -> Action3<A, B, C> {
    match t.output {
        Some(Either3::A(_)) => Action3::PollA,
        Some(Either3::B(_)) => Action3::PollB,
        Some(Either3::C(_)) => Action3::PollC,
        None => Action3::Ignore,
    }
}

/// Whether an action returns an output of the first producer.
pub open spec fn returns3_a<A, B, C>(action: Action3<A, B, C>) -> bool {
    action matches Action3::Return(t) && t.output matches Some(Either3::A(_))
}

/// Whether an action returns an output of the second producer.
pub open spec fn returns3_b<A, B, C>(action: Action3<A, B, C>) -> bool {
    action matches Action3::Return(t) && t.output matches Some(Either3::B(_))
}

/// Whether an action returns an output of the third producer.
pub open spec fn returns3_c<A, B, C>(action: Action3<A, B, C>) -> bool {
    action matches Action3::Return(t) && t.output matches Some(Either3::C(_))
}

impl<A, B, C> SelectState3<A, B, C> {
    /// A selector whose producers were never polled.
    pub open spec fn initial() -> Self {
        SelectState3 { a: None, b: None, c: None, polled_yet: false, phase: Phase3::Idle }
    }

    /// The same state in another phase.
    pub open spec fn with_phase(self, phase: Phase3<A, B, C>) -> Self {
        SelectState3 { a: self.a, b: self.b, c: self.c, polled_yet: self.polled_yet, phase }
    }

    /// Whether some output waits to be handed out.
    pub open spec fn has_backlog(self) -> bool {
        self.a is Some || self.b is Some || self.c is Some
    }

    /// Every output made ready and not handed out yet.
    pub open spec fn held(self) -> Multiset<Either3<A, B, C>> {
        held3_a::<A, B, C>(self.a).add(held3_b::<A, B, C>(self.b)).add(held3_c::<A, B, C>(self.c))
    }

    /// The held outputs together with the one being handed out, if any.
    pub open spec fn owned(self) -> Multiset<Either3<A, B, C>> {
        match self.phase {
            Phase3::Handing(t) => self.held().add(handed_out(t.output)),
            _ => self.held(),
        }
    }

    /// The states the selector keeps to: until the producers were first
    /// polled nothing is held and no poll is under way; a planned poll is
    /// only of a producer with an empty backlog; an output being handed out
    /// was taken from its producer's backlog, which is empty.
    pub open spec fn wf(self) -> bool {
        &&& self.polled_yet || (!self.has_backlog() && self.phase is Idle)
        &&& match self.phase {
            Phase3::Idle => true,
            Phase3::Polling { poll_a, poll_b, poll_c } => (poll_a ==> self.a is None) && (poll_b
                ==> self.b is None) && (poll_c ==> self.c is None),
            Phase3::Handing(t) => match t.output {
                Some(Either3::A(_)) => self.a is None,
                Some(Either3::B(_)) => self.b is None,
                Some(Either3::C(_)) => self.c is None,
                None => false,
            },
        }
    }

    /// The producers a poll polls: none while an output waits; every producer
    /// on the first poll; afterwards those that were woken.
    pub open spec fn plan(self, woken_a: bool, woken_b: bool, woken_c: bool) -> Plan3 {
        Plan3 {
            poll_a: !self.has_backlog() && (!self.polled_yet || woken_a),
            poll_b: !self.has_backlog() && (!self.polled_yet || woken_b),
            poll_c: !self.has_backlog() && (!self.polled_yet || woken_c),
        }
    }

    /// The state once a poll has been planned: the producers count as polled
    /// once a plan polls them.
    pub open spec fn planned(self) -> Self {
        SelectState3 {
            a: self.a,
            b: self.b,
            c: self.c,
            polled_yet: self.polled_yet || !self.has_backlog(),
            phase: self.phase,
        }
    }

    /// The state once a poll of the first producer gave `polled`.
    pub open spec fn stored_a(self, polled: Option<A>) -> Self {
        SelectState3 { a: polled, b: self.b, c: self.c, polled_yet: self.polled_yet, phase: self.phase }
    }

    /// The state once a poll of the second producer gave `polled`.
    pub open spec fn stored_b(self, polled: Option<B>) -> Self {
        SelectState3 { a: self.a, b: polled, c: self.c, polled_yet: self.polled_yet, phase: self.phase }
    }

    /// The state once a poll of the third producer gave `polled`.
    pub open spec fn stored_c(self, polled: Option<C>) -> Self {
        SelectState3 { a: self.a, b: self.b, c: polled, polled_yet: self.polled_yet, phase: self.phase }
    }

    /// What taking from the backlogs hands out: the output of the first
    /// producer in order that holds one; the task is woken when a later
    /// producer holds an output too.
    pub open spec fn taken(self) -> Taken<Either3<A, B, C>> {
        match self.a {
            Some(x) => Taken { output: Some(Either3::A(x)), wake: self.b is Some || self.c is Some },
            None => match self.b {
                Some(y) => Taken { output: Some(Either3::B(y)), wake: self.c is Some },
                None => match self.c {
                    Some(z) => Taken { output: Some(Either3::C(z)), wake: false },
                    None => Taken { output: None, wake: false },
                },
            },
        }
    }

    /// The state once an output was taken from the backlogs.
    pub open spec fn after_take(self) -> Self {
        match self.a {
            Some(_) => SelectState3 { a: None, b: self.b, c: self.c, polled_yet: self.polled_yet, phase: self.phase },
            None => match self.b {
                Some(_) => SelectState3 { a: None, b: None, c: self.c, polled_yet: self.polled_yet, phase: self.phase },
                None => SelectState3 { a: None, b: None, c: None, polled_yet: self.polled_yet, phase: self.phase },
            },
        }
    }

    /// Goes on with a poll under way: the next planned producer is polled;
    /// once none is left, an output is taken and its producer polled again,
    /// or the poll ends with nothing.
    pub open spec fn advance(self) -> (Self, Action3<A, B, C>) {
        match self.phase {
            Phase3::Polling { poll_a, poll_b, poll_c } => if poll_a {
                (self, Action3::PollA)
            } else if poll_b {
                (self, Action3::PollB)
            } else if poll_c {
                (self, Action3::PollC)
            } else {
                let t = self.taken();
                let s = self.after_take();
                match t.output {
                    Some(_) => (s.with_phase(Phase3::Handing(t)), repoll3(t)),
                    None => (s.with_phase(Phase3::Idle), Action3::Return(t)),
                }
            },
            _ => (self, Action3::Ignore),
        }
    }

    /// The selector's answer to an event: its next state and the action it
    /// asks for. A poll that begins while none is under way is planned; one
    /// that begins while another is unfinished carries that one on; a result
    /// is taken only from the producer the selector waits for.
    pub open spec fn step(self, event: Event3<A, B, C>) -> (Self, Action3<A, B, C>) {
        match self.phase {
            Phase3::Idle => match event {
                Event3::Poll { woken_a, woken_b, woken_c } => {
                    let plan = self.plan(woken_a, woken_b, woken_c);
                    self.planned().with_phase(
                        Phase3::Polling { poll_a: plan.poll_a, poll_b: plan.poll_b, poll_c: plan.poll_c },
                    ).advance()
                },
                _ => (self, Action3::Ignore),
            },
            Phase3::Polling { poll_a, poll_b, poll_c } => match event {
                Event3::Poll { .. } => self.advance(),
                Event3::PolledA(r) => if poll_a {
                    self.stored_a(r).with_phase(
                        Phase3::Polling { poll_a: false, poll_b, poll_c },
                    ).advance()
                } else {
                    (self, Action3::Ignore)
                },
                Event3::PolledB(r) => if !poll_a && poll_b {
                    self.stored_b(r).with_phase(
                        Phase3::Polling { poll_a: false, poll_b: false, poll_c },
                    ).advance()
                } else {
                    (self, Action3::Ignore)
                },
                Event3::PolledC(r) => if !poll_a && !poll_b && poll_c {
                    self.stored_c(r).with_phase(
                        Phase3::Polling { poll_a: false, poll_b: false, poll_c: false },
                    ).advance()
                } else {
                    (self, Action3::Ignore)
                },
            },
            Phase3::Handing(t) => match event {
                Event3::Poll { .. } => (self, repoll3(t)),
                Event3::PolledA(r) => if t.output matches Some(Either3::A(_)) {
                    (self.stored_a(r).with_phase(Phase3::Idle), Action3::Return(t))
                } else {
                    (self, Action3::Ignore)
                },
                Event3::PolledB(r) => if t.output matches Some(Either3::B(_)) {
                    (self.stored_b(r).with_phase(Phase3::Idle), Action3::Return(t))
                } else {
                    (self, Action3::Ignore)
                },
                Event3::PolledC(r) => if t.output matches Some(Either3::C(_)) {
                    (self.stored_c(r).with_phase(Phase3::Idle), Action3::Return(t))
                } else {
                    (self, Action3::Ignore)
                },
            },
        }
    }

    /// The actions of a run that starts with `event` and answers every poll
    /// the selector asks for with the next result from `results_a`,
    /// `results_b` or `results_c`; it stops at an action that is not a poll,
    /// when the results for the asked producer run out, or after `fuel` steps.
    pub open spec fn run(
        self,
        event: Event3<A, B, C>,
        fuel: nat,
        results_a: Seq<Option<A>>,
        results_b: Seq<Option<B>>,
        results_c: Seq<Option<C>>,
    ) -> Seq<Action3<A, B, C>>
        decreases fuel,
    {
        if fuel == 0 {
            Seq::empty()
        } else {
            let (next, action) = self.step(event);
            match action {
                Action3::PollA => if results_a.len() > 0 {
                    seq![action] + next.run(
                        Event3::PolledA(results_a[0]),
                        (fuel - 1) as nat,
                        results_a.drop_first(),
                        results_b,
                        results_c,
                    )
                } else {
                    seq![action]
                },
                Action3::PollB => if results_b.len() > 0 {
                    seq![action] + next.run(
                        Event3::PolledB(results_b[0]),
                        (fuel - 1) as nat,
                        results_a,
                        results_b.drop_first(),
                        results_c,
                    )
                } else {
                    seq![action]
                },
                Action3::PollC => if results_c.len() > 0 {
                    seq![action] + next.run(
                        Event3::PolledC(results_c[0]),
                        (fuel - 1) as nat,
                        results_a,
                        results_b,
                        results_c.drop_first(),
                    )
                } else {
                    seq![action]
                },
                _ => seq![action],
            }
        }
    }
}

/// The decisions of a selector over three producers.
pub struct Select3<A, B, C> {
    a: Backlog<A>,
    b: Backlog<B>,
    c: Backlog<C>,
    polled_yet: bool,
    phase: Phase3<A, B, C>,
}

impl<A, B, C> View for Select3<A, B, C> {
    type V = SelectState3<A, B, C>;

    closed spec fn view(&self) -> SelectState3<A, B, C> {
        SelectState3 {
            a: self.a@,
            b: self.b@,
            c: self.c@,
            polled_yet: self.polled_yet,
            phase: self.phase,
        }
    }
}

impl<A, B, C> Select3<A, B, C> {
    /// A selector whose producers were never polled and that holds no output.
    pub fn new() -> (s: Self)
        ensures
            s@ == SelectState3::<A, B, C>::initial(),
            s@.wf(),
    {
        Select3 {
            a: Backlog::new(),
            b: Backlog::new(),
            c: Backlog::new(),
            polled_yet: false,
            phase: Phase3::Idle,
        }
    }

    /// Whether the producers were polled since the selector was made.
    pub fn polled_yet(&self) -> (r: bool)
        ensures
            r == self@.polled_yet,
    {
        self.polled_yet
    }

    /// Whether some output waits to be handed out.
    pub fn has_backlog(&self) -> (r: bool)
        ensures
            r == self@.has_backlog(),
    {
        self.a.has_backlog() || self.b.has_backlog() || self.c.has_backlog()
    }

    /// Decides which producers a poll polls, given which of them were woken.
    fn plan_poll(&mut self, woken_a: bool, woken_b: bool, woken_c: bool) -> (plan: Plan3)
        ensures
            plan == old(self)@.plan(woken_a, woken_b, woken_c),
            final(self)@ == old(self)@.planned(),
    {
        if self.a.has_backlog() || self.b.has_backlog() || self.c.has_backlog() {
            Plan3 { poll_a: false, poll_b: false, poll_c: false }
        } else if !self.polled_yet {
            self.polled_yet = true;
            Plan3 { poll_a: true, poll_b: true, poll_c: true }
        } else {
            Plan3 { poll_a: woken_a, poll_b: woken_b, poll_c: woken_c }
        }
    }

    /// Records what a poll of the first producer gave.
    fn store_a(&mut self, polled: Option<A>)
        ensures
            final(self)@ == old(self)@.stored_a(polled),
    {
        self.a.store(polled);
    }

    /// Records what a poll of the second producer gave.
    fn store_b(&mut self, polled: Option<B>)
        ensures
            final(self)@ == old(self)@.stored_b(polled),
    {
        self.b.store(polled);
    }

    /// Records what a poll of the third producer gave.
    fn store_c(&mut self, polled: Option<C>)
        ensures
            final(self)@ == old(self)@.stored_c(polled),
    {
        self.c.store(polled);
    }

    /// Takes the output that the poll hands out, in the producers' order, and
    /// says whether the task has to be woken because a later producer holds an
    /// output too. This is one step of a poll: the producer whose output it
    /// takes must be polled again next, so that its fresh future is polled and
    /// what that gives is stored, as `step` does.
    pub fn try_take_backlog(&mut self) -> (t: Taken<Either3<A, B, C>>)
        ensures
            t == old(self)@.taken(),
            final(self)@ == old(self)@.after_take(),
            old(self)@.wf() ==> final(self)@.wf(),
    {
        if self.a.has_backlog() {
            let wake = self.b.has_backlog() || self.c.has_backlog();
            let out = self.a.take_backlog();
            Taken { output: Some(Either3::A(out)), wake }
        } else if self.b.has_backlog() {
            let wake = self.c.has_backlog();
            let out = self.b.take_backlog();
            Taken { output: Some(Either3::B(out)), wake }
        } else if self.c.has_backlog() {
            let out = self.c.take_backlog();
            Taken { output: Some(Either3::C(out)), wake: false }
        } else {
            Taken { output: None, wake: false }
        }
    }

    /// Goes on with the poll under way, whose planned polls not yet reported
    /// are `poll_a`, `poll_b` and `poll_c`.
    fn advance(&mut self, poll_a: bool, poll_b: bool, poll_c: bool) -> (action: Action3<A, B, C>)
        requires
            old(self)@.phase == (Phase3::<A, B, C>::Polling { poll_a, poll_b, poll_c }),
        ensures
            (final(self)@, action) == old(self)@.advance(),
    {
        if poll_a {
            Action3::PollA
        } else if poll_b {
            Action3::PollB
        } else if poll_c {
            Action3::PollC
        } else {
            let t = self.try_take_backlog();
            let which: u8 = match &t.output {
                Some(Either3::A(_)) => 0,
                Some(Either3::B(_)) => 1,
                Some(Either3::C(_)) => 2,
                None => 3,
            };
            if which == 0 {
                self.phase = Phase3::Handing(t);
                Action3::PollA
            } else if which == 1 {
                self.phase = Phase3::Handing(t);
                Action3::PollB
            } else if which == 2 {
                self.phase = Phase3::Handing(t);
                Action3::PollC
            } else {
                self.phase = Phase3::Idle;
                Action3::Return(t)
            }
        }
    }

    /// Answers an event of a poll with the action the caller is to perform.
    pub fn step(&mut self, event: Event3<A, B, C>) -> (action: Action3<A, B, C>)
        ensures
            (final(self)@, action) == old(self)@.step(event),
            old(self)@.wf() ==> final(self)@.wf(),
    {
        proof {
            if self@.wf() {
                lemma_step_keeps_wf3(self@, event);
            }
        }
        let mut phase = Phase3::Idle;
        std::mem::swap(&mut phase, &mut self.phase);
        match phase {
            Phase3::Idle => match event {
                Event3::Poll { woken_a, woken_b, woken_c } => {
                    let plan = self.plan_poll(woken_a, woken_b, woken_c);
                    self.phase = Phase3::Polling {
                        poll_a: plan.poll_a,
                        poll_b: plan.poll_b,
                        poll_c: plan.poll_c,
                    };
                    self.advance(plan.poll_a, plan.poll_b, plan.poll_c)
                },
                _ => Action3::Ignore,
            },
            Phase3::Polling { poll_a, poll_b, poll_c } => match event {
                Event3::Poll { .. } => {
                    self.phase = Phase3::Polling { poll_a, poll_b, poll_c };
                    self.advance(poll_a, poll_b, poll_c)
                },
                Event3::PolledA(r) => {
                    if poll_a {
                        self.store_a(r);
                        self.phase = Phase3::Polling { poll_a: false, poll_b, poll_c };
                        self.advance(false, poll_b, poll_c)
                    } else {
                        self.phase = Phase3::Polling { poll_a, poll_b, poll_c };
                        Action3::Ignore
                    }
                },
                Event3::PolledB(r) => {
                    if !poll_a && poll_b {
                        self.store_b(r);
                        self.phase = Phase3::Polling { poll_a: false, poll_b: false, poll_c };
                        self.advance(false, false, poll_c)
                    } else {
                        self.phase = Phase3::Polling { poll_a, poll_b, poll_c };
                        Action3::Ignore
                    }
                },
                Event3::PolledC(r) => {
                    if !poll_a && !poll_b && poll_c {
                        self.store_c(r);
                        self.phase = Phase3::Polling { poll_a: false, poll_b: false, poll_c: false };
                        self.advance(false, false, false)
                    } else {
                        self.phase = Phase3::Polling { poll_a, poll_b, poll_c };
                        Action3::Ignore
                    }
                },
            },
            Phase3::Handing(t) => {
                let which: u8 = match &t.output {
                    Some(Either3::A(_)) => 0,
                    Some(Either3::B(_)) => 1,
                    Some(Either3::C(_)) => 2,
                    None => 3,
                };
                match event {
                    Event3::Poll { .. } => {
                        self.phase = Phase3::Handing(t);
                        if which == 0 {
                            Action3::PollA
                        } else if which == 1 {
                            Action3::PollB
                        } else if which == 2 {
                            Action3::PollC
                        } else {
                            Action3::Ignore
                        }
                    },
                    Event3::PolledA(r) => {
                        if which == 0 {
                            self.store_a(r);
                            Action3::Return(t)
                        } else {
                            self.phase = Phase3::Handing(t);
                            Action3::Ignore
                        }
                    },
                    Event3::PolledB(r) => {
                        if which == 1 {
                            self.store_b(r);
                            Action3::Return(t)
                        } else {
                            self.phase = Phase3::Handing(t);
                            Action3::Ignore
                        }
                    },
                    Event3::PolledC(r) => {
                        if which == 2 {
                            self.store_c(r);
                            Action3::Return(t)
                        } else {
                            self.phase = Phase3::Handing(t);
                            Action3::Ignore
                        }
                    },
                }
            },
        }
    }
}

/// Every step keeps the selector's states to `wf`, and a selector once
/// polled stays so; a poll ends only once the producers were polled. With
/// `new` starting in such a state, every state a run reaches keeps to `wf`.
pub proof fn lemma_step_keeps_wf3<A, B, C>(s: SelectState3<A, B, C>, event: Event3<A, B, C>)
    requires
        s.wf(),
    ensures
        s.step(event).0.wf(),
        s.polled_yet ==> s.step(event).0.polled_yet,
        s.step(event).1 is Return ==> s.step(event).0.polled_yet,
{
}

/// A new selector holds no output, was never polled, has no poll under way
/// and keeps to `wf`.
pub proof fn lemma_initial_wf3<A, B, C>()
    ensures
        SelectState3::<A, B, C>::initial().wf(),
        SelectState3::<A, B, C>::initial().a is None && SelectState3::<A, B, C>::initial().b is None
            && SelectState3::<A, B, C>::initial().c is None
            && !SelectState3::<A, B, C>::initial().polled_yet && SelectState3::<A, B, C>::initial().phase is Idle,
{
}

/// A step loses no output: an ignored event changes nothing; otherwise what
/// was owned and what the event reports is what is owned afterwards and what
/// the action returns.
pub proof fn lemma_step_loses_nothing3<A, B, C>(s: SelectState3<A, B, C>, event: Event3<A, B, C>)
    requires
        s.wf(),
    ensures
        s.step(event).1 is Ignore ==> s.step(event).0 == s,
        !(s.step(event).1 is Ignore) ==> s.owned().add(reported3(event)) =~= s.step(
            event,
        ).0.owned().add(returned3(s.step(event).1)),
{
}

/// Taking from the backlogs loses no output: what was held is what is still
/// held plus what was handed out.
pub proof fn lemma_take_conserves3<A, B, C>(s: SelectState3<A, B, C>)
    ensures
        s.held() =~= s.after_take().held().add(handed_out(s.taken().output)),
{
}

/// A poll hands out an output exactly when some output is held, and the task
/// is woken exactly when outputs are still held after the one handed out.
pub proof fn lemma_take_wakes_iff_outputs_remain3<A, B, C>(s: SelectState3<A, B, C>)
    ensures
        s.taken().output is Some <==> s.held().len() > 0,
        s.taken().wake <==> s.after_take().held().len() > 0,
{
}

/// Outputs are handed out in the producers' order: a producer's output only
/// when every producer before it holds none.
pub proof fn lemma_take_prefers_order3<A, B, C>(s: SelectState3<A, B, C>)
    ensures
        s.a matches Some(x) ==> s.taken().output == Some(Either3::<A, B, C>::A(x)),
        s.a is None ==> (s.b matches Some(y) ==> s.taken().output == Some(
            Either3::<A, B, C>::B(y),
        )),
        s.a is None && s.b is None ==> (s.c matches Some(z) ==> s.taken().output == Some(
            Either3::<A, B, C>::C(z),
        )),
        !s.has_backlog() ==> s.taken().output is None && !s.taken().wake,
{
}

/// The first poll polls every producer; after it, a poll polls only the
/// producers that were woken, and none while an output waits; a planned poll
/// is only of a producer whose backlog is empty.
pub proof fn lemma_plan_polls_woken3<A, B, C>(
    s: SelectState3<A, B, C>,
    woken_a: bool,
    woken_b: bool,
    woken_c: bool,
)
    ensures
        ({
            let plan = s.plan(woken_a, woken_b, woken_c);
            &&& !s.polled_yet && !s.has_backlog() ==> plan.poll_a && plan.poll_b && plan.poll_c
                && s.planned().polled_yet
            &&& s.polled_yet ==> (plan.poll_a ==> woken_a) && (plan.poll_b ==> woken_b) && (
            plan.poll_c ==> woken_c)
            &&& s.has_backlog() ==> !plan.poll_a && !plan.poll_b && !plan.poll_c
            &&& plan.poll_a ==> s.a is None
            &&& plan.poll_b ==> s.b is None
            &&& plan.poll_c ==> s.c is None
        }),
{
}

/// Which producers a run may poll, given the wakes its poll began with.
pub open spec fn polls_within3<A, B, C>(
    s: SelectState3<A, B, C>,
    woken_a: bool,
    woken_b: bool,
    woken_c: bool,
) -> bool {
    match s.phase {
        Phase3::Polling { poll_a, poll_b, poll_c } => (poll_a ==> woken_a) && (poll_b ==> woken_b)
            && (poll_c ==> woken_c),
        _ => true,
    }
}

/// Every poll of the first producer in a run is one that was woken, or it is
/// answered by returning that producer's output (or ends the run).
pub open spec fn only_woken3_a<A, B, C>(actions: Seq<Action3<A, B, C>>, woken_a: bool) -> bool {
    forall|i: int|
        0 <= i < actions.len() && #[trigger] actions[i] is PollA && !woken_a ==> i + 1
            == actions.len() || returns3_a(actions[i + 1])
}

/// Every poll of the second producer in a run is one that was woken, or it is
/// answered by returning that producer's output (or ends the run).
pub open spec fn only_woken3_b<A, B, C>(actions: Seq<Action3<A, B, C>>, woken_b: bool) -> bool {
    forall|i: int|
        0 <= i < actions.len() && #[trigger] actions[i] is PollB && !woken_b ==> i + 1
            == actions.len() || returns3_b(actions[i + 1])
}

/// Every poll of the third producer in a run is one that was woken, or it is
/// answered by returning that producer's output (or ends the run).
pub open spec fn only_woken3_c<A, B, C>(actions: Seq<Action3<A, B, C>>, woken_c: bool) -> bool {
    forall|i: int|
        0 <= i < actions.len() && #[trigger] actions[i] is PollC && !woken_c ==> i + 1
            == actions.len() || returns3_c(actions[i + 1])
}

/// The three properties of a run that polls only woken producers.
pub open spec fn only_woken3<A, B, C>(
    actions: Seq<Action3<A, B, C>>,
    woken_a: bool,
    woken_b: bool,
    woken_c: bool,
) -> bool {
    &&& only_woken3_a(actions, woken_a)
    &&& only_woken3_b(actions, woken_b)
    &&& only_woken3_c(actions, woken_c)
}

proof fn lemma_prepend_keeps_only_woken3<A, B, C>(
    action: Action3<A, B, C>,
    rest: Seq<Action3<A, B, C>>,
    woken_a: bool,
    woken_b: bool,
    woken_c: bool,
)
    requires
        only_woken3(rest, woken_a, woken_b, woken_c),
        action is PollA && !woken_a ==> rest.len() == 0 || returns3_a(rest[0]),
        action is PollB && !woken_b ==> rest.len() == 0 || returns3_b(rest[0]),
        action is PollC && !woken_c ==> rest.len() == 0 || returns3_c(rest[0]),
    ensures
        only_woken3(seq![action] + rest, woken_a, woken_b, woken_c),
{
    let acts = seq![action] + rest;
    assert forall|i: int|
        0 <= i < acts.len() && #[trigger] acts[i] is PollA && !woken_a implies i + 1 == acts.len()
            || returns3_a(acts[i + 1]) by {
        if i > 0 {
            assert(acts[i] == rest[i - 1]);
        }
    }
    assert forall|i: int|
        0 <= i < acts.len() && #[trigger] acts[i] is PollB && !woken_b implies i + 1 == acts.len()
            || returns3_b(acts[i + 1]) by {
        if i > 0 {
            assert(acts[i] == rest[i - 1]);
        }
    }
    assert forall|i: int|
        0 <= i < acts.len() && #[trigger] acts[i] is PollC && !woken_c implies i + 1 == acts.len()
            || returns3_c(acts[i + 1]) by {
        if i > 0 {
            assert(acts[i] == rest[i - 1]);
        }
    }
}

proof fn lemma_run_polls_within3<A, B, C>(
    s: SelectState3<A, B, C>,
    event: Event3<A, B, C>,
    fuel: nat,
    results_a: Seq<Option<A>>,
    results_b: Seq<Option<B>>,
    results_c: Seq<Option<C>>,
    woken_a: bool,
    woken_b: bool,
    woken_c: bool,
)
    requires
        s.wf(),
        s.polled_yet,
        polls_within3(s, woken_a, woken_b, woken_c),
        s.phase is Idle ==> event == (Event3::<A, B, C>::Poll { woken_a, woken_b, woken_c }),
    ensures
        only_woken3(s.run(event, fuel, results_a, results_b, results_c), woken_a, woken_b, woken_c),
    decreases fuel,
{
    if fuel > 0 {
        let (next, action) = s.step(event);
        lemma_step_keeps_wf3(s, event);
        let acts = s.run(event, fuel, results_a, results_b, results_c);
        if action is PollA && results_a.len() > 0 {
            let ev = Event3::PolledA(results_a[0]);
            let (ra, rb, rc) = (results_a.drop_first(), results_b, results_c);
            lemma_run_polls_within3(next, ev, (fuel - 1) as nat, ra, rb, rc, woken_a, woken_b, woken_c);
            let rest = next.run(ev, (fuel - 1) as nat, ra, rb, rc);
            assert(acts == seq![action] + rest);
            lemma_prepend_keeps_only_woken3(action, rest, woken_a, woken_b, woken_c);
        } else if action is PollB && results_b.len() > 0 {
            let ev = Event3::PolledB(results_b[0]);
            let (ra, rb, rc) = (results_a, results_b.drop_first(), results_c);
            lemma_run_polls_within3(next, ev, (fuel - 1) as nat, ra, rb, rc, woken_a, woken_b, woken_c);
            let rest = next.run(ev, (fuel - 1) as nat, ra, rb, rc);
            assert(acts == seq![action] + rest);
            lemma_prepend_keeps_only_woken3(action, rest, woken_a, woken_b, woken_c);
        } else if action is PollC && results_c.len() > 0 {
            let ev = Event3::PolledC(results_c[0]);
            let (ra, rb, rc) = (results_a, results_b, results_c.drop_first());
            lemma_run_polls_within3(next, ev, (fuel - 1) as nat, ra, rb, rc, woken_a, woken_b, woken_c);
            let rest = next.run(ev, (fuel - 1) as nat, ra, rb, rc);
            assert(acts == seq![action] + rest);
            lemma_prepend_keeps_only_woken3(action, rest, woken_a, woken_b, woken_c);
        } else {
            assert(acts =~= seq![action]);
            lemma_prepend_keeps_only_woken3(action, Seq::empty(), woken_a, woken_b, woken_c);
            assert(seq![action] + Seq::<Action3<A, B, C>>::empty() =~= acts);
        }
    }
}

/// Only woken futures are polled: once the producers were polled, a poll that
/// begins with the given wakes and answers each poll the selector asks for
/// polls a producer that was not woken only to replace the output it returns
/// from that producer, which it returns right after.
pub proof fn lemma_poll_polls_only_woken3<A, B, C>(
    s: SelectState3<A, B, C>,
    woken_a: bool,
    woken_b: bool,
    woken_c: bool,
    fuel: nat,
    results_a: Seq<Option<A>>,
    results_b: Seq<Option<B>>,
    results_c: Seq<Option<C>>,
)
    requires
        s.wf(),
        s.polled_yet,
        s.phase is Idle,
    ensures
        only_woken3(
            s.run(Event3::Poll { woken_a, woken_b, woken_c }, fuel, results_a, results_b, results_c),
            woken_a,
            woken_b,
            woken_c,
        ),
{
    lemma_run_polls_within3(
        s,
        Event3::Poll { woken_a, woken_b, woken_c },
        fuel,
        results_a,
        results_b,
        results_c,
        woken_a,
        woken_b,
        woken_c,
    );
}

/// A poll ends: when each poll the selector asks for is answered, a poll of a
/// selector with no poll under way takes at most five steps, asks only for
/// polls before its last action and ends by returning.
pub proof fn lemma_poll_returns3<A, B, C>(
    s: SelectState3<A, B, C>,
    woken_a: bool,
    woken_b: bool,
    woken_c: bool,
    results_a: Seq<Option<A>>,
    results_b: Seq<Option<B>>,
    results_c: Seq<Option<C>>,
)
    requires
        s.wf(),
        s.phase is Idle,
        results_a.len() >= 2,
        results_b.len() >= 2,
        results_c.len() >= 2,
    ensures
        ({
            let acts = s.run(
                Event3::Poll { woken_a, woken_b, woken_c },
                5,
                results_a,
                results_b,
                results_c,
            );
            &&& 0 < acts.len() <= 5
            &&& acts.last() is Return
            &&& forall|i: int|
                0 <= i < acts.len() - 1 ==> #[trigger] acts[i] is PollA || acts[i] is PollB
                    || acts[i] is PollC
        }),
{
    reveal_with_fuel(SelectState3::run, 6);
}

/// An output that waits when a poll begins is handed out by that poll, before
/// any other producer is polled: the poll first polls again the producer
/// whose output it takes, in the producers' order, and then returns it.
pub proof fn lemma_waiting_output_first3<A, B, C>(
    s: SelectState3<A, B, C>,
    woken_a: bool,
    woken_b: bool,
    woken_c: bool,
    again_a: Option<A>,
    again_b: Option<B>,
    again_c: Option<C>,
)
    requires
        s.wf(),
        s.phase is Idle,
        s.has_backlog(),
    ensures
        s.step(Event3::Poll { woken_a, woken_b, woken_c }).1 == repoll3(s.taken()),
        ({
            let next = s.step(Event3::Poll { woken_a, woken_b, woken_c }).0;
            let reply = match s.taken().output {
                Some(Either3::A(_)) => Event3::PolledA(again_a),
                Some(Either3::B(_)) => Event3::PolledB(again_b),
                _ => Event3::PolledC(again_c),
            };
            next.step(reply).1 == Action3::Return(s.taken())
        }),
{
}

/// Once the producers were polled, a poll with nothing held and no producer
/// woken polls nothing, returns nothing, does not wake the task and leaves
/// the selector as it was.
pub proof fn lemma_idle_poll3<A, B, C>(s: SelectState3<A, B, C>)
    requires
        s.wf(),
        s.polled_yet,
        s.phase is Idle,
        !s.has_backlog(),
    ensures
        s.step(Event3::Poll { woken_a: false, woken_b: false, woken_c: false }) == (
        s,
        Action3::<A, B, C>::Return(Taken { output: None, wake: false }),
        ),
{
}

/// An optional value as a sequence of none or one value.
pub open spec fn opt_seq<T>(o: Option<T>) -> Seq<T> {
    match o {
        Some(x) => seq![x],
        None => Seq::empty(),
    }
}

/// What a step takes in from the first producer: the output that an accepted
/// report of its poll carries.
pub open spec fn completed3_in_a<A, B, C>(s: SelectState3<A, B, C>, event: Event3<A, B, C>) -> Seq<A> {
    match event {
        Event3::PolledA(r) => if s.step(event).1 is Ignore {
            Seq::empty()
        } else {
            opt_seq(r)
        },
        _ => Seq::empty(),
    }
}

/// The first producer's output that an action returns, if any.
pub open spec fn returned3_in_a<A, B, C>(action: Action3<A, B, C>) -> Seq<A> {
    match action {
        Action3::Return(t) => match t.output {
            Some(Either3::A(x)) => seq![x],
            _ => Seq::empty(),
        },
        _ => Seq::empty(),
    }
}

/// What a step takes in from the second producer: the output that an accepted
/// report of its poll carries.
pub open spec fn completed3_in_b<A, B, C>(s: SelectState3<A, B, C>, event: Event3<A, B, C>) -> Seq<B> {
    match event {
        Event3::PolledB(r) => if s.step(event).1 is Ignore {
            Seq::empty()
        } else {
            opt_seq(r)
        },
        _ => Seq::empty(),
    }
}

/// The second producer's output that an action returns, if any.
pub open spec fn returned3_in_b<A, B, C>(action: Action3<A, B, C>) -> Seq<B> {
    match action {
        Action3::Return(t) => match t.output {
            Some(Either3::B(x)) => seq![x],
            _ => Seq::empty(),
        },
        _ => Seq::empty(),
    }
}

/// What a step takes in from the third producer: the output that an accepted
/// report of its poll carries.
pub open spec fn completed3_in_c<A, B, C>(s: SelectState3<A, B, C>, event: Event3<A, B, C>) -> Seq<C> {
    match event {
        Event3::PolledC(r) => if s.step(event).1 is Ignore {
            Seq::empty()
        } else {
            opt_seq(r)
        },
        _ => Seq::empty(),
    }
}

/// The third producer's output that an action returns, if any.
pub open spec fn returned3_in_c<A, B, C>(action: Action3<A, B, C>) -> Seq<C> {
    match action {
        Action3::Return(t) => match t.output {
            Some(Either3::C(x)) => seq![x],
            _ => Seq::empty(),
        },
        _ => Seq::empty(),
    }
}

impl<A, B, C> SelectState3<A, B, C> {
    /// The state after the selector answered each of `events` in turn.
    pub open spec fn after(self, events: Seq<Event3<A, B, C>>) -> Self
        decreases events.len(),
    {
        if events.len() == 0 {
            self
        } else {
            self.after(events.drop_last()).step(events.last()).0
        }
    }

    /// The first producer's outputs the selector keeps, oldest first: the one
    /// being handed out, if it is this producer's, then its backlog.
    pub open spec fn kept_a(self) -> Seq<A> {
        let in_flight = match self.phase {
            Phase3::Handing(t) => match t.output {
                Some(Either3::A(x)) => seq![x],
                _ => Seq::empty(),
            },
            _ => Seq::empty(),
        };
        in_flight + opt_seq(self.a)
    }

    /// The outputs of the first producer that `events` report and the
    /// selector accepts, in order.
    pub open spec fn completed_a(self, events: Seq<Event3<A, B, C>>) -> Seq<A>
        decreases events.len(),
    {
        if events.len() == 0 {
            Seq::empty()
        } else {
            self.completed_a(events.drop_last()) + completed3_in_a(
                self.after(events.drop_last()),
                events.last(),
            )
        }
    }

    /// The outputs of the first producer that the answers to `events` return,
    /// in order.
    pub open spec fn returned_a(self, events: Seq<Event3<A, B, C>>) -> Seq<A>
        decreases events.len(),
    {
        if events.len() == 0 {
            Seq::empty()
        } else {
            self.returned_a(events.drop_last()) + returned3_in_a(
                self.after(events.drop_last()).step(events.last()).1,
            )
        }
    }

    /// The second producer's outputs the selector keeps, oldest first: the one
    /// being handed out, if it is this producer's, then its backlog.
    pub open spec fn kept_b(self) -> Seq<B> {
        let in_flight = match self.phase {
            Phase3::Handing(t) => match t.output {
                Some(Either3::B(x)) => seq![x],
                _ => Seq::empty(),
            },
            _ => Seq::empty(),
        };
        in_flight + opt_seq(self.b)
    }

    /// The outputs of the second producer that `events` report and the
    /// selector accepts, in order.
    pub open spec fn completed_b(self, events: Seq<Event3<A, B, C>>) -> Seq<B>
        decreases events.len(),
    {
        if events.len() == 0 {
            Seq::empty()
        } else {
            self.completed_b(events.drop_last()) + completed3_in_b(
                self.after(events.drop_last()),
                events.last(),
            )
        }
    }

    /// The outputs of the second producer that the answers to `events` return,
    /// in order.
    pub open spec fn returned_b(self, events: Seq<Event3<A, B, C>>) -> Seq<B>
        decreases events.len(),
    {
        if events.len() == 0 {
            Seq::empty()
        } else {
            self.returned_b(events.drop_last()) + returned3_in_b(
                self.after(events.drop_last()).step(events.last()).1,
            )
        }
    }

    /// The third producer's outputs the selector keeps, oldest first: the one
    /// being handed out, if it is this producer's, then its backlog.
    pub open spec fn kept_c(self) -> Seq<C> {
        let in_flight = match self.phase {
            Phase3::Handing(t) => match t.output {
                Some(Either3::C(x)) => seq![x],
                _ => Seq::empty(),
            },
            _ => Seq::empty(),
        };
        in_flight + opt_seq(self.c)
    }

    /// The outputs of the third producer that `events` report and the
    /// selector accepts, in order.
    pub open spec fn completed_c(self, events: Seq<Event3<A, B, C>>) -> Seq<C>
        decreases events.len(),
    {
        if events.len() == 0 {
            Seq::empty()
        } else {
            self.completed_c(events.drop_last()) + completed3_in_c(
                self.after(events.drop_last()),
                events.last(),
            )
        }
    }

    /// The outputs of the third producer that the answers to `events` return,
    /// in order.
    pub open spec fn returned_c(self, events: Seq<Event3<A, B, C>>) -> Seq<C>
        decreases events.len(),
    {
        if events.len() == 0 {
            Seq::empty()
        } else {
            self.returned_c(events.drop_last()) + returned3_in_c(
                self.after(events.drop_last()).step(events.last()).1,
            )
        }
    }
}

proof fn lemma_step_keeps_slots3<A, B, C>(s: SelectState3<A, B, C>, event: Event3<A, B, C>)
    requires
        s.wf(),
    ensures
        s.kept_a() + completed3_in_a(s, event) =~= returned3_in_a(s.step(event).1) + s.step(
            event,
        ).0.kept_a(),
        s.kept_b() + completed3_in_b(s, event) =~= returned3_in_b(s.step(event).1) + s.step(
            event,
        ).0.kept_b(),
        s.kept_c() + completed3_in_c(s, event) =~= returned3_in_c(s.step(event).1) + s.step(
            event,
        ).0.kept_c(),
{
}

#[verifier::rlimit(60)]
proof fn lemma_run_keeps_slots3<A, B, C>(s: SelectState3<A, B, C>, events: Seq<Event3<A, B, C>>)
    requires
        s.wf(),
    ensures
        s.after(events).wf(),
        s.kept_a() + s.completed_a(events) =~= s.returned_a(events) + s.after(events).kept_a(),
        s.kept_b() + s.completed_b(events) =~= s.returned_b(events) + s.after(events).kept_b(),
        s.kept_c() + s.completed_c(events) =~= s.returned_c(events) + s.after(events).kept_c(),
    decreases events.len(),
{
    if events.len() > 0 {
        let prefix = events.drop_last();
        let e = events.last();
        lemma_run_keeps_slots3(s, prefix);
        let p = s.after(prefix);
        lemma_step_keeps_wf3(p, e);
        lemma_step_keeps_slots3(p, e);
        {
            let k = s.kept_a();
            let c = s.completed_a(prefix);
            let r = s.returned_a(prefix);
            assert(k + (c + completed3_in_a(p, e)) =~= (k + c) + completed3_in_a(p, e));
            assert((r + p.kept_a()) + completed3_in_a(p, e) =~= r + (p.kept_a() + completed3_in_a(p, e)));
            assert(r + (returned3_in_a(p.step(e).1) + p.step(e).0.kept_a()) =~= (r + returned3_in_a(
                p.step(e).1,
            )) + p.step(e).0.kept_a());
        }
        {
            let k = s.kept_b();
            let c = s.completed_b(prefix);
            let r = s.returned_b(prefix);
            assert(k + (c + completed3_in_b(p, e)) =~= (k + c) + completed3_in_b(p, e));
            assert((r + p.kept_b()) + completed3_in_b(p, e) =~= r + (p.kept_b() + completed3_in_b(p, e)));
            assert(r + (returned3_in_b(p.step(e).1) + p.step(e).0.kept_b()) =~= (r + returned3_in_b(
                p.step(e).1,
            )) + p.step(e).0.kept_b());
        }
        {
            let k = s.kept_c();
            let c = s.completed_c(prefix);
            let r = s.returned_c(prefix);
            assert(k + (c + completed3_in_c(p, e)) =~= (k + c) + completed3_in_c(p, e));
            assert((r + p.kept_c()) + completed3_in_c(p, e) =~= r + (p.kept_c() + completed3_in_c(p, e)));
            assert(r + (returned3_in_c(p.step(e).1) + p.step(e).0.kept_c()) =~= (r + returned3_in_c(
                p.step(e).1,
            )) + p.step(e).0.kept_c());
        }
    }
}

/// No output is dropped, duplicated or reordered: for any events a new
/// selector answers, each producer's outputs that were reported and accepted,
/// in order, are the ones returned as that producer's, in order, followed by
/// the ones the selector still keeps; and the selector stays well formed.
pub proof fn lemma_slots_in_order3<A, B, C>(events: Seq<Event3<A, B, C>>)
    ensures
        ({
            let s = SelectState3::<A, B, C>::initial();
            &&& s.after(events).wf()
            &&& s.completed_a(events) =~= s.returned_a(events) + s.after(events).kept_a()
            &&& s.completed_b(events) =~= s.returned_b(events) + s.after(events).kept_b()
            &&& s.completed_c(events) =~= s.returned_c(events) + s.after(events).kept_c()
        }),
{
    let s = SelectState3::<A, B, C>::initial();
    lemma_run_keeps_slots3(s, events);
    assert(s.kept_a() =~= Seq::<A>::empty());
    assert(s.kept_b() =~= Seq::<B>::empty());
    assert(s.kept_c() =~= Seq::<C>::empty());
}

/// A poll that finds nothing held polls, in order, every producer on the
/// selector's first poll and afterwards exactly the woken ones. It returns the
/// output of the earliest polled producer that was ready, after polling that
/// producer once more so that its next future starts, and wakes the task
/// exactly when a later polled producer was ready too; when none was ready it
/// returns nothing and does not wake the task.
pub proof fn lemma_fresh_poll3<A, B, C>(
    s: SelectState3<A, B, C>,
    woken_a: bool,
    woken_b: bool,
    woken_c: bool,
    results_a: Seq<Option<A>>,
    results_b: Seq<Option<B>>,
    results_c: Seq<Option<C>>,
)
    requires
        s.wf(),
        s.phase is Idle,
        !s.has_backlog(),
        results_a.len() >= 2,
        results_b.len() >= 2,
        results_c.len() >= 2,
    ensures
        ({
            let acts = s.run(
                Event3::Poll { woken_a, woken_b, woken_c },
                5,
                results_a,
                results_b,
                results_c,
            );
            let pa = woken_a || !s.polled_yet;
            let pb = woken_b || !s.polled_yet;
            let pc = woken_c || !s.polled_yet;
            let ya = if pa { results_a[0] } else { None };
            let yb = if pb { results_b[0] } else { None };
            let yc = if pc { results_c[0] } else { None };
            let na = if pa { 1int } else { 0int };
            let nb = na + if pb { 1int } else { 0int };
            let n = nb + if pc { 1int } else { 0int };
            &&& pa ==> acts[0] is PollA
            &&& pb ==> acts[na] is PollB
            &&& pc ==> acts[nb] is PollC
            &&& match ya {
                Some(x) => acts.len() == n + 2 && acts[n] is PollA && acts[n + 1] == Action3::Return(
                    Taken {
                        output: Some(Either3::<A, B, C>::A(x)),
                        wake: yb is Some || yc is Some,
                    },
                ),
                None => match yb {
                    Some(y) => acts.len() == n + 2 && acts[n] is PollB && acts[n + 1]
                        == Action3::Return(
                        Taken { output: Some(Either3::<A, B, C>::B(y)), wake: yc is Some },
                    ),
                    None => match yc {
                        Some(z) => acts.len() == n + 2 && acts[n] is PollC && acts[n + 1]
                            == Action3::Return(
                            Taken { output: Some(Either3::<A, B, C>::C(z)), wake: false },
                        ),
                        None => acts.len() == n + 1 && acts[n] == Action3::<A, B, C>::Return(
                            Taken { output: None, wake: false },
                        ),
                    },
                },
            }
        }),
{
    reveal_with_fuel(SelectState3::run, 6);
}

/// A poll that finds outputs held polls no producer first: it returns the
/// earliest producer's held output right after polling that producer once
/// more, and wakes the task exactly when a later producer holds an output
/// too.
pub proof fn lemma_backlog_poll3<A, B, C>(
    s: SelectState3<A, B, C>,
    woken_a: bool,
    woken_b: bool,
    woken_c: bool,
    results_a: Seq<Option<A>>,
    results_b: Seq<Option<B>>,
    results_c: Seq<Option<C>>,
)
    requires
        s.wf(),
        s.phase is Idle,
        s.has_backlog(),
        results_a.len() >= 1,
        results_b.len() >= 1,
        results_c.len() >= 1,
    ensures
        ({
            let acts = s.run(
                Event3::Poll { woken_a, woken_b, woken_c },
                5,
                results_a,
                results_b,
                results_c,
            );
            &&& acts.len() == 2
            &&& match s.a {
                Some(x) => acts[0] is PollA && acts[1] == Action3::Return(
                    Taken {
                        output: Some(Either3::<A, B, C>::A(x)),
                        wake: s.b is Some || s.c is Some,
                    },
                ),
                None => match s.b {
                    Some(y) => acts[0] is PollB && acts[1] == Action3::Return(
                        Taken { output: Some(Either3::<A, B, C>::B(y)), wake: s.c is Some },
                    ),
                    None => match s.c {
                        Some(z) => acts[0] is PollC && acts[1] == Action3::Return(
                            Taken { output: Some(Either3::<A, B, C>::C(z)), wake: false },
                        ),
                        None => false,
                    },
                },
            }
        }),
{
    reveal_with_fuel(SelectState3::run, 6);
}

} // verus!
