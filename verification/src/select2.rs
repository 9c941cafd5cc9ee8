//! Selecting over two producers.
//!
//! A poll of the selector is a run of [`Select2::step`]: the caller reports
//! that a poll begins, with which producers were woken, and then performs the
//! actions the selector asks for (polling a producer and reporting what that
//! gave) until the selector returns an output or nothing.
use vstd::multiset::Multiset;
use vstd::prelude::*;

use crate::{handed_out, Backlog, Taken};

verus! {

broadcast use vstd::multiset::group_multiset_axioms;

/// An output of one of two producers.
pub enum Either2<A, B> {
    A(A),
    B(B),
}

/// Which producers a poll of the selector polls before it hands out an output.
pub struct Plan2 {
    pub poll_a: bool,
    pub poll_b: bool,
}

/// What the caller reports to the selector.
pub enum Event2<A, B> {
    /// A poll begins; the flags say which producers were woken since they
    /// were last polled.
    Poll { woken_a: bool, woken_b: bool },
    /// Polling the first producer gave this (`None` while it is pending).
    PolledA(Option<A>),
    /// Polling the second producer gave this (`None` while it is pending).
    PolledB(Option<B>),
}

/// What the selector asks the caller to do next.
pub enum Action2<A, B> {
    /// Poll the first producer and report the result with `PolledA`.
    PollA,
    /// Poll the second producer and report the result with `PolledB`.
    PollB,
    /// The poll ends: return the output, if any, and wake the task if asked.
    Return(Taken<Either2<A, B>>),
    /// The event did not fit what the selector waits for; nothing changed.
    Ignore,
}

/// Where the selector stands within a poll.
pub enum Phase2<A, B> {
    /// No poll is under way.
    Idle,
    /// The planned polls whose results were not reported yet.
    Polling { poll_a: bool, poll_b: bool },
    /// An output was taken; its producer is polled again before it is returned.
    Handing(Taken<Either2<A, B>>),
}

/// The state of a two-way selector: the output each producer has made ready
/// and that was not handed out yet, whether the producers were ever polled,
/// and where a poll under way stands.
pub struct SelectState2<A, B> {
    pub a: Option<A>,
    pub b: Option<B>,
    pub polled_yet: bool,
    pub phase: Phase2<A, B>,
}

/// The outputs held in the first producer's backlog.
pub open spec fn held_a<A, B>(a: Option<A>) -> Multiset<Either2<A, B>> {
    match a {
        Some(x) => Multiset::singleton(Either2::A(x)),
        None => Multiset::empty(),
    }
}

/// The outputs held in the second producer's backlog.
pub open spec fn held_b<A, B>(b: Option<B>) -> Multiset<Either2<A, B>> {
    match b {
        Some(y) => Multiset::singleton(Either2::B(y)),
        None => Multiset::empty(),
    }
}

/// The outputs that an event reports.
pub open spec fn reported<A, B>(event: Event2<A, B>) -> Multiset<Either2<A, B>> {
    match event {
        Event2::Poll { .. } => Multiset::empty(),
        Event2::PolledA(r) => held_a::<A, B>(r),
        Event2::PolledB(r) => held_b::<A, B>(r),
    }
}

/// The outputs that an action returns.
pub open spec fn returned<A, B>(action: Action2<A, B>) -> Multiset<Either2<A, B>> {
    match action {
        Action2::Return(t) => handed_out(t.output),
        _ => Multiset::empty(),
    }
}

/// The poll that hands out an output taken from the backlogs asks for:
/// polling again the producer whose output it is.
pub open spec fn repoll<A, B>(t: Taken<Either2<A, B>>) -> Action2<A, B> {
    match t.output {
        Some(Either2::A(_)) => Action2::PollA,
        Some(Either2::B(_)) => Action2::PollB,
        None => Action2::Ignore,
    }
}

/// Whether an action returns an output of the first producer.
pub open spec fn returns_a<A, B>(action: Action2<A, B>) -> bool {
    action matches Action2::Return(t) && t.output matches Some(Either2::A(_))
}

/// Whether an action returns an output of the second producer.
pub open spec fn returns_b<A, B>(action: Action2<A, B>) -> bool {
    action matches Action2::Return(t) && t.output matches Some(Either2::B(_))
}

impl<A, B> SelectState2<A, B> {
    /// A selector whose producers were never polled.
    pub open spec fn initial() -> Self {
        SelectState2 { a: None, b: None, polled_yet: false, phase: Phase2::Idle }
    }

    /// The same state in another phase.
    pub open spec fn with_phase(self, phase: Phase2<A, B>) -> Self {
        SelectState2 { a: self.a, b: self.b, polled_yet: self.polled_yet, phase }
    }

    /// Whether some output waits to be handed out.
    pub open spec fn has_backlog(self) -> bool {
        self.a is Some || self.b is Some
    }

    /// Every output made ready and not handed out yet.
    pub open spec fn held(self) -> Multiset<Either2<A, B>> {
        held_a::<A, B>(self.a).add(held_b::<A, B>(self.b))
    }

    /// The held outputs together with the one being handed out, if any.
    pub open spec fn owned(self) -> Multiset<Either2<A, B>> {
        match self.phase {
            Phase2::Handing(t) => self.held().add(handed_out(t.output)),
            _ => self.held(),
        }
    }

    /// The states the selector keeps to: until the producers were first
    /// polled nothing is held and no poll is under way; a planned poll is
    /// only of a producer with an empty backlog; an output being handed out
    /// was taken from its producer's backlog, which is empty.
    pub open spec fn wf(self) -> bool {
        &&& self.polled_yet || (!self.has_backlog() && self.phase is Idle)
        &&& match self.phase {
            Phase2::Idle => true,
            Phase2::Polling { poll_a, poll_b } => (poll_a ==> self.a is None) && (poll_b
                ==> self.b is None),
            Phase2::Handing(t) => match t.output {
                Some(Either2::A(_)) => self.a is None,
                Some(Either2::B(_)) => self.b is None,
                None => false,
            },
        }
    }

    /// The producers a poll polls: none while an output waits; every producer
    /// on the first poll; afterwards those that were woken.
    pub open spec fn plan(self, woken_a: bool, woken_b: bool) -> Plan2 {
        Plan2 {
            poll_a: !self.has_backlog() && (!self.polled_yet || woken_a),
            poll_b: !self.has_backlog() && (!self.polled_yet || woken_b),
        }
    }

    /// The state once a poll has been planned: the producers count as polled
    /// once a plan polls them.
    pub open spec fn planned(self) -> Self {
        SelectState2 {
            a: self.a,
            b: self.b,
            polled_yet: self.polled_yet || !self.has_backlog(),
            phase: self.phase,
        }
    }

    /// The state once a poll of the first producer gave `polled`.
    pub open spec fn stored_a(self, polled: Option<A>) -> Self {
        SelectState2 { a: polled, b: self.b, polled_yet: self.polled_yet, phase: self.phase }
    }

    /// The state once a poll of the second producer gave `polled`.
    pub open spec fn stored_b(self, polled: Option<B>) -> Self {
        SelectState2 { a: self.a, b: polled, polled_yet: self.polled_yet, phase: self.phase }
    }

    /// What taking from the backlogs hands out: the first producer's output if
    /// it has one, else the second's; the task is woken when the first
    /// producer's output is taken while the second one also holds one.
    pub open spec fn taken(self) -> Taken<Either2<A, B>> {
        match self.a {
            Some(x) => Taken { output: Some(Either2::A(x)), wake: self.b is Some },
            None => match self.b {
                Some(y) => Taken { output: Some(Either2::B(y)), wake: false },
                None => Taken { output: None, wake: false },
            },
        }
    }

    /// The state once an output was taken from the backlogs.
    pub open spec fn after_take(self) -> Self {
        match self.a {
            Some(_) => SelectState2 { a: None, b: self.b, polled_yet: self.polled_yet, phase: self.phase },
            None => SelectState2 { a: None, b: None, polled_yet: self.polled_yet, phase: self.phase },
        }
    }

    /// Goes on with a poll under way: the next planned producer is polled;
    /// once none is left, an output is taken and its producer polled again,
    /// or the poll ends with nothing.
    pub open spec fn advance(self) -> (Self, Action2<A, B>) {
        match self.phase {
            Phase2::Polling { poll_a, poll_b } => if poll_a {
                (self, Action2::PollA)
            } else if poll_b {
                (self, Action2::PollB)
            } else {
                let t = self.taken();
                let s = self.after_take();
                match t.output {
                    Some(_) => (s.with_phase(Phase2::Handing(t)), repoll(t)),
                    None => (s.with_phase(Phase2::Idle), Action2::Return(t)),
                }
            },
            _ => (self, Action2::Ignore),
        }
    }

    /// The selector's answer to an event: its next state and the action it
    /// asks for. A poll that begins while none is under way is planned; one
    /// that begins while another is unfinished carries that one on; a result
    /// is taken only from the producer the selector waits for.
    pub open spec fn step(self, event: Event2<A, B>) -> (Self, Action2<A, B>) {
        match self.phase {
            Phase2::Idle => match event {
                Event2::Poll { woken_a, woken_b } => {
                    let plan = self.plan(woken_a, woken_b);
                    self.planned().with_phase(
                        Phase2::Polling { poll_a: plan.poll_a, poll_b: plan.poll_b },
                    ).advance()
                },
                _ => (self, Action2::Ignore),
            },
            Phase2::Polling { poll_a, poll_b } => match event {
                Event2::Poll { .. } => self.advance(),
                Event2::PolledA(r) => if poll_a {
                    self.stored_a(r).with_phase(Phase2::Polling { poll_a: false, poll_b }).advance()
                } else {
                    (self, Action2::Ignore)
                },
                Event2::PolledB(r) => if !poll_a && poll_b {
                    self.stored_b(r).with_phase(
                        Phase2::Polling { poll_a: false, poll_b: false },
                    ).advance()
                } else {
                    (self, Action2::Ignore)
                },
            },
            Phase2::Handing(t) => match event {
                Event2::Poll { .. } => (self, repoll(t)),
                Event2::PolledA(r) => if t.output matches Some(Either2::A(_)) {
                    (self.stored_a(r).with_phase(Phase2::Idle), Action2::Return(t))
                } else {
                    (self, Action2::Ignore)
                },
                Event2::PolledB(r) => if t.output matches Some(Either2::B(_)) {
                    (self.stored_b(r).with_phase(Phase2::Idle), Action2::Return(t))
                } else {
                    (self, Action2::Ignore)
                },
            },
        }
    }

    /// The actions of a run that starts with `event` and answers every poll
    /// the selector asks for with the next result from `results_a` or
    /// `results_b`; it stops at an action that is not a poll, when the results
    /// for the asked producer run out, or after `fuel` steps.
    pub open spec fn run(
        self,
        event: Event2<A, B>,
        fuel: nat,
        results_a: Seq<Option<A>>,
        results_b: Seq<Option<B>>,
    ) -> Seq<Action2<A, B>>
        decreases fuel,
    {
        if fuel == 0 {
            Seq::empty()
        } else {
            let (next, action) = self.step(event);
            match action {
                Action2::PollA => if results_a.len() > 0 {
                    seq![action] + next.run(
                        Event2::PolledA(results_a[0]),
                        (fuel - 1) as nat,
                        results_a.drop_first(),
                        results_b,
                    )
                } else {
                    seq![action]
                },
                Action2::PollB => if results_b.len() > 0 {
                    seq![action] + next.run(
                        Event2::PolledB(results_b[0]),
                        (fuel - 1) as nat,
                        results_a,
                        results_b.drop_first(),
                    )
                } else {
                    seq![action]
                },
                _ => seq![action],
            }
        }
    }
}

/// The decisions of a selector over two producers.
pub struct Select2<A, B> {
    a: Backlog<A>,
    b: Backlog<B>,
    polled_yet: bool,
    phase: Phase2<A, B>,
}

impl<A, B> View for Select2<A, B> {
    type V = SelectState2<A, B>;

    closed spec fn view(&self) -> SelectState2<A, B> {
        SelectState2 { a: self.a@, b: self.b@, polled_yet: self.polled_yet, phase: self.phase }
    }
}

impl<A, B> Select2<A, B> {
    /// A selector whose producers were never polled and that holds no output.
    pub fn new() -> (s: Self)
        ensures
            s@ == SelectState2::<A, B>::initial(),
            s@.wf(),
    {
        Select2 { a: Backlog::new(), b: Backlog::new(), polled_yet: false, phase: Phase2::Idle }
    }

    /// Whether the producers were polled since the selector was made.
    pub fn polled_yet(&self) -> (r: bool)
        ensures
            r == self@.polled_yet,
    {
        self.polled_yet
    }

    /// Whether some output waits to be handed out.
    pub fn has_backlog(&self) -> (r: bool)
        ensures
            r == self@.has_backlog(),
    {
        self.a.has_backlog() || self.b.has_backlog()
    }

    /// Decides which producers a poll polls, given which of them were woken.
    fn plan_poll(&mut self, woken_a: bool, woken_b: bool) -> (plan: Plan2)
        ensures
            plan == old(self)@.plan(woken_a, woken_b),
            final(self)@ == old(self)@.planned(),
    {
        if self.a.has_backlog() || self.b.has_backlog() {
            Plan2 { poll_a: false, poll_b: false }
        } else if !self.polled_yet {
            self.polled_yet = true;
            Plan2 { poll_a: true, poll_b: true }
        } else {
            Plan2 { poll_a: woken_a, poll_b: woken_b }
        }
    }

    /// Records what a poll of the first producer gave.
    fn store_a(&mut self, polled: Option<A>)
        ensures
            final(self)@ == old(self)@.stored_a(polled),
    {
        self.a.store(polled);
    }

    /// Records what a poll of the second producer gave.
    fn store_b(&mut self, polled: Option<B>)
        ensures
            final(self)@ == old(self)@.stored_b(polled),
    {
        self.b.store(polled);
    }

    /// Takes the output that the poll hands out, the first producer's before
    /// the second's, and says whether the task has to be woken because the
    /// other producer holds an output too. This is one step of a poll: the
    /// producer whose output it takes must be polled again next, so that its
    /// fresh future is polled and what that gives is stored, as `step` does.
    pub fn try_take_backlog(&mut self) -> (t: Taken<Either2<A, B>>)
        ensures
            t == old(self)@.taken(),
            final(self)@ == old(self)@.after_take(),
            old(self)@.wf() ==> final(self)@.wf(),
    {
        if self.a.has_backlog() {
            let wake = self.b.has_backlog();
            let out = self.a.take_backlog();
            Taken { output: Some(Either2::A(out)), wake }
        } else if self.b.has_backlog() {
            let out = self.b.take_backlog();
            Taken { output: Some(Either2::B(out)), wake: false }
        } else {
            Taken { output: None, wake: false }
        }
    }

    /// Goes on with the poll under way, whose planned polls not yet reported
    /// are `poll_a` and `poll_b`.
    fn advance(&mut self, poll_a: bool, poll_b: bool) -> (action: Action2<A, B>)
        requires
            old(self)@.phase == (Phase2::<A, B>::Polling { poll_a, poll_b }),
        ensures
            (final(self)@, action) == old(self)@.advance(),
    {
        if poll_a {
            Action2::PollA
        } else if poll_b {
            Action2::PollB
        } else {
            let t = self.try_take_backlog();
            let which: u8 = match &t.output {
                Some(Either2::A(_)) => 0,
                Some(Either2::B(_)) => 1,
                None => 2,
            };
            if which == 0 {
                self.phase = Phase2::Handing(t);
                Action2::PollA
            } else if which == 1 {
                self.phase = Phase2::Handing(t);
                Action2::PollB
            } else {
                self.phase = Phase2::Idle;
                Action2::Return(t)
            }
        }
    }

    /// Answers an event of a poll with the action the caller is to perform.
    pub fn step(&mut self, event: Event2<A, B>) -> (action: Action2<A, B>)
        ensures
            (final(self)@, action) == old(self)@.step(event),
            old(self)@.wf() ==> final(self)@.wf(),
    {
        proof {
            if self@.wf() {
                lemma_step_keeps_wf(self@, event);
            }
        }
        let mut phase = Phase2::Idle;
        std::mem::swap(&mut phase, &mut self.phase);
        match phase {
            Phase2::Idle => match event {
                Event2::Poll { woken_a, woken_b } => {
                    let plan = self.plan_poll(woken_a, woken_b);
                    self.phase = Phase2::Polling { poll_a: plan.poll_a, poll_b: plan.poll_b };
                    self.advance(plan.poll_a, plan.poll_b)
                },
                _ => Action2::Ignore,
            },
            Phase2::Polling { poll_a, poll_b } => match event {
                Event2::Poll { .. } => {
                    self.phase = Phase2::Polling { poll_a, poll_b };
                    self.advance(poll_a, poll_b)
                },
                Event2::PolledA(r) => {
                    if poll_a {
                        self.store_a(r);
                        self.phase = Phase2::Polling { poll_a: false, poll_b };
                        self.advance(false, poll_b)
                    } else {
                        self.phase = Phase2::Polling { poll_a, poll_b };
                        Action2::Ignore
                    }
                },
                Event2::PolledB(r) => {
                    if !poll_a && poll_b {
                        self.store_b(r);
                        self.phase = Phase2::Polling { poll_a: false, poll_b: false };
                        self.advance(false, false)
                    } else {
                        self.phase = Phase2::Polling { poll_a, poll_b };
                        Action2::Ignore
                    }
                },
            },
            Phase2::Handing(t) => {
                let which: u8 = match &t.output {
                    Some(Either2::A(_)) => 0,
                    Some(Either2::B(_)) => 1,
                    None => 2,
                };
                match event {
                    Event2::Poll { .. } => {
                        self.phase = Phase2::Handing(t);
                        if which == 0 {
                            Action2::PollA
                        } else if which == 1 {
                            Action2::PollB
                        } else {
                            Action2::Ignore
                        }
                    },
                    Event2::PolledA(r) => {
                        if which == 0 {
                            self.store_a(r);
                            Action2::Return(t)
                        } else {
                            self.phase = Phase2::Handing(t);
                            Action2::Ignore
                        }
                    },
                    Event2::PolledB(r) => {
                        if which == 1 {
                            self.store_b(r);
                            Action2::Return(t)
                        } else {
                            self.phase = Phase2::Handing(t);
                            Action2::Ignore
                        }
                    },
                }
            },
        }
    }
}

/// Every step keeps the selector's states to `wf`, and a selector once
/// polled stays so; a poll ends only once the producers were polled. With
/// `new` starting in such a state, every state a run reaches keeps to `wf`.
pub proof fn lemma_step_keeps_wf<A, B>(s: SelectState2<A, B>, event: Event2<A, B>)
    requires
        s.wf(),
    ensures
        s.step(event).0.wf(),
        s.polled_yet ==> s.step(event).0.polled_yet,
        s.step(event).1 is Return ==> s.step(event).0.polled_yet,
{
}

/// A new selector holds no output, was never polled, has no poll under way
/// and keeps to `wf`.
pub proof fn lemma_initial_wf<A, B>()
    ensures
        SelectState2::<A, B>::initial().wf(),
        SelectState2::<A, B>::initial().a is None && SelectState2::<A, B>::initial().b is None
            && !SelectState2::<A, B>::initial().polled_yet && SelectState2::<A, B>::initial().phase is Idle,
{
}

/// A step loses no output: an ignored event changes nothing; otherwise what
/// was owned and what the event reports is what is owned afterwards and what
/// the action returns.
pub proof fn lemma_step_loses_nothing<A, B>(s: SelectState2<A, B>, event: Event2<A, B>)
    requires
        s.wf(),
    ensures
        s.step(event).1 is Ignore ==> s.step(event).0 == s,
        !(s.step(event).1 is Ignore) ==> s.owned().add(reported(event)) =~= s.step(
            event,
        ).0.owned().add(returned(s.step(event).1)),
{
}

/// Taking from the backlogs loses no output: what was held is what is still
/// held plus what was handed out.
pub proof fn lemma_take_conserves<A, B>(s: SelectState2<A, B>)
    ensures
        s.held() =~= s.after_take().held().add(handed_out(s.taken().output)),
{
}

/// A poll hands out an output exactly when some output is held, and the task
/// is woken exactly when outputs are still held after the one handed out.
pub proof fn lemma_take_wakes_iff_outputs_remain<A, B>(s: SelectState2<A, B>)
    ensures
        s.taken().output is Some <==> s.held().len() > 0,
        s.taken().wake <==> s.after_take().held().len() > 0,
{
}

/// Outputs are handed out in the producers' order: the first producer's
/// whenever it holds one, the second's only when the first holds none.
pub proof fn lemma_take_prefers_order<A, B>(s: SelectState2<A, B>)
    ensures
        s.a matches Some(x) ==> s.taken().output == Some(Either2::<A, B>::A(x)),
        s.a is None ==> (s.b matches Some(y) ==> s.taken().output == Some(Either2::<A, B>::B(y))),
        s.a is None && s.b is None ==> s.taken().output is None && !s.taken().wake,
{
}

/// The first poll polls every producer; after it, a poll polls only the
/// producers that were woken, and none while an output waits; a planned poll
/// is only of a producer whose backlog is empty.
pub proof fn lemma_plan_polls_woken<A, B>(s: SelectState2<A, B>, woken_a: bool, woken_b: bool)
    ensures
        !s.polled_yet && !s.has_backlog() ==> s.plan(woken_a, woken_b).poll_a && s.plan(
            woken_a,
            woken_b,
        ).poll_b && s.planned().polled_yet,
        s.polled_yet ==> (s.plan(woken_a, woken_b).poll_a ==> woken_a) && (s.plan(
            woken_a,
            woken_b,
        ).poll_b ==> woken_b),
        s.has_backlog() ==> !s.plan(woken_a, woken_b).poll_a && !s.plan(woken_a, woken_b).poll_b,
        s.plan(woken_a, woken_b).poll_a ==> s.a is None,
        s.plan(woken_a, woken_b).poll_b ==> s.b is None,
{
}

/// Which producers a run may poll, given the wakes its poll began with.
pub open spec fn polls_within<A, B>(s: SelectState2<A, B>, woken_a: bool, woken_b: bool) -> bool {
    match s.phase {
        Phase2::Polling { poll_a, poll_b } => (poll_a ==> woken_a) && (poll_b ==> woken_b),
        _ => true,
    }
}

/// Every poll of the first producer in a run is one that was woken, or it is
/// answered by returning that producer's output (or ends the run).
pub open spec fn only_woken_a<A, B>(actions: Seq<Action2<A, B>>, woken_a: bool) -> bool {
    forall|i: int|
        0 <= i < actions.len() && #[trigger] actions[i] is PollA && !woken_a ==> i + 1
            == actions.len() || returns_a(actions[i + 1])
}

/// Every poll of the second producer in a run is one that was woken, or it is
/// answered by returning that producer's output (or ends the run).
pub open spec fn only_woken_b<A, B>(actions: Seq<Action2<A, B>>, woken_b: bool) -> bool {
    forall|i: int|
        0 <= i < actions.len() && #[trigger] actions[i] is PollB && !woken_b ==> i + 1
            == actions.len() || returns_b(actions[i + 1])
}

/// The two properties of a run that polls only woken producers.
pub open spec fn only_woken<A, B>(actions: Seq<Action2<A, B>>, woken_a: bool, woken_b: bool) -> bool {
    &&& only_woken_a(actions, woken_a)
    &&& only_woken_b(actions, woken_b)
}

proof fn lemma_prepend_keeps_only_woken<A, B>(
    action: Action2<A, B>,
    rest: Seq<Action2<A, B>>,
    woken_a: bool,
    woken_b: bool,
)
    requires
        only_woken(rest, woken_a, woken_b),
        action is PollA && !woken_a ==> rest.len() == 0 || returns_a(rest[0]),
        action is PollB && !woken_b ==> rest.len() == 0 || returns_b(rest[0]),
    ensures
        only_woken(seq![action] + rest, woken_a, woken_b),
{
    let acts = seq![action] + rest;
    assert forall|i: int|
        0 <= i < acts.len() && #[trigger] acts[i] is PollA && !woken_a implies i + 1 == acts.len()
            || returns_a(acts[i + 1]) by {
        if i > 0 {
            assert(acts[i] == rest[i - 1]);
        }
    }
    assert forall|i: int|
        0 <= i < acts.len() && #[trigger] acts[i] is PollB && !woken_b implies i + 1 == acts.len()
            || returns_b(acts[i + 1]) by {
        if i > 0 {
            assert(acts[i] == rest[i - 1]);
        }
    }
}

proof fn lemma_run_polls_within<A, B>(
    s: SelectState2<A, B>,
    event: Event2<A, B>,
    fuel: nat,
    results_a: Seq<Option<A>>,
    results_b: Seq<Option<B>>,
    woken_a: bool,
    woken_b: bool,
)
    requires
        s.wf(),
        s.polled_yet,
        polls_within(s, woken_a, woken_b),
        s.phase is Idle ==> event == (Event2::<A, B>::Poll { woken_a, woken_b }),
    ensures
        only_woken(s.run(event, fuel, results_a, results_b), woken_a, woken_b),
    decreases fuel,
{
    if fuel > 0 {
        let (next, action) = s.step(event);
        lemma_step_keeps_wf(s, event);
        let acts = s.run(event, fuel, results_a, results_b);
        if action is PollA && results_a.len() > 0 {
            let ev = Event2::PolledA(results_a[0]);
            let (ra, rb) = (results_a.drop_first(), results_b);
            lemma_run_polls_within(next, ev, (fuel - 1) as nat, ra, rb, woken_a, woken_b);
            let rest = next.run(ev, (fuel - 1) as nat, ra, rb);
            assert(acts == seq![action] + rest);
            lemma_prepend_keeps_only_woken(action, rest, woken_a, woken_b);
        } else if action is PollB && results_b.len() > 0 {
            let ev = Event2::PolledB(results_b[0]);
            let (ra, rb) = (results_a, results_b.drop_first());
            lemma_run_polls_within(next, ev, (fuel - 1) as nat, ra, rb, woken_a, woken_b);
            let rest = next.run(ev, (fuel - 1) as nat, ra, rb);
            assert(acts == seq![action] + rest);
            lemma_prepend_keeps_only_woken(action, rest, woken_a, woken_b);
        } else {
            assert(acts =~= seq![action]);
            lemma_prepend_keeps_only_woken(action, Seq::empty(), woken_a, woken_b);
            assert(seq![action] + Seq::<Action2<A, B>>::empty() =~= acts);
        }
    }
}

/// Only woken futures are polled: once the producers were polled, a poll that
/// begins with the wakes `woken_a` and `woken_b` and answers each poll the
/// selector asks for polls a producer that was not woken only to replace the
/// output it returns from that producer, which it returns right after.
pub proof fn lemma_poll_polls_only_woken<A, B>(
    s: SelectState2<A, B>,
    woken_a: bool,
    woken_b: bool,
    fuel: nat,
    results_a: Seq<Option<A>>,
    results_b: Seq<Option<B>>,
)
    requires
        s.wf(),
        s.polled_yet,
        s.phase is Idle,
    ensures
        only_woken(s.run(Event2::Poll { woken_a, woken_b }, fuel, results_a, results_b), woken_a, woken_b),
{
    lemma_run_polls_within(
        s,
        Event2::Poll { woken_a, woken_b },
        fuel,
        results_a,
        results_b,
        woken_a,
        woken_b,
    );
}

/// A poll ends: when each poll the selector asks for is answered, a poll of a
/// selector with no poll under way takes at most four steps, asks only for
/// polls before its last action and ends by returning.
pub proof fn lemma_poll_returns<A, B>(
    s: SelectState2<A, B>,
    woken_a: bool,
    woken_b: bool,
    results_a: Seq<Option<A>>,
    results_b: Seq<Option<B>>,
)
    requires
        s.wf(),
        s.phase is Idle,
        results_a.len() >= 2,
        results_b.len() >= 2,
    ensures
        ({
            let acts = s.run(Event2::Poll { woken_a, woken_b }, 4, results_a, results_b);
            &&& 0 < acts.len() <= 4
            &&& acts.last() is Return
            &&& forall|i: int| 0 <= i < acts.len() - 1 ==> #[trigger] acts[i] is PollA || acts[i] is PollB
        }),
{
    reveal_with_fuel(SelectState2::run, 5);
}

/// An output that waits when a poll begins is handed out by that poll, before
/// any other producer is polled: the poll first polls again the producer
/// whose output it takes, in the producers' order, and then returns it.
pub proof fn lemma_waiting_output_first<A, B>(
    s: SelectState2<A, B>,
    woken_a: bool,
    woken_b: bool,
    again_a: Option<A>,
    again_b: Option<B>,
)
    requires
        s.wf(),
        s.phase is Idle,
        s.has_backlog(),
    ensures
        s.step(Event2::Poll { woken_a, woken_b }).1 == repoll(s.taken()),
        ({
            let next = s.step(Event2::Poll { woken_a, woken_b }).0;
            let reply = match s.taken().output {
                Some(Either2::A(_)) => Event2::PolledA(again_a),
                _ => Event2::PolledB(again_b),
            };
            next.step(reply).1 == Action2::Return(s.taken())
        }),
{
}

/// Once the producers were polled, a poll with nothing held and no producer
/// woken polls nothing, returns nothing, does not wake the task and leaves
/// the selector as it was.
pub proof fn lemma_idle_poll<A, B>(s: SelectState2<A, B>)
    requires
        s.wf(),
        s.polled_yet,
        s.phase is Idle,
        !s.has_backlog(),
    ensures
        s.step(Event2::Poll { woken_a: false, woken_b: false }) == (
        s,
        Action2::<A, B>::Return(Taken { output: None, wake: false }),
        ),
{
}

/// An optional value as a sequence of none or one value.
pub open spec fn opt_seq<T>(o: Option<T>) -> Seq<T> {
    match o {
        Some(x) => seq![x],
        None => Seq::empty(),
    }
}

/// What a step takes in from the first producer: the output that an accepted
/// report of its poll carries.
pub open spec fn completed_in_a<A, B>(s: SelectState2<A, B>, event: Event2<A, B>) -> Seq<A> {
    match event {
        Event2::PolledA(r) => if s.step(event).1 is Ignore {
            Seq::empty()
        } else {
            opt_seq(r)
        },
        _ => Seq::empty(),
    }
}

/// What a step takes in from the second producer: the output that an
/// accepted report of its poll carries.
pub open spec fn completed_in_b<A, B>(s: SelectState2<A, B>, event: Event2<A, B>) -> Seq<B> {
    match event {
        Event2::PolledB(r) => if s.step(event).1 is Ignore {
            Seq::empty()
        } else {
            opt_seq(r)
        },
        _ => Seq::empty(),
    }
}

/// The first producer's output that an action returns, if any.
pub open spec fn returned_in_a<A, B>(action: Action2<A, B>) -> Seq<A> {
    match action {
        Action2::Return(t) => match t.output {
            Some(Either2::A(x)) => seq![x],
            _ => Seq::empty(),
        },
        _ => Seq::empty(),
    }
}

/// The second producer's output that an action returns, if any.
pub open spec fn returned_in_b<A, B>(action: Action2<A, B>) -> Seq<B> {
    match action {
        Action2::Return(t) => match t.output {
            Some(Either2::B(y)) => seq![y],
            _ => Seq::empty(),
        },
        _ => Seq::empty(),
    }
}

impl<A, B> SelectState2<A, B> {
    /// The first producer's outputs the selector keeps, oldest first: the one
    /// being handed out, if it is this producer's, then its backlog.
    pub open spec fn kept_a(self) -> Seq<A> {
        let in_flight = match self.phase {
            Phase2::Handing(t) => match t.output {
                Some(Either2::A(x)) => seq![x],
                _ => Seq::empty(),
            },
            _ => Seq::empty(),
        };
        in_flight + opt_seq(self.a)
    }

    /// The second producer's outputs the selector keeps, oldest first: the
    /// one being handed out, if it is this producer's, then its backlog.
    pub open spec fn kept_b(self) -> Seq<B> {
        let in_flight = match self.phase {
            Phase2::Handing(t) => match t.output {
                Some(Either2::B(y)) => seq![y],
                _ => Seq::empty(),
            },
            _ => Seq::empty(),
        };
        in_flight + opt_seq(self.b)
    }

    /// The state after the selector answered each of `events` in turn.
    pub open spec fn after(self, events: Seq<Event2<A, B>>) -> Self
        decreases events.len(),
    {
        if events.len() == 0 {
            self
        } else {
            self.after(events.drop_last()).step(events.last()).0
        }
    }

    /// The outputs of the first producer that `events` report and the
    /// selector accepts, in order.
    pub open spec fn completed_a(self, events: Seq<Event2<A, B>>) -> Seq<A>
        decreases events.len(),
    {
        if events.len() == 0 {
            Seq::empty()
        } else {
            self.completed_a(events.drop_last()) + completed_in_a(
                self.after(events.drop_last()),
                events.last(),
            )
        }
    }

    /// The outputs of the second producer that `events` report and the
    /// selector accepts, in order.
    pub open spec fn completed_b(self, events: Seq<Event2<A, B>>) -> Seq<B>
        decreases events.len(),
    {
        if events.len() == 0 {
            Seq::empty()
        } else {
            self.completed_b(events.drop_last()) + completed_in_b(
                self.after(events.drop_last()),
                events.last(),
            )
        }
    }

    /// The outputs of the first producer that the answers to `events` return,
    /// in order.
    pub open spec fn returned_a(self, events: Seq<Event2<A, B>>) -> Seq<A>
        decreases events.len(),
    {
        if events.len() == 0 {
            Seq::empty()
        } else {
            self.returned_a(events.drop_last()) + returned_in_a(
                self.after(events.drop_last()).step(events.last()).1,
            )
        }
    }

    /// The outputs of the second producer that the answers to `events`
    /// return, in order.
    pub open spec fn returned_b(self, events: Seq<Event2<A, B>>) -> Seq<B>
        decreases events.len(),
    {
        if events.len() == 0 {
            Seq::empty()
        } else {
            self.returned_b(events.drop_last()) + returned_in_b(
                self.after(events.drop_last()).step(events.last()).1,
            )
        }
    }
}

proof fn lemma_step_keeps_slots<A, B>(s: SelectState2<A, B>, event: Event2<A, B>)
    requires
        s.wf(),
    ensures
        s.kept_a() + completed_in_a(s, event) =~= returned_in_a(s.step(event).1) + s.step(
            event,
        ).0.kept_a(),
        s.kept_b() + completed_in_b(s, event) =~= returned_in_b(s.step(event).1) + s.step(
            event,
        ).0.kept_b(),
{
}

proof fn lemma_run_keeps_slots<A, B>(s: SelectState2<A, B>, events: Seq<Event2<A, B>>)
    requires
        s.wf(),
    ensures
        s.after(events).wf(),
        s.kept_a() + s.completed_a(events) =~= s.returned_a(events) + s.after(events).kept_a(),
        s.kept_b() + s.completed_b(events) =~= s.returned_b(events) + s.after(events).kept_b(),
    decreases events.len(),
{
    if events.len() > 0 {
        let prefix = events.drop_last();
        let e = events.last();
        lemma_run_keeps_slots(s, prefix);
        let p = s.after(prefix);
        lemma_step_keeps_wf(p, e);
        lemma_step_keeps_slots(p, e);
        let ka = s.kept_a();
        let ca = s.completed_a(prefix);
        let ra = s.returned_a(prefix);
        assert(ka + (ca + completed_in_a(p, e)) =~= (ka + ca) + completed_in_a(p, e));
        assert((ra + p.kept_a()) + completed_in_a(p, e) =~= ra + (p.kept_a() + completed_in_a(p, e)));
        assert(ra + (returned_in_a(p.step(e).1) + p.step(e).0.kept_a()) =~= (ra + returned_in_a(
            p.step(e).1,
        )) + p.step(e).0.kept_a());
        let kb = s.kept_b();
        let cb = s.completed_b(prefix);
        let rb = s.returned_b(prefix);
        assert(kb + (cb + completed_in_b(p, e)) =~= (kb + cb) + completed_in_b(p, e));
        assert((rb + p.kept_b()) + completed_in_b(p, e) =~= rb + (p.kept_b() + completed_in_b(p, e)));
        assert(rb + (returned_in_b(p.step(e).1) + p.step(e).0.kept_b()) =~= (rb + returned_in_b(
            p.step(e).1,
        )) + p.step(e).0.kept_b());
    }
}

/// No output is dropped, duplicated or reordered: for any events a new
/// selector answers, each producer's outputs that were reported and accepted,
/// in order, are the ones returned as that producer's, in order, followed by
/// the ones the selector still keeps; and the selector stays well formed.
pub proof fn lemma_slots_in_order<A, B>(events: Seq<Event2<A, B>>)
    ensures
        ({
            let s = SelectState2::<A, B>::initial();
            &&& s.after(events).wf()
            &&& s.completed_a(events) =~= s.returned_a(events) + s.after(events).kept_a()
            &&& s.completed_b(events) =~= s.returned_b(events) + s.after(events).kept_b()
        }),
{
    let s = SelectState2::<A, B>::initial();
    lemma_run_keeps_slots(s, events);
    assert(s.kept_a() =~= Seq::<A>::empty());
    assert(s.kept_b() =~= Seq::<B>::empty());
}

/// A poll that finds nothing held polls, in order, every producer on the
/// selector's first poll and afterwards exactly the woken ones. It returns the
/// output of the earliest polled producer that was ready, after polling that
/// producer once more so that its next future starts, and wakes the task
/// exactly when the other polled producer was ready too; when none was ready
/// it returns nothing and does not wake the task.
pub proof fn lemma_fresh_poll<A, B>(
    s: SelectState2<A, B>,
    woken_a: bool,
    woken_b: bool,
    results_a: Seq<Option<A>>,
    results_b: Seq<Option<B>>,
)
    requires
        s.wf(),
        s.phase is Idle,
        !s.has_backlog(),
        results_a.len() >= 2,
        results_b.len() >= 2,
    ensures
        ({
            let acts = s.run(Event2::Poll { woken_a, woken_b }, 4, results_a, results_b);
            let pa = woken_a || !s.polled_yet;
            let pb = woken_b || !s.polled_yet;
            let ya = if pa { results_a[0] } else { None };
            let yb = if pb { results_b[0] } else { None };
            let n = (if pa { 1int } else { 0int }) + (if pb { 1int } else { 0int });
            &&& pa ==> acts[0] is PollA
            &&& pb ==> acts[n - 1] is PollB
            &&& match ya {
                Some(x) => acts.len() == n + 2 && acts[n] is PollA && acts[n + 1] == Action2::Return(
                    Taken { output: Some(Either2::<A, B>::A(x)), wake: yb is Some },
                ),
                None => match yb {
                    Some(y) => acts.len() == n + 2 && acts[n] is PollB && acts[n + 1]
                        == Action2::Return(Taken { output: Some(Either2::<A, B>::B(y)), wake: false }),
                    None => acts.len() == n + 1 && acts[n] == Action2::<A, B>::Return(
                        Taken { output: None, wake: false },
                    ),
                },
            }
        }),
{
    reveal_with_fuel(SelectState2::run, 5);
}

/// A poll that finds outputs held polls no producer first: it returns the
/// earliest producer's held output right after polling that producer once
/// more, and wakes the task exactly when the other producer holds an output
/// too.
pub proof fn lemma_backlog_poll<A, B>(
    s: SelectState2<A, B>,
    woken_a: bool,
    woken_b: bool,
    results_a: Seq<Option<A>>,
    results_b: Seq<Option<B>>,
)
    requires
        s.wf(),
        s.phase is Idle,
        s.has_backlog(),
        results_a.len() >= 1,
        results_b.len() >= 1,
    ensures
        ({
            let acts = s.run(Event2::Poll { woken_a, woken_b }, 4, results_a, results_b);
            &&& acts.len() == 2
            &&& match s.a {
                Some(x) => acts[0] is PollA && acts[1] == Action2::Return(
                    Taken { output: Some(Either2::<A, B>::A(x)), wake: s.b is Some },
                ),
                None => match s.b {
                    Some(y) => acts[0] is PollB && acts[1] == Action2::Return(
                        Taken { output: Some(Either2::<A, B>::B(y)), wake: false },
                    ),
                    None => false,
                },
            }
        }),
{
    reveal_with_fuel(SelectState2::run, 5);
}

} // verus!
