use vstd::prelude::*;
use crate::app::{AppModel, Dispatched, StepSpec};
use crate::event::{later_dispatches_repeat, one_shot_listeners_leave, AppEvent, EventKind, QueuedEvent};
use crate::handlers::{first_missing, Scope};

verus! {

/// Everything that can happen to an app: the host asks for a part of the life-cycle
/// or dispatches a domain event, a handler queues an event or changes the registry,
/// or the app takes a step.
pub ghost enum Op<E> {
    Init,
    Update,
    Close,
    Dispatch(QueuedEvent<E>),
    Emit(QueuedEvent<E>),
    Registry(Set<u64>),
    Step,
}

/// The domain events among the dispatched ones, in order.
pub open spec fn domain_events<E>(dispatched: Seq<Dispatched<E>>) -> Seq<QueuedEvent<E>>
    decreases dispatched.len(),
{
    if dispatched.len() == 0 {
        Seq::empty()
    } else {
        let before = domain_events(dispatched.drop_last());
        match dispatched.last() {
            Dispatched::Custom(event) => before.push(event),
            Dispatched::App(_) => before,
        }
    }
}

impl<E> AppModel<E> {
    /// The app after `op`.
    pub open spec fn apply(self, op: Op<E>) -> Self {
        match op {
            Op::Init => self.init(),
            Op::Update => self.update(),
            Op::Close => self.close(),
            Op::Dispatch(event) => self.dispatch(event),
            Op::Emit(event) => AppModel { queue: self.queue.push(event), ..self },
            Op::Registry(plugins) => AppModel { plugins, ..self },
            Op::Step => self.step().0,
        }
    }

    /// The event whose dispatch `op` begins, if it begins one.
    pub open spec fn began(self, op: Op<E>) -> Option<Dispatched<E>> {
        match op {
            Op::Step => match self.step().1 {
                StepSpec::Dispatching(_) => self.step().0.current,
                _ => None,
            },
            _ => None,
        }
    }

    /// The event that `op` puts into the queue, if it puts one there.
    pub open spec fn entered(self, op: Op<E>) -> Option<QueuedEvent<E>> {
        match op {
            Op::Emit(event) => Some(event),
            Op::Dispatch(event) => if self.accepts_dispatch() {
                Some(event)
            } else {
                None
            },
            _ => None,
        }
    }

    /// The app after `ops`, first to last.
    pub open spec fn run(self, ops: Seq<Op<E>>) -> Self
        decreases ops.len(),
    {
        if ops.len() == 0 {
            self
        } else {
            self.run(ops.drop_last()).apply(ops.last())
        }
    }

    /// The events whose dispatch began during `ops`, in order.
    pub open spec fn dispatched(self, ops: Seq<Op<E>>) -> Seq<Dispatched<E>>
        decreases ops.len(),
    {
        if ops.len() == 0 {
            Seq::empty()
        } else {
            let before = self.dispatched(ops.drop_last());
            match self.run(ops.drop_last()).began(ops.last()) {
                Some(event) => before.push(event),
                None => before,
            }
        }
    }

    /// The events that entered the queue during `ops`, in order.
    pub open spec fn queued(self, ops: Seq<Op<E>>) -> Seq<QueuedEvent<E>>
        decreases ops.len(),
    {
        if ops.len() == 0 {
            Seq::empty()
        } else {
            let before = self.queued(ops.drop_last());
            match self.run(ops.drop_last()).entered(ops.last()) {
                Some(event) => before.push(event),
                None => before,
            }
        }
    }

    /// What holds of an app that started fresh, and of the events dispatched since:
    /// `Init` is the first of them and stands nowhere else, `Close` can only be the
    /// last, and what is still to come keeps it so.
    pub open spec fn in_order(self, seen: Seq<Dispatched<E>>) -> bool {
        let script = self.script;
        &&& !self.initialized ==> script.len() == 0 && seen.len() == 0 && self.pending.len() == 0
            && !self.closed
        &&& self.initialized && seen.len() == 0 ==> script.len() > 0 && script[0] == AppEvent::Init
            && self.pending.len() == 0
        &&& forall|i: int| 0 < i < script.len() ==> #[trigger] script[i] != AppEvent::Init
        &&& seen.len() > 0 ==> seen[0].kind_of() == EventKind::App(AppEvent::Init) && (forall|i: int|
            0 <= i < script.len() ==> #[trigger] script[i] != AppEvent::Init)
        &&& forall|i: int|
            0 < i < seen.len() ==> (#[trigger] seen[i]).kind_of() != EventKind::App(AppEvent::Init)
        &&& forall|i: int| 0 <= i < script.len() - 1 ==> #[trigger] script[i] != AppEvent::Close
        &&& !self.closed ==> forall|i: int| 0 <= i < script.len() ==> #[trigger] script[i] != AppEvent::Close
        &&& forall|i: int|
            0 <= i < seen.len() - 1 ==> (#[trigger] seen[i]).kind_of() != EventKind::App(AppEvent::Close)
        &&& seen.len() > 0 && seen.last().kind_of() == EventKind::App(AppEvent::Close) ==> self.closed
            && script.len() == 0
    }
}

/// Whatever happens to an app keeps its events in order.
proof fn op_keeps_order<E>(app: AppModel<E>, seen: Seq<Dispatched<E>>, op: Op<E>)
    requires
        app.in_order(seen),
    ensures
        app.apply(op).in_order(
            match app.began(op) {
                Some(event) => seen.push(event),
                None => seen,
            },
        ),
{
    let next = app.apply(op);
    match op {
        Op::Step => {
            match app.step().1 {
                StepSpec::Dispatching(kind) => {
                    let event = app.step().0.current.unwrap();
                    let after = seen.push(event);
                    assert(event.kind_of() == kind);
                    assert(app.pending.len() == 0);
                    assert forall|i: int| 0 <= i < after.len() - 1 implies (#[trigger] after[i]).kind_of()
                        != EventKind::App(AppEvent::Close) by {
                        assert(after[i] == seen[i]);
                    }
                    assert forall|i: int| 0 < i < after.len() implies (#[trigger] after[i]).kind_of()
                        != EventKind::App(AppEvent::Init) by {
                        if i < seen.len() {
                            assert(after[i] == seen[i]);
                        }
                    }
                    if app.queue_open() && app.queue.len() > 0 {
                        assert(seen.len() > 0);
                        assert(after[0] == seen[0]);
                        assert(next.script == app.script);
                    } else {
                        assert(next.script == app.script.skip(1));
                        assert forall|i: int| 0 <= i < next.script.len() implies #[trigger] next.script[i]
                            == app.script[i + 1] by {}
                        if seen.len() > 0 {
                            assert(after[0] == seen[0]);
                        }
                    }
                },
                _ => {},
            }
        },
        _ => {},
    }
}

/// The events of a run, one operation at a time.
proof fn run_keeps_order<E>(start: AppModel<E>, ops: Seq<Op<E>>)
    requires
        start.in_order(Seq::empty()),
    ensures
        start.run(ops).in_order(start.dispatched(ops)),
    decreases ops.len(),
{
    if ops.len() > 0 {
        run_keeps_order(start, ops.drop_last());
        op_keeps_order(start.run(ops.drop_last()), start.dispatched(ops.drop_last()), ops.last());
    }
}

/// The life-cycle of an app that started fresh, whatever the host and the handlers
/// do: no event is dispatched before `Init`, `Init` is dispatched at most once, and
/// `Close` is dispatched at most once and nothing after it. Once an initialized app
/// has no life-cycle event left to dispatch, `Init` has been dispatched.
pub proof fn life_cycle_is_ordered<E>(start: AppModel<E>, ops: Seq<Op<E>>)
    requires
        start == AppModel::<E>::fresh(start.listeners, start.plugins, start.queue),
    ensures
        ({
            let seen = start.dispatched(ops);
            &&& seen.len() > 0 ==> seen[0].kind_of() == EventKind::App(AppEvent::Init)
            &&& forall|i: int|
                0 <= i < seen.len() && (#[trigger] seen[i]).kind_of() == EventKind::App(AppEvent::Init) ==> i
                    == 0
            &&& forall|i: int|
                0 <= i < seen.len() && (#[trigger] seen[i]).kind_of() == EventKind::App(AppEvent::Close)
                    ==> i == seen.len() - 1
            &&& start.run(ops).initialized && start.run(ops).script.len() == 0 ==> seen.len() > 0
        }),
{
    run_keeps_order(start, ops);
}

/// The life-cycle events among the dispatched ones, in order.
pub open spec fn app_events<E>(dispatched: Seq<Dispatched<E>>) -> Seq<AppEvent>
    decreases dispatched.len(),
{
    if dispatched.len() == 0 {
        Seq::empty()
    } else {
        let before = app_events(dispatched.drop_last());
        match dispatched.last() {
            Dispatched::App(event) => before.push(event),
            Dispatched::Custom(_) => before,
        }
    }
}

/// Which life-cycle event may come next after which: a frame after `Init` or after a
/// frame, the three events of a frame in their order, the request to close after
/// `Init` or after a frame, and `Close` after the request.
pub open spec fn may_follow(earlier: AppEvent, later: AppEvent) -> bool {
    match (earlier, later) {
        (AppEvent::Init, AppEvent::PreUpdate) => true,
        (AppEvent::Init, AppEvent::RequestedClose) => true,
        (AppEvent::PreUpdate, AppEvent::Update) => true,
        (AppEvent::Update, AppEvent::PostUpdate) => true,
        (AppEvent::PostUpdate, AppEvent::PreUpdate) => true,
        (AppEvent::PostUpdate, AppEvent::RequestedClose) => true,
        (AppEvent::RequestedClose, AppEvent::Close) => true,
        _ => false,
    }
}

/// The events begin with `Init`, and each is one that may follow the one before it.
pub open spec fn on_course(events: Seq<AppEvent>) -> bool {
    &&& events.len() > 0 ==> events[0] == AppEvent::Init
    &&& forall|i: int| 0 <= i < events.len() - 1 ==> may_follow(#[trigger] events[i], events[i + 1])
}

/// What holds of the life-cycle events dispatched so far together with those still to
/// come: they are on course, and while the app is not closed they end where a frame
/// or the request to close may follow.
spec fn course_holds<E>(app: AppModel<E>, seen: Seq<Dispatched<E>>) -> bool {
    let all = app_events(seen) + app.script;
    &&& on_course(all)
    &&& !app.initialized ==> all.len() == 0 && !app.closed
    &&& app.initialized && !app.closed ==> all.len() > 0 && (all.last() == AppEvent::Init || all.last()
        == AppEvent::PostUpdate)
}

proof fn op_keeps_course<E>(app: AppModel<E>, seen: Seq<Dispatched<E>>, op: Op<E>)
    requires
        app.in_order(seen),
        course_holds(app, seen),
    ensures
        course_holds(
            app.apply(op),
            match app.began(op) {
                Some(event) => seen.push(event),
                None => seen,
            },
        ),
{
    let next = app.apply(op);
    let all = app_events(seen) + app.script;
    match op {
        Op::Step => {
            match app.step().1 {
                StepSpec::Dispatching(kind) => {
                    let event = app.step().0.current.unwrap();
                    let after = seen.push(event);
                    assert(after.drop_last() =~= seen);
                    assert(after.last() == event);
                    assert(app_events(after) + next.script =~= all);
                },
                StepSpec::MissingDependency(_) => {
                    let fewer = app_events(seen) + next.script;
                    assert(fewer =~= app_events(seen));
                    assert forall|i: int| 0 <= i < fewer.len() - 1 implies may_follow(
                        #[trigger] fewer[i],
                        fewer[i + 1],
                    ) by {
                        assert(fewer[i] == all[i] && fewer[i + 1] == all[i + 1]);
                    }
                    if fewer.len() > 0 {
                        assert(fewer[0] == all[0]);
                    }
                },
                _ => {
                    assert(app_events(seen) + next.script =~= all);
                },
            }
        },
        Op::Init => {
            if app.accepts_init() {
                assert(app_events(seen) + next.script =~= all.push(AppEvent::Init));
            }
        },
        Op::Update => {
            if app.accepts_update() {
                let more = app_events(seen) + next.script;
                assert(more =~= all.push(AppEvent::PreUpdate).push(AppEvent::Update).push(
                    AppEvent::PostUpdate,
                ));
                assert forall|i: int| 0 <= i < more.len() - 1 implies may_follow(
                    #[trigger] more[i],
                    more[i + 1],
                ) by {
                    if i < all.len() - 1 {
                        assert(more[i] == all[i] && more[i + 1] == all[i + 1]);
                    }
                }
                assert(more[0] == all[0]);
            }
        },
        Op::Close => {
            if app.accepts_close() {
                let more = app_events(seen) + next.script;
                assert(more =~= all.push(AppEvent::RequestedClose).push(AppEvent::Close));
                assert forall|i: int| 0 <= i < more.len() - 1 implies may_follow(
                    #[trigger] more[i],
                    more[i + 1],
                ) by {
                    if i < all.len() - 1 {
                        assert(more[i] == all[i] && more[i + 1] == all[i + 1]);
                    }
                }
                assert(more[0] == all[0]);
            }
        },
        _ => {
            assert(app_events(seen) + next.script =~= all);
        },
    }
}

proof fn run_keeps_course<E>(start: AppModel<E>, ops: Seq<Op<E>>)
    requires
        start.in_order(Seq::empty()),
        course_holds(start, Seq::empty()),
    ensures
        course_holds(start.run(ops), start.dispatched(ops)),
    decreases ops.len(),
{
    if ops.len() > 0 {
        run_keeps_order(start, ops.drop_last());
        run_keeps_course(start, ops.drop_last());
        op_keeps_course(start.run(ops.drop_last()), start.dispatched(ops.drop_last()), ops.last());
    }
}

/// The life-cycle events of an app that started fresh are dispatched on course,
/// whatever the host and the handlers do: `Init` first, then whole frames of
/// `PreUpdate`, `Update` and `PostUpdate` in this order, then `RequestedClose` and
/// `Close`; a failure can only cut the course short.
pub proof fn life_cycle_follows_its_course<E>(start: AppModel<E>, ops: Seq<Op<E>>)
    requires
        start == AppModel::<E>::fresh(start.listeners, start.plugins, start.queue),
    ensures
        on_course(app_events(start.dispatched(ops))),
{
    assert(app_events(Seq::<Dispatched<E>>::empty()) + start.script =~= Seq::<AppEvent>::empty());
    run_keeps_course(start, ops);
    let app = start.run(ops);
    let seen = app_events(start.dispatched(ops));
    let all = seen + app.script;
    assert forall|i: int| 0 <= i < seen.len() - 1 implies may_follow(#[trigger] seen[i], seen[i + 1]) by {
        assert(seen[i] == all[i] && seen[i + 1] == all[i + 1]);
    }
    if seen.len() > 0 {
        assert(seen[0] == all[0]);
    }
}

/// A dispatch is never cut into: while handlers of the current dispatch wait, a step
/// begins no other dispatch. It hands out the first of them and leaves the queue, the
/// listeners and the life-cycle as they are, or it fails for good.
pub proof fn dispatch_runs_to_its_end<E>(app: AppModel<E>)
    requires
        app.pending.len() > 0,
    ensures
        app.began(Op::Step) is None,
        app.step().1 is Invoke || app.step().1 is MissingDependency,
        app.step().1 is Invoke ==> app.step().1 == StepSpec::Invoke(app.pending[0]) && app.step().0 == (
        AppModel { pending: app.pending.skip(1), ..app }),
        app.step().1 is MissingDependency ==> app.step().0 == app.fail(),
{
}

/// The app after `n` steps in a row.
pub open spec fn after_steps<E>(app: AppModel<E>, n: nat) -> AppModel<E>
    decreases n,
{
    if n == 0 {
        app
    } else {
        after_steps(app, (n - 1) as nat).step().0
    }
}

/// The handlers of a dispatch are handed out one per step, in their order: while
/// every one of the first `n` can be resolved, step number `i` invokes the handler at
/// position `i`, and after `n` steps the first `n` are gone and nothing else has
/// changed.
pub proof fn handlers_are_handed_out_in_order<E>(app: AppModel<E>, n: nat)
    requires
        n <= app.pending.len(),
        forall|i: int|
            0 <= i < n ==> first_missing((#[trigger] app.pending[i]).params, app.plugins, Scope::Dispatch)
                is None,
    ensures
        after_steps(app, n) == (AppModel { pending: app.pending.skip(n as int), ..app }),
        forall|i: nat|
            i < n ==> (#[trigger] after_steps(app, i)).step().1 == StepSpec::Invoke(app.pending[i as int]),
    decreases n,
{
    if n == 0 {
        assert(app.pending.skip(0) =~= app.pending);
    } else {
        let m = (n - 1) as nat;
        handlers_are_handed_out_in_order(app, m);
        let before = after_steps(app, m);
        assert(before.pending[0] == app.pending[m as int]);
        assert(before.pending.skip(1) =~= app.pending.skip(n as int));
        assert forall|i: nat| i < n implies (#[trigger] after_steps(app, i)).step().1 == StepSpec::Invoke(
            app.pending[i as int],
        ) by {
            if i == m {
            }
        }
    }
}

/// A one-shot listener fires once in the life of an app: once the dispatch of an
/// event of some kind has begun, only persistent listeners are registered for that
/// kind, whatever happens afterwards.
pub proof fn fired_one_shots_are_gone<E>(start: AppModel<E>, ops: Seq<Op<E>>, at: int, position: int)
    requires
        0 <= at < start.dispatched(ops).len(),
        0 <= position < start.run(ops).listeners[start.dispatched(ops)[at].kind_of()].len(),
    ensures
        start.run(ops).listeners[start.dispatched(ops)[at].kind_of()][position] is Mut,
    decreases ops.len(),
{
    let kind = start.dispatched(ops)[at].kind_of();
    let earlier = ops.drop_last();
    let app = start.run(earlier);
    let seen = start.dispatched(earlier);
    let op = ops.last();
    match app.began(op) {
        Some(event) => {
            one_shot_listeners_leave(app.listeners[event.kind_of()]);
            later_dispatches_repeat(app.listeners[event.kind_of()]);
            if at < seen.len() {
                assert(seen.push(event)[at] == seen[at]);
                if event.kind_of() == kind {
                } else {
                    fired_one_shots_are_gone(start, earlier, at, position);
                }
            } else {
                assert(seen.push(event)[at] == event);
            }
        },
        None => {
            assert(app.apply(op).listeners == app.listeners);
            fired_one_shots_are_gone(start, earlier, at, position);
        },
    }
}

/// The queue is first in, first out: the domain events dispatched during a run,
/// followed by those still waiting, are the events that waited at the start followed
/// by those that entered during the run, in the order in which they entered.
pub proof fn queue_is_first_in_first_out<E>(start: AppModel<E>, ops: Seq<Op<E>>)
    ensures
        domain_events(start.dispatched(ops)) + start.run(ops).queue == start.queue + start.queued(ops),
    decreases ops.len(),
{
    if ops.len() == 0 {
        assert(domain_events(start.dispatched(ops)) + start.run(ops).queue =~= start.queue + start.queued(
            ops,
        ));
    } else {
        let earlier = ops.drop_last();
        queue_is_first_in_first_out(start, earlier);
        let app = start.run(earlier);
        let seen = start.dispatched(earlier);
        let op = ops.last();
        let lhs_before = domain_events(seen) + app.queue;
        let rhs_before = start.queue + start.queued(earlier);
        match app.began(op) {
            Some(event) => {
                let after = seen.push(event);
                assert(after.drop_last() =~= seen);
                assert(after.last() == event);
                match event {
                    Dispatched::Custom(queued) => {
                        assert(app.queue[0] == queued);
                        assert(domain_events(after) + app.queue.skip(1) =~= lhs_before);
                    },
                    Dispatched::App(_) => {
                        assert(domain_events(after) + app.apply(op).queue =~= lhs_before);
                    },
                }
            },
            None => {
                match app.entered(op) {
                    Some(event) => {
                        assert(domain_events(seen) + app.apply(op).queue =~= lhs_before.push(event));
                        assert(start.queue + start.queued(ops) =~= rhs_before.push(event));
                    },
                    None => {
                        assert(app.apply(op).queue == app.queue);
                    },
                }
            },
        }
    }
}

} // verus!
