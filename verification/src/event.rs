use vstd::prelude::*;
use std::collections::HashMap;
use std::collections::VecDeque;
use crate::handlers::{Handler, HandlerSpec};

verus! {

/// An event waiting in the queue: the type key of a domain event and its payload.
#[derive(Debug)]
pub struct QueuedEvent<E> {
    pub key: u64,
    pub payload: E,
}

/// The events that handlers have emitted and that have not been dispatched yet,
/// oldest first.
pub struct EventQueue<E> {
    events: VecDeque<QueuedEvent<E>>,
}

impl<E> View for EventQueue<E> {
    type V = Seq<QueuedEvent<E>>;

    closed spec fn view(&self) -> Seq<QueuedEvent<E>> {
        self.events@
    }
}

impl<E> EventQueue<E> {
    /// The empty queue.
    pub(crate) fn new() -> (q: Self)
        ensures
            q@ == Seq::<QueuedEvent<E>>::empty(),
    {
        EventQueue { events: VecDeque::new() }
    }

    /// Adds an event behind all those already waiting.
    pub fn queue(&mut self, key: u64, event: E)
        ensures
            final(self)@ == old(self)@.push(QueuedEvent { key, payload: event }),
    {
        self.events.push_back(QueuedEvent { key, payload: event });
    }

    /// How many events are waiting.
    pub fn len(&self) -> (n: usize)
        ensures
            n == self@.len(),
    {
        self.events.len()
    }

    /// Takes the oldest waiting event out of the queue.
    pub(crate) fn take_event(&mut self) -> (r: Option<QueuedEvent<E>>)
        ensures
            old(self)@.len() == 0 ==> r.is_none() && final(self)@ == old(self)@,
            old(self)@.len() > 0 ==> r == Some(old(self)@[0]) && final(self)@ == old(self)@.skip(1),
    {
        let r = self.events.pop_front();
        proof {
            if old(self)@.len() > 0 {
                assert(self.events@ =~= old(self)@.skip(1));
            }
        }
        r
    }
}

/// Events related to the app's life cycle.
#[derive(Debug, Copy, Clone, PartialEq, Eq, Structural)]
pub enum AppEvent {
    /// Dispatched once, before anything else.
    Init,
    /// First event of a frame.
    PreUpdate,
    /// Dispatched between the pre and post update events.
    Update,
    /// Last event of a frame.
    PostUpdate,
    /// Dispatched when the app has been asked to close.
    RequestedClose,
    /// The last event ever dispatched.
    Close,
}

impl AppEvent {
    /// The position of the event's listener list in the event map.
    pub open spec fn slot(self) -> int {
        match self {
            AppEvent::Init => 0,
            AppEvent::PreUpdate => 1,
            AppEvent::Update => 2,
            AppEvent::PostUpdate => 3,
            AppEvent::RequestedClose => 4,
            AppEvent::Close => 5,
        }
    }

    fn index(&self) -> (i: usize)
        ensures
            i == self.slot(),
    {
        match self {
            AppEvent::Init => 0,
            AppEvent::PreUpdate => 1,
            AppEvent::Update => 2,
            AppEvent::PostUpdate => 3,
            AppEvent::RequestedClose => 4,
            AppEvent::Close => 5,
        }
    }
}

/// What listeners are registered for: one of the life-cycle events, or the domain
/// events of one type key.
#[derive(Debug, Copy, Clone, PartialEq, Eq, Structural)]
pub enum EventKind {
    App(AppEvent),
    Custom(u64),
}

/// The mathematical content of a listener.
pub ghost enum ListenerSpec {
    Once(Option<HandlerSpec>),
    Mut(HandlerSpec),
}

/// A handler registered for an event: `Mut` is invoked on every dispatch, `Once` on
/// the first dispatch only. A `Once` that holds nothing has fired already.
#[derive(Debug)]
pub enum EventListener {
    Once(Option<Handler>),
    Mut(Handler),
}

impl View for EventListener {
    type V = ListenerSpec;

    open spec fn view(&self) -> ListenerSpec {
        match self {
            EventListener::Once(Some(h)) => ListenerSpec::Once(Some(h@)),
            EventListener::Once(None) => ListenerSpec::Once(None),
            EventListener::Mut(h) => ListenerSpec::Mut(h@),
        }
    }
}

impl EventListener {
    pub fn is_once(&self) -> (b: bool)
        ensures
            b == (self@ is Once),
    {
        if let Self::Once(_) = self {
            return true;
        }
        return false;
    }
}

/// The views of a list of listeners, in the same order.
pub open spec fn listener_views(list: Seq<EventListener>) -> Seq<ListenerSpec> {
    list.map_values(|l: EventListener| l@)
}

/// The handlers that one dispatch invokes, in invocation order: every listener of the
/// list that has not fired, in registration order.
pub open spec fn invoked(list: Seq<ListenerSpec>) -> Seq<HandlerSpec>
    decreases list.len(),
{
    if list.len() == 0 {
        Seq::empty()
    } else {
        let before = invoked(list.drop_last());
        match list.last() {
            ListenerSpec::Mut(h) => before.push(h),
            ListenerSpec::Once(Some(h)) => before.push(h),
            ListenerSpec::Once(None) => before,
        }
    }
}

/// The listeners that are still registered after one dispatch: the persistent ones, in
/// registration order.
pub open spec fn retained(list: Seq<ListenerSpec>) -> Seq<ListenerSpec>
    decreases list.len(),
{
    if list.len() == 0 {
        Seq::empty()
    } else {
        let before = retained(list.drop_last());
        match list.last() {
            ListenerSpec::Mut(h) => before.push(ListenerSpec::Mut(h)),
            ListenerSpec::Once(_) => before,
        }
    }
}

/// The handler that a dispatch invokes for a listener, if it invokes one.
pub open spec fn fires(listener: ListenerSpec) -> Option<HandlerSpec> {
    match listener {
        ListenerSpec::Mut(h) => Some(h),
        ListenerSpec::Once(Some(h)) => Some(h),
        ListenerSpec::Once(None) => None,
    }
}

/// How many invocations of a dispatch come before that of the listener at `at`.
pub open spec fn rank(list: Seq<ListenerSpec>, at: int) -> int {
    invoked(list.take(at)).len() as int
}

/// The invocation at position `p` is that of a listener of the list, which has not
/// fired and whose rank is `p`.
pub open spec fn invoked_for(list: Seq<ListenerSpec>, p: int) -> bool {
    exists|at: int|
        0 <= at < list.len() && rank(list, at) == p && fires(#[trigger] list[at]) == Some(invoked(list)[p])
}

/// The invocations for a part of the list that ends earlier are the first invocations
/// for a part that ends later.
pub proof fn invoked_grows(list: Seq<ListenerSpec>, i: int, j: int)
    requires
        0 <= i <= j <= list.len(),
    ensures
        rank(list, i) <= rank(list, j),
        invoked(list.take(i)) == invoked(list.take(j)).take(rank(list, i)),
        i < j && fires(list[i]) is Some ==> rank(list, i) < rank(list, j) && invoked(list.take(j))[rank(
            list,
            i,
        )] == fires(list[i]).unwrap(),
    decreases j - i,
{
    if i == j {
        assert(invoked(list.take(j)).take(rank(list, i)) =~= invoked(list.take(j)));
    } else {
        invoked_grows(list, i, j - 1);
        let shorter = list.take(j - 1);
        let longer = list.take(j);
        assert(longer.drop_last() =~= shorter);
        assert(longer.last() == list[j - 1]);
        assert(invoked(shorter).take(rank(list, i)) =~= invoked(longer).take(rank(list, i)));
        if i == j - 1 {
            assert(invoked(shorter).take(rank(list, i)) =~= invoked(shorter));
        }
    }
}

/// One dispatch invokes every listener that has not fired exactly once, in
/// registration order, and nothing else: the listener at `at` is invoked at its rank,
/// a listener registered later is invoked later, and every invocation is that of a
/// listener of the list.
pub proof fn dispatch_invokes_each_once_in_order(list: Seq<ListenerSpec>)
    ensures
        forall|at: int|
            0 <= at < list.len() && fires(#[trigger] list[at]) is Some ==> 0 <= rank(list, at) < invoked(
                list,
            ).len() && invoked(list)[rank(list, at)] == fires(list[at]).unwrap(),
        forall|i: int, j: int|
            0 <= i < j < list.len() && fires(#[trigger] list[i]) is Some && fires(#[trigger] list[j]) is Some
                ==> rank(list, i) < rank(list, j),
        forall|p: int| 0 <= p < invoked(list).len() ==> #[trigger] invoked_for(list, p),
{
    assert(list.take(list.len() as int) =~= list);
    assert forall|at: int| 0 <= at < list.len() && fires(#[trigger] list[at]) is Some implies 0 <= rank(
        list,
        at,
    ) < invoked(list).len() && invoked(list)[rank(list, at)] == fires(list[at]).unwrap() by {
        invoked_grows(list, at, list.len() as int);
    }
    assert forall|i: int, j: int|
        0 <= i < j < list.len() && fires(#[trigger] list[i]) is Some && fires(
            #[trigger] list[j],
        ) is Some implies rank(list, i) < rank(list, j) by {
        invoked_grows(list, i, j);
    }
    assert forall|p: int| 0 <= p < invoked(list).len() implies #[trigger] invoked_for(list, p) by {
        let at = invocation_source(list, list.len() as int, p);
        invoked_grows(list, at, list.len() as int);
        assert(0 <= at < list.len() && rank(list, at) == p && fires(list[at]) == Some(invoked(list)[p]));
    }
}

/// The listener behind the invocation at position `p` among those of the first `n`
/// listeners.
proof fn invocation_source(list: Seq<ListenerSpec>, n: int, p: int) -> (at: int)
    requires
        0 <= n <= list.len(),
        0 <= p < rank(list, n),
    ensures
        0 <= at < n,
        rank(list, at) == p,
        fires(list[at]) is Some,
    decreases n,
{
    let shorter = list.take(n - 1);
    let longer = list.take(n);
    if n == 0 {
        assert(longer.len() == 0);
        0
    } else {
        assert(longer.drop_last() =~= shorter);
        assert(longer.last() == list[n - 1]);
        if p < rank(list, n - 1) {
            invocation_source(list, n - 1, p)
        } else {
            n - 1
        }
    }
}

/// A list of persistent listeners only is invoked whole, handler by handler, and
/// stays as it is.
pub proof fn persistent_listeners_stay(list: Seq<ListenerSpec>)
    requires
        forall|i: int| 0 <= i < list.len() ==> #[trigger] list[i] is Mut,
    ensures
        invoked(list).len() == list.len(),
        forall|i: int| 0 <= i < list.len() ==> ListenerSpec::Mut(#[trigger] invoked(list)[i]) == list[i],
        retained(list) == list,
    decreases list.len(),
{
    if list.len() > 0 {
        let shorter = list.drop_last();
        assert forall|i: int| 0 <= i < shorter.len() implies #[trigger] shorter[i] is Mut by {
            assert(shorter[i] == list[i]);
        }
        persistent_listeners_stay(shorter);
        assert(list.last() is Mut);
        assert forall|i: int| 0 <= i < list.len() implies ListenerSpec::Mut(#[trigger] invoked(list)[i])
            == list[i] by {
            if i < shorter.len() {
                assert(invoked(list)[i] == invoked(shorter)[i]);
                assert(shorter[i] == list[i]);
            }
        }
        assert(retained(list) =~= list);
    } else {
        assert(retained(list) =~= list);
    }
}

/// After a dispatch only persistent listeners are left, and they are the persistent
/// listeners of before, in registration order: a one-shot listener is never there for
/// a second dispatch.
pub proof fn one_shot_listeners_leave(list: Seq<ListenerSpec>)
    ensures
        forall|i: int| 0 <= i < retained(list).len() ==> #[trigger] retained(list)[i] is Mut,
        retained(list).len() <= list.len(),
        forall|i: int|
            0 <= i < retained(list).len() ==> exists|at: int|
                0 <= at < list.len() && #[trigger] list[at] == #[trigger] retained(list)[i],
        forall|at: int| 0 <= at < list.len() && #[trigger] list[at] is Mut ==> retained(list).contains(list[at]),
    decreases list.len(),
{
    if list.len() > 0 {
        let shorter = list.drop_last();
        one_shot_listeners_leave(shorter);
        let kept = retained(list);
        assert forall|i: int| 0 <= i < kept.len() implies exists|at: int|
            0 <= at < list.len() && #[trigger] list[at] == #[trigger] kept[i] by {
            if i < retained(shorter).len() {
                let at = choose|at: int|
                    0 <= at < shorter.len() && #[trigger] shorter[at] == #[trigger] retained(shorter)[i];
                assert(list[at] == shorter[at]);
                assert(kept[i] == retained(shorter)[i]);
            } else {
                assert(list[list.len() - 1] == kept[i]);
            }
        }
        assert forall|at: int| 0 <= at < list.len() && #[trigger] list[at] is Mut implies kept.contains(
            list[at],
        ) by {
            if at < shorter.len() {
                assert(shorter[at] == list[at]);
                let i = choose|i: int| 0 <= i < retained(shorter).len() && retained(shorter)[i] == shorter[at];
                assert(kept[i] == list[at]);
            } else {
                assert(kept[kept.len() - 1] == list[at]);
            }
        }
    }
}

/// Every later dispatch invokes the persistent listeners and nothing else: what is
/// retained is invoked whole and retained whole.
pub proof fn later_dispatches_repeat(list: Seq<ListenerSpec>)
    ensures
        invoked(retained(list)).len() == retained(list).len(),
        forall|i: int|
            0 <= i < retained(list).len() ==> ListenerSpec::Mut(#[trigger] invoked(retained(list))[i])
                == retained(list)[i],
        retained(retained(list)) == retained(list),
{
    one_shot_listeners_leave(list);
    persistent_listeners_stay(retained(list));
}

/// The views of a list of handlers, in the same order.
pub open spec fn handler_views(list: Seq<Handler>) -> Seq<HandlerSpec> {
    list.map_values(|h: Handler| h@)
}

/// Runs one dispatch over a list of listeners: hands out the handlers to invoke and
/// the listeners that stay registered.
fn fire(list: Vec<EventListener>) -> (r: (Vec<Handler>, Vec<EventListener>))
    ensures
        handler_views(r.0@) == invoked(listener_views(list@)),
        listener_views(r.1@) == retained(listener_views(list@)),
{
    let ghost all = listener_views(list@);
    let mut plan: Vec<Handler> = Vec::new();
    let mut kept: Vec<EventListener> = Vec::new();
    for listener in it: list.into_iter()
        invariant
            it.seq() == list@,
            all == listener_views(list@),
            handler_views(plan@) == invoked(all.take(it.index() as int)),
            listener_views(kept@) == retained(all.take(it.index() as int)),
    {
        let ghost done = it.index() as int;
        proof {
            assert(all.take(done + 1).drop_last() =~= all.take(done));
            assert(all.take(done + 1).last() == listener@);
        }
        let ghost plan_before = plan@;
        let ghost kept_before = kept@;
        match listener {
            EventListener::Mut(h) => {
                plan.push(h.duplicate());
                kept.push(EventListener::Mut(h));
                proof {
                    assert(handler_views(plan@) =~= handler_views(plan_before).push(h@));
                    assert(listener_views(kept@) =~= listener_views(kept_before).push(ListenerSpec::Mut(h@)));
                }
            },
            EventListener::Once(Some(h)) => {
                plan.push(h);
                proof {
                    assert(handler_views(plan@) =~= handler_views(plan_before).push(h@));
                }
            },
            EventListener::Once(None) => {},
        }
    }
    proof {
        assert(all.take(all.len() as int) =~= all);
    }
    (plan, kept)
}

/// The listeners of every event kind, each list in registration order.
pub struct EventMap {
    lifecycle: [Vec<EventListener>; 6],
    custom: HashMap<u64, Vec<EventListener>>,
}

impl View for EventMap {
    type V = Map<EventKind, Seq<ListenerSpec>>;

    /// A total map: a kind that nothing was registered for has the empty list.
    closed spec fn view(&self) -> Map<EventKind, Seq<ListenerSpec>> {
        Map::new(|kind: EventKind| true, |kind: EventKind| self.listeners(kind))
    }
}

impl EventMap {
    /// The listeners registered for `kind`, in registration order.
    closed spec fn listeners(&self, kind: EventKind) -> Seq<ListenerSpec> {
        match kind {
            EventKind::App(e) => listener_views(self.lifecycle@[e.slot()]@),
            EventKind::Custom(k) => if self.custom@.contains_key(k) {
                listener_views(self.custom@[k]@)
            } else {
                Seq::empty()
            },
        }
    }

    /// Every kind has its list of listeners.
    pub proof fn every_kind_has_a_list(&self, kind: EventKind)
        ensures
            self@.contains_key(kind),
    {
    }

    /// The map in which nothing is registered.
    pub fn new() -> (m: Self)
        ensures
            m@ == empty_listeners(),
    {
        let lifecycle: [Vec<EventListener>; 6] = [
            Vec::new(),
            Vec::new(),
            Vec::new(),
            Vec::new(),
            Vec::new(),
            Vec::new(),
        ];
        let m = EventMap { lifecycle, custom: HashMap::new() };
        proof {
            assert forall|kind: EventKind| #[trigger] m.listeners(kind) == Seq::<ListenerSpec>::empty() by {
                match kind {
                    EventKind::App(e) => {
                        assert(listener_views(m.lifecycle@[e.slot()]@) =~= Seq::<ListenerSpec>::empty());
                    },
                    EventKind::Custom(k) => {},
                }
            }
            assert(m@ =~= empty_listeners());
        }
        m
    }

    /// Registers `listener` for `kind`, behind the listeners already registered for it.
    pub fn add(&mut self, kind: EventKind, listener: EventListener)
        ensures
            final(self)@ == old(self)@.insert(kind, old(self)@[kind].push(listener@)),
    {
        let ghost before = *self;
        match kind {
            EventKind::App(e) => {
                let i = e.index();
                self.lifecycle[i].push(listener);
                proof {
                    assert(listener_views(self.lifecycle@[i as int]@) =~= listener_views(
                        before.lifecycle@[i as int]@,
                    ).push(listener@));
                    assert forall|other: EventKind| other != kind implies #[trigger] self.listeners(other)
                        == before.listeners(other) by {
                        match other {
                            EventKind::App(o) => {
                                assert(o.slot() != e.slot());
                            },
                            EventKind::Custom(k) => {},
                        }
                    }
                }
            },
            EventKind::Custom(k) => {
                let slot = self.custom.entry(k).or_insert(Vec::new());
                slot.push(listener);
                proof {
                    if before.custom@.contains_key(k) {
                        assert(listener_views(self.custom@[k]@) =~= listener_views(before.custom@[k]@).push(
                            listener@,
                        ));
                    } else {
                        assert(listener_views(self.custom@[k]@) =~= Seq::<ListenerSpec>::empty().push(
                            listener@,
                        ));
                    }
                }
            },
        }
        proof {
            assert(self@ =~= before@.insert(kind, before@[kind].push(listener@)));
        }
    }

    /// Dispatches one event of `kind`: hands out, in registration order, the handlers
    /// of the listeners that have not fired, and unregisters the one-shot listeners.
    /// The listeners of every other kind stay as they are.
    pub fn dispatch(&mut self, kind: EventKind) -> (plan: Vec<Handler>)
        ensures
            handler_views(plan@) == invoked(old(self)@[kind]),
            final(self)@ == old(self)@.insert(kind, retained(old(self)@[kind])),
    {
        let ghost before = *self;
        let mut plan: Vec<Handler> = Vec::new();
        match kind {
            EventKind::App(e) => {
                let i = e.index();
                let mut list: Vec<EventListener> = Vec::new();
                std::mem::swap(&mut list, &mut self.lifecycle[i]);
                let (handlers, kept) = fire(list);
                self.lifecycle[i] = kept;
                plan = handlers;
                proof {
                    assert forall|other: EventKind| other != kind implies #[trigger] self.listeners(other)
                        == before.listeners(other) by {
                        match other {
                            EventKind::App(o) => {
                                assert(o.slot() != e.slot());
                            },
                            EventKind::Custom(k) => {},
                        }
                    }
                }
            },
            EventKind::Custom(k) => {
                match self.custom.remove(&k) {
                    Some(list) => {
                        let (handlers, kept) = fire(list);
                        self.custom.insert(k, kept);
                        plan = handlers;
                    },
                    None => {
                        proof {
                            assert(retained(Seq::<ListenerSpec>::empty()) =~= Seq::<ListenerSpec>::empty());
                        }
                    },
                }
            },
        }
        proof {
            assert(self@ =~= before@.insert(kind, retained(before@[kind])));
        }
        plan
    }
}

/// The listener map in which nothing is registered for any kind.
pub open spec fn empty_listeners() -> Map<EventKind, Seq<ListenerSpec>> {
    Map::new(|kind: EventKind| true, |kind: EventKind| Seq::<ListenerSpec>::empty())
}

} // verus!
