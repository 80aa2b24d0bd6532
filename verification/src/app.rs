use vstd::prelude::*;
use std::collections::VecDeque;
use crate::error::{AppError, Target};
use crate::event::{
    handler_views, invoked, retained, AppEvent, EventKind, EventMap, ListenerSpec, QueuedEvent,
};
use crate::handlers::{first_missing, Handler, HandlerSpec, Scope};
use crate::storage::Storage;

verus! {

/// The event whose listeners are being invoked: a life-cycle event, or a domain event
/// with its payload.
#[derive(Debug)]
pub enum Dispatched<E> {
    App(AppEvent),
    Custom(QueuedEvent<E>),
}

impl<E> Dispatched<E> {
    pub open spec fn kind_of(self) -> EventKind {
        match self {
            Dispatched::App(e) => EventKind::App(e),
            Dispatched::Custom(q) => EventKind::Custom(q.key),
        }
    }

    /// The kind under which the event's listeners are registered.
    pub fn kind(&self) -> (k: EventKind)
        ensures
            k == self.kind_of(),
    {
        match self {
            Dispatched::App(e) => EventKind::App(*e),
            Dispatched::Custom(q) => EventKind::Custom(q.key),
        }
    }
}

/// The mathematical content of what one step of the app decides.
pub ghost enum StepSpec {
    Invoke(HandlerSpec),
    Dispatching(EventKind),
    MissingDependency(Target),
    Idle,
}

/// What one step of the app decides.
#[derive(Debug)]
pub enum Step {
    /// The host invokes this handler with the current event, then steps again.
    Invoke(Handler),
    /// The dispatch of an event of this kind has begun; its listeners come next.
    Dispatching(EventKind),
    /// The next handler asks for something that nothing provides. The app is closed
    /// for good.
    MissingDependency(Target),
    /// Nothing is left to do until the host asks for more.
    Idle,
}

impl View for Step {
    type V = StepSpec;

    open spec fn view(&self) -> StepSpec {
        match self {
            Step::Invoke(h) => StepSpec::Invoke(h@),
            Step::Dispatching(k) => StepSpec::Dispatching(*k),
            Step::MissingDependency(t) => StepSpec::MissingDependency(*t),
            Step::Idle => StepSpec::Idle,
        }
    }
}

/// The mathematical content of an app, as far as scheduling goes.
pub ghost struct AppModel<E> {
    /// The listeners of every event kind, in registration order.
    pub listeners: Map<EventKind, Seq<ListenerSpec>>,
    /// The type keys under which the registry holds a plugin.
    pub plugins: Set<u64>,
    /// The deferred events, oldest first.
    pub queue: Seq<QueuedEvent<E>>,
    /// The life-cycle events that were asked for and are not dispatched yet.
    pub script: Seq<AppEvent>,
    /// The handlers of the current dispatch that are not handed out yet.
    pub pending: Seq<HandlerSpec>,
    /// The event of the current dispatch.
    pub current: Option<Dispatched<E>>,
    pub initialized: bool,
    pub in_frame: bool,
    pub closed: bool,
}

impl<E> AppModel<E> {
    /// An app on which nothing has happened yet.
    pub open spec fn fresh(
        listeners: Map<EventKind, Seq<ListenerSpec>>,
        plugins: Set<u64>,
        queue: Seq<QueuedEvent<E>>,
    ) -> Self {
        AppModel {
            listeners,
            plugins,
            queue,
            script: Seq::empty(),
            pending: Seq::empty(),
            current: None,
            initialized: false,
            in_frame: false,
            closed: false,
        }
    }

    /// Deferred events are dispatched only between the dispatch of `Init` and that of
    /// `Close`.
    pub open spec fn queue_open(self) -> bool {
        &&& self.initialized
        &&& !(self.script.len() > 0 && self.script[0] == AppEvent::Init)
        &&& !(self.closed && self.script.len() == 0)
    }

    pub open spec fn accepts_init(self) -> bool {
        !self.initialized && !self.closed
    }

    /// Asking for `Init`: granted once, on an app that has not been initialized.
    pub open spec fn init(self) -> Self {
        if self.accepts_init() {
            AppModel { initialized: true, script: self.script.push(AppEvent::Init), ..self }
        } else {
            self
        }
    }

    pub open spec fn accepts_update(self) -> bool {
        self.initialized && !self.closed && !self.in_frame
    }

    /// Asking for a frame: granted on a running app whose last frame has settled.
    pub open spec fn update(self) -> Self {
        if self.accepts_update() {
            AppModel {
                in_frame: true,
                script: self.script.push(AppEvent::PreUpdate).push(AppEvent::Update).push(
                    AppEvent::PostUpdate,
                ),
                ..self
            }
        } else {
            self
        }
    }

    pub open spec fn accepts_close(self) -> bool {
        self.initialized && !self.closed
    }

    /// Asking to close: granted once, on a running app.
    pub open spec fn close(self) -> Self {
        if self.accepts_close() {
            AppModel {
                closed: true,
                script: self.script.push(AppEvent::RequestedClose).push(AppEvent::Close),
                ..self
            }
        } else {
            self
        }
    }

    pub open spec fn accepts_dispatch(self) -> bool {
        self.initialized && !self.closed
    }

    /// Dispatching a domain event from outside: on a running app it joins the queue
    /// behind the events already waiting.
    pub open spec fn dispatch(self, event: QueuedEvent<E>) -> Self {
        if self.accepts_dispatch() {
            AppModel { queue: self.queue.push(event), ..self }
        } else {
            self
        }
    }

    /// The dispatch of `event` begins: its live listeners are lined up in registration
    /// order and its one-shot listeners leave the map.
    pub open spec fn begin(self, event: Dispatched<E>) -> Self {
        let kind = event.kind_of();
        AppModel {
            current: Some(event),
            pending: invoked(self.listeners[kind]),
            listeners: self.listeners.insert(kind, retained(self.listeners[kind])),
            ..self
        }
    }

    /// A handler could not be resolved: nothing more will ever be dispatched.
    pub open spec fn fail(self) -> Self {
        AppModel {
            closed: true,
            in_frame: false,
            script: Seq::empty(),
            pending: Seq::empty(),
            current: None,
            ..self
        }
    }

    /// One step. The handlers of the current dispatch go first, one per step; then the
    /// oldest deferred event begins its dispatch; then the next life-cycle event; and
    /// when none of these is left the app is idle and its frame has settled.
    pub open spec fn step(self) -> (Self, StepSpec) {
        if self.pending.len() > 0 {
            let handler = self.pending[0];
            match first_missing(handler.params, self.plugins, Scope::Dispatch) {
                None => (AppModel { pending: self.pending.skip(1), ..self }, StepSpec::Invoke(handler)),
                Some(target) => (self.fail(), StepSpec::MissingDependency(target)),
            }
        } else if self.queue_open() && self.queue.len() > 0 {
            let event = self.queue[0];
            (
                AppModel { queue: self.queue.skip(1), ..self }.begin(Dispatched::Custom(event)),
                StepSpec::Dispatching(EventKind::Custom(event.key)),
            )
        } else if self.script.len() > 0 {
            let event = self.script[0];
            (
                AppModel { script: self.script.skip(1), ..self }.begin(Dispatched::App(event)),
                StepSpec::Dispatching(EventKind::App(event)),
            )
        } else {
            (AppModel { in_frame: false, current: None, ..self }, StepSpec::Idle)
        }
    }
}

/// The assembled runtime: the storage that handlers work on, the listeners, and the
/// life-cycle. It never runs a handler itself: `step` says what the host does next.
pub struct App<S, P, E> {
    storage: Storage<S, P, E>,
    event_handler: EventMap,
    script: VecDeque<AppEvent>,
    pending: VecDeque<Handler>,
    current: Option<Dispatched<E>>,
    initialized: bool,
    in_frame: bool,
    closed: bool,
}

impl<S, P, E> View for App<S, P, E> {
    type V = AppModel<E>;

    closed spec fn view(&self) -> AppModel<E> {
        AppModel {
            listeners: self.event_handler@,
            plugins: self.storage.plugins@.dom(),
            queue: self.storage.events@,
            script: self.script@,
            pending: handler_views(self.pending@),
            current: self.current,
            initialized: self.initialized,
            in_frame: self.in_frame,
            closed: self.closed,
        }
    }
}

impl<S, P, E> App<S, P, E> {
    /// The storage that handlers work on.
    pub closed spec fn store(&self) -> Storage<S, P, E> {
        self.storage
    }

    /// The scheduling view reads the registry's keys and the queue from the storage.
    pub proof fn view_reads_store(&self)
        ensures
            self@.plugins == self.store().plugins@.dom(),
            self@.queue == self.store().events@,
    {
    }

    /// Assembles an app on which nothing has happened yet.
    pub(crate) fn new(storage: Storage<S, P, E>, event_handler: EventMap) -> (app: Self)
        ensures
            app.store() == storage,
            app@ == AppModel::<E>::fresh(event_handler@, storage.plugins@.dom(), storage.events@),
    {
        let app = App {
            storage,
            event_handler,
            script: VecDeque::new(),
            pending: VecDeque::new(),
            current: None,
            initialized: false,
            in_frame: false,
            closed: false,
        };
        proof {
            assert(app.script@ =~= Seq::<AppEvent>::empty());
            assert(handler_views(app.pending@) =~= Seq::<HandlerSpec>::empty());
        }
        app
    }

    /// Whether `Init` has been asked for.
    pub fn is_initialized(&self) -> (b: bool)
        ensures
            b == self@.initialized,
    {
        self.initialized
    }

    /// Whether a frame has been asked for and has not settled yet.
    pub fn is_in_frame(&self) -> (b: bool)
        ensures
            b == self@.in_frame,
    {
        self.in_frame
    }

    /// Whether the app has been closed, by request or by a failure.
    pub fn is_closed(&self) -> (b: bool)
        ensures
            b == self@.closed,
    {
        self.closed
    }

    /// The storage, for reading.
    pub fn storage(&self) -> (s: &Storage<S, P, E>)
        ensures
            *s == self.store(),
    {
        &self.storage
    }

    /// The storage, for a handler to work on. Whatever the caller leaves behind the
    /// reference is the app's storage afterwards; the listeners, the life-cycle and
    /// the current dispatch are out of its reach.
    pub fn storage_mut(&mut self) -> (s: &mut Storage<S, P, E>)
        ensures
            *s == old(self).store(),
            final(self).store() == *final(s),
            final(self)@ == (AppModel {
                plugins: final(s).plugins@.dom(),
                queue: final(s).events@,
                ..old(self)@
            }),
    {
        &mut self.storage
    }

    /// The plugin stored under exactly this key, if there is one.
    pub fn get_plugin(&self, key: u64) -> (r: Option<&P>)
        ensures
            match r {
                Some(p) => self.store().plugins@.contains_key(key) && *p == self.store().plugins@[key],
                None => !self.store().plugins@.contains_key(key),
            },
    {
        self.storage.plugins.get(key)
    }

    /// The plugin stored under exactly this key, for changing it in place. Nothing
    /// else of the app changes.
    pub fn get_mut_plugin(&mut self, key: u64) -> (r: Option<&mut P>)
        ensures
            match r {
                Some(p) => old(self).store().plugins@.contains_key(key) && *p == old(self).store().plugins@[key]
                    && final(self).store().plugins@ == old(self).store().plugins@.insert(key, *final(p)),
                None => !old(self).store().plugins@.contains_key(key) && final(self).store().plugins@ == old(
                    self,
                ).store().plugins@,
            },
            final(self).store().state == old(self).store().state,
            final(self).store().events == old(self).store().events,
            final(self)@ == old(self)@,
    {
        proof {
            let before = self.storage.plugins@;
            assert forall|plugin: P| before.contains_key(key) implies #[trigger] before.insert(key, plugin).dom()
                == before.dom() by {
                assert(before.insert(key, plugin).dom() =~= before.dom());
            }
        }
        self.storage.plugins.get_mut(key)
    }

    /// The event of the current dispatch, if a dispatch has begun.
    pub fn current_event(&self) -> (e: &Option<Dispatched<E>>)
        ensures
            *e == self@.current,
    {
        &self.current
    }

    /// What an invocation works with: the storage, for the handler to change, and the
    /// event of the current dispatch.
    pub fn invocation(&mut self) -> (r: (&mut Storage<S, P, E>, &Option<Dispatched<E>>))
        ensures
            *r.0 == old(self).store(),
            *r.1 == old(self)@.current,
            final(self).store() == *final(r.0),
            final(self)@ == (AppModel {
                plugins: final(r.0).plugins@.dom(),
                queue: final(r.0).events@,
                ..old(self)@
            }),
    {
        (&mut self.storage, &self.current)
    }

    /// Asks for `Init`. Returns whether the request was granted.
    pub fn init(&mut self) -> (granted: bool)
        ensures
            granted == old(self)@.accepts_init(),
            final(self)@ == old(self)@.init(),
            final(self).store() == old(self).store(),
    {
        if !self.initialized && !self.closed {
            self.initialized = true;
            self.script.push_back(AppEvent::Init);
            true
        } else {
            false
        }
    }

    /// Asks for one frame: `PreUpdate`, `Update`, `PostUpdate`. Returns whether the
    /// request was granted.
    pub fn update(&mut self) -> (granted: bool)
        ensures
            granted == old(self)@.accepts_update(),
            final(self)@ == old(self)@.update(),
            final(self).store() == old(self).store(),
    {
        if self.initialized && !self.closed && !self.in_frame {
            self.in_frame = true;
            self.script.push_back(AppEvent::PreUpdate);
            self.script.push_back(AppEvent::Update);
            self.script.push_back(AppEvent::PostUpdate);
            true
        } else {
            false
        }
    }

    /// Asks the app to close: `RequestedClose`, then `Close`. Returns whether the
    /// request was granted.
    pub fn close(&mut self) -> (granted: bool)
        ensures
            granted == old(self)@.accepts_close(),
            final(self)@ == old(self)@.close(),
            final(self).store() == old(self).store(),
    {
        if self.initialized && !self.closed {
            self.closed = true;
            self.script.push_back(AppEvent::RequestedClose);
            self.script.push_back(AppEvent::Close);
            true
        } else {
            false
        }
    }

    /// Dispatches a domain event from outside a handler. On a running app the event
    /// joins the queue, so that it never cuts into a dispatch in progress; otherwise
    /// it is dropped. Returns whether it was taken.
    pub fn dispatch(&mut self, key: u64, event: E) -> (taken: bool)
        ensures
            taken == old(self)@.accepts_dispatch(),
            final(self)@ == old(self)@.dispatch(QueuedEvent { key, payload: event }),
            final(self).store().state == old(self).store().state,
            final(self).store().plugins == old(self).store().plugins,
    {
        if self.initialized && !self.closed {
            self.storage.events.queue(key, event);
            true
        } else {
            false
        }
    }

    fn queue_is_open(&self) -> (b: bool)
        ensures
            b == self@.queue_open(),
    {
        if !self.initialized {
            return false;
        }
        if self.script.len() > 0 {
            self.script[0] != AppEvent::Init
        } else {
            !self.closed
        }
    }

    fn begin(&mut self, event: Dispatched<E>)
        requires
            old(self).pending@.len() == 0,
        ensures
            final(self)@ == old(self)@.begin(event),
            final(self).store() == old(self).store(),
    {
        let kind = event.kind();
        let plan = self.event_handler.dispatch(kind);
        let ghost all = handler_views(plan@);
        for handler in it: plan.into_iter()
            invariant
                it.seq() == plan@,
                all == handler_views(plan@),
                handler_views(self.pending@) == all.take(it.index() as int),
                self.storage == old(self).storage,
                self.script == old(self).script,
                self.initialized == old(self).initialized,
                self.in_frame == old(self).in_frame,
                self.closed == old(self).closed,
                self.event_handler@ == old(self).event_handler@.insert(
                    kind,
                    retained(old(self).event_handler@[kind]),
                ),
        {
            let ghost before = self.pending@;
            self.pending.push_back(handler);
            proof {
                assert(handler_views(self.pending@) =~= handler_views(before).push(handler@));
                assert(all.take(it.index() + 1) =~= all.take(it.index() as int).push(handler@));
            }
        }
        proof {
            assert(all.take(all.len() as int) =~= all);
        }
        self.current = Some(event);
    }

    fn fail(&mut self)
        ensures
            final(self)@ == old(self)@.fail(),
            final(self).store() == old(self).store(),
    {
        self.closed = true;
        self.in_frame = false;
        self.script.clear();
        self.pending.clear();
        self.current = None;
        proof {
            assert(handler_views(self.pending@) =~= Seq::<HandlerSpec>::empty());
        }
    }

    /// Decides what happens next, and moves the app there. The storage's state and
    /// plugins are left alone; of the queue at most the oldest event is taken.
    pub fn step(&mut self) -> (r: Step)
        ensures
            r@ == old(self)@.step().1,
            final(self)@ == old(self)@.step().0,
            final(self).store().state == old(self).store().state,
            final(self).store().plugins == old(self).store().plugins,
    {
        if self.pending.len() > 0 {
            let ghost before = self.pending@;
            let handler = self.pending.pop_front().unwrap();
            proof {
                assert(handler_views(before)[0] == handler@);
                assert(handler_views(self.pending@) =~= handler_views(before).skip(1));
            }
            match handler.resolve(&self.storage.plugins, Scope::Dispatch) {
                Ok(()) => Step::Invoke(handler),
                Err(AppError::MissingDependency(target)) => {
                    self.fail();
                    Step::MissingDependency(target)
                },
                Err(_) => Step::Idle,
            }
        } else if self.queue_is_open() && self.storage.events.len() > 0 {
            match self.storage.events.take_event() {
                Some(event) => {
                    let key = event.key;
                    self.begin(Dispatched::Custom(event));
                    Step::Dispatching(EventKind::Custom(key))
                },
                None => Step::Idle,
            }
        } else if self.script.len() > 0 {
            match self.script.pop_front() {
                Some(event) => {
                    proof {
                        assert(self.script@ =~= old(self).script@.skip(1));
                    }
                    self.begin(Dispatched::App(event));
                    Step::Dispatching(EventKind::App(event))
                },
                None => Step::Idle,
            }
        } else {
            self.in_frame = false;
            self.current = None;
            Step::Idle
        }
    }
}

} // verus!
