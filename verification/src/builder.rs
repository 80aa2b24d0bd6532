use vstd::prelude::*;
use vstd::pervasive::unreached;
use crate::app::{App, AppModel};
use crate::config::{
    config_size, defer_all, deferred, deferring_in_two_runs, deferring_replaces_or_appends, distinct_keys,
    distinct_keys_are_appended, key_position, list_size, op_size, ops_size, size_of_deferred, BuildConfig,
    ConfigOp,
    LateConfigs, RunnerKind,
};
use crate::error::{AppError, Cause, Target};
use crate::event::{empty_listeners, EventKind, EventListener, EventMap, EventQueue, ListenerSpec};
use crate::handlers::{first_missing, Handler, HandlerSpec, Scope};
use crate::storage::{Plugins, Storage};

verus! {

/// The mathematical content of a builder.
pub ghost struct BuilderModel<P> {
    /// The plugins added so far.
    pub plugins: Map<u64, P>,
    /// The listeners registered so far, in registration order.
    pub listeners: Map<EventKind, Seq<ListenerSpec>>,
    /// Who will drive the app.
    pub runner: RunnerKind,
    /// The setup handler.
    pub setup: HandlerSpec,
    /// The deferred configurations that have not been applied yet, in their order.
    pub late: Seq<BuildConfig<P>>,
}

impl<P> BuilderModel<P> {
    /// A builder to which nothing has been added.
    pub open spec fn fresh(setup: HandlerSpec) -> Self {
        BuilderModel {
            plugins: Map::empty(),
            listeners: empty_listeners(),
            runner: RunnerKind::Default,
            setup,
            late: Seq::empty(),
        }
    }

    pub open spec fn add_plugin(self, key: u64, plugin: P) -> Self {
        BuilderModel { plugins: self.plugins.insert(key, plugin), ..self }
    }

    pub open spec fn listen(self, kind: EventKind, listener: ListenerSpec) -> Self {
        BuilderModel { listeners: self.listeners.insert(kind, self.listeners[kind].push(listener)), ..self }
    }

    pub open spec fn with_runner(self, runner: RunnerKind) -> Self {
        BuilderModel { runner, ..self }
    }

    /// One operation of the configuration with type key `config`. `Require` fails
    /// exactly when the registry lacks the plugin, and a further configuration fails
    /// when adding it fails.
    pub open spec fn apply_op(self, config: u64, op: ConfigOp<P>) -> Result<Self, AppError>
        decreases op, 0int,
    {
        match op {
            ConfigOp::AddPlugin(key, plugin) => Ok(self.add_plugin(key, plugin)),
            ConfigOp::Require(key) => if self.plugins.contains_key(key) {
                Ok(self)
            } else {
                Err(AppError::Configuration(config, Cause::MissingDependency(Target::Plugin(key))))
            },
            ConfigOp::On(kind, handler) => Ok(self.listen(kind, ListenerSpec::Mut(handler@))),
            ConfigOp::Once(kind, handler) => Ok(self.listen(kind, ListenerSpec::Once(Some(handler@)))),
            ConfigOp::WithRunner(runner) => Ok(self.with_runner(runner)),
            ConfigOp::AddConfig(further) => self.add_config(further),
        }
    }

    /// The operations of one configuration, first to last, up to the first failure.
    pub open spec fn apply_ops(self, config: u64, ops: Seq<ConfigOp<P>>) -> Result<Self, AppError>
        decreases ops, ops.len(),
    {
        if ops.len() == 0 {
            Ok(self)
        } else {
            match self.apply_op(config, ops[0]) {
                Ok(next) => next.apply_ops(config, ops.skip(1)),
                Err(e) => Err(e),
            }
        }
    }

    /// Applying a configuration is applying its operations.
    pub open spec fn apply(self, config: BuildConfig<P>) -> Result<Self, AppError>
        decreases config, 0int,
    {
        self.apply_ops(config.key, config.ops@)
    }

    /// Adding a configuration: a late one is deferred, any other is applied at once.
    /// This is so at every time, also while the build applies the deferred ones.
    pub open spec fn add_config(self, config: BuildConfig<P>) -> Result<Self, AppError>
        decreases config, 1int,
    {
        if config.late {
            Ok(BuilderModel { late: deferred(self.late, config), ..self })
        } else {
            self.apply(config)
        }
    }

    /// A list of configurations applied first to last, up to the first failure.
    pub open spec fn apply_all(self, configs: Seq<BuildConfig<P>>) -> Result<Self, AppError>
        decreases configs.len(),
    {
        if configs.len() == 0 {
            Ok(self)
        } else {
            match self.apply(configs[0]) {
                Ok(next) => next.apply_all(configs.skip(1)),
                Err(e) => Err(e),
            }
        }
    }

    /// The first part of the build: as long as a configuration is deferred, the first
    /// of them is taken out and applied, up to the first failure. What a configuration
    /// defers while it is applied is applied in its turn, behind those that were
    /// deferred before it; a configuration holds only finitely many further ones, so
    /// this comes to an end with nothing deferred.
    pub open spec fn flush(self) -> Result<Self, AppError>
        decreases list_size(self.late),
    {
        if self.late.len() == 0 {
            Ok(self)
        } else {
            let taken = BuilderModel { late: self.late.skip(1), ..self };
            proof {
                adding_bounds_size(taken, self.late[0]);
            }
            match taken.apply(self.late[0]) {
                Ok(next) => next.flush(),
                Err(e) => Err(e),
            }
        }
    }

    /// A plugin made by a handler: the handler must resolve against the registry, and
    /// what it made is stored under `key`.
    pub open spec fn add_plugin_with(
        self,
        key: u64,
        handler: HandlerSpec,
        outcome: Result<P, String>,
    ) -> Result<Self, AppError> {
        match first_missing(handler.params, self.plugins.dom(), Scope::Build) {
            Some(target) => Err(AppError::Configuration(key, Cause::MissingDependency(target))),
            None => match outcome {
                Ok(plugin) => Ok(self.add_plugin(key, plugin)),
                Err(message) => Err(AppError::Configuration(key, Cause::Failed(message))),
            },
        }
    }

    /// The build: the deferred configurations are flushed, then the setup handler is
    /// resolved against the registry as it stands.
    pub open spec fn build(self) -> Result<Self, AppError> {
        match self.flush() {
            Ok(flushed) => match first_missing(flushed.setup.params, flushed.plugins.dom(), Scope::Build) {
                None => Ok(flushed),
                Some(target) => Err(AppError::Setup(Cause::MissingDependency(target))),
            },
            Err(e) => Err(e),
        }
    }
}

/// Every type key of the first list stands at the same place in the second.
pub open spec fn keeps_places<P>(before: Seq<BuildConfig<P>>, after: Seq<BuildConfig<P>>) -> bool {
    &&& before.len() <= after.len()
    &&& forall|i: int| 0 <= i < before.len() ==> (#[trigger] after[i]).key == before[i].key
}

/// What adding configurations can do to the deferred ones: every deferred type key
/// keeps its place, whatever else is deferred or applied, and the keys stay distinct.
/// The setup handler is never touched.
pub open spec fn deferred_in_place<P>(before: BuilderModel<P>, after: BuilderModel<P>) -> bool {
    &&& after.setup == before.setup
    &&& keeps_places(before.late, after.late)
    &&& distinct_keys(before.late) ==> distinct_keys(after.late)
}

/// Whatever a configuration does when it is added, the deferred configurations stay in
/// place.
pub proof fn adding_keeps_places<P>(builder: BuilderModel<P>, config: BuildConfig<P>)
    ensures
        builder.add_config(config) matches Ok(next) ==> deferred_in_place(builder, next),
        builder.apply(config) matches Ok(next) ==> deferred_in_place(builder, next),
    decreases config, 1int,
{
    applying_keeps_places(builder, config.key, config.ops@);
    if distinct_keys(builder.late) {
        deferring_replaces_or_appends(builder.late, config);
    }
    match key_position(builder.late, config.key) {
        Some(at) => {},
        None => {},
    }
}

/// Whatever the operations of a configuration do, the deferred configurations stay in
/// place.
pub proof fn applying_keeps_places<P>(builder: BuilderModel<P>, config: u64, ops: Seq<ConfigOp<P>>)
    ensures
        builder.apply_ops(config, ops) matches Ok(next) ==> deferred_in_place(builder, next),
    decreases ops, ops.len(),
{
    if ops.len() > 0 {
        match ops[0] {
            ConfigOp::AddConfig(further) => {
                adding_keeps_places(builder, further);
            },
            _ => {},
        }
        match builder.apply_op(config, ops[0]) {
            Ok(next) => {
                applying_keeps_places(next, config, ops.skip(1));
            },
            Err(_) => {},
        }
    }
}

/// Adding a configuration defers no more than the configuration stands for, and
/// applying one defers less than that: this is why the build comes to an end.
pub proof fn adding_bounds_size<P>(builder: BuilderModel<P>, config: BuildConfig<P>)
    ensures
        builder.add_config(config) matches Ok(next) ==> list_size(next.late) <= list_size(builder.late)
            + config_size(config),
        builder.apply(config) matches Ok(next) ==> list_size(next.late) + 1 <= list_size(builder.late)
            + config_size(config),
    decreases config, 1int,
{
    applying_bounds_size(builder, config.key, config.ops@);
    size_of_deferred(builder.late, config);
}

/// The operations of a configuration defer no more than they stand for.
pub proof fn applying_bounds_size<P>(builder: BuilderModel<P>, config: u64, ops: Seq<ConfigOp<P>>)
    ensures
        builder.apply_ops(config, ops) matches Ok(next) ==> list_size(next.late) <= list_size(builder.late)
            + ops_size(ops),
    decreases ops, ops.len(),
{
    if ops.len() > 0 {
        assert(ops_size(ops) == op_size(ops[0]) + ops_size(ops.skip(1)));
        match ops[0] {
            ConfigOp::AddConfig(further) => {
                adding_bounds_size(builder, further);
                assert(op_size(ops[0]) == config_size(further));
            },
            _ => {
                assert(op_size(ops[0]) == 0);
            },
        }
        match builder.apply_op(config, ops[0]) {
            Ok(next) => {
                assert(list_size(next.late) <= list_size(builder.late) + op_size(ops[0]));
                applying_bounds_size(next, config, ops.skip(1));
            },
            Err(_) => {},
        }
    }
}

/// The configurations that adding `config` defers, in the order in which they are
/// deferred: the configuration itself if it is late, and what its operations defer if
/// it is not.
pub open spec fn late_in_config<P>(config: BuildConfig<P>) -> Seq<BuildConfig<P>>
    decreases config, 1int,
{
    if config.late {
        seq![config]
    } else {
        late_in_ops(config.ops@)
    }
}

/// The configurations that a list of operations defers, in the order in which they
/// are deferred.
pub open spec fn late_in_ops<P>(ops: Seq<ConfigOp<P>>) -> Seq<BuildConfig<P>>
    decreases ops, ops.len(),
{
    if ops.len() == 0 {
        Seq::empty()
    } else {
        late_in_op(ops[0]) + late_in_ops(ops.skip(1))
    }
}

/// The configurations that one operation defers, in the order in which they are
/// deferred.
pub open spec fn late_in_op<P>(op: ConfigOp<P>) -> Seq<BuildConfig<P>>
    decreases op, 0int,
{
    match op {
        ConfigOp::AddConfig(further) => late_in_config(further),
        _ => Seq::empty(),
    }
}

/// Applying the configuration defers nothing.
pub open spec fn defers_nothing<P>(config: BuildConfig<P>) -> bool {
    late_in_ops(config.ops@).len() == 0
}

/// What is deferred already has no say in what a configuration does: on a builder
/// with another deferred list its operations succeed or fail alike and leave the same
/// plugins, listeners and driver, and the list has behind it what the operations
/// defer, in their order.
pub proof fn deferred_is_carried_along<P>(
    builder: BuilderModel<P>,
    late: Seq<BuildConfig<P>>,
    config: u64,
    ops: Seq<ConfigOp<P>>,
)
    ensures
        (BuilderModel { late, ..builder }).apply_ops(config, ops) == (match builder.apply_ops(config, ops) {
            Ok(next) => Ok(BuilderModel { late: defer_all(late, late_in_ops(ops)), ..next }),
            Err(e) => Err(e),
        }),
    decreases ops, ops.len(),
{
    let other = BuilderModel { late, ..builder };
    if ops.len() == 0 {
    } else {
        let head = late_in_op(ops[0]);
        let tail = late_in_ops(ops.skip(1));
        match ops[0] {
            ConfigOp::AddConfig(further) => {
                if further.late {
                    assert(head.skip(1).len() == 0);
                    assert(defer_all(late, head) == defer_all(deferred(late, head[0]), head.skip(1)));
                } else {
                    deferred_is_carried_along(builder, late, further.key, further.ops@);
                }
            },
            _ => {},
        }
        assert(other.apply_op(config, ops[0]) == (match builder.apply_op(config, ops[0]) {
            Ok(next) => Ok(BuilderModel { late: defer_all(late, head), ..next }),
            Err(e) => Err(e),
        }));
        match builder.apply_op(config, ops[0]) {
            Ok(next) => {
                deferred_is_carried_along(next, defer_all(late, head), config, ops.skip(1));
                deferring_in_two_runs(late, head, tail);
            },
            Err(_) => {},
        }
    }
}

/// The deferred list grows in the order of adding: after any operations it is the
/// list of before with everything deferred that the operations defer, one after the
/// other. Builder calls are such operations, so this holds of every way of calling
/// `add_config`, `add_plugin`, `on`, `once` and `with_runner` in turn.
pub proof fn adding_defers_in_order<P>(builder: BuilderModel<P>, config: u64, ops: Seq<ConfigOp<P>>)
    ensures
        builder.apply_ops(config, ops) matches Ok(next) ==> next.late == defer_all(builder.late, late_in_ops(ops)),
{
    deferred_is_carried_along(builder, builder.late, config, ops);
}

/// The build leaves nothing deferred: every configuration that was deferred before the
/// build, and every one that was deferred while it went on, has been taken out and
/// applied when the setup handler is resolved.
pub proof fn flush_leaves_nothing_deferred<P>(builder: BuilderModel<P>)
    ensures
        builder.flush() matches Ok(flushed) ==> flushed.late.len() == 0,
        builder.build() matches Ok(built) ==> built.late.len() == 0,
    decreases list_size(builder.late),
{
    if builder.late.len() > 0 {
        let taken = BuilderModel { late: builder.late.skip(1), ..builder };
        adding_bounds_size(taken, builder.late[0]);
        match taken.apply(builder.late[0]) {
            Ok(next) => {
                flush_leaves_nothing_deferred(next);
            },
            Err(_) => {},
        }
    }
}

/// Where no deferred configuration defers anything itself, the build applies them in
/// the order of the list, each once, and leaves nothing deferred.
pub proof fn flush_applies_in_order<P>(builder: BuilderModel<P>)
    requires
        forall|i: int| 0 <= i < builder.late.len() ==> defers_nothing(#[trigger] builder.late[i]),
    ensures
        builder.flush() == (BuilderModel { late: Seq::empty(), ..builder }).apply_all(builder.late),
        builder.flush() matches Ok(flushed) ==> flushed.late == Seq::<BuildConfig<P>>::empty(),
    decreases builder.late.len(),
{
    let base = BuilderModel { late: Seq::empty(), ..builder };
    if builder.late.len() == 0 {
        assert(builder.late =~= Seq::<BuildConfig<P>>::empty());
    } else {
        let first = builder.late[0];
        let rest = builder.late.skip(1);
        let taken = BuilderModel { late: rest, ..builder };
        assert(defers_nothing(first));
        deferred_is_carried_along(base, rest, first.key, first.ops@);
        deferred_is_carried_along(base, base.late, first.key, first.ops@);
        assert(taken == (BuilderModel { late: rest, ..base }));
        assert(base == (BuilderModel { late: base.late, ..base }));
        match base.apply(first) {
            Ok(applied) => {
                let next = BuilderModel { late: rest, ..applied };
                assert(taken.apply(first) == Ok::<BuilderModel<P>, AppError>(next));
                assert(applied.late =~= Seq::<BuildConfig<P>>::empty());
                assert(applied == (BuilderModel { late: Seq::empty(), ..next }));
                assert forall|i: int| 0 <= i < next.late.len() implies defers_nothing(#[trigger] next.late[i]) by {
                    assert(rest[i] == builder.late[i + 1]);
                }
                adding_bounds_size(taken, first);
                flush_applies_in_order(next);
            },
            Err(_) => {},
        }
    }
}

/// Late configurations are applied in the order in which they were added, however
/// they were interleaved with configurations applied at once and with other builder
/// calls. Where the late ones that the calls defer have type keys that are all
/// different, and different from those deferred before, and none of them defers
/// anything itself, the deferred list after the calls is the list of before with
/// them behind it in the order of the calls, and the build applies that list first to
/// last, each configuration once.
pub proof fn late_configurations_apply_in_insertion_order<P>(
    builder: BuilderModel<P>,
    config: u64,
    ops: Seq<ConfigOp<P>>,
)
    requires
        distinct_keys(builder.late + late_in_ops(ops)),
        forall|i: int|
            0 <= i < (builder.late + late_in_ops(ops)).len() ==> defers_nothing(
                #[trigger] (builder.late + late_in_ops(ops))[i],
            ),
    ensures
        builder.apply_ops(config, ops) matches Ok(next) ==> {
            &&& next.late == builder.late + late_in_ops(ops)
            &&& next.flush() == (BuilderModel { late: Seq::empty(), ..next }).apply_all(
                builder.late + late_in_ops(ops),
            )
        },
{
    adding_defers_in_order(builder, config, ops);
    distinct_keys_are_appended(builder.late, late_in_ops(ops));
    match builder.apply_ops(config, ops) {
        Ok(next) => {
            flush_applies_in_order(next);
        },
        Err(_) => {},
    }
}

/// A configuration that is applied at once and adds no further configuration leaves
/// the deferred ones alone, and a late one changes nothing but the deferred list.
pub proof fn interleaving_keeps_deferred<P>(builder: BuilderModel<P>, config: BuildConfig<P>)
    ensures
        !config.late && defers_nothing(config) ==> (builder.add_config(config) matches Ok(next) ==> next.late
            == builder.late),
        config.late ==> builder.add_config(config) == Ok::<BuilderModel<P>, AppError>(
            BuilderModel { late: deferred(builder.late, config), ..builder },
        ),
{
    adding_defers_in_order(builder, config.key, config.ops@);
}

/// Configurations are applied in the order of their list: applying a list is applying
/// its first part and then, to what that left, the rest. So of two deferred
/// configurations the one that stands earlier is applied earlier, and a failure keeps
/// all later ones from being applied.
pub proof fn configurations_apply_in_order<P>(
    builder: BuilderModel<P>,
    first: Seq<BuildConfig<P>>,
    rest: Seq<BuildConfig<P>>,
)
    ensures
        builder.apply_all(first + rest) == match builder.apply_all(first) {
            Ok(next) => next.apply_all(rest),
            Err(e) => Err(e),
        },
    decreases first.len(),
{
    if first.len() == 0 {
        assert(first + rest =~= rest);
    } else {
        let all = first + rest;
        assert(all[0] == first[0]);
        assert(all.skip(1) =~= first.skip(1) + rest);
        match builder.apply(first[0]) {
            Ok(next) => {
                configurations_apply_in_order(next, first.skip(1), rest);
            },
            Err(_) => {},
        }
    }
}

/// What became of a builder, in the model.
pub open spec fn outcome_view<P>(r: Result<AppBuilder<P>, AppError>) -> Result<BuilderModel<P>, AppError> {
    match r {
        Ok(b) => Ok(b@),
        Err(e) => Err(e),
    }
}

/// Accumulates the setup handler, the plugins, the listeners, the driver and the
/// configurations of an app.
pub struct AppBuilder<P> {
    plugins: Plugins<P>,
    runner: RunnerKind,
    setup_handler: Handler,
    event_handler: EventMap,
    late_configs: LateConfigs<P>,
}

impl<P> View for AppBuilder<P> {
    type V = BuilderModel<P>;

    closed spec fn view(&self) -> BuilderModel<P> {
        BuilderModel {
            plugins: self.plugins@,
            listeners: self.event_handler@,
            runner: self.runner,
            setup: self.setup_handler@,
            late: self.late_configs@,
        }
    }
}

impl<P> AppBuilder<P> {
    /// A builder whose setup handler asks for nothing.
    pub fn init() -> (b: Self)
        ensures
            b@ == BuilderModel::<P>::fresh(HandlerSpec { id: 0, params: Seq::empty() }),
    {
        match Handler::new(0, Vec::new()) {
            Ok(setup) => Self::init_with(setup),
            Err(_) => unreached(),
        }
    }

    /// A builder with the given setup handler.
    pub fn init_with(handler: Handler) -> (b: Self)
        ensures
            b@ == BuilderModel::<P>::fresh(handler@),
    {
        let plugins = Plugins::new();
        let runner = RunnerKind::Default;
        let event_handler = EventMap::new();
        let late_configs = LateConfigs::new();
        Self { plugins, runner, setup_handler: handler, event_handler, late_configs }
    }

    /// Registers a persistent listener for `kind`.
    pub fn on(self, kind: EventKind, handler: Handler) -> (b: Self)
        ensures
            b@ == self@.listen(kind, ListenerSpec::Mut(handler@)),
    {
        let mut b = self;
        b.event_handler.add(kind, EventListener::Mut(handler));
        b
    }

    /// Registers a one-shot listener for `kind`.
    pub fn once(self, kind: EventKind, handler: Handler) -> (b: Self)
        ensures
            b@ == self@.listen(kind, ListenerSpec::Once(Some(handler@))),
    {
        let mut b = self;
        b.event_handler.add(kind, EventListener::Once(Some(handler)));
        b
    }

    /// Replaces the driver.
    pub fn with_runner(self, runner: RunnerKind) -> (b: Self)
        ensures
            b@ == self@.with_runner(runner),
    {
        let mut b = self;
        b.runner = runner;
        b
    }

    /// Stores `plugin` under `key`, in place of whatever was stored there.
    pub fn add_plugin(self, key: u64, plugin: P) -> (b: Self)
        ensures
            b@ == self@.add_plugin(key, plugin),
    {
        let mut b = self;
        b.plugins.add(key, plugin);
        b
    }

    /// How many configurations are deferred. No two of them have the same type key.
    pub fn deferred(&self) -> (n: usize)
        ensures
            n == self@.late.len(),
            distinct_keys(self@.late),
    {
        self.late_configs.len()
    }

    /// The registry as it stands, for the host to run a plugin handler on.
    pub fn plugins(&self) -> (p: &Plugins<P>)
        ensures
            p@ == self@.plugins,
    {
        &self.plugins
    }

    /// The registry as it stands, for a plugin handler to work on: it holds the
    /// plugins added so far, and what the caller leaves behind the reference is what
    /// the builder holds afterwards.
    pub fn plugins_mut(&mut self) -> (p: &mut Plugins<P>)
        ensures
            *p == old(self).registry(),
            p@ == old(self)@.plugins,
            final(self).registry() == *final(p),
            final(self)@ == (BuilderModel { plugins: final(p)@, ..old(self)@ }),
    {
        &mut self.plugins
    }

    /// The registry.
    pub closed spec fn registry(&self) -> Plugins<P> {
        self.plugins
    }

    /// The registry holds the plugins of the view.
    pub proof fn view_reads_registry(&self)
        ensures
            self@.plugins == self.registry()@,
    {
    }

    /// Adds a configuration: a late one is deferred to the build, any other is applied
    /// at once. A late one that a configuration adds while the build applies it is
    /// deferred like any other, and applied before the build ends.
    pub fn add_config(self, config: BuildConfig<P>) -> (r: Result<Self, AppError>)
        ensures
            outcome_view(r) == self@.add_config(config),
        decreases config, 1int,
    {
        if config.late_evaluation() {
            let AppBuilder { plugins, runner, setup_handler, event_handler, late_configs } = self;
            let late_configs = late_configs.insert(config);
            return Ok(AppBuilder { plugins, runner, setup_handler, event_handler, late_configs });
        }
        config.apply(self)
    }

    /// Stores the plugin that a handler made. The handler must resolve against the
    /// registry as it stands; `outcome` is what it returned.
    pub fn add_plugin_with(self, key: u64, handler: &Handler, outcome: Result<P, String>) -> (r: Result<
        Self,
        AppError,
    >)
        ensures
            outcome_view(r) == self@.add_plugin_with(key, handler@, outcome),
    {
        match handler.resolve(&self.plugins, Scope::Build) {
            Ok(()) => match outcome {
                Ok(plugin) => Ok(self.add_plugin(key, plugin)),
                Err(message) => Err(AppError::Configuration(key, Cause::Failed(message))),
            },
            Err(AppError::MissingDependency(target)) => Err(
                AppError::Configuration(key, Cause::MissingDependency(target)),
            ),
            Err(_) => unreached(),
        }
    }

    /// Builds: applies the deferred configurations in their order, those that are
    /// deferred meanwhile behind the others, until none is left; then resolves the setup
    /// handler against the registry. What comes back waits for the state that the
    /// setup handler makes.
    pub fn build(self) -> (r: Result<Setup<P>, AppError>)
        ensures
            match r {
                Ok(setup) => self@.build() == Ok::<BuilderModel<P>, AppError>(setup@),
                Err(e) => self@.build() == Err::<BuilderModel<P>, AppError>(e),
            },
    {
        let mut b = self;
        loop
            invariant
                self@.flush() == b@.flush(),
            ensures
                self@.flush() == Ok::<BuilderModel<P>, AppError>(b@),
                b@.late == Seq::<BuildConfig<P>>::empty(),
            decreases list_size(b@.late),
        {
            let ghost before = b@;
            let AppBuilder { plugins, runner, setup_handler, event_handler, late_configs } = b;
            let (first, rest) = late_configs.take_first();
            let taken = AppBuilder { plugins, runner, setup_handler, event_handler, late_configs: rest };
            match first {
                Some(config) => {
                    proof {
                        assert(taken@ == (BuilderModel { late: before.late.skip(1), ..before }));
                        adding_bounds_size(taken@, config);
                    }
                    match config.apply(taken) {
                        Ok(next) => {
                            b = next;
                        },
                        Err(e) => {
                            return Err(e);
                        },
                    }
                },
                None => {
                    b = taken;
                    proof {
                        assert(b@ == before);
                        assert(b@.late =~= Seq::<BuildConfig<P>>::empty());
                    }
                    break ;
                },
            }
        }
        match b.setup_handler.resolve(&b.plugins, Scope::Build) {
            Ok(()) => Ok(
                Setup {
                    plugins: b.plugins,
                    runner: b.runner,
                    setup_handler: b.setup_handler,
                    event_handler: b.event_handler,
                },
            ),
            Err(AppError::MissingDependency(target)) => Err(
                AppError::Setup(Cause::MissingDependency(target)),
            ),
            Err(_) => unreached(),
        }
    }

    /// Resolves a handler against the registry as it stands.
    pub fn resolve(&self, handler: &Handler) -> (r: Result<(), AppError>)
        ensures
            match r {
                Ok(()) => first_missing(handler@.params, self@.plugins.dom(), Scope::Build) is None,
                Err(AppError::MissingDependency(t)) => first_missing(
                    handler@.params,
                    self@.plugins.dom(),
                    Scope::Build,
                ) == Some(t),
                Err(_) => false,
            },
    {
        handler.resolve(&self.plugins, Scope::Build)
    }
}

impl<P> BuildConfig<P> {
    /// Applies the configuration to the builder: its operations, first to last. The
    /// first operation that fails ends it, and the builder is lost.
    pub fn apply(self, builder: AppBuilder<P>) -> (r: Result<AppBuilder<P>, AppError>)
        ensures
            outcome_view(r) == builder@.apply(self),
        decreases self, 0int,
    {
        let BuildConfig { key, late, ops } = self;
        let ghost all = ops@;
        let mut b = builder;
        proof {
            assert(all.skip(0) =~= all);
        }
        for op in it: ops.into_iter()
            invariant
                it.seq() == all,
                self.key == key,
                self.ops@ == all,
                builder@.apply_ops(key, all) == b@.apply_ops(key, all.skip(it.index() as int)),
        {
            proof {
                let rest = all.skip(it.index() as int);
                assert(rest[0] == op);
                assert(rest.skip(1) =~= all.skip(it.index() + 1));
                assert(b@.apply_ops(key, rest) == match b@.apply_op(key, op) {
                    Ok(next) => next.apply_ops(key, rest.skip(1)),
                    Err(e) => Err(e),
                });
            }
            match op {
                ConfigOp::AddPlugin(plugin_key, plugin) => {
                    b = b.add_plugin(plugin_key, plugin);
                },
                ConfigOp::Require(plugin_key) => {
                    if !b.plugins.contains(plugin_key) {
                        return Err(
                            AppError::Configuration(key, Cause::MissingDependency(Target::Plugin(plugin_key))),
                        );
                    }
                },
                ConfigOp::On(kind, handler) => {
                    b = b.on(kind, handler);
                },
                ConfigOp::Once(kind, handler) => {
                    b = b.once(kind, handler);
                },
                ConfigOp::WithRunner(runner) => {
                    b = b.with_runner(runner);
                },
                ConfigOp::AddConfig(further) => {
                    match b.add_config(further) {
                        Ok(next) => {
                            b = next;
                        },
                        Err(e) => {
                            return Err(e);
                        },
                    }
                },
            }
        }
        proof {
            assert(all.skip(all.len() as int).len() == 0);
        }
        Ok(b)
    }
}

/// A built app that waits for its state: the registry is populated and the setup
/// handler resolves against it.
pub struct Setup<P> {
    plugins: Plugins<P>,
    runner: RunnerKind,
    setup_handler: Handler,
    event_handler: EventMap,
}

impl<P> View for Setup<P> {
    type V = BuilderModel<P>;

    closed spec fn view(&self) -> BuilderModel<P> {
        BuilderModel {
            plugins: self.plugins@,
            listeners: self.event_handler@,
            runner: self.runner,
            setup: self.setup_handler@,
            late: Seq::empty(),
        }
    }
}

/// The assembled app and who drives it.
pub struct Built<S, P, E> {
    pub app: App<S, P, E>,
    pub runner: RunnerKind,
}

impl<P> Setup<P> {
    /// The registry.
    pub closed spec fn registry(&self) -> Plugins<P> {
        self.plugins
    }

    /// The setup handler, for the host to invoke.
    pub fn handler(&self) -> (h: &Handler)
        ensures
            h@ == self@.setup,
    {
        &self.setup_handler
    }

    /// The registry holds the plugins of the view.
    pub proof fn view_reads_registry(&self)
        ensures
            self@.plugins == self.registry()@,
    {
    }

    /// The registry, for the setup handler to work on: it holds every plugin that was
    /// added, and what the caller leaves behind the reference is what the app gets.
    pub fn plugins_mut(&mut self) -> (p: &mut Plugins<P>)
        ensures
            *p == old(self).registry(),
            p@ == old(self)@.plugins,
            final(self).registry() == *final(p),
            final(self)@ == (BuilderModel { plugins: final(p)@, ..old(self)@ }),
    {
        &mut self.plugins
    }

    /// Assembles the app from what the setup handler returned: a failure ends the
    /// build, a state becomes the state of an app on which nothing has happened yet.
    pub fn finish<S, E>(self, outcome: Result<S, String>) -> (r: Result<Built<S, P, E>, AppError>)
        ensures
            match outcome {
                Ok(state) => r matches Ok(built) && built.runner == self@.runner && built.app.store().state
                    == state && built.app.store().plugins == self.registry() && built.app.store().plugins@
                    == self@.plugins && built.app@ == AppModel::<E>::fresh(
                    self@.listeners,
                    self@.plugins.dom(),
                    Seq::empty(),
                ),
                Err(message) => r matches Err(e) && e == AppError::Setup(Cause::Failed(message)),
            },
    {
        let Setup { plugins, runner, setup_handler, event_handler } = self;
        match outcome {
            Ok(state) => {
                let storage = Storage { state, plugins, events: EventQueue::new() };
                let app = App::new(storage, event_handler);
                Ok(Built { app, runner })
            },
            Err(message) => Err(AppError::Setup(Cause::Failed(message))),
        }
    }
}

} // verus!
