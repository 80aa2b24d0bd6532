use gamekit::app::{App, Step};
use gamekit::builder::AppBuilder;
use gamekit::config::{BuildConfig, ConfigOp, LateConfigs, RunnerKind};
use gamekit::error::{AppError, Cause, Target};
use gamekit::event::{AppEvent, EventKind};
use gamekit::handlers::{Handler, Param};

fn listener(id: u64) -> Handler {
    Handler::new(id, vec![Param::Event]).unwrap()
}

fn on_init(key: u64, late: bool, id: u64) -> BuildConfig<u32> {
    BuildConfig { key, late, ops: vec![ConfigOp::On(EventKind::App(AppEvent::Init), listener(id))] }
}

/// Builds, asks for Init and writes down the numbers of the handlers invoked for it.
fn init_order(builder: AppBuilder<u32>) -> Vec<u64> {
    let mut app: App<(), u32, ()> = builder.build().unwrap().finish::<(), ()>(Ok(())).unwrap().app;
    assert!(app.init());
    let mut order = Vec::new();
    loop {
        match app.step() {
            Step::Invoke(h) => order.push(h.id()),
            Step::Dispatching(_) => {},
            Step::MissingDependency(t) => panic!("missing {:?}", t),
            Step::Idle => return order,
        }
    }
}

#[test]
fn late_evaluation_is_the_flag() {
    assert!(on_init(1, true, 1).late_evaluation());
    assert!(!on_init(1, false, 1).late_evaluation());
}

#[test]
fn an_immediate_configuration_is_applied_when_it_is_added() {
    let builder: AppBuilder<u32> = AppBuilder::init();
    let config = BuildConfig { key: 1, late: false, ops: vec![ConfigOp::AddPlugin(7, 70)] };
    let builder = builder.add_config(config).unwrap();
    assert_eq!(builder.plugins().get(7), Some(&70));
}

#[test]
fn a_late_configuration_waits_for_the_build() {
    let builder: AppBuilder<u32> = AppBuilder::init();
    let config = BuildConfig { key: 1, late: true, ops: vec![ConfigOp::AddPlugin(7, 70)] };
    let builder = builder.add_config(config).unwrap();
    assert!(builder.plugins().get(7).is_none());
    let ready = builder.build().unwrap();
    let app: App<(), u32, ()> = ready.finish::<(), ()>(Ok(())).unwrap().app;
    assert_eq!(app.get_plugin(7), Some(&70));
}

#[test]
fn operations_are_applied_first_to_last() {
    let builder: AppBuilder<u32> = AppBuilder::init();
    let config = BuildConfig {
        key: 1,
        late: false,
        ops: vec![
            ConfigOp::AddPlugin(7, 70),
            ConfigOp::Require(7),
            ConfigOp::AddPlugin(7, 71),
            ConfigOp::On(EventKind::App(AppEvent::Init), listener(1)),
            ConfigOp::Once(EventKind::App(AppEvent::Init), listener(2)),
            ConfigOp::On(EventKind::App(AppEvent::Init), listener(3)),
        ],
    };
    let builder = builder.add_config(config).unwrap();
    assert_eq!(builder.plugins().get(7), Some(&71));
    assert_eq!(init_order(builder), vec![1, 2, 3]);
}

#[test]
fn a_requirement_that_is_not_met_fails_the_configuration() {
    let builder: AppBuilder<u32> = AppBuilder::init();
    let config = BuildConfig {
        key: 4,
        late: false,
        ops: vec![ConfigOp::AddPlugin(7, 70), ConfigOp::Require(8), ConfigOp::AddPlugin(9, 90)],
    };
    match builder.add_config(config) {
        Err(e) => assert_eq!(e, AppError::Configuration(4, Cause::MissingDependency(Target::Plugin(8)))),
        Ok(_) => panic!("plugin 8 is not there"),
    }
}

#[test]
fn a_late_configuration_that_fails_fails_the_build() {
    let builder: AppBuilder<u32> = AppBuilder::init();
    let config = BuildConfig { key: 4, late: true, ops: vec![ConfigOp::Require(8)] };
    let builder = builder.add_config(config).unwrap();
    match builder.build() {
        Err(e) => assert_eq!(e, AppError::Configuration(4, Cause::MissingDependency(Target::Plugin(8)))),
        Ok(_) => panic!("plugin 8 is not there"),
    }
}

#[test]
fn a_late_requirement_sees_what_was_added_after_it() {
    let builder: AppBuilder<u32> = AppBuilder::init();
    let config = BuildConfig { key: 4, late: true, ops: vec![ConfigOp::Require(8)] };
    let builder = builder.add_config(config).unwrap().add_plugin(8, 80);
    assert!(builder.build().is_ok());
}

#[test]
fn late_configurations_apply_in_insertion_order() {
    let builder: AppBuilder<u32> = AppBuilder::init();
    let builder = builder
        .add_config(on_init(30, true, 1))
        .unwrap()
        .add_config(on_init(10, true, 2))
        .unwrap()
        .add_config(on_init(20, true, 3))
        .unwrap();
    assert_eq!(init_order(builder), vec![1, 2, 3]);
}

#[test]
fn late_configurations_apply_after_everything_added_at_once() {
    let builder: AppBuilder<u32> = AppBuilder::init();
    let builder = builder
        .add_config(on_init(1, true, 1))
        .unwrap()
        .add_config(on_init(2, false, 2))
        .unwrap()
        .on(EventKind::App(AppEvent::Init), listener(3))
        .add_config(on_init(4, true, 4))
        .unwrap()
        .add_config(on_init(5, false, 5))
        .unwrap();
    assert_eq!(init_order(builder), vec![2, 3, 5, 1, 4]);
}

#[test]
fn a_second_late_configuration_of_the_same_type_replaces_the_first() {
    let builder: AppBuilder<u32> = AppBuilder::init();
    let builder = builder
        .add_config(on_init(1, true, 1))
        .unwrap()
        .add_config(on_init(2, true, 2))
        .unwrap()
        .add_config(on_init(1, true, 3))
        .unwrap();
    // Handler 1 is gone, and handler 3 stands where handler 1 stood.
    assert_eq!(init_order(builder), vec![3, 2]);
}

#[test]
fn replacing_twice_keeps_the_place() {
    let builder: AppBuilder<u32> = AppBuilder::init();
    let builder = builder
        .add_config(on_init(1, true, 1))
        .unwrap()
        .add_config(on_init(2, true, 2))
        .unwrap()
        .add_config(on_init(3, true, 3))
        .unwrap()
        .add_config(on_init(2, true, 4))
        .unwrap()
        .add_config(on_init(2, true, 5))
        .unwrap()
        .add_config(on_init(1, true, 6))
        .unwrap();
    assert_eq!(init_order(builder), vec![6, 5, 3]);
}

#[test]
fn immediate_configurations_of_the_same_type_both_apply() {
    let builder: AppBuilder<u32> = AppBuilder::init();
    let builder = builder.add_config(on_init(1, false, 1)).unwrap().add_config(on_init(1, false, 2)).unwrap();
    assert_eq!(init_order(builder), vec![1, 2]);
}

#[test]
fn the_default_runner_is_kept_unless_replaced() {
    let builder: AppBuilder<u32> = AppBuilder::init();
    let built = builder.build().unwrap().finish::<(), ()>(Ok(())).unwrap();
    assert_eq!(built.runner, RunnerKind::Default);

    let builder: AppBuilder<u32> = AppBuilder::init();
    let built = builder.with_runner(RunnerKind::Custom(3)).build().unwrap().finish::<(), ()>(Ok(())).unwrap();
    assert_eq!(built.runner, RunnerKind::Custom(3));

    let builder: AppBuilder<u32> = AppBuilder::init();
    let config = BuildConfig { key: 1, late: true, ops: vec![ConfigOp::WithRunner(RunnerKind::Custom(4))] };
    let built = builder
        .with_runner(RunnerKind::Custom(3))
        .add_config(config)
        .unwrap()
        .build()
        .unwrap()
        .finish::<(), ()>(Ok(()))
        .unwrap();
    assert_eq!(built.runner, RunnerKind::Custom(4));
}

#[test]
fn add_plugin_replaces() {
    let builder: AppBuilder<u32> = AppBuilder::init();
    let builder = builder.add_plugin(1, 10).add_plugin(2, 20).add_plugin(1, 11);
    assert_eq!(builder.plugins().get(1), Some(&11));
    assert_eq!(builder.plugins().get(2), Some(&20));
}

#[test]
fn a_plugin_made_by_a_handler_is_added() {
    let builder: AppBuilder<u32> = AppBuilder::init();
    let mut builder = builder.add_plugin(1, 10);
    let make = Handler::new(5, vec![Param::PluginMut(1)]).unwrap();
    assert_eq!(builder.resolve(&make), Ok(()));
    // The host runs the handler on the registry.
    let made = {
        let seen = builder.plugins_mut().get_mut(1).unwrap();
        *seen += 1;
        *seen * 2
    };
    let builder = builder.add_plugin_with(2, &make, Ok(made)).unwrap();
    assert_eq!(builder.plugins().get(1), Some(&11));
    assert_eq!(builder.plugins().get(2), Some(&22));
}

#[test]
fn a_plugin_handler_that_does_not_resolve_adds_nothing() {
    let builder: AppBuilder<u32> = AppBuilder::init();
    let make = Handler::new(5, vec![Param::PluginMut(1)]).unwrap();
    assert_eq!(builder.resolve(&make), Err(AppError::MissingDependency(Target::Plugin(1))));
    match builder.add_plugin_with(2, &make, Ok(1)) {
        Err(e) => assert_eq!(e, AppError::Configuration(2, Cause::MissingDependency(Target::Plugin(1)))),
        Ok(_) => panic!("plugin 1 is not there"),
    }
}

#[test]
fn a_plugin_handler_that_fails_adds_nothing() {
    let builder: AppBuilder<u32> = AppBuilder::init();
    let make = Handler::new(5, Vec::new()).unwrap();
    match builder.add_plugin_with(2, &make, Err("no device".to_string())) {
        Err(e) => assert_eq!(e, AppError::Configuration(2, Cause::Failed("no device".to_string()))),
        Ok(_) => panic!("the handler failed"),
    }
}

#[test]
fn a_setup_handler_that_fails_fails_the_build() {
    let builder: AppBuilder<u32> = AppBuilder::init();
    let ready = builder.build().unwrap();
    match ready.finish::<u32, ()>(Err("out of luck".to_string())) {
        Err(e) => assert_eq!(e, AppError::Setup(Cause::Failed("out of luck".to_string()))),
        Ok(_) => panic!("the setup handler failed"),
    }
}

#[test]
fn a_setup_handler_cannot_ask_for_what_does_not_exist_yet() {
    let setup = Handler::new(0, vec![Param::State]).unwrap();
    let builder: AppBuilder<u32> = AppBuilder::init_with(setup);
    match builder.build() {
        Err(e) => assert_eq!(e, AppError::Setup(Cause::MissingDependency(Target::State))),
        Ok(_) => panic!("there is no state yet"),
    }
}

#[test]
fn the_setup_handler_is_resolved_after_the_late_configurations() {
    let setup = Handler::new(0, vec![Param::Plugin(7)]).unwrap();
    let builder: AppBuilder<u32> = AppBuilder::init_with(setup);
    let config = BuildConfig { key: 1, late: true, ops: vec![ConfigOp::AddPlugin(7, 70)] };
    let ready = builder.add_config(config).unwrap().build().unwrap();
    assert_eq!(ready.handler().params(), &vec![Param::Plugin(7)]);
}

#[test]
fn the_built_app_is_fresh() {
    let builder: AppBuilder<u32> = AppBuilder::init();
    let mut app: App<u8, u32, ()> = builder.add_plugin(1, 10).build().unwrap().finish::<u8, ()>(Ok(9)).unwrap().app;
    assert_eq!(app.storage().state, 9);
    assert_eq!(app.storage().events.len(), 0);
    assert!(!app.is_initialized());
    assert!(!app.is_in_frame());
    assert!(!app.is_closed());
    assert!(matches!(app.step(), Step::Idle));
}

#[test]
fn deferred_counts_type_keys() {
    let builder: AppBuilder<u32> = AppBuilder::init();
    assert_eq!(builder.deferred(), 0);
    let builder = builder.add_config(on_init(1, true, 1)).unwrap();
    assert_eq!(builder.deferred(), 1);
    let builder = builder.add_config(on_init(2, true, 2)).unwrap();
    assert_eq!(builder.deferred(), 2);
    let builder = builder.add_config(on_init(1, true, 3)).unwrap();
    assert_eq!(builder.deferred(), 2);
    let builder = builder.add_config(on_init(3, false, 4)).unwrap();
    assert_eq!(builder.deferred(), 2);
}

#[test]
fn a_configuration_can_add_further_configurations() {
    let builder: AppBuilder<u32> = AppBuilder::init();
    let outer = BuildConfig {
        key: 1,
        late: false,
        ops: vec![
            ConfigOp::On(EventKind::App(AppEvent::Init), listener(1)),
            ConfigOp::AddConfig(on_init(2, false, 2)),
            ConfigOp::AddConfig(on_init(3, true, 3)),
            ConfigOp::On(EventKind::App(AppEvent::Init), listener(4)),
        ],
    };
    let builder = builder.add_config(outer).unwrap();
    // The late one waits for the build, the others were applied in their order.
    assert_eq!(builder.deferred(), 1);
    assert_eq!(init_order(builder), vec![1, 2, 4, 3]);
}

#[test]
fn a_further_configuration_that_fails_fails_the_one_that_added_it() {
    let builder: AppBuilder<u32> = AppBuilder::init();
    let inner = BuildConfig { key: 2, late: false, ops: vec![ConfigOp::Require(9)] };
    let outer = BuildConfig { key: 1, late: false, ops: vec![ConfigOp::AddConfig(inner)] };
    match builder.add_config(outer) {
        Err(e) => assert_eq!(e, AppError::Configuration(2, Cause::MissingDependency(Target::Plugin(9)))),
        Ok(_) => panic!("plugin 9 is not there"),
    }
}

#[test]
fn a_late_configuration_added_during_the_build_is_applied_behind_the_others() {
    let builder: AppBuilder<u32> = AppBuilder::init();
    let outer = BuildConfig {
        key: 1,
        late: true,
        ops: vec![
            ConfigOp::AddConfig(on_init(2, true, 2)),
            ConfigOp::AddConfig(on_init(3, false, 3)),
            ConfigOp::On(EventKind::App(AppEvent::Init), listener(1)),
        ],
    };
    let builder = builder.add_config(outer).unwrap().add_config(on_init(4, true, 4)).unwrap();
    // The outer one is applied first: what it adds at once is applied with it, and the
    // late one that it adds waits behind the one that was deferred before it.
    assert_eq!(init_order(builder), vec![3, 1, 4, 2]);
}

#[test]
fn a_plugin_of_a_late_configuration_inside_a_late_one_is_there_after_the_build() {
    let builder: AppBuilder<u32> = AppBuilder::init();
    let inner = BuildConfig { key: 2, late: true, ops: vec![ConfigOp::AddPlugin(7, 70)] };
    let outer = BuildConfig { key: 1, late: true, ops: vec![ConfigOp::AddConfig(inner)] };
    let ready = builder.add_config(outer).unwrap().build().unwrap();
    let app: App<(), u32, ()> = ready.finish::<(), ()>(Ok(())).unwrap().app;
    assert_eq!(app.get_plugin(7), Some(&70));
}

#[test]
fn the_setup_handler_is_resolved_after_what_was_deferred_during_the_build() {
    let setup = Handler::new(0, vec![Param::Plugin(7)]).unwrap();
    let builder: AppBuilder<u32> = AppBuilder::init_with(setup);
    let inner = BuildConfig { key: 2, late: true, ops: vec![ConfigOp::AddPlugin(7, 70)] };
    let outer = BuildConfig { key: 1, late: true, ops: vec![ConfigOp::AddConfig(inner)] };
    assert!(builder.add_config(outer).unwrap().build().is_ok());
}

#[test]
fn a_late_configuration_added_during_the_build_replaces_the_one_that_still_waits() {
    let builder: AppBuilder<u32> = AppBuilder::init();
    let first = BuildConfig { key: 1, late: true, ops: vec![ConfigOp::AddConfig(on_init(3, true, 30))] };
    let builder = builder
        .add_config(first)
        .unwrap()
        .add_config(on_init(2, true, 2))
        .unwrap()
        .add_config(on_init(3, true, 3))
        .unwrap()
        .add_config(on_init(4, true, 4))
        .unwrap();
    // Handler 30 stands where handler 3 stood, and handler 3 is never registered.
    assert_eq!(init_order(builder), vec![2, 30, 4]);
}

#[test]
fn a_late_configuration_can_defer_one_of_its_own_type_again() {
    let builder: AppBuilder<u32> = AppBuilder::init();
    let again = BuildConfig {
        key: 1,
        late: true,
        ops: vec![ConfigOp::On(EventKind::App(AppEvent::Init), listener(11))],
    };
    let first = BuildConfig {
        key: 1,
        late: true,
        ops: vec![ConfigOp::On(EventKind::App(AppEvent::Init), listener(10)), ConfigOp::AddConfig(again)],
    };
    let builder = builder.add_config(first).unwrap().add_config(on_init(2, true, 2)).unwrap();
    assert_eq!(init_order(builder), vec![10, 2, 11]);
}

#[test]
fn a_late_configuration_that_fails_during_the_build_keeps_the_later_ones_from_being_applied() {
    let builder: AppBuilder<u32> = AppBuilder::init();
    let inner = BuildConfig { key: 2, late: true, ops: vec![ConfigOp::Require(9)] };
    let outer = BuildConfig { key: 1, late: true, ops: vec![ConfigOp::AddConfig(inner)] };
    let builder = builder.add_config(outer).unwrap().add_config(on_init(3, true, 3)).unwrap();
    match builder.build() {
        Err(e) => assert_eq!(e, AppError::Configuration(2, Cause::MissingDependency(Target::Plugin(9)))),
        Ok(_) => panic!("plugin 9 is not there"),
    }
}

#[test]
fn many_late_configurations_among_others_apply_in_the_order_of_adding() {
    let mut builder: AppBuilder<u32> = AppBuilder::init();
    let mut expected_late = Vec::new();
    let mut expected_now = Vec::new();
    for n in 0..40u64 {
        if n % 3 == 0 {
            builder = builder.add_config(on_init(1000 - n, true, n)).unwrap();
            expected_late.push(n);
        } else if n % 3 == 1 {
            builder = builder.add_config(on_init(n, false, n)).unwrap();
            expected_now.push(n);
        } else {
            builder = builder.on(EventKind::App(AppEvent::Init), listener(n)).add_plugin(n, 0);
            expected_now.push(n);
        }
    }
    expected_now.extend(expected_late);
    assert_eq!(init_order(builder), expected_now);
}

#[test]
fn the_first_of_the_deferred_is_taken_first() {
    let list: LateConfigs<u32> = LateConfigs::new();
    let (first, list) = list.take_first();
    assert!(first.is_none());
    assert_eq!(list.len(), 0);
    let list = list.insert(on_init(5, true, 1)).insert(on_init(3, true, 2)).insert(on_init(9, true, 3));
    let (first, list) = list.take_first();
    assert_eq!(first.unwrap().key, 5);
    assert_eq!(list.len(), 2);
    // A type key that was taken out is new again: it goes to the end.
    let list = list.insert(on_init(5, true, 4)).insert(on_init(9, true, 5));
    let (first, list) = list.take_first();
    assert_eq!(first.unwrap().key, 3);
    let (first, list) = list.take_first();
    let first = first.unwrap();
    assert_eq!(first.key, 9);
    match &first.ops[0] {
        ConfigOp::On(_, handler) => assert_eq!(handler.id(), 5),
        _ => panic!("a listener was deferred"),
    }
    let (first, list) = list.take_first();
    assert_eq!(first.unwrap().key, 5);
    let (first, list) = list.take_first();
    assert!(first.is_none());
    assert_eq!(list.len(), 0);
}

#[test]
fn the_deferred_list_by_itself() {
    let list: LateConfigs<u32> = LateConfigs::new();
    assert_eq!(list.len(), 0);
    let list = list
        .insert(on_init(5, true, 1))
        .insert(on_init(3, true, 2))
        .insert(on_init(9, true, 3))
        .insert(on_init(3, true, 4));
    assert_eq!(list.len(), 3);
    let configs = list.into_configs();
    let keys: Vec<u64> = configs.iter().map(|c| c.key).collect();
    assert_eq!(keys, vec![5, 3, 9]);
    // The second configuration of key 3 took the place of the first.
    match &configs[1].ops[0] {
        ConfigOp::On(_, handler) => assert_eq!(handler.id(), 4),
        _ => panic!("a listener was deferred"),
    }
}
