use gamekit::event::{AppEvent, EventKind, EventListener, EventMap};
use gamekit::handlers::{Handler, Param};

fn handler(id: u64) -> Handler {
    Handler::new(id, vec![Param::Event]).unwrap()
}

fn ids(plan: &Vec<Handler>) -> Vec<u64> {
    plan.iter().map(|h| h.id()).collect()
}

#[test]
fn is_once_tells_the_variants_apart() {
    assert!(EventListener::Once(Some(handler(1))).is_once());
    assert!(EventListener::Once(None).is_once());
    assert!(!EventListener::Mut(handler(1)).is_once());
}

#[test]
fn nothing_registered_nothing_invoked() {
    let mut map = EventMap::new();
    assert!(map.dispatch(EventKind::Custom(1)).is_empty());
    assert!(map.dispatch(EventKind::App(AppEvent::Init)).is_empty());
}

#[test]
fn persistent_listeners_are_invoked_in_registration_order_every_time() {
    let mut map = EventMap::new();
    let kind = EventKind::Custom(4);
    map.add(kind, EventListener::Mut(handler(30)));
    map.add(kind, EventListener::Mut(handler(10)));
    map.add(kind, EventListener::Mut(handler(20)));
    assert_eq!(ids(&map.dispatch(kind)), vec![30, 10, 20]);
    assert_eq!(ids(&map.dispatch(kind)), vec![30, 10, 20]);
    assert_eq!(ids(&map.dispatch(kind)), vec![30, 10, 20]);
}

#[test]
fn one_shot_listeners_are_invoked_once() {
    let mut map = EventMap::new();
    let kind = EventKind::Custom(4);
    map.add(kind, EventListener::Once(Some(handler(1))));
    map.add(kind, EventListener::Mut(handler(2)));
    map.add(kind, EventListener::Once(Some(handler(3))));
    assert_eq!(ids(&map.dispatch(kind)), vec![1, 2, 3]);
    assert_eq!(ids(&map.dispatch(kind)), vec![2]);
    assert_eq!(ids(&map.dispatch(kind)), vec![2]);
}

#[test]
fn a_fired_one_shot_listener_is_skipped() {
    let mut map = EventMap::new();
    let kind = EventKind::Custom(4);
    map.add(kind, EventListener::Once(None));
    map.add(kind, EventListener::Mut(handler(2)));
    assert_eq!(ids(&map.dispatch(kind)), vec![2]);
}

#[test]
fn a_one_shot_listener_registered_later_fires_at_the_next_dispatch() {
    let mut map = EventMap::new();
    let kind = EventKind::Custom(4);
    map.add(kind, EventListener::Mut(handler(1)));
    assert_eq!(ids(&map.dispatch(kind)), vec![1]);
    map.add(kind, EventListener::Once(Some(handler(2))));
    assert_eq!(ids(&map.dispatch(kind)), vec![1, 2]);
    assert_eq!(ids(&map.dispatch(kind)), vec![1]);
}

#[test]
fn kinds_are_kept_apart() {
    let mut map = EventMap::new();
    map.add(EventKind::Custom(1), EventListener::Mut(handler(1)));
    map.add(EventKind::Custom(2), EventListener::Once(Some(handler(2))));
    map.add(EventKind::App(AppEvent::Init), EventListener::Mut(handler(3)));
    map.add(EventKind::App(AppEvent::Close), EventListener::Mut(handler(4)));
    map.add(EventKind::App(AppEvent::Update), EventListener::Once(Some(handler(5))));
    assert_eq!(ids(&map.dispatch(EventKind::Custom(1))), vec![1]);
    assert_eq!(ids(&map.dispatch(EventKind::App(AppEvent::Init))), vec![3]);
    assert_eq!(ids(&map.dispatch(EventKind::App(AppEvent::Close))), vec![4]);
    assert_eq!(ids(&map.dispatch(EventKind::App(AppEvent::Update))), vec![5]);
    assert!(map.dispatch(EventKind::App(AppEvent::Update)).is_empty());
    assert!(map.dispatch(EventKind::App(AppEvent::PreUpdate)).is_empty());
    assert!(map.dispatch(EventKind::App(AppEvent::PostUpdate)).is_empty());
    assert!(map.dispatch(EventKind::App(AppEvent::RequestedClose)).is_empty());
    assert_eq!(ids(&map.dispatch(EventKind::Custom(2))), vec![2]);
    assert!(map.dispatch(EventKind::Custom(2)).is_empty());
    // A custom key that equals a life-cycle slot is still a kind of its own.
    assert!(map.dispatch(EventKind::Custom(0)).is_empty());
}

#[test]
fn the_plan_carries_the_parameters() {
    let mut map = EventMap::new();
    let h = Handler::new(9, vec![Param::PluginMut(1), Param::EventSink]).unwrap();
    map.add(EventKind::Custom(1), EventListener::Mut(h));
    let plan = map.dispatch(EventKind::Custom(1));
    assert_eq!(plan[0].params(), &vec![Param::PluginMut(1), Param::EventSink]);
}
