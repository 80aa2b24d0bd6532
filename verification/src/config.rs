use vstd::prelude::*;
use indexmap::IndexMap;
use crate::event::EventKind;
use crate::handlers::Handler;

verus! {

/// Who drives the assembled app: the default life-cycle, or a driver that the host
/// keeps under a number.
#[derive(Debug, Copy, Clone, PartialEq, Eq, Structural)]
pub enum RunnerKind {
    Default,
    Custom(u64),
}

/// One thing that a configuration does to the builder.
#[derive(Debug)]
pub enum ConfigOp<P> {
    /// Store a plugin under a type key.
    AddPlugin(u64, P),
    /// Insist that a plugin is stored under a type key already.
    Require(u64),
    /// Register a persistent listener.
    On(EventKind, Handler),
    /// Register a one-shot listener.
    Once(EventKind, Handler),
    /// Replace the driver.
    WithRunner(RunnerKind),
    /// Add a further configuration.
    AddConfig(BuildConfig<P>),
}

/// A configuration: what it does to the builder, the type key that tells one kind of
/// configuration from another, and whether it waits for the build.
#[derive(Debug)]
pub struct BuildConfig<P> {
    pub key: u64,
    pub late: bool,
    pub ops: Vec<ConfigOp<P>>,
}

impl<P> BuildConfig<P> {
    /// Whether the configuration is applied when the app is built rather than when it
    /// is added.
    pub fn late_evaluation(&self) -> (late: bool)
        ensures
            late == self.late,
    {
        self.late
    }
}

#[verifier::external_type_specification]
#[verifier::external_body]
#[verifier::reject_recursive_types(K)]
#[verifier::reject_recursive_types(V)]
#[verifier::reject_recursive_types(S)]
pub struct ExIndexMap<K, V, S>(IndexMap<K, V, S>);

/// The key-value pairs that an ordered map holds, in the map's order.
pub uninterp spec fn ordered_entries(map: IndexMap<u64, usize>) -> Seq<(u64, usize)>;

/// `IndexMap::new`: the new map holds nothing.
#[verifier::external_body]
fn ordered_new() -> (map: IndexMap<u64, usize>)
    ensures
        ordered_entries(map) == Seq::<(u64, usize)>::empty(),
{
    IndexMap::new()
}

/// `IndexMap::insert`: where the map holds the key already, the pair keeps its place
/// in the order, takes the new value, and the old value is returned; where it does
/// not, the pair is added last and nothing is returned.
#[verifier::external_body]
fn ordered_insert(map: &mut IndexMap<u64, usize>, key: u64, value: usize) -> (previous: Option<usize>)
    ensures
        match previous {
            Some(formerly) => exists|at: int|
                0 <= at < ordered_entries(*old(map)).len() && #[trigger] ordered_entries(*old(map))[at] == (
                    key,
                    formerly,
                ) && ordered_entries(*final(map)) == ordered_entries(*old(map)).update(at, (key, value)),
            None => ordered_entries(*final(map)) == ordered_entries(*old(map)).push((key, value)),
        },
        previous.is_none() <==> forall|at: int|
            0 <= at < ordered_entries(*old(map)).len() ==> (#[trigger] ordered_entries(*old(map))[at]).0
                != key,
{
    map.insert(key, value)
}

/// `IndexMap::shift_remove_index`: where the map holds a pair at the index, that pair
/// is taken out and returned, and the pairs behind it move up by one and keep their
/// order; where it holds none, nothing is returned and the map stays as it is.
#[verifier::external_body]
fn ordered_remove(map: &mut IndexMap<u64, usize>, index: usize) -> (removed: Option<(u64, usize)>)
    ensures
        match removed {
            Some(pair) => index < ordered_entries(*old(map)).len() && pair == ordered_entries(*old(map))[index as int]
                && ordered_entries(*final(map)) == ordered_entries(*old(map)).remove(index as int),
            None => index >= ordered_entries(*old(map)).len() && ordered_entries(*final(map))
                == ordered_entries(*old(map)),
        },
{
    map.shift_remove_index(index)
}

/// `IndexMap::iter`: the pairs come out in the map's order.
#[verifier::external_body]
fn ordered_pairs(map: &IndexMap<u64, usize>) -> (pairs: Vec<(u64, usize)>)
    ensures
        pairs@ == ordered_entries(*map),
{
    map.iter().map(|(key, value)| (*key, *value)).collect()
}

/// Where `key` stands in a list of configurations, if one of them has it.
pub open spec fn key_position<P>(list: Seq<BuildConfig<P>>, key: u64) -> Option<int> {
    if exists|at: int| 0 <= at < list.len() && (#[trigger] list[at]).key == key {
        Some(choose|at: int| 0 <= at < list.len() && (#[trigger] list[at]).key == key)
    } else {
        None
    }
}

/// No two configurations of the list have the same type key.
pub open spec fn distinct_keys<P>(list: Seq<BuildConfig<P>>) -> bool {
    forall|i: int, j: int| 0 <= i < j < list.len() ==> (#[trigger] list[i]).key != (#[trigger] list[j]).key
}

/// Deferring a configuration: it takes the place of the one with the same type key,
/// or the last place if there is none.
pub open spec fn deferred<P>(list: Seq<BuildConfig<P>>, config: BuildConfig<P>) -> Seq<BuildConfig<P>> {
    match key_position(list, config.key) {
        Some(at) => list.update(at, config),
        None => list.push(config),
    }
}

/// How many configurations a configuration stands for: itself and every further one
/// that its operations add, at any depth.
pub open spec fn config_size<P>(config: BuildConfig<P>) -> nat
    decreases config, 1int,
{
    1 + ops_size(config.ops@)
}

/// How many configurations a list of operations adds, at any depth.
pub open spec fn ops_size<P>(ops: Seq<ConfigOp<P>>) -> nat
    decreases ops, ops.len(),
{
    if ops.len() == 0 {
        0
    } else {
        op_size(ops[0]) + ops_size(ops.skip(1))
    }
}

/// How many configurations one operation adds, at any depth.
pub open spec fn op_size<P>(op: ConfigOp<P>) -> nat
    decreases op, 0int,
{
    match op {
        ConfigOp::AddConfig(further) => config_size(further),
        _ => 0,
    }
}

/// How many configurations a list of configurations stands for.
pub open spec fn list_size<P>(list: Seq<BuildConfig<P>>) -> nat
    decreases list.len(),
{
    if list.len() == 0 {
        0
    } else {
        config_size(list[0]) + list_size(list.skip(1))
    }
}

/// A list stands for what it stood for before and what was put behind it.
pub proof fn size_of_appended<P>(list: Seq<BuildConfig<P>>, config: BuildConfig<P>)
    ensures
        list_size(list.push(config)) == list_size(list) + config_size(config),
    decreases list.len(),
{
    let longer = list.push(config);
    if list.len() == 0 {
        assert(longer.skip(1) =~= Seq::<BuildConfig<P>>::empty());
        assert(list_size(longer.skip(1)) == 0);
    } else {
        size_of_appended(list.skip(1), config);
        assert(longer.skip(1) =~= list.skip(1).push(config));
    }
}

/// A list in which one configuration took the place of another stands for what it
/// stood for before, less the one that left, plus the one that came.
pub proof fn size_of_replaced<P>(list: Seq<BuildConfig<P>>, at: int, config: BuildConfig<P>)
    requires
        0 <= at < list.len(),
    ensures
        list_size(list.update(at, config)) + config_size(list[at]) == list_size(list) + config_size(config),
    decreases list.len(),
{
    let changed = list.update(at, config);
    if at == 0 {
        assert(changed.skip(1) =~= list.skip(1));
    } else {
        size_of_replaced(list.skip(1), at - 1, config);
        assert(changed.skip(1) =~= list.skip(1).update(at - 1, config));
        assert(list.skip(1)[at - 1] == list[at]);
    }
}

/// Deferring a configuration adds no more to the list than the configuration stands
/// for.
pub proof fn size_of_deferred<P>(list: Seq<BuildConfig<P>>, config: BuildConfig<P>)
    ensures
        list_size(deferred(list, config)) <= list_size(list) + config_size(config),
{
    match key_position(list, config.key) {
        Some(at) => {
            size_of_replaced(list, at, config);
        },
        None => {
            size_of_appended(list, config);
        },
    }
}

/// Deferring several configurations, one after the other.
pub open spec fn defer_all<P>(list: Seq<BuildConfig<P>>, more: Seq<BuildConfig<P>>) -> Seq<BuildConfig<P>>
    decreases more.len(),
{
    if more.len() == 0 {
        list
    } else {
        defer_all(deferred(list, more[0]), more.skip(1))
    }
}

/// Deferring two runs of configurations is deferring the first run and then the
/// second.
pub proof fn deferring_in_two_runs<P>(
    list: Seq<BuildConfig<P>>,
    first: Seq<BuildConfig<P>>,
    second: Seq<BuildConfig<P>>,
)
    ensures
        defer_all(list, first + second) == defer_all(defer_all(list, first), second),
    decreases first.len(),
{
    if first.len() == 0 {
        assert(first + second =~= second);
    } else {
        let both = first + second;
        assert(both[0] == first[0]);
        assert(both.skip(1) =~= first.skip(1) + second);
        deferring_in_two_runs(deferred(list, first[0]), first.skip(1), second);
    }
}

/// Configurations of type keys that are all different, and different from those
/// deferred already, are deferred one behind the other: the list is the old list with
/// the new ones behind it, in the order in which they came.
pub proof fn distinct_keys_are_appended<P>(list: Seq<BuildConfig<P>>, more: Seq<BuildConfig<P>>)
    requires
        distinct_keys(list + more),
    ensures
        defer_all(list, more) == list + more,
    decreases more.len(),
{
    if more.len() == 0 {
        assert(list + more =~= list);
    } else {
        let both = list + more;
        let head = more[0];
        assert forall|at: int| 0 <= at < list.len() implies (#[trigger] list[at]).key != head.key by {
            assert(both[at] == list[at]);
            assert(both[list.len() as int] == head);
        }
        assert(key_position(list, head.key) is None);
        let longer = list.push(head);
        assert(longer + more.skip(1) =~= both);
        distinct_keys_are_appended(longer, more.skip(1));
    }
}

/// Deferring a configuration never moves another: every type key keeps its place, a
/// configuration whose type key is deferred already takes that place instead of a new
/// one, and one whose type key is new takes the last place.
pub proof fn deferring_replaces_or_appends<P>(list: Seq<BuildConfig<P>>, config: BuildConfig<P>)
    requires
        distinct_keys(list),
    ensures
        distinct_keys(deferred(list, config)),
        forall|i: int| 0 <= i < list.len() ==> (#[trigger] deferred(list, config)[i]).key == list[i].key,
        forall|i: int|
            0 <= i < list.len() && list[i].key != config.key ==> #[trigger] deferred(list, config)[i]
                == list[i],
        match key_position(list, config.key) {
            Some(at) => 0 <= at < list.len() && list[at].key == config.key && deferred(list, config).len()
                == list.len() && deferred(list, config)[at] == config,
            None => deferred(list, config) == list.push(config) && forall|i: int|
                0 <= i < list.len() ==> (#[trigger] list[i]).key != config.key,
        },
{
    let after = deferred(list, config);
    match key_position(list, config.key) {
        Some(at) => {
            assert forall|i: int, j: int| 0 <= i < j < after.len() implies (#[trigger] after[i]).key != (
            #[trigger] after[j]).key by {
                assert(after[i].key == list[i].key);
                assert(after[j].key == list[j].key);
            }
        },
        None => {
            assert forall|i: int, j: int| 0 <= i < j < after.len() implies (#[trigger] after[i]).key != (
            #[trigger] after[j]).key by {
                assert(after[i] == list[i]);
                if j < list.len() {
                    assert(after[j] == list[j]);
                }
            }
        },
    }
}

/// The deferred configurations, in the order in which their type keys were first
/// added.
pub struct LateConfigs<P> {
    order: IndexMap<u64, usize>,
    slots: Vec<Option<BuildConfig<P>>>,
}

impl<P> View for LateConfigs<P> {
    type V = Seq<BuildConfig<P>>;

    closed spec fn view(&self) -> Seq<BuildConfig<P>> {
        Seq::new(
            ordered_entries(self.order).len(),
            |i: int| self.slots@[ordered_entries(self.order)[i].1 as int].unwrap(),
        )
    }
}

impl<P> LateConfigs<P> {
    /// Every pair of the order names a slot of its own, which holds the configuration
    /// with the pair's key, and no key stands twice.
    #[verifier::type_invariant]
    spec fn wf(&self) -> bool {
        let entries = ordered_entries(self.order);
        &&& forall|i: int|
            0 <= i < entries.len() ==> {
                &&& (#[trigger] entries[i]).1 < self.slots@.len()
                &&& self.slots@[entries[i].1 as int] is Some
                &&& self.slots@[entries[i].1 as int].unwrap().key == entries[i].0
            }
        &&& forall|i: int, j: int|
            0 <= i < j < entries.len() ==> (#[trigger] entries[i]).0 != (#[trigger] entries[j]).0
        &&& forall|i: int, j: int|
            0 <= i < j < entries.len() ==> (#[trigger] entries[i]).1 != (#[trigger] entries[j]).1
    }

    proof fn keys_are_distinct(&self)
        requires
            self.wf(),
        ensures
            distinct_keys(self@),
    {
        let entries = ordered_entries(self.order);
        assert forall|i: int, j: int| 0 <= i < j < self@.len() implies (#[trigger] self@[i]).key != (
        #[trigger] self@[j]).key by {
            assert(self@[i].key == entries[i].0);
            assert(self@[j].key == entries[j].0);
        }
    }

    /// Nothing deferred.
    pub fn new() -> (r: Self)
        ensures
            r@ == Seq::<BuildConfig<P>>::empty(),
    {
        let r = LateConfigs { order: ordered_new(), slots: Vec::new() };
        proof {
            assert(r@ =~= Seq::<BuildConfig<P>>::empty());
        }
        r
    }

    /// The deferred configurations, for reading. No two of them have the same type
    /// key.
    pub fn len(&self) -> (n: usize)
        ensures
            n == self@.len(),
            distinct_keys(self@),
    {
        proof {
            use_type_invariant(self);
            self.keys_are_distinct();
        }
        ordered_pairs(&self.order).len()
    }

    /// Defers `config`: it takes the place of the deferred configuration with the same
    /// type key, or the last place if there is none.
    pub fn insert(self, config: BuildConfig<P>) -> (r: Self)
        ensures
            r@ == deferred(self@, config),
            distinct_keys(self@),
            distinct_keys(r@),
    {
        proof {
            use_type_invariant(&self);
            self.keys_are_distinct();
        }
        let ghost before = ordered_entries(self.order);
        let ghost list = self@;
        let ghost old_slots = self.slots@;
        let LateConfigs { order, slots } = self;
        let mut order = order;
        let mut slots = slots;
        let key = config.key;
        let slot = slots.len();
        slots.push(Some(config));
        let previous = ordered_insert(&mut order, key, slot);
        let ghost after = ordered_entries(order);
        match previous {
            Some(formerly) => {
                let ghost at = choose|at: int|
                    0 <= at < before.len() && #[trigger] before[at] == (key, formerly) && after
                        == before.update(at, (key, slot));
                proof {
                    assert(before[at].1 == formerly);
                }
                slots[formerly] = None;
                let r = LateConfigs { order, slots };
                proof {
                    assert(list[at].key == key);
                    assert forall|k: int| 0 <= k < list.len() && (#[trigger] list[k]).key == key implies k
                        == at by {
                        assert(before[k].0 == key);
                    }
                    assert(key_position(list, key) == Some(at));
                    assert forall|i: int| 0 <= i < after.len() implies {
                        &&& (#[trigger] after[i]).1 < r.slots@.len()
                        &&& r.slots@[after[i].1 as int] is Some
                        &&& r.slots@[after[i].1 as int].unwrap().key == after[i].0
                    } by {
                        if i != at {
                            assert(after[i] == before[i]);
                            assert(before[i].1 != before[at].1);
                        }
                    }
                    assert forall|i: int, j: int| 0 <= i < j < after.len() implies (#[trigger] after[i]).1 != (
                    #[trigger] after[j]).1 by {
                        assert(before[i].1 < old_slots.len());
                        assert(before[j].1 < old_slots.len());
                    }
                    assert forall|i: int, j: int| 0 <= i < j < after.len() implies (#[trigger] after[i]).0 != (
                    #[trigger] after[j]).0 by {
                        assert(before[i].0 != before[j].0);
                    }
                    assert forall|i: int| 0 <= i < after.len() implies (#[trigger] r@[i]) == list.update(
                        at,
                        config,
                    )[i] by {
                        if i != at {
                            assert(after[i] == before[i]);
                            assert(before[i].1 != before[at].1);
                            assert(before[i].1 < old_slots.len());
                        }
                    }
                    assert(r@ =~= list.update(at, config));
                    assert(r.wf());
                    r.keys_are_distinct();
                }
                r
            },
            None => {
                let r = LateConfigs { order, slots };
                proof {
                    assert forall|k: int| 0 <= k < list.len() implies (#[trigger] list[k]).key != key by {
                        assert(before[k].0 != key);
                    }
                    assert(key_position(list, key) is None);
                    assert forall|i: int| 0 <= i < after.len() implies {
                        &&& (#[trigger] after[i]).1 < r.slots@.len()
                        &&& r.slots@[after[i].1 as int] is Some
                        &&& r.slots@[after[i].1 as int].unwrap().key == after[i].0
                    } by {
                        if i < before.len() {
                            assert(after[i] == before[i]);
                        }
                    }
                    assert forall|i: int, j: int| 0 <= i < j < after.len() implies (#[trigger] after[i]).1 != (
                    #[trigger] after[j]).1 by {
                        assert(after[i] == before[i]);
                        assert(before[i].1 < old_slots.len());
                        if j < before.len() {
                            assert(after[j] == before[j]);
                        }
                    }
                    assert forall|i: int, j: int| 0 <= i < j < after.len() implies (#[trigger] after[i]).0 != (
                    #[trigger] after[j]).0 by {
                        assert(after[i] == before[i]);
                        if j < before.len() {
                            assert(after[j] == before[j]);
                        }
                    }
                    assert forall|i: int| 0 <= i < after.len() implies (#[trigger] r@[i]) == list.push(
                        config,
                    )[i] by {
                        if i < before.len() {
                            assert(after[i] == before[i]);
                            assert(before[i].1 < old_slots.len());
                        }
                    }
                    assert(r@ =~= list.push(config));
                    assert(r.wf());
                    r.keys_are_distinct();
                }
                r
            },
        }
    }

    /// Takes the first of the deferred configurations out, if there is one. The others
    /// keep their order.
    pub fn take_first(self) -> (r: (Option<BuildConfig<P>>, Self))
        ensures
            match r.0 {
                Some(config) => self@.len() > 0 && config == self@[0] && r.1@ == self@.skip(1),
                None => self@.len() == 0 && r.1@ == self@,
            },
            distinct_keys(r.1@),
    {
        proof {
            use_type_invariant(&self);
            self.keys_are_distinct();
        }
        let ghost before = ordered_entries(self.order);
        let ghost list = self@;
        let LateConfigs { order, slots } = self;
        let mut order = order;
        let mut slots = slots;
        match ordered_remove(&mut order, 0) {
            Some(pair) => {
                let slot = pair.1;
                proof {
                    assert(before[0] == pair);
                }
                let taken = slots[slot].take();
                let rest = LateConfigs { order, slots };
                proof {
                    let after = ordered_entries(rest.order);
                    assert(after =~= before.skip(1));
                    assert forall|i: int| 0 <= i < after.len() implies {
                        &&& (#[trigger] after[i]).1 < rest.slots@.len()
                        &&& rest.slots@[after[i].1 as int] is Some
                        &&& rest.slots@[after[i].1 as int].unwrap().key == after[i].0
                        &&& rest.slots@[after[i].1 as int] == self.slots@[after[i].1 as int]
                    } by {
                        assert(after[i] == before[i + 1]);
                        assert(before[0].1 != before[i + 1].1);
                    }
                    assert forall|i: int, j: int| 0 <= i < j < after.len() implies (#[trigger] after[i]).0 != (
                    #[trigger] after[j]).0 by {
                        assert(before[i + 1].0 != before[j + 1].0);
                    }
                    assert forall|i: int, j: int| 0 <= i < j < after.len() implies (#[trigger] after[i]).1 != (
                    #[trigger] after[j]).1 by {
                        assert(before[i + 1].1 != before[j + 1].1);
                    }
                    assert forall|i: int| 0 <= i < after.len() implies #[trigger] rest@[i] == list.skip(1)[i] by {
                        assert(after[i] == before[i + 1]);
                    }
                    assert(rest@ =~= list.skip(1));
                    assert(rest.wf());
                    rest.keys_are_distinct();
                }
                (taken, rest)
            },
            None => {
                let rest = LateConfigs { order, slots };
                proof {
                    assert(rest@ =~= list);
                }
                (None, rest)
            },
        }
    }

    /// Hands the deferred configurations out, in their order.
    pub fn into_configs(self) -> (configs: Vec<BuildConfig<P>>)
        ensures
            configs@ == self@,
            distinct_keys(configs@),
    {
        proof {
            use_type_invariant(&self);
            self.keys_are_distinct();
        }
        let LateConfigs { order, slots } = self;
        let mut slots = slots;
        let pairs = ordered_pairs(&order);
        let ghost entries = pairs@;
        let ghost all = self@;
        let mut configs: Vec<BuildConfig<P>> = Vec::new();
        let mut i: usize = 0;
        while i < pairs.len()
            invariant
                i <= pairs.len(),
                pairs@ == entries,
                entries == ordered_entries(self.order),
                all == self@,
                self.wf(),
                slots@.len() == self.slots@.len(),
                configs@ == all.take(i as int),
                forall|j: int| i <= j < entries.len() ==> slots@[(#[trigger] entries[j]).1 as int] == self.slots@[entries[j].1 as int],
            decreases pairs.len() - i,
        {
            let slot = pairs[i].1;
            proof {
                assert(entries[i as int].1 < self.slots@.len());
            }
            let ghost slots_before = slots@;
            let taken = slots[slot].take();
            match taken {
                Some(config) => {
                    configs.push(config);
                },
                None => {},
            }
            proof {
                assert(slots_before[slot as int] == self.slots@[slot as int]);
                assert(configs@ =~= all.take(i + 1));
                assert forall|j: int| i + 1 <= j < entries.len() implies slots@[(#[trigger] entries[j]).1 as int]
                    == self.slots@[entries[j].1 as int] by {
                    assert(entries[i as int].1 != entries[j].1);
                }
            }
            i = i + 1;
        }
        proof {
            assert(all.take(all.len() as int) =~= all);
        }
        configs
    }
}

} // verus!
