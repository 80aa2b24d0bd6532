use vstd::prelude::*;
use crate::error::{AppError, Target};
use crate::storage::Plugins;

verus! {

/// One parameter of a handler: the closed family of things a handler may ask for.
#[derive(Clone, Copy, Debug, PartialEq, Eq, Structural)]
pub enum Param {
    /// Shared access to the application state.
    State,
    /// Exclusive access to the application state.
    StateMut,
    /// Shared access to the plugin stored under this type key.
    Plugin(u64),
    /// Exclusive access to the plugin stored under this type key.
    PluginMut(u64),
    /// The event being dispatched, read-only.
    Event,
    /// The handle through which further events are queued.
    EventSink,
}

/// Where a handler is resolved: while the application is being built only the plugin
/// registry exists; during dispatch the state, the event and the queue exist as well.
#[derive(Clone, Copy, Debug, PartialEq, Eq, Structural)]
pub enum Scope {
    Build,
    Dispatch,
}

impl Param {
    pub open spec fn target_of(self) -> Target {
        match self {
            Param::State => Target::State,
            Param::StateMut => Target::State,
            Param::Plugin(k) => Target::Plugin(k),
            Param::PluginMut(k) => Target::Plugin(k),
            Param::Event => Target::Event,
            Param::EventSink => Target::EventSink,
        }
    }

    pub open spec fn exclusive(self) -> bool {
        match self {
            Param::StateMut => true,
            Param::PluginMut(_) => true,
            Param::EventSink => true,
            _ => false,
        }
    }

    /// Two parameters conflict when they refer to the same target and at least one of
    /// them asks for exclusive access.
    pub open spec fn conflicts(self, other: Param) -> bool {
        self.target_of() == other.target_of() && (self.exclusive() || other.exclusive())
    }

    pub fn target(&self) -> (t: Target)
        ensures
            t == self.target_of(),
    {
        match self {
            Param::State => Target::State,
            Param::StateMut => Target::State,
            Param::Plugin(k) => Target::Plugin(*k),
            Param::PluginMut(k) => Target::Plugin(*k),
            Param::Event => Target::Event,
            Param::EventSink => Target::EventSink,
        }
    }

    pub fn is_exclusive(&self) -> (b: bool)
        ensures
            b == self.exclusive(),
    {
        match self {
            Param::StateMut => true,
            Param::PluginMut(_) => true,
            Param::EventSink => true,
            _ => false,
        }
    }

    pub fn conflicts_with(&self, other: &Param) -> (b: bool)
        ensures
            b == self.conflicts(*other),
    {
        self.target() == other.target() && (self.is_exclusive() || other.is_exclusive())
    }
}

/// No two parameters of the list conflict.
pub open spec fn alias_free(params: Seq<Param>) -> bool {
    forall|i: int, j: int| 0 <= i < j < params.len() ==> !(#[trigger] params[i]).conflicts(#[trigger] params[j])
}

/// `(first, second)` is the earliest conflict of the list: `second` is the least
/// position that conflicts with an earlier one, and `first` the least such earlier
/// position.
pub open spec fn earliest_conflict(params: Seq<Param>, first: int, second: int) -> bool {
    &&& 0 <= first < second < params.len()
    &&& params[first].conflicts(params[second])
    &&& alias_free(params.take(second))
    &&& forall|k: int| 0 <= k < first ==> !(#[trigger] params[k]).conflicts(params[second])
}

/// A target can be provided: a plugin when the registry holds its key, anything else
/// once dispatch has begun.
pub open spec fn available(target: Target, plugins: Set<u64>, scope: Scope) -> bool {
    match target {
        Target::Plugin(k) => plugins.contains(k),
        _ => scope == Scope::Dispatch,
    }
}

/// Every parameter of the list can be provided.
pub open spec fn resolvable(params: Seq<Param>, plugins: Set<u64>, scope: Scope) -> bool {
    forall|i: int| 0 <= i < params.len() ==> available((#[trigger] params[i]).target_of(), plugins, scope)
}

/// The target of the first parameter of the list that cannot be provided, if there is
/// one.
pub open spec fn first_missing(params: Seq<Param>, plugins: Set<u64>, scope: Scope) -> Option<Target>
    decreases params.len(),
{
    if params.len() == 0 {
        None
    } else if !available(params[0].target_of(), plugins, scope) {
        Some(params[0].target_of())
    } else {
        first_missing(params.skip(1), plugins, scope)
    }
}

/// Nothing is missing exactly when every parameter can be provided, and what is
/// missing is the target of a parameter that cannot be provided while all those before
/// it can.
pub proof fn first_missing_is_first(params: Seq<Param>, plugins: Set<u64>, scope: Scope)
    ensures
        first_missing(params, plugins, scope) is None <==> resolvable(params, plugins, scope),
        first_missing(params, plugins, scope) matches Some(t) ==> exists|at: int|
            0 <= at < params.len() && t == (#[trigger] params[at]).target_of() && !available(
                t,
                plugins,
                scope,
            ) && resolvable(params.take(at), plugins, scope),
    decreases params.len(),
{
    if params.len() == 0 {
    } else if !available(params[0].target_of(), plugins, scope) {
        assert(params.take(0).len() == 0);
    } else {
        let rest = params.skip(1);
        first_missing_is_first(rest, plugins, scope);
        assert forall|i: int| 0 <= i < rest.len() implies rest[i] == params[i + 1] by {}
        if resolvable(rest, plugins, scope) {
            assert forall|i: int| 0 <= i < params.len() implies available(
                (#[trigger] params[i]).target_of(),
                plugins,
                scope,
            ) by {
                if i > 0 {
                    assert(rest[i - 1] == params[i]);
                }
            }
        }
        if resolvable(params, plugins, scope) {
            assert forall|i: int| 0 <= i < rest.len() implies available(
                (#[trigger] rest[i]).target_of(),
                plugins,
                scope,
            ) by {
                assert(rest[i] == params[i + 1]);
            }
        }
        if first_missing(params, plugins, scope) is Some {
            let t = first_missing(params, plugins, scope).unwrap();
            let at = choose|at: int|
                0 <= at < rest.len() && t == (#[trigger] rest[at]).target_of() && !available(t, plugins, scope)
                    && resolvable(rest.take(at), plugins, scope);
            assert(rest[at] == params[at + 1]);
            let head = params.take(at + 1);
            assert forall|i: int| 0 <= i < head.len() implies available(
                (#[trigger] head[i]).target_of(),
                plugins,
                scope,
            ) by {
                if i > 0 {
                    assert(head[i] == rest.take(at)[i - 1]);
                }
            }
        }
    }
}

/// The mathematical content of a handler.
pub ghost struct HandlerSpec {
    pub id: u64,
    pub params: Seq<Param>,
}

/// A handler as the runtime knows it: the number under which the host keeps the
/// callable, and the checked list of what it asks for.
#[derive(Debug)]
pub struct Handler {
    id: u64,
    params: Vec<Param>,
}

impl View for Handler {
    type V = HandlerSpec;

    closed spec fn view(&self) -> HandlerSpec {
        HandlerSpec { id: self.id, params: self.params@ }
    }
}

impl Handler {
    #[verifier::type_invariant]
    spec fn inv(self) -> bool {
        alias_free(self.params@)
    }

    /// Checks the parameter list and makes the handler. The list is rejected exactly
    /// when two of its parameters conflict, and the error names the earliest conflict.
    pub fn new(id: u64, params: Vec<Param>) -> (r: Result<Handler, AppError>)
        ensures
            match r {
                Ok(h) => alias_free(params@) && h@ == (HandlerSpec { id, params: params@ }),
                Err(AppError::AliasConflict { first, second }) => earliest_conflict(
                    params@,
                    first as int,
                    second as int,
                ),
                Err(_) => false,
            },
    {
        let n = params.len();
        let mut j: usize = 0;
        while j < n
            invariant
                n == params.len(),
                j <= n,
                alias_free(params@.take(j as int)),
            decreases n - j,
        {
            let mut i: usize = 0;
            while i < j
                invariant
                    n == params.len(),
                    i <= j < n,
                    alias_free(params@.take(j as int)),
                    forall|k: int| 0 <= k < i ==> !(#[trigger] params@[k]).conflicts(params@[j as int]),
                decreases j - i,
            {
                if params[i].conflicts_with(&params[j]) {
                    return Err(AppError::AliasConflict { first: i, second: j });
                }
                i = i + 1;
            }
            proof {
                let before = params@.take(j as int);
                let after = params@.take(j + 1);
                assert forall|a: int, b: int| 0 <= a < b < after.len() implies !(#[trigger] after[a]).conflicts(
                    #[trigger] after[b],
                ) by {
                    if b < j {
                        assert(before[a] == after[a] && before[b] == after[b]);
                    }
                }
            }
            j = j + 1;
        }
        proof {
            assert(params@.take(n as int) =~= params@);
        }
        Ok(Handler { id, params })
    }

    /// The number under which the host keeps the callable.
    pub fn id(&self) -> (id: u64)
        ensures
            id == self@.id,
    {
        self.id
    }

    /// The parameter list. It never holds a conflict.
    pub fn params(&self) -> (p: &Vec<Param>)
        ensures
            p@ == self@.params,
            alias_free(p@),
    {
        proof {
            use_type_invariant(self);
        }
        &self.params
    }

    /// Resolves the parameter list against the plugin registry. It succeeds exactly
    /// when every parameter can be provided in `scope`; otherwise the error names the
    /// target of the first parameter that cannot.
    pub fn resolve<P>(&self, plugins: &Plugins<P>, scope: Scope) -> (r: Result<(), AppError>)
        ensures
            match r {
                Ok(()) => first_missing(self@.params, plugins@.dom(), scope) is None,
                Err(AppError::MissingDependency(t)) => first_missing(self@.params, plugins@.dom(), scope)
                    == Some(t),
                Err(_) => false,
            },
    {
        let mut i: usize = 0;
        proof {
            assert(self.params@.skip(0) =~= self.params@);
        }
        while i < self.params.len()
            invariant
                i <= self.params.len(),
                first_missing(self.params@, plugins@.dom(), scope) == first_missing(
                    self.params@.skip(i as int),
                    plugins@.dom(),
                    scope,
                ),
            decreases self.params.len() - i,
        {
            let target = self.params[i].target();
            let found = match target {
                Target::Plugin(k) => plugins.contains(k),
                _ => scope == Scope::Dispatch,
            };
            proof {
                let rest = self.params@.skip(i as int);
                assert(rest[0] == self.params@[i as int]);
                assert(rest.skip(1) =~= self.params@.skip(i + 1));
            }
            if !found {
                return Err(AppError::MissingDependency(target));
            }
            i = i + 1;
        }
        Ok(())
    }

    /// A second handle on the same callable, with the same parameter list.
    pub fn duplicate(&self) -> (h: Handler)
        ensures
            h@ == self@,
    {
        proof {
            use_type_invariant(self);
        }
        let mut params: Vec<Param> = Vec::new();
        let mut i: usize = 0;
        while i < self.params.len()
            invariant
                i <= self.params.len(),
                params@ == self.params@.take(i as int),
            decreases self.params.len() - i,
        {
            params.push(self.params[i]);
            proof {
                assert(self.params@.take(i + 1) =~= self.params@.take(i as int).push(self.params@[i as int]));
            }
            i = i + 1;
        }
        proof {
            assert(self.params@.take(self.params.len() as int) =~= self.params@);
        }
        Handler { id: self.id, params }
    }
}

/// A list that asks for the same target twice, at least once exclusively, is not
/// free of conflicts: no handler can be made of it, in whatever order the two
/// parameters stand. Asking for shared and for exclusive access to the state, or to
/// the plugin of one type key, is such a case.
pub proof fn shared_and_exclusive_conflict(params: Seq<Param>, i: int, j: int)
    requires
        0 <= i < params.len(),
        0 <= j < params.len(),
        i != j,
        params[i].target_of() == params[j].target_of(),
        params[i].exclusive(),
    ensures
        !alias_free(params),
        Param::State.conflicts(Param::StateMut),
        forall|key: u64| #[trigger] Param::Plugin(key).conflicts(Param::PluginMut(key)),
{
    if i < j {
        assert(params[i].conflicts(params[j]));
    } else {
        assert(params[j].conflicts(params[i]));
    }
}

/// A list that is not free of conflicts has an earliest conflict, so that the error
/// of a rejected list always names one.
pub proof fn conflict_has_earliest(params: Seq<Param>) -> (found: (int, int))
    requires
        !alias_free(params),
    ensures
        earliest_conflict(params, found.0, found.1),
    decreases params.len(),
{
    let shorter = params.drop_last();
    if params.len() == 0 {
        (0, 0)
    } else if !alias_free(shorter) {
        let found = conflict_has_earliest(shorter);
        assert(shorter.take(found.1) =~= params.take(found.1));
        assert(shorter[found.0] == params[found.0]);
        assert(shorter[found.1] == params[found.1]);
        assert forall|k: int| 0 <= k < found.0 implies !(#[trigger] params[k]).conflicts(params[found.1]) by {
            assert(shorter[k] == params[k]);
        }
        found
    } else {
        let second = params.len() - 1;
        assert(params.take(second) =~= shorter);
        let (a, b) = choose|a: int, b: int|
            0 <= a < b < params.len() && (#[trigger] params[a]).conflicts(#[trigger] params[b]);
        if b < second {
            assert(shorter[a] == params[a] && shorter[b] == params[b]);
            assert(shorter[a].conflicts(shorter[b]));
        }
        let first = least_conflicting(params, second, a);
        (first, second)
    }
}

/// The least position before `second` whose parameter conflicts with that at `second`.
proof fn least_conflicting(params: Seq<Param>, second: int, known: int) -> (first: int)
    requires
        0 <= known < second < params.len(),
        params[known].conflicts(params[second]),
    ensures
        0 <= first <= known,
        params[first].conflicts(params[second]),
        forall|k: int| 0 <= k < first ==> !(#[trigger] params[k]).conflicts(params[second]),
    decreases known,
{
    if exists|k: int| 0 <= k < known && (#[trigger] params[k]).conflicts(params[second]) {
        let k = choose|k: int| 0 <= k < known && (#[trigger] params[k]).conflicts(params[second]);
        least_conflicting(params, second, k)
    } else {
        known
    }
}

/// A conflict-free list has no earliest conflict, and a list has at most one.
pub proof fn earliest_conflict_is_unique(params: Seq<Param>, a: int, b: int, c: int, d: int)
    requires
        earliest_conflict(params, a, b),
        earliest_conflict(params, c, d),
    ensures
        a == c,
        b == d,
        !alias_free(params),
{
    if b < d {
        assert(params.take(d)[a] == params[a] && params.take(d)[b] == params[b]);
    }
    if d < b {
        assert(params.take(b)[c] == params[c] && params.take(b)[d] == params[d]);
    }
}

} // verus!
