//! The pool of live connections of one listener, kept by target name.

use crate::connect::{plan_connect, planned, ConnectStep};
use crate::error::ConnectError;
use crate::target::Target;
use vstd::prelude::*;

verus! {

/// The connections of one listener. `St` is the handle to the configuration
/// store that the targets are read from, `C` is what is kept for each target.
///
/// No name occurs twice: a target has at most one connection at any time.
pub struct ConnectionPool<St, C> {
    listener_name: String,
    state: St,
    by_name: Vec<(String, C)>,
}

/// Some entry carries the name.
spec fn has_name<C>(entries: Seq<(String, C)>, name: Seq<char>) -> bool {
    exists|i: int| 0 <= i < entries.len() && (#[trigger] entries[i]).0@ == name
}

/// The place of an entry that carries the name.
spec fn index_of<C>(entries: Seq<(String, C)>, name: Seq<char>) -> int {
    choose|i: int| 0 <= i < entries.len() && (#[trigger] entries[i]).0@ == name
}

/// No two entries carry one name.
spec fn distinct_names<C>(entries: Seq<(String, C)>) -> bool {
    forall|i: int, j: int|
        0 <= i < j < entries.len() ==> (#[trigger] entries[i]).0@ != (#[trigger] entries[j]).0@
}

/// The entries as a map from name to connection.
spec fn entries_map<C>(entries: Seq<(String, C)>) -> Map<Seq<char>, C> {
    Map::new(
        |name: Seq<char>| has_name(entries, name),
        |name: Seq<char>| entries[index_of(entries, name)].1,
    )
}

/// Where the names are distinct, an entry is what the map holds under its
/// name.
proof fn lemma_entry_in_map<C>(entries: Seq<(String, C)>, i: int)
    requires
        distinct_names(entries),
        0 <= i < entries.len(),
    ensures
        entries_map(entries).contains_key(entries[i].0@),
        entries_map(entries)[entries[i].0@] == entries[i].1,
        index_of(entries, entries[i].0@) == i,
{
    let name = entries[i].0@;
    assert(has_name(entries, name));
    let j = index_of(entries, name);
    assert(0 <= j < entries.len() && entries[j].0@ == name);
    if j < i {
        assert(entries[j].0@ != entries[i].0@);
    } else if i < j {
        assert(entries[i].0@ != entries[j].0@);
    }
}

/// A new entry under a fresh name is an insertion into the map.
proof fn lemma_push_entry<C>(entries: Seq<(String, C)>, entry: (String, C))
    requires
        distinct_names(entries),
        !has_name(entries, entry.0@),
    ensures
        distinct_names(entries.push(entry)),
        entries_map(entries.push(entry)) == entries_map(entries).insert(entry.0@, entry.1),
{
    let grown = entries.push(entry);
    assert forall|i: int, j: int| 0 <= i < j < grown.len() implies (#[trigger] grown[i]).0@
        != (#[trigger] grown[j]).0@ by {
        if j == entries.len() {
            assert(grown[i] == entries[i]);
            if entries[i].0@ == entry.0@ {
                assert(has_name(entries, entry.0@));
            }
        } else {
            assert(grown[i] == entries[i] && grown[j] == entries[j]);
        }
    }
    let target = entries_map(entries).insert(entry.0@, entry.1);
    assert forall|name: Seq<char>| #[trigger]
        entries_map(grown).contains_key(name) implies target.contains_key(name) && target[name]
        == entries_map(grown)[name] by {
        let k = index_of(grown, name);
        assert(0 <= k < grown.len() && grown[k].0@ == name);
        if k < entries.len() {
            assert(grown[k] == entries[k]);
            lemma_entry_in_map(entries, k);
            assert(name != entry.0@) by {
                assert(has_name(entries, name));
            }
        }
    }
    assert forall|name: Seq<char>| #[trigger]
        target.contains_key(name) implies entries_map(grown).contains_key(name) by {
        if name == entry.0@ {
            assert(grown[entries.len() as int].0@ == name);
        } else {
            let k = index_of(entries, name);
            assert(0 <= k < entries.len() && entries[k].0@ == name);
            assert(grown[k] == entries[k]);
        }
    }
    assert(entries_map(grown) =~= target);
}

/// Taking an entry out takes its name out of the map.
proof fn lemma_remove_entry<C>(entries: Seq<(String, C)>, i: int)
    requires
        distinct_names(entries),
        0 <= i < entries.len(),
    ensures
        distinct_names(entries.remove(i)),
        entries_map(entries.remove(i)) == entries_map(entries).remove(entries[i].0@),
{
    let rest = entries.remove(i);
    let gone = entries[i].0@;
    assert forall|a: int, b: int| 0 <= a < b < rest.len() implies (#[trigger] rest[a]).0@
        != (#[trigger] rest[b]).0@ by {
        let a2 = if a < i { a } else { a + 1 };
        let b2 = if b < i { b } else { b + 1 };
        assert(rest[a] == entries[a2] && rest[b] == entries[b2]);
        assert(entries[a2].0@ != entries[b2].0@);
    }
    let target = entries_map(entries).remove(gone);
    assert forall|name: Seq<char>| #[trigger]
        entries_map(rest).contains_key(name) implies target.contains_key(name) && target[name]
        == entries_map(rest)[name] by {
        let k = index_of(rest, name);
        assert(0 <= k < rest.len() && rest[k].0@ == name);
        let k2 = if k < i { k } else { k + 1 };
        assert(rest[k] == entries[k2]);
        lemma_entry_in_map(entries, k2);
        lemma_entry_in_map(entries, i);
    }
    assert forall|name: Seq<char>| #[trigger]
        target.contains_key(name) implies entries_map(rest).contains_key(name) by {
        let k = index_of(entries, name);
        assert(0 <= k < entries.len() && entries[k].0@ == name);
        assert(k != i);
        let k1 = if k < i { k } else { k - 1 };
        assert(rest[k1] == entries[k]);
    }
    assert(entries_map(rest) =~= target);
}

/// Distinct names make a finite map with as many names as there are entries.
proof fn lemma_entries_counted<C>(entries: Seq<(String, C)>)
    requires
        distinct_names(entries),
    ensures
        entries_map(entries).dom().finite(),
        entries_map(entries).dom().len() == entries.len(),
    decreases entries.len(),
{
    if entries.len() == 0 {
        assert(entries_map(entries) =~= Map::<Seq<char>, C>::empty());
    } else {
        let front = entries.drop_last();
        let last = entries.last();
        assert forall|i: int, j: int| 0 <= i < j < front.len() implies (#[trigger] front[i]).0@
            != (#[trigger] front[j]).0@ by {
            assert(front[i] == entries[i] && front[j] == entries[j]);
        }
        if has_name(front, last.0@) {
            let k = index_of(front, last.0@);
            assert(front[k] == entries[k]);
            assert(entries[k].0@ != entries[entries.len() - 1].0@);
        }
        lemma_entries_counted(front);
        lemma_push_entry(front, last);
        assert(front.push(last) =~= entries);
    }
}

/// Every outcome is a success.
pub open spec fn all_succeeded<C>(outcomes: Seq<Result<C, ConnectError>>) -> bool {
    forall|i: int| 0 <= i < outcomes.len() ==> (#[trigger] outcomes[i]) is Ok
}

/// The place, among the missing targets, of the one to attempt next, given
/// what the attempts so far gave: the targets are attempted in their order,
/// one for each outcome, and none after a failure.
pub open spec fn next_missing<C>(missing: nat, outcomes: Seq<Result<C, ConnectError>>) -> Option<
    usize,
> {
    if outcomes.len() < missing && all_succeeded(outcomes) {
        Some(outcomes.len() as usize)
    } else {
        None
    }
}

/// Which of the missing targets of a list is attempted next, if any. The
/// outcomes of the attempts so far stand in the order of the targets. After a
/// failure, and once every target has its outcome, no attempt is left.
pub fn next_attempt<C>(missing: &Vec<String>, outcomes: &Vec<Result<C, ConnectError>>) -> (next:
    Option<usize>)
    ensures
        next == next_missing(missing@.len(), outcomes@),
{
    if outcomes.len() >= missing.len() {
        return None;
    }
    let mut i: usize = 0;
    while i < outcomes.len()
        invariant
            i <= outcomes@.len(),
            forall|j: int| 0 <= j < i ==> (#[trigger] outcomes@[j]) is Ok,
        decreases outcomes@.len() - i,
    {
        if outcomes[i].is_err() {
            return None;
        }
        i += 1;
    }
    Some(outcomes.len())
}

/// The pool after an attempt to connect a target: a connection that is kept
/// stays, a new one is taken in, a failure changes nothing.
pub open spec fn connected<C>(
    cache: Map<Seq<char>, C>,
    name: Seq<char>,
    outcome: Result<C, ConnectError>,
) -> Map<Seq<char>, C> {
    if cache.contains_key(name) {
        cache
    } else {
        match outcome {
            Ok(connection) => cache.insert(name, connection),
            Err(_) => cache,
        }
    }
}

/// What an attempt to connect a target reports: success where a connection
/// is kept already or was made, else the failure of the attempt.
pub open spec fn connect_result<C>(
    cache: Map<Seq<char>, C>,
    name: Seq<char>,
    outcome: Result<C, ConnectError>,
) -> Result<(), ConnectError> {
    if cache.contains_key(name) {
        Ok(())
    } else {
        match outcome {
            Ok(_) => Ok(()),
            Err(e) => Err(e),
        }
    }
}

/// The pool after a lookup that connects on demand. `resolution` is `None`
/// where the configuration store has no such target.
pub open spec fn created<C>(
    cache: Map<Seq<char>, C>,
    name: Seq<char>,
    resolution: Option<Result<C, ConnectError>>,
) -> Map<Seq<char>, C> {
    match resolution {
        Some(outcome) => connected(cache, name, outcome),
        None => cache,
    }
}

/// The names of the targets of a snapshot.
pub open spec fn names_of(snapshot: Seq<String>) -> Seq<Seq<char>> {
    snapshot.map_values(|name: String| name@)
}

/// The names of a snapshot that have no connection, in their order.
pub open spec fn missing_names<C>(cache: Map<Seq<char>, C>, names: Seq<Seq<char>>) -> Seq<
    Seq<char>,
> {
    names.filter(|name: Seq<char>| !cache.contains_key(name))
}

/// The names of a snapshot that have a connection, in their order.
pub open spec fn listed_names<C>(cache: Map<Seq<char>, C>, names: Seq<Seq<char>>) -> Seq<
    Seq<char>,
> {
    names.filter(|name: Seq<char>| cache.contains_key(name))
}

/// The pool after the attempts for `names` were applied in their order, up to
/// the first failure, and that failure.
pub open spec fn connect_all<C>(
    cache: Map<Seq<char>, C>,
    names: Seq<Seq<char>>,
    outcomes: Seq<Result<C, ConnectError>>,
) -> (Map<Seq<char>, C>, Option<ConnectError>)
    decreases names.len(),
{
    if names.len() == 0 || outcomes.len() == 0 {
        (cache, None)
    } else {
        match connect_result(cache, names[0], outcomes[0]) {
            Err(e) => (cache, Some(e)),
            Ok(_) => connect_all(
                connected(cache, names[0], outcomes[0]),
                names.skip(1),
                outcomes.skip(1),
            ),
        }
    }
}

/// Whether `listing` names the connected targets of a snapshot in their
/// order, each with its connection.
pub open spec fn is_listing<C>(
    cache: Map<Seq<char>, C>,
    names: Seq<Seq<char>>,
    listing: Seq<(String, &C)>,
) -> bool {
    &&& listing.map_values(|entry: (String, &C)| entry.0@) == listed_names(cache, names)
    &&& forall|i: int|
        0 <= i < listing.len() ==> cache.contains_key((#[trigger] listing[i]).0@) && *listing[i].1
            == cache[listing[i].0@]
}

impl<St, C> ConnectionPool<St, C> {
    /// No target has two connections.
    pub closed spec fn wf(&self) -> bool {
        distinct_names(self.by_name@)
    }

    /// The connections by the name of their target.
    pub closed spec fn view(&self) -> Map<Seq<char>, C> {
        entries_map(self.by_name@)
    }

    /// The listener that the pool serves.
    pub closed spec fn listener(&self) -> Seq<char> {
        self.listener_name@
    }

    /// The handle to the configuration store.
    pub closed spec fn store(&self) -> St {
        self.state
    }

    /// A pool holds finitely many connections.
    pub proof fn lemma_finite(&self)
        requires
            self.wf(),
        ensures
            self@.dom().finite(),
    {
        lemma_entries_counted(self.by_name@);
    }

    /// A pool without connections.
    pub fn new(state: St, listener_name: String) -> (pool: Self)
        ensures
            pool.wf(),
            pool@ == Map::<Seq<char>, C>::empty(),
            pool.listener() == listener_name@,
            pool.store() == state,
    {
        let pool = ConnectionPool { listener_name, state, by_name: Vec::new() };
        assert(pool@ =~= Map::<Seq<char>, C>::empty());
        pool
    }

    pub fn listener_name(&self) -> (name: &str)
        ensures
            name@ == self.listener(),
    {
        self.listener_name.as_str()
    }

    pub fn state(&self) -> (state: &St)
        ensures
            *state == self.store(),
    {
        &self.state
    }

    /// The number of connections.
    pub fn len(&self) -> (count: usize)
        requires
            self.wf(),
        ensures
            count == self@.dom().len(),
    {
        proof {
            lemma_entries_counted(self.by_name@);
        }
        self.by_name.len()
    }

    fn find(&self, name: &str) -> (found: Option<usize>)
        ensures
            match found {
                Some(i) => i < self.by_name@.len() && self.by_name@[i as int].0@ == name@,
                None => !has_name(self.by_name@, name@),
            },
    {
        let wanted = name.to_string();
        let mut i: usize = 0;
        while i < self.by_name.len()
            invariant
                wanted@ == name@,
                i <= self.by_name@.len(),
                forall|j: int| 0 <= j < i ==> (#[trigger] self.by_name@[j]).0@ != name@,
            decreases self.by_name@.len() - i,
        {
            if self.by_name[i].0 == wanted {
                return Some(i);
            }
            i += 1;
        }
        None
    }

    /// Whether a connection to the target is kept.
    pub fn contains(&self, name: &str) -> (kept: bool)
        ensures
            kept == self@.contains_key(name@),
    {
        self.find(name).is_some()
    }

    /// The connection to the target, if one is kept.
    pub fn get(&self, name: &str) -> (kept: Option<&C>)
        requires
            self.wf(),
        ensures
            match kept {
                Some(connection) => self@.contains_key(name@) && *connection == self@[name@],
                None => !self@.contains_key(name@),
            },
    {
        match self.find(name) {
            Some(i) => {
                proof {
                    lemma_entry_in_map(self.by_name@, i as int);
                }
                Some(&self.by_name[i].1)
            },
            None => None,
        }
    }

    /// Takes the connection to the target out of the pool and hands it back;
    /// where none is kept, nothing changes.
    pub fn remove(&mut self, name: &str) -> (evicted: Option<C>)
        requires
            old(self).wf(),
        ensures
            final(self).wf(),
            final(self).listener() == old(self).listener(),
            final(self).store() == old(self).store(),
            match evicted {
                Some(connection) => old(self)@.contains_key(name@)
                    && connection == old(self)@[name@]
                    && final(self)@ == old(self)@.remove(name@),
                None => !old(self)@.contains_key(name@) && final(self)@ == old(self)@,
            },
    {
        match self.find(name) {
            Some(i) => {
                proof {
                    lemma_entry_in_map(self.by_name@, i as int);
                    lemma_remove_entry(self.by_name@, i as int);
                }
                let entry = self.by_name.remove(i);
                Some(entry.1)
            },
            None => None,
        }
    }

    /// Whether a connection to the target has still to be made: the transport
    /// of a target that is connected is never set up again.
    pub fn needs_connect(&self, name: &str) -> (needed: bool)
        ensures
            needed == !self@.contains_key(name@),
    {
        !self.contains(name)
    }

    /// Begins an attempt to connect a target. Where a connection is kept
    /// already there is nothing to do; else the filters of the target come
    /// back with the first step of the attempt.
    pub fn begin_connect<F, A, S, T>(&self, target: Target<F, A, S>) -> (begun: Option<
        (F, ConnectStep<A, S, T>),
    >)
        ensures
            match begun {
                None => self@.contains_key(target.name@),
                Some((filters, step)) => !self@.contains_key(target.name@) && filters
                    == target.filters && planned(target.name@, target.spec, step),
            },
    {
        let Target { name, spec, filters } = target;
        if self.contains(name.as_str()) {
            None
        } else {
            Some((filters, plan_connect(name.as_str(), spec)))
        }
    }

    /// Ends an attempt to connect the target `name`. `outcome` is what the
    /// attempt gave. Where a connection is kept already this is a success
    /// that changes nothing.
    pub fn connect(&mut self, name: &str, outcome: Result<C, ConnectError>) -> (r: Result<
        (),
        ConnectError,
    >)
        requires
            old(self).wf(),
        ensures
            final(self).wf(),
            final(self).listener() == old(self).listener(),
            final(self).store() == old(self).store(),
            final(self)@ == connected(old(self)@, name@, outcome),
            r == connect_result(old(self)@, name@, outcome),
    {
        if self.contains(name) {
            return Ok(());
        }
        match outcome {
            Ok(connection) => {
                let entry = (name.to_string(), connection);
                proof {
                    lemma_push_entry(self.by_name@, entry);
                }
                self.by_name.push(entry);
                Ok(())
            },
            Err(e) => Err(e),
        }
    }

    /// The connection to the target `name`, made on demand.
    ///
    /// `resolution` is looked at only where no connection is kept: `None`
    /// says that the configuration store has no such target, else it is what
    /// the attempt to connect gave.
    pub fn get_or_create(&mut self, name: &str, resolution: Option<Result<C, ConnectError>>) -> (r:
        Result<&C, ConnectError>)
        requires
            old(self).wf(),
        ensures
            final(self).wf(),
            final(self).listener() == old(self).listener(),
            final(self).store() == old(self).store(),
            final(self)@ == created(old(self)@, name@, resolution),
            match r {
                Ok(connection) => final(self)@.contains_key(name@)
                    && *connection == final(self)@[name@],
                Err(e) => !old(self)@.contains_key(name@) && match resolution {
                    None => e matches ConnectError::ConfigNotFound { name: n } && n@ == name@,
                    Some(outcome) => outcome == Err::<C, ConnectError>(e),
                },
            },
            r is Err <==> !old(self)@.contains_key(name@) && !(resolution matches Some(Ok(_))),
    {
        if !self.contains(name) {
            match resolution {
                None => {
                    return Err(ConnectError::ConfigNotFound { name: name.to_string() });
                },
                Some(outcome) => {
                    match self.connect(name, outcome) {
                        Ok(_) => {},
                        Err(e) => {
                            return Err(e);
                        },
                    }
                },
            }
        }
        match self.get(name) {
            Some(connection) => Ok(connection),
            None => Err(ConnectError::ConfigNotFound { name: name.to_string() }),
        }
    }

    /// The targets of a snapshot that have still to be connected, in the
    /// order of the snapshot.
    pub fn missing_targets(&self, snapshot: &Vec<String>) -> (missing: Vec<String>)
        ensures
            names_of(missing@) == missing_names(self@, names_of(snapshot@)),
    {
        let ghost absent = |name: Seq<char>| !self@.contains_key(name);
        let mut missing: Vec<String> = Vec::new();
        let mut i: usize = 0;
        proof {
            assert(names_of(snapshot@.subrange(0, 0)) =~= Seq::<Seq<char>>::empty());
            assert(names_of(missing@) =~= Seq::<Seq<char>>::empty());
        }
        while i < snapshot.len()
            invariant
                i <= snapshot@.len(),
                absent == |name: Seq<char>| !self@.contains_key(name),
                names_of(missing@) == names_of(snapshot@.subrange(0, i as int)).filter(absent),
            decreases snapshot@.len() - i,
        {
            let ghost before = names_of(snapshot@.subrange(0, i as int));
            let ghost current = snapshot@[i as int]@;
            proof {
                assert(names_of(snapshot@.subrange(0, i + 1)) =~= before.push(current));
                before.lemma_filter_push(current, absent);
            }
            if !self.contains(snapshot[i].as_str()) {
                let name = snapshot[i].clone();
                proof {
                    assert(names_of(missing@.push(name)) =~= names_of(missing@).push(name@));
                }
                missing.push(name);
            }
            i += 1;
        }
        proof {
            assert(snapshot@.subrange(0, i as int) =~= snapshot@);
        }
        missing
    }

    /// The connected targets of a snapshot, in the order of the snapshot,
    /// each with its connection.
    pub fn listing(&self, snapshot: &Vec<String>) -> (entries: Vec<(String, &C)>)
        requires
            self.wf(),
        ensures
            is_listing(self@, names_of(snapshot@), entries@),
    {
        let ghost kept = |name: Seq<char>| self@.contains_key(name);
        let ghost name_of = |entry: (String, &C)| entry.0@;
        let mut entries: Vec<(String, &C)> = Vec::new();
        let mut i: usize = 0;
        proof {
            assert(names_of(snapshot@.subrange(0, 0)) =~= Seq::<Seq<char>>::empty());
            assert(entries@.map_values(name_of) =~= Seq::<Seq<char>>::empty());
        }
        while i < snapshot.len()
            invariant
                self.wf(),
                i <= snapshot@.len(),
                kept == |name: Seq<char>| self@.contains_key(name),
                name_of == |entry: (String, &C)| entry.0@,
                entries@.map_values(name_of) == names_of(snapshot@.subrange(0, i as int)).filter(
                    kept,
                ),
                forall|k: int|
                    0 <= k < entries@.len() ==> self@.contains_key((#[trigger] entries@[k]).0@)
                        && *entries@[k].1 == self@[entries@[k].0@],
            decreases snapshot@.len() - i,
        {
            let ghost before = names_of(snapshot@.subrange(0, i as int));
            let ghost current = snapshot@[i as int]@;
            proof {
                assert(names_of(snapshot@.subrange(0, i + 1)) =~= before.push(current));
                before.lemma_filter_push(current, kept);
            }
            match self.get(snapshot[i].as_str()) {
                Some(connection) => {
                    let entry = (snapshot[i].clone(), connection);
                    proof {
                        assert(entries@.push(entry).map_values(name_of) =~= entries@.map_values(
                            name_of,
                        ).push(entry.0@));
                    }
                    entries.push(entry);
                },
                None => {},
            }
            i += 1;
        }
        proof {
            assert(snapshot@.subrange(0, i as int) =~= snapshot@);
        }
        entries
    }

    /// The connections to the targets of a snapshot, after those that were
    /// missing have been attempted.
    ///
    /// `outcomes` holds what the attempts gave, for the targets that
    /// `missing_targets` names and in that order. They are applied up to the
    /// first failure, which is returned in place of a list; the connections
    /// made before it are kept.
    pub fn list(&mut self, snapshot: &Vec<String>, outcomes: Vec<Result<C, ConnectError>>) -> (r:
        Result<Vec<(String, &C)>, ConnectError>)
        requires
            old(self).wf(),
        ensures
            final(self).wf(),
            final(self).listener() == old(self).listener(),
            final(self).store() == old(self).store(),
            final(self)@ == connect_all(
                old(self)@,
                missing_names(old(self)@, names_of(snapshot@)),
                outcomes@,
            ).0,
            match r {
                Ok(entries) => connect_all(
                    old(self)@,
                    missing_names(old(self)@, names_of(snapshot@)),
                    outcomes@,
                ).1 is None && is_listing(final(self)@, names_of(snapshot@), entries@),
                Err(e) => connect_all(
                    old(self)@,
                    missing_names(old(self)@, names_of(snapshot@)),
                    outcomes@,
                ).1 == Some(e),
            },
    {
        let missing = self.missing_targets(snapshot);
        let ghost names = names_of(missing@);
        let ghost all = outcomes@;
        let mut i: usize = 0;
        proof {
            assert(names.skip(0) =~= names);
            assert(all.skip(0) =~= all);
        }
        for outcome in it: outcomes
            invariant
                self.wf(),
                self.listener() == old(self).listener(),
                self.store() == old(self).store(),
                all == outcomes@,
                it.seq() == all,
                names == names_of(missing@),
                names == missing_names(old(self)@, names_of(snapshot@)),
                i <= missing@.len(),
                i <= it.index(),
                i < it.index() ==> i == missing@.len(),
                connect_all(old(self)@, names, all) == connect_all(
                    self@,
                    names.skip(i as int),
                    all.skip(it.index() as int),
                ),
        {
            if i < missing.len() {
                proof {
                    assert(names.skip(i as int)[0] == missing@[i as int]@);
                    assert(names.skip(i as int).skip(1) =~= names.skip(i + 1));
                    assert(all.skip(i as int).skip(1) =~= all.skip(i + 1));
                    assert(all.skip(i as int)[0] == outcome);
                }
                match self.connect(missing[i].as_str(), outcome) {
                    Ok(_) => {},
                    Err(e) => {
                        return Err(e);
                    },
                }
                i += 1;
            }
        }
        Ok(self.listing(snapshot))
    }
}

} // verus!
