//! State classes: names for how high a metric stands.

use crate::binary64::Binary64;
use vstd::prelude::*;
use vstd::utf8::encode_utf8;

verus! {

/// A class name and the metric value from which on it applies.
#[derive(Debug)]
pub struct State {
    pub name: String,
    pub threshold: Binary64,
}

/// Whether `a` comes before `b` as decided at position `k`, the first one where
/// they differ or one of them ends.
pub open spec fn decided_at(a: Seq<u8>, b: Seq<u8>, k: int) -> bool {
    &&& 0 <= k <= a.len()
    &&& k < b.len()
    &&& forall|j: int| 0 <= j < k ==> #[trigger] a[j] == b[j]
    &&& k < a.len() ==> a[k] < b[k]
}

/// Whether name `a` sorts before name `b`: by the bytes of their encoding, left
/// to right, a prefix before anything that continues it.
pub open spec fn precedes(a: Seq<char>, b: Seq<char>) -> bool {
    exists|k: int| decided_at(encode_utf8(a), encode_utf8(b), k)
}

/// Whether the states stand in the order of their names, no name twice.
pub open spec fn ascending(states: Seq<State>) -> bool {
    forall|i: int, j: int|
        0 <= i < j < states.len() ==> precedes(
            #[trigger] states[i].name@,
            #[trigger] states[j].name@,
        )
}

/// The threshold configured for a class name.
pub open spec fn threshold_of(states: Seq<State>, name: Seq<char>) -> Option<Binary64> {
    if exists|i: int| 0 <= i < states.len() && #[trigger] states[i].name@ == name {
        let i = choose|i: int| 0 <= i < states.len() && #[trigger] states[i].name@ == name;
        Some(states[i].threshold)
    } else {
        None
    }
}

/// Whether the value is at or above the threshold of state `i`.
pub open spec fn reached(states: Seq<State>, value: Binary64, i: int) -> bool {
    0 <= i < states.len() && value.reaches(states[i].threshold)
}

/// Whether state `i` is the one that a value puts in force: its threshold is
/// the highest that does not exceed the value. Where several states share that
/// threshold, the last of them by name is in force.
pub open spec fn active(states: Seq<State>, value: Binary64, i: int) -> bool {
    &&& reached(states, value, i)
    &&& forall|j: int| #[trigger]
        reached(states, value, j) ==> {
            &&& states[i].threshold.reaches(states[j].threshold)
            &&& states[j].threshold.reaches(states[i].threshold) ==> j <= i
        }
}

/// The class that a value puts in force, if any.
pub open spec fn resolved(states: Seq<State>, value: Binary64) -> Option<String> {
    if exists|i: int| active(states, value, i) {
        Some(states[choose|i: int| active(states, value, i)].name)
    } else {
        None
    }
}

/// What to do about the state classes of the labels.
#[derive(Debug, PartialEq, Eq)]
pub enum StateChange {
    /// The metric was not judged: leave the classes as they are.
    Keep,
    /// The metric is below every threshold: show no state class.
    Clear,
    /// Show this state class and no other.
    Show(String),
}

impl Clone for StateChange {
    fn clone(&self) -> (result: Self)
        ensures
            result == *self,
    {
        match self {
            StateChange::Keep => StateChange::Keep,
            StateChange::Clear => StateChange::Clear,
            StateChange::Show(class) => StateChange::Show(class.clone()),
        }
    }
}

/// What a metric value makes of the state classes.
pub open spec fn judgement(states: Seq<State>, value: Binary64) -> StateChange {
    match resolved(states, value) {
        Some(name) => StateChange::Show(name),
        None => StateChange::Clear,
    }
}

/// The configured states, in the order of their names.
#[derive(Debug)]
pub struct States {
    entries: Vec<State>,
}

impl View for States {
    type V = Seq<State>;

    closed spec fn view(&self) -> Seq<State> {
        self.entries@
    }
}

impl Clone for States {
    fn clone(&self) -> (result: Self)
        ensures
            result@ == self@,
    {
        proof {
            use_type_invariant(self);
        }
        let mut entries: Vec<State> = Vec::new();
        for i in 0..self.entries.len()
            invariant
                entries@ =~= self@.take(i as int),
        {
            entries.push(
                State {
                    name: self.entries[i].name.clone(),
                    threshold: self.entries[i].threshold,
                },
            );
        }
        assert(self@.take(self@.len() as int) =~= self@);
        States { entries }
    }
}

/// Where a name stands with respect to another.
enum Place {
    Before,
    Same,
    After,
}

fn place(a: &String, b: &String) -> (result: Place)
    ensures
        result is Before ==> precedes(a@, b@),
        result is Same ==> a@ == b@,
        result is After ==> precedes(b@, a@),
{
    let left: &[u8] = a.as_str().as_bytes();
    let right: &[u8] = b.as_str().as_bytes();
    let mut k: usize = 0;
    while k < left.len() && k < right.len()
        invariant
            left@ == encode_utf8(a@),
            right@ == encode_utf8(b@),
            k <= left@.len(),
            k <= right@.len(),
            forall|j: int| 0 <= j < k ==> left@[j] == right@[j],
        decreases left@.len() - k,
    {
        if left[k] < right[k] {
            assert(decided_at(left@, right@, k as int));
            return Place::Before;
        }
        if left[k] > right[k] {
            assert(decided_at(right@, left@, k as int));
            return Place::After;
        }
        k += 1;
    }
    if k < right.len() {
        assert(decided_at(left@, right@, k as int));
        Place::Before
    } else if k < left.len() {
        assert(decided_at(right@, left@, k as int));
        Place::After
    } else {
        assert(left@ =~= right@);
        proof {
            vstd::utf8::encode_utf8_decode_utf8(a@);
            vstd::utf8::encode_utf8_decode_utf8(b@);
        }
        Place::Same
    }
}

proof fn lemma_precedes_transitive(a: Seq<char>, b: Seq<char>, c: Seq<char>)
    requires
        precedes(a, b),
        precedes(b, c),
    ensures
        precedes(a, c),
{
    let (x, y, z) = (encode_utf8(a), encode_utf8(b), encode_utf8(c));
    let m = choose|k: int| decided_at(x, y, k);
    let n = choose|k: int| decided_at(y, z, k);
    let k = if m < n { m } else { n };
    assert(forall|j: int| 0 <= j < k ==> #[trigger] x[j] == y[j] && y[j] == z[j]);
    assert(decided_at(x, z, k));
}

proof fn lemma_precedes_irreflexive(a: Seq<char>)
    ensures
        !precedes(a, a),
{
}

/// Two entries never bear the same name.
pub proof fn lemma_names_differ(states: Seq<State>, i: int, j: int)
    requires
        ascending(states),
        0 <= i < states.len(),
        0 <= j < states.len(),
        i != j,
    ensures
        states[i].name@ != states[j].name@,
{
    lemma_precedes_irreflexive(states[i].name@);
}

/// No name comes twice, so each has the threshold of the entry that bears it.
proof fn lemma_threshold_at(states: Seq<State>, i: int)
    requires
        ascending(states),
        0 <= i < states.len(),
    ensures
        threshold_of(states, states[i].name@) == Some(states[i].threshold),
{
    let name = states[i].name@;
    assert(states[i].name@ == name);
    let j = choose|j: int| 0 <= j < states.len() && #[trigger] states[j].name@ == name;
    if i != j {
        lemma_names_differ(states, i, j);
    }
}

impl States {
    /// The names stand in order, none twice.
    #[verifier::type_invariant]
    spec fn well_formed(&self) -> bool {
        ascending(self@)
    }

    /// No states.
    pub fn new() -> (result: Self)
        ensures
            result@ == Seq::<State>::empty(),
    {
        States { entries: Vec::new() }
    }

    /// Sets the threshold of a class, whether or not the class was configured
    /// before.
    pub fn insert(&mut self, name: String, threshold: Binary64)
        ensures
            ascending(final(self)@),
            forall|other: Seq<char>| #[trigger]
                threshold_of(final(self)@, other) == if other == name@ {
                    Some(threshold)
                } else {
                    threshold_of(old(self)@, other)
                },
            exists|i: int|
                0 <= i < final(self)@.len() && #[trigger] final(self)@[i].name@ == name@
                    && final(self)@[i].threshold == threshold,
            forall|state: State|
                state.name@ != name@ ==> (#[trigger] final(self)@.contains(state) <==> old(
                    self,
                )@.contains(state)),
            forall|i: int, j: int|
                0 <= i < j < final(self)@.len() ==> #[trigger] final(self)@[i].name@
                    != #[trigger] final(self)@[j].name@,
    {
        proof {
            use_type_invariant(&*self);
        }
        let mut entries: Vec<State> = Vec::new();
        std::mem::swap(&mut entries, &mut self.entries);
        let ghost before = entries@;
        let ghost entry = State { name, threshold };
        let mut i: usize = 0;
        while i < entries.len()
            invariant
                entries@ == before,
                before == old(self)@,
                entry == (State { name, threshold }),
                ascending(before),
                i <= entries@.len(),
                forall|j: int| 0 <= j < i ==> precedes(#[trigger] before[j].name@, name@),
            decreases entries@.len() - i,
        {
            match place(&entries[i].name, &name) {
                Place::Before => {
                    i += 1;
                },
                Place::Same => {
                    proof {
                        lemma_replace(before, i as int, name, threshold);
                        lemma_entries(before, i as int, name, threshold);
                    }
                    entries[i] = State { name, threshold };
                    self.entries = entries;
                    assert(self@[i as int].name@ == entry.name@);
                    return;
                },
                Place::After => {
                    proof {
                        lemma_put(before, i as int, name, threshold);
                        lemma_entries(before, i as int, name, threshold);
                    }
                    entries.insert(i, State { name, threshold });
                    self.entries = entries;
                    assert(self@[i as int].name@ == entry.name@);
                    return;
                },
            }
        }
        proof {
            lemma_put(before, i as int, name, threshold);
            lemma_entries(before, i as int, name, threshold);
        }
        entries.insert(i, State { name, threshold });
        self.entries = entries;
        assert(self@[i as int].name@ == entry.name@);
    }

    /// Whether no state is configured.
    pub fn is_empty(&self) -> (result: bool)
        ensures
            result == (self@.len() == 0),
    {
        self.entries.len() == 0
    }

    /// The class names, in order.
    pub fn names(&self) -> (names: Vec<String>)
        ensures
            names@ == self@.map_values(|state: State| state.name),
            ascending(self@),
    {
        proof {
            use_type_invariant(self);
        }
        let mut names: Vec<String> = Vec::new();
        for i in 0..self.entries.len()
            invariant
                names@ =~= self@.take(i as int).map_values(|state: State| state.name),
        {
            names.push(self.entries[i].name.clone());
        }
        assert(self@.take(self@.len() as int) =~= self@);
        names
    }
}

/// Putting a name between those before it and those after it keeps the order
/// and changes the threshold of no other name.
proof fn lemma_put(states: Seq<State>, i: int, name: String, threshold: Binary64)
    requires
        ascending(states),
        0 <= i <= states.len(),
        forall|j: int| 0 <= j < i ==> precedes(#[trigger] states[j].name@, name@),
        i < states.len() ==> precedes(name@, states[i].name@),
    ensures
        ascending(states.insert(i, State { name, threshold })),
        forall|other: Seq<char>| #[trigger]
            threshold_of(states.insert(i, State { name, threshold }), other) == if other == name@ {
                Some(threshold)
            } else {
                threshold_of(states, other)
            },
{
    let after = states.insert(i, State { name, threshold });
    assert forall|j: int| i <= j < states.len() implies precedes(
        name@,
        #[trigger] states[j].name@,
    ) by {
        if j > i {
            assert(precedes(states[i].name@, states[j].name@));
            lemma_precedes_transitive(name@, states[i].name@, states[j].name@);
        }
    }
    assert forall|j: int, k: int| 0 <= j < k < after.len() implies precedes(
        #[trigger] after[j].name@,
        #[trigger] after[k].name@,
    ) by {
        let jj = if j < i { j } else { j - 1 };
        let kk = if k < i { k } else { k - 1 };
        if j != i && k != i {
            assert(precedes(states[jj].name@, states[kk].name@));
        } else if j == i {
            assert(precedes(name@, states[kk].name@));
        } else {
            assert(precedes(states[jj].name@, name@));
        }
    }
    assert forall|other: Seq<char>| #[trigger]
        threshold_of(after, other) == if other == name@ {
            Some(threshold)
        } else {
            threshold_of(states, other)
        } by {
        if other == name@ {
            assert(after[i].name@ == name@);
            lemma_threshold_at(after, i);
        } else if exists|j: int| 0 <= j < states.len() && #[trigger] states[j].name@ == other {
            let j = choose|j: int| 0 <= j < states.len() && #[trigger] states[j].name@ == other;
            let jj = if j < i { j } else { j + 1 };
            assert(after[jj] == states[j]);
            lemma_threshold_at(states, j);
            lemma_threshold_at(after, jj);
        } else {
            assert forall|j: int| 0 <= j < after.len() implies #[trigger] after[j].name@ != other by {
                if j != i {
                    let jj = if j < i { j } else { j - 1 };
                    assert(after[j] == states[jj]);
                    assert(states[jj].name@ != other);
                }
            }
        }
    }
}

/// Replacing the entry of a name keeps the order and changes the threshold of
/// no other name.
proof fn lemma_replace(states: Seq<State>, i: int, name: String, threshold: Binary64)
    requires
        ascending(states),
        0 <= i < states.len(),
        states[i].name@ == name@,
    ensures
        ascending(states.update(i, State { name, threshold })),
        forall|other: Seq<char>| #[trigger]
            threshold_of(states.update(i, State { name, threshold }), other) == if other == name@ {
                Some(threshold)
            } else {
                threshold_of(states, other)
            },
{
    let after = states.update(i, State { name, threshold });
    assert(forall|j: int| 0 <= j < states.len() ==> #[trigger] after[j].name@ == states[j].name@);
    assert forall|j: int, k: int| 0 <= j < k < after.len() implies precedes(
        #[trigger] after[j].name@,
        #[trigger] after[k].name@,
    ) by {
        assert(precedes(states[j].name@, states[k].name@));
    }
    assert forall|other: Seq<char>| #[trigger]
        threshold_of(after, other) == if other == name@ {
            Some(threshold)
        } else {
            threshold_of(states, other)
        } by {
        if other == name@ {
            assert(after[i].name@ == name@);
            lemma_threshold_at(after, i);
        } else if exists|j: int| 0 <= j < states.len() && #[trigger] states[j].name@ == other {
            let j = choose|j: int| 0 <= j < states.len() && #[trigger] states[j].name@ == other;
            assert(after[j] == states[j]);
            lemma_threshold_at(states, j);
            lemma_threshold_at(after, j);
        } else {
            assert forall|j: int| 0 <= j < after.len() implies #[trigger] after[j].name@ != other by {
                assert(states[j].name@ != other);
            }
        }
    }
}

/// Putting or replacing an entry of one name keeps the entries of all others, and
/// no name comes twice where the names are in order.
proof fn lemma_entries(states: Seq<State>, i: int, name: String, threshold: Binary64)
    requires
        0 <= i <= states.len(),
    ensures
        ({
            let put = states.insert(i, State { name, threshold });
            &&& put[i] == (State { name, threshold })
            &&& forall|state: State|
                state.name@ != name@ ==> (#[trigger] put.contains(state) <==> states.contains(
                    state,
                ))
            &&& ascending(put) ==> forall|j: int, k: int|
                0 <= j < k < put.len() ==> #[trigger] put[j].name@ != #[trigger] put[k].name@
        }),
        i < states.len() && states[i].name@ == name@ ==> {
            let set = states.update(i, State { name, threshold });
            &&& set[i] == (State { name, threshold })
            &&& forall|state: State|
                state.name@ != name@ ==> (#[trigger] set.contains(state) <==> states.contains(
                    state,
                ))
            &&& ascending(set) ==> forall|j: int, k: int|
                0 <= j < k < set.len() ==> #[trigger] set[j].name@ != #[trigger] set[k].name@
        },
{
    let entry = State { name, threshold };
    let put = states.insert(i, entry);
    let set = states.update(i, entry);
    assert forall|state: State| state.name@ != name@ implies (#[trigger] put.contains(state)
        <==> states.contains(state)) by {
        if put.contains(state) {
            let k = choose|k: int| 0 <= k < put.len() && put[k] == state;
            let kk = if k < i { k } else { k - 1 };
            assert(k != i);
            assert(states[kk] == state);
        }
        if states.contains(state) {
            let k = choose|k: int| 0 <= k < states.len() && states[k] == state;
            let kk = if k < i { k } else { k + 1 };
            assert(put[kk] == state);
        }
    }
    if ascending(put) {
        assert forall|j: int, k: int| 0 <= j < k < put.len() implies #[trigger] put[j].name@
            != #[trigger] put[k].name@ by {
            lemma_names_differ(put, j, k);
        }
    }
    if i < states.len() && states[i].name@ == name@ {
        assert forall|state: State| state.name@ != name@ implies (#[trigger] set.contains(state)
            <==> states.contains(state)) by {
            if set.contains(state) {
                let k = choose|k: int| 0 <= k < set.len() && set[k] == state;
                assert(states[k] == state);
            }
            if states.contains(state) {
                let k = choose|k: int| 0 <= k < states.len() && states[k] == state;
                assert(set[k] == state);
            }
        }
        if ascending(set) {
            assert forall|j: int, k: int| 0 <= j < k < set.len() implies #[trigger] set[j].name@
                != #[trigger] set[k].name@ by {
                lemma_names_differ(set, j, k);
            }
        }
    }
}

/// The class that a metric value puts in force: the one with the highest
/// threshold not exceeding the value.
pub fn resolve_state(states: &States, value: Binary64) -> (result: Option<String>)
    ensures
        result == resolved(states@, value),
        match result {
            Some(name) => exists|i: int|
                #[trigger] active(states@, value, i) && name == states@[i].name,
            None => forall|i: int| !#[trigger] reached(states@, value, i),
        },
        result is None <==> forall|i: int|
            0 <= i < states@.len() ==> !value.reaches(#[trigger] states@[i].threshold),
        result matches Some(name) ==> exists|i: int|
            {
                &&& 0 <= i < states@.len()
                &&& name == #[trigger] states@[i].name
                &&& value.reaches(states@[i].threshold)
                &&& forall|j: int|
                    0 <= j < states@.len() && value.reaches(#[trigger] states@[j].threshold) ==> {
                        &&& states@[i].threshold.reaches(states@[j].threshold)
                        &&& states@[j].threshold.reaches(states@[i].threshold) ==> j <= i
                    }
            },
{
    proof {
        the_highest_reached_threshold_counts(states@, value);
    }
    let mut best: Option<usize> = None;
    for i in 0..states.entries.len()
        invariant
            match best {
                Some(b) => {
                    &&& b < i
                    &&& reached(states@, value, b as int)
                    &&& forall|j: int|
                        0 <= j < i && #[trigger] reached(states@, value, j) ==> {
                            &&& states@[b as int].threshold.reaches(states@[j].threshold)
                            &&& states@[j].threshold.reaches(states@[b as int].threshold) ==> j <= b
                        }
                },
                None => forall|j: int| 0 <= j < i ==> !#[trigger] reached(states@, value, j),
            },
    {
        if value.at_least(states.entries[i].threshold) {
            assert(reached(states@, value, i as int));
            let higher: bool = match best {
                Some(b) => states.entries[i].threshold.at_least(states.entries[b].threshold),
                None => true,
            };
            if higher {
                best = Some(i);
            }
        }
    }
    match best {
        Some(b) => {
            assert(active(states@, value, b as int));
            proof {
                let c = choose|i: int| active(states@, value, i);
                one_state_is_active(states@, value, b as int, c);
            }
            Some(states.entries[b].name.clone())
        },
        None => None,
    }
}

/// Judges a metric value: its class is to be shown, or no class at all where it
/// is below every threshold.
pub fn judge(states: &States, value: Binary64) -> (change: StateChange)
    ensures
        change == judgement(states@, value),
        change != StateChange::Keep,
        change == StateChange::Clear <==> forall|i: int|
            0 <= i < states@.len() ==> !value.reaches(#[trigger] states@[i].threshold),
        change matches StateChange::Show(name) ==> exists|i: int|
            {
                &&& 0 <= i < states@.len()
                &&& name == #[trigger] states@[i].name
                &&& value.reaches(states@[i].threshold)
                &&& forall|j: int|
                    0 <= j < states@.len() && value.reaches(#[trigger] states@[j].threshold) ==> {
                        &&& states@[i].threshold.reaches(states@[j].threshold)
                        &&& states@[j].threshold.reaches(states@[i].threshold) ==> j <= i
                    }
            },
{
    match resolve_state(states, value) {
        Some(name) => StateChange::Show(name),
        None => StateChange::Clear,
    }
}

/// At most one state is in force at a time.
pub proof fn one_state_is_active(states: Seq<State>, value: Binary64, i: int, j: int)
    requires
        active(states, value, i),
        active(states, value, j),
    ensures
        i == j,
{
    assert(reached(states, value, i));
    assert(reached(states, value, j));
}

/// Some state is in force exactly when the value is at or above some threshold.
pub proof fn a_reached_value_has_a_state(states: Seq<State>, value: Binary64)
    ensures
        resolved(states, value) is Some <==> exists|i: int| reached(states, value, i),
{
    if exists|i: int| reached(states, value, i) {
        let i = choose|i: int| reached(states, value, i);
        lemma_some_active(states, value, i);
    }
}

/// A value clears the state classes exactly when it is below every threshold.
pub proof fn a_value_below_every_threshold_clears(states: Seq<State>, value: Binary64)
    ensures
        judgement(states, value) == StateChange::Clear <==> forall|i: int|
            !#[trigger] reached(states, value, i),
{
    a_reached_value_has_a_state(states, value);
}

/// Among the first `n` states, one is the last of the highest.
proof fn lemma_last_highest(states: Seq<State>, value: Binary64, n: int) -> (best: int)
    requires
        0 <= n <= states.len(),
        exists|i: int| 0 <= i < n && #[trigger] reached(states, value, i),
    ensures
        0 <= best < n,
        reached(states, value, best),
        forall|j: int|
            0 <= j < n && #[trigger] reached(states, value, j) ==> {
                &&& states[best].threshold.reaches(states[j].threshold)
                &&& states[j].threshold.reaches(states[best].threshold) ==> j <= best
            },
    decreases n,
{
    if exists|i: int| 0 <= i < n - 1 && #[trigger] reached(states, value, i) {
        let earlier = lemma_last_highest(states, value, n - 1);
        if reached(states, value, n - 1) && states[n - 1].threshold.reaches(
            states[earlier].threshold,
        ) {
            n - 1
        } else {
            earlier
        }
    } else {
        n - 1
    }
}

proof fn lemma_some_active(states: Seq<State>, value: Binary64, i: int)
    requires
        reached(states, value, i),
    ensures
        exists|k: int| active(states, value, k),
{
    let best = lemma_last_highest(states, value, states.len() as int);
    assert(active(states, value, best));
}

/// A value that does not fall never puts a state with a lower threshold in
/// force.
pub proof fn a_rising_value_keeps_its_state(
    states: Seq<State>,
    low: Binary64,
    high: Binary64,
    i: int,
)
    requires
        high.reaches(low),
        active(states, low, i),
    ensures
        exists|j: int|
            #[trigger] active(states, high, j) && states[j].threshold.reaches(states[i].threshold),
{
    assert(reached(states, high, i));
    lemma_some_active(states, high, i);
    let j = choose|j: int| active(states, high, j);
    assert(states[j].threshold.reaches(states[i].threshold));
}

/// The class of a value is that of the highest threshold not exceeding it, and
/// where several classes share that threshold, that of the last of them. A value
/// below every threshold has no class, and judging it clears the classes.
pub proof fn the_highest_reached_threshold_counts(states: Seq<State>, value: Binary64)
    ensures
        resolved(states, value) is None <==> forall|i: int|
            0 <= i < states.len() ==> !value.reaches(#[trigger] states[i].threshold),
        resolved(states, value) matches Some(name) ==> exists|i: int|
            {
                &&& 0 <= i < states.len()
                &&& name == #[trigger] states[i].name
                &&& value.reaches(states[i].threshold)
                &&& forall|j: int|
                    0 <= j < states.len() && value.reaches(#[trigger] states[j].threshold) ==> {
                        &&& states[i].threshold.reaches(states[j].threshold)
                        &&& states[j].threshold.reaches(states[i].threshold) ==> j <= i
                    }
            },
        judgement(states, value) == match resolved(states, value) {
            Some(name) => StateChange::Show(name),
            None => StateChange::Clear,
        },
{
    a_reached_value_has_a_state(states, value);
    if forall|i: int| 0 <= i < states.len() ==> !value.reaches(#[trigger] states[i].threshold) {
        assert forall|i: int| !#[trigger] reached(states, value, i) by {
            if 0 <= i < states.len() {
                assert(!value.reaches(states[i].threshold));
            }
        }
    } else {
        let i = choose|i: int|
            0 <= i < states.len() && value.reaches(#[trigger] states[i].threshold);
        assert(reached(states, value, i));
    }
    if resolved(states, value) is Some {
        let i = choose|i: int| active(states, value, i);
        assert(active(states, value, i));
        assert forall|j: int|
            0 <= j < states.len() && value.reaches(#[trigger] states[j].threshold) implies {
            &&& states[i].threshold.reaches(states[j].threshold)
            &&& states[j].threshold.reaches(states[i].threshold) ==> j <= i
        } by {
            assert(reached(states, value, j));
        }
        assert(states[i].name == resolved(states, value)->0);
    }
}

/// A state that is reached, is at least as high as every other that is, and is the
/// last of those as high, gives its class to the value.
pub proof fn a_highest_reached_state_shows(states: Seq<State>, value: Binary64, i: int)
    requires
        0 <= i < states.len(),
        value.reaches(states[i].threshold),
        forall|j: int|
            0 <= j < states.len() && value.reaches(#[trigger] states[j].threshold) ==> {
                &&& states[i].threshold.reaches(states[j].threshold)
                &&& states[j].threshold.reaches(states[i].threshold) ==> j <= i
            },
    ensures
        resolved(states, value) == Some(states[i].name),
        judgement(states, value) == StateChange::Show(states[i].name),
{
    assert forall|j: int| #[trigger] reached(states, value, j) implies {
        &&& states[i].threshold.reaches(states[j].threshold)
        &&& states[j].threshold.reaches(states[i].threshold) ==> j <= i
    } by {
        assert(value.reaches(states[j].threshold));
    }
    assert(active(states, value, i));
    let k = choose|k: int| active(states, value, k);
    one_state_is_active(states, value, i, k);
}

/// Names sort by their bytes: the first byte in which they differ decides, a name
/// comes before every longer one that it begins, and of two names one comes first.
pub proof fn names_sort_by_their_bytes(a: Seq<char>, b: Seq<char>, k: int)
    ensures
        0 <= k < encode_utf8(a).len() && k < encode_utf8(b).len() && encode_utf8(a).take(k)
            == encode_utf8(b).take(k) && encode_utf8(a)[k] < encode_utf8(b)[k] ==> precedes(a, b),
        encode_utf8(a).len() < encode_utf8(b).len() && encode_utf8(a) == encode_utf8(b).take(
            encode_utf8(a).len() as int,
        ) ==> precedes(a, b),
        a != b ==> precedes(a, b) || precedes(b, a),
        !(precedes(a, b) && precedes(b, a)),
        !precedes(a, a),
{
    let x = encode_utf8(a);
    let y = encode_utf8(b);
    if 0 <= k < x.len() && k < y.len() && x.take(k) == y.take(k) && x[k] < y[k] {
        assert forall|j: int| 0 <= j < k implies #[trigger] x[j] == y[j] by {
            assert(x.take(k)[j] == y.take(k)[j]);
        }
        assert(decided_at(x, y, k));
    }
    if x.len() < y.len() && x == y.take(x.len() as int) {
        assert forall|j: int| 0 <= j < x.len() implies #[trigger] x[j] == y[j] by {
            assert(y.take(x.len() as int)[j] == y[j]);
        }
        assert(decided_at(x, y, x.len() as int));
    }
    if a != b {
        lemma_one_comes_first(a, b, 0);
    }
    if precedes(a, b) && precedes(b, a) {
        lemma_precedes_transitive(a, b, a);
    }
    lemma_precedes_irreflexive(a);
}

proof fn lemma_one_comes_first(a: Seq<char>, b: Seq<char>, k: int)
    requires
        a != b,
        0 <= k <= encode_utf8(a).len(),
        k <= encode_utf8(b).len(),
        forall|j: int| 0 <= j < k ==> #[trigger] encode_utf8(a)[j] == encode_utf8(b)[j],
    ensures
        precedes(a, b) || precedes(b, a),
    decreases encode_utf8(a).len() - k,
{
    let x = encode_utf8(a);
    let y = encode_utf8(b);
    if k == x.len() && k == y.len() {
        assert(x =~= y);
        vstd::utf8::encode_utf8_decode_utf8(a);
        vstd::utf8::encode_utf8_decode_utf8(b);
    } else if k == x.len() {
        assert(decided_at(x, y, k));
    } else if k == y.len() {
        assert(decided_at(y, x, k));
    } else if x[k] < y[k] {
        assert(decided_at(x, y, k));
    } else if y[k] < x[k] {
        assert(decided_at(y, x, k));
    } else {
        lemma_one_comes_first(a, b, k + 1);
    }
}

} // verus!
