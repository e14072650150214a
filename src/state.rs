use vstd::prelude::*;

use crate::dbus::{same_address, DBusPropertyAdress};

verus! {

/// How the application sees a network link.
#[derive(Clone, Copy, Debug, PartialEq, Eq, Structural)]
pub enum NetworkState {
    Unknown,
    Connecting,
    Connected,
    Disconnected,
    Disabled,
}

/// A value in the application state.
#[derive(Clone, Debug, PartialEq)]
pub enum StateValueType {
    U64(u64),
    I64(i64),
    /// A floating-point number, held as its IEEE-754 bit pattern.
    F64Bits(u64),
    Text(String),
    Network(NetworkState),
}

/// Two values are equal: same kind and same contents.
pub open spec fn same_value(a: StateValueType, b: StateValueType) -> bool {
    match (a, b) {
        (StateValueType::U64(x), StateValueType::U64(y)) => x == y,
        (StateValueType::I64(x), StateValueType::I64(y)) => x == y,
        (StateValueType::F64Bits(x), StateValueType::F64Bits(y)) => x == y,
        (StateValueType::Text(x), StateValueType::Text(y)) => x@ == y@,
        (StateValueType::Network(x), StateValueType::Network(y)) => x == y,
        _ => false,
    }
}

/// Two optional values are equal: both absent, or both present and equal.
pub open spec fn same_opt(a: Option<StateValueType>, b: Option<StateValueType>) -> bool {
    match (a, b) {
        (None, None) => true,
        (Some(x), Some(y)) => same_value(x, y),
        _ => false,
    }
}

impl StateValueType {
    /// A copy of this value.
    pub fn duplicate(&self) -> (r: StateValueType)
        ensures
            r == *self,
    {
        match self {
            StateValueType::U64(v) => StateValueType::U64(*v),
            StateValueType::I64(v) => StateValueType::I64(*v),
            StateValueType::F64Bits(v) => StateValueType::F64Bits(*v),
            StateValueType::Text(s) => StateValueType::Text(s.clone()),
            StateValueType::Network(n) => StateValueType::Network(*n),
        }
    }

    /// Whether both values are of the same kind and hold the same contents.
    pub fn same_as(&self, other: &StateValueType) -> (r: bool)
        ensures
            r == same_value(*self, *other),
    {
        match (self, other) {
            (StateValueType::U64(x), StateValueType::U64(y)) => *x == *y,
            (StateValueType::I64(x), StateValueType::I64(y)) => *x == *y,
            (StateValueType::F64Bits(x), StateValueType::F64Bits(y)) => *x == *y,
            (StateValueType::Text(x), StateValueType::Text(y)) => *x == *y,
            (StateValueType::Network(x), StateValueType::Network(y)) => *x == *y,
            _ => false,
        }
    }
}

/// A copy of an optional value.
pub fn duplicate_opt(v: &Option<StateValueType>) -> (r: Option<StateValueType>)
    ensures
        r == *v,
{
    match v {
        Some(x) => Some(x.duplicate()),
        None => None,
    }
}

/// Whether two optional values are equal.
pub fn same_opt_exec(a: &Option<StateValueType>, b: &Option<StateValueType>) -> (r: bool)
    ensures
        r == same_opt(*a, *b),
{
    match (a, b) {
        (None, None) => true,
        (Some(x), Some(y)) => x.same_as(y),
        _ => false,
    }
}

/// One entry of the application state: its current value, and the bus
/// property that feeds it, if any.
#[derive(Clone, Debug)]
pub struct StateValue {
    pub value: Option<StateValueType>,
    pub dbus_property: Option<DBusPropertyAdress>,
}

impl StateValue {
    /// An entry fed from elsewhere, holding `default` until it is set.
    pub fn new(default: Option<StateValueType>) -> (r: StateValue)
        ensures
            r.value == default,
            r.dbus_property is None,
    {
        StateValue { value: default, dbus_property: None }
    }

    /// An entry fed by a bus property; it holds nothing until the first update.
    pub fn dbus(property: DBusPropertyAdress) -> (r: StateValue)
        ensures
            r.value is None,
            r.dbus_property == Some(property),
    {
        StateValue { value: None, dbus_property: Some(property) }
    }

    /// A copy of the current value.
    pub fn get(&self) -> (r: Option<StateValueType>)
        ensures
            r == self.value,
    {
        duplicate_opt(&self.value)
    }

    /// Replaces the current value.
    pub fn set(&mut self, value: Option<StateValueType>)
        ensures
            final(self).value == value,
            final(self).dbus_property == old(self).dbus_property,
    {
        self.value = value;
    }
}

/// Why a state operation failed.
#[derive(Clone, Debug, PartialEq)]
pub enum ApplicationStateError {
    /// The named key, or the property with the given name, is not in the state.
    DoesNotExistError(String),
}

/// The key/value store that components read: each key names one entry.
#[derive(Clone, Debug)]
pub struct ApplicationState {
    keys: Vec<String>,
    values: Vec<StateValue>,
}

/// The first position of `key` among the first `n` keys, or -1.
pub open spec fn find_key(keys: Seq<String>, key: Seq<char>, n: nat) -> int
    decreases n,
{
    if n == 0 {
        -1
    } else if find_key(keys, key, (n - 1) as nat) >= 0 {
        find_key(keys, key, (n - 1) as nat)
    } else if keys[n - 1]@ == key {
        n - 1
    } else {
        -1
    }
}

proof fn lemma_find_key(keys: Seq<String>, key: Seq<char>, n: nat)
    requires
        n <= keys.len(),
    ensures
        -1 <= find_key(keys, key, n) < n,
        find_key(keys, key, n) >= 0 ==> keys[find_key(keys, key, n)]@ == key,
        find_key(keys, key, n) >= 0 ==> forall|j: int|
            0 <= j < find_key(keys, key, n) ==> keys[j]@ != key,
        find_key(keys, key, n) < 0 ==> forall|j: int| 0 <= j < n ==> keys[j]@ != key,
    decreases n,
{
    if n > 0 {
        lemma_find_key(keys, key, (n - 1) as nat);
    }
}

/// One update of a key to a value.
pub type Update = (String, Option<StateValueType>);

impl ApplicationState {
    /// Keys and entries pair up.
    pub closed spec fn wf(&self) -> bool {
        self.keys@.len() == self.values@.len()
    }

    /// The position of `key`, or -1 if it is absent.
    pub closed spec fn index_of(&self, key: Seq<char>) -> int {
        find_key(self.keys@, key, self.keys@.len())
    }

    /// Whether `key` names an entry.
    pub open spec fn has(&self, key: Seq<char>) -> bool {
        self.index_of(key) >= 0
    }

    /// The entry that `key` names; meaningful where `has(key)`.
    pub closed spec fn entry(&self, key: Seq<char>) -> StateValue {
        self.values@[self.index_of(key)]
    }

    /// The current value under `key`: absent where the key is absent or holds no value.
    pub open spec fn value_of(&self, key: Seq<char>) -> Option<StateValueType> {
        if self.has(key) {
            self.entry(key).value
        } else {
            None
        }
    }

    /// The entries, in the order they were added.
    pub closed spec fn entries(&self) -> Seq<StateValue> {
        self.values@
    }

    /// The keys, in the order they were added, as strings.
    pub closed spec fn key_seq(&self) -> Seq<String> {
        self.keys@
    }

    /// An empty state.
    pub fn new() -> (r: ApplicationState)
        ensures
            r.wf(),
            forall|k: Seq<char>| !r.has(k),
    {
        let r = ApplicationState { keys: Vec::new(), values: Vec::new() };
        proof {
            assert forall|k: Seq<char>| !r.has(k) by {
                lemma_find_key(r.keys@, k, 0);
            }
        }
        r
    }

    fn position(&self, key: &String) -> (r: Option<usize>)
        requires
            self.wf(),
        ensures
            match r {
                Some(i) => self.has(key@) && i == self.index_of(key@) && i < self.values@.len(),
                None => !self.has(key@),
            },
    {
        let n = self.keys.len();
        let mut i: usize = 0;
        while i < n
            invariant
                self.wf(),
                n == self.keys@.len(),
                0 <= i <= n,
                forall|j: int| 0 <= j < i ==> self.keys@[j]@ != key@,
            decreases n - i,
        {
            if self.keys[i] == *key {
                proof {
                    lemma_find_key(self.keys@, key@, n as nat);
                    let f = find_key(self.keys@, key@, n as nat);
                    assert(f >= 0 ==> f >= i);
                    assert(f == i);
                }
                return Some(i);
            }
            i = i + 1;
        }
        proof {
            lemma_find_key(self.keys@, key@, n as nat);
        }
        None
    }

    /// Adds an entry under `key`, or replaces the one there.
    pub fn insert(&mut self, key: String, value: StateValue)
        requires
            old(self).wf(),
        ensures
            final(self).wf(),
            final(self).has(key@),
            final(self).entry(key@) == value,
            forall|k: Seq<char>| k != key@ ==> #[trigger] final(self).has(k) == old(self).has(k),
            forall|k: Seq<char>|
                k != key@ && old(self).has(k) ==> #[trigger] final(self).entry(k) == old(
                    self,
                ).entry(k),
    {
        match self.position(&key) {
            Some(i) => {
                self.values.set(i, value);
                proof {
                    assert(self.keys@ == old(self).keys@);
                    assert forall|k: Seq<char>| k != key@ && old(self).has(k) implies self.entry(k) == old(self).entry(k) by {
                        lemma_find_key(self.keys@, k, self.keys@.len());
                        lemma_find_key(self.keys@, key@, self.keys@.len());
                        assert(self.index_of(k) != i);
                        assert(self.index_of(k) == old(self).index_of(k));
                    }
                }
            },
            None => {
                let ghost n = self.keys@.len();
                self.keys.push(key);
                self.values.push(value);
                proof {
                    assert forall|k: Seq<char>| true implies find_key(self.keys@, k, n as nat)
                        == find_key(old(self).keys@, k, n as nat) by {
                        lemma_find_prefix(old(self).keys@, self.keys@, k, n as nat);
                    }
                    lemma_find_key(old(self).keys@, key@, n as nat);
                    lemma_find_key(self.keys@, key@, (n + 1) as nat);
                    assert forall|k: Seq<char>| k != key@ implies (self.has(k) == old(self).has(k)
                        && (old(self).has(k) ==> self.entry(k) == old(self).entry(k))) by {
                        lemma_find_prefix(old(self).keys@, self.keys@, k, n as nat);
                        lemma_find_key(old(self).keys@, k, n as nat);
                        assert(self.keys@[n as int] == key);
                    }
                }
            },
        }
    }

    /// A copy of the value under `key`: nothing where the key is absent or holds no value.
    pub fn get(&self, key: &str) -> (r: Option<StateValueType>)
        requires
            self.wf(),
        ensures
            r == self.value_of(key@),
    {
        let k = key.to_string();
        proof {
            vstd::string::to_string_from_display_ensures_for_str(key, k);
        }
        match self.position(&k) {
            Some(i) => self.values[i].get(),
            None => None,
        }
    }

    /// Whether `key` names an entry.
    pub fn contains_key(&self, key: &str) -> (r: bool)
        requires
            self.wf(),
        ensures
            r == self.has(key@),
    {
        let k = key.to_string();
        proof {
            vstd::string::to_string_from_display_ensures_for_str(key, k);
        }
        self.position(&k).is_some()
    }

    /// Sets the value under `key`. Fails, changing nothing, if the key is
    /// absent; otherwise tells whether the value differs from the old one.
    pub fn update(&mut self, key: &str, value: Option<StateValueType>) -> (r: Result<
        bool,
        ApplicationStateError,
    >)
        requires
            old(self).wf(),
        ensures
            final(self).wf(),
            old(self).has(key@) ==> r == Ok::<bool, ApplicationStateError>(
                !same_opt(old(self).value_of(key@), value),
            ),
            !old(self).has(key@) ==> (r matches Err(ApplicationStateError::DoesNotExistError(
                k,
            )) && k@ == key@),
            !old(self).has(key@) ==> *final(self) == *old(self),
            forall|k: Seq<char>| #[trigger] final(self).has(k) == old(self).has(k),
            old(self).has(key@) ==> final(self).value_of(key@) == value,
            old(self).has(key@) ==> final(self).entry(key@).dbus_property == old(self).entry(
                key@,
            ).dbus_property,
            forall|k: Seq<char>|
                k != key@ && old(self).has(k) ==> #[trigger] final(self).entry(k) == old(
                    self,
                ).entry(k),
    {
        let k = key.to_string();
        proof {
            vstd::string::to_string_from_display_ensures_for_str(key, k);
        }
        match self.position(&k) {
            Some(i) => {
                let changed = !same_opt_exec(&self.values[i].value, &value);
                let mut entry = self.values[i].clone_entry();
                entry.set(value);
                self.values.set(i, entry);
                proof {
                    assert forall|k2: Seq<char>| k2 != key@ && old(self).has(k2) implies self.entry(k2) == old(self).entry(k2) by {
                        lemma_find_key(self.keys@, k2, self.keys@.len());
                        lemma_find_key(self.keys@, k@, self.keys@.len());
                        assert(self.index_of(k2) != i);
                        assert(self.index_of(k2) == old(self).index_of(k2));
                    }
                }
                Ok(changed)
            },
            None => Err(ApplicationStateError::DoesNotExistError(k)),
        }
    }

    /// Applies several updates in order, after checking that every key
    /// exists; if one does not, nothing changes and the first missing key is
    /// reported. Tells whether any update changed a value.
    pub fn update_multiple(&mut self, updates: Vec<Update>) -> (r: Result<
        bool,
        ApplicationStateError,
    >)
        requires
            old(self).wf(),
        ensures
            final(self).wf(),
            (forall|i: int| 0 <= i < updates@.len() ==> old(self).has(#[trigger] updates@[i].0@))
                ==> r is Ok,
            r is Ok ==> forall|i: int|
                0 <= i < updates@.len() ==> old(self).has(#[trigger] updates@[i].0@),
            r is Ok ==> (r == Ok::<bool, ApplicationStateError>(
                applied_changes(old(self).value_map(), updates@),
            )),
            r is Ok ==> final(self).value_map() == applied(old(self).value_map(), updates@),
            r is Err ==> *final(self) == *old(self),
            forall|k: Seq<char>| #[trigger] final(self).has(k) == old(self).has(k),
    {
        let n = updates.len();
        let mut i: usize = 0;
        while i < n
            invariant
                self.wf(),
                *self == *old(self),
                n == updates@.len(),
                0 <= i <= n,
                forall|j: int| 0 <= j < i ==> self.has(#[trigger] updates@[j].0@),
            decreases n - i,
        {
            if !self.contains_key(updates[i].0.as_str()) {
                return Err(ApplicationStateError::DoesNotExistError(updates[i].0.clone()));
            }
            i = i + 1;
        }
        let ghost start = self.value_map();
        let mut changed = false;
        let mut rest = updates;
        let mut j: usize = 0;
        while j < n
            invariant
                self.wf(),
                n == updates@.len(),
                0 <= j <= n,
                rest@ == updates@.subrange(j as int, n as int),
                forall|k: Seq<char>| #[trigger] self.has(k) == old(self).has(k),
                forall|m: int| 0 <= m < n ==> old(self).has(#[trigger] updates@[m].0@),
                start == old(self).value_map(),
                self.value_map() == applied(start, updates@.subrange(0, j as int)),
                changed == applied_changes(start, updates@.subrange(0, j as int)),
            decreases n - j,
        {
            let (key, value) = rest.remove(0);
            assert(key == updates@[j as int].0 && value == updates@[j as int].1);
            let ghost before = self.value_map();
            let c = match self.update(key.as_str(), value) {
                Ok(c) => c,
                Err(_) => false,
            };
            proof {
                let pre = updates@.subrange(0, j as int);
                let post = updates@.subrange(0, j + 1);
                assert(post.drop_last() =~= pre);
                assert(post.last() == updates@[j as int]);
                assert(self.value_map() =~= before.insert(key@, value));
                assert(updates@.subrange(j as int, n as int).remove(0) =~= updates@.subrange(
                    j + 1,
                    n as int,
                ));
            }
            changed = changed || c;
            j = j + 1;
        }
        assert(updates@.subrange(0, n as int) =~= updates@);
        Ok(changed)
    }

    /// The values by key, over the keys present.
    pub open spec fn value_map(&self) -> Map<Seq<char>, Option<StateValueType>> {
        Map::new(|k: Seq<char>| self.has(k), |k: Seq<char>| self.value_of(k))
    }

    /// The value of the first entry fed by `property`; fails if no entry is.
    pub fn get_value_dbus(&self, property: &DBusPropertyAdress) -> (r: Result<
        Option<StateValueType>,
        ApplicationStateError,
    >)
        requires
            self.wf(),
        ensures
            match r {
                Ok(v) => exists|i: int|
                    0 <= i < self.entries().len() && #[trigger] self.fed_by(i, *property) && v
                        == self.entries()[i].value && forall|j: int|
                        0 <= j < i ==> !self.fed_by(j, *property),
                Err(ApplicationStateError::DoesNotExistError(name)) => name@ == property.property@
                    && forall|i: int| 0 <= i < self.entries().len() ==> !self.fed_by(i, *property),
            },
    {
        match self.feeding(property) {
            Some(i) => Ok(self.values[i].get()),
            None => Err(ApplicationStateError::DoesNotExistError(property.property.clone())),
        }
    }

    /// Sets the first entry fed by `property` to `value` and returns its
    /// old value; fails, changing nothing, if no entry is fed by it.
    pub fn update_dbus(&mut self, property: &DBusPropertyAdress, value: StateValueType) -> (r:
        Result<Option<StateValueType>, ApplicationStateError>)
        requires
            old(self).wf(),
        ensures
            final(self).wf(),
            match r {
                Ok(v) => exists|i: int|
                    0 <= i < old(self).entries().len() && #[trigger] old(self).fed_by(i, *property)
                        && v == old(self).entries()[i].value && (forall|j: int|
                        0 <= j < i ==> !old(self).fed_by(j, *property)) && final(self).entries()
                        == old(self).entries().update(
                        i,
                        StateValue {
                            value: Some(value),
                            dbus_property: old(self).entries()[i].dbus_property,
                        },
                    ) && final(self).key_seq() == old(self).key_seq(),
                Err(ApplicationStateError::DoesNotExistError(name)) => name@ == property.property@
                    && (forall|i: int|
                        0 <= i < old(self).entries().len() ==> !old(self).fed_by(i, *property))
                    && *final(self) == *old(self),
            },
    {
        match self.feeding(property) {
            Some(i) => {
                let old_value = self.values[i].get();
                let mut entry = self.values[i].clone_entry();
                entry.set(Some(value));
                self.values.set(i, entry);
                Ok(old_value)
            },
            None => Err(ApplicationStateError::DoesNotExistError(property.property.clone())),
        }
    }

    /// Entry `i` is fed by `property`.
    pub closed spec fn fed_by(&self, i: int, property: DBusPropertyAdress) -> bool {
        match self.values@[i].dbus_property {
            Some(p) => same_address(p, property),
            None => false,
        }
    }

    fn feeding(&self, property: &DBusPropertyAdress) -> (r: Option<usize>)
        requires
            self.wf(),
        ensures
            match r {
                Some(i) => i < self.values@.len() && self.fed_by(i as int, *property) && forall|
                    j: int,
                | 0 <= j < i ==> !self.fed_by(j, *property),
                None => forall|i: int| 0 <= i < self.values@.len() ==> !self.fed_by(i, *property),
            },
    {
        let n = self.values.len();
        let mut i: usize = 0;
        while i < n
            invariant
                n == self.values@.len(),
                0 <= i <= n,
                forall|j: int| 0 <= j < i ==> !self.fed_by(j, *property),
            decreases n - i,
        {
            let hit = match &self.values[i].dbus_property {
                Some(p) => p.same_as(property),
                None => false,
            };
            if hit {
                return Some(i);
            }
            i = i + 1;
        }
        None
    }
}

impl StateValue {
    /// A copy of this entry.
    pub fn clone_entry(&self) -> (r: StateValue)
        ensures
            r.value == self.value,
            r.dbus_property == self.dbus_property,
    {
        let property = match &self.dbus_property {
            Some(p) => Some(p.clone_address()),
            None => None,
        };
        StateValue { value: duplicate_opt(&self.value), dbus_property: property }
    }
}

impl DBusPropertyAdress {
    /// A copy of this address.
    pub fn clone_address(&self) -> (r: DBusPropertyAdress)
        ensures
            r == *self,
    {
        DBusPropertyAdress {
            proxy: crate::dbus::DBusProxyAdress {
                bus: self.proxy.bus,
                dest: self.proxy.dest.clone(),
                path: self.proxy.path.clone(),
            },
            interface: self.interface.clone(),
            property: self.property.clone(),
        }
    }
}

proof fn lemma_find_prefix(a: Seq<String>, b: Seq<String>, key: Seq<char>, n: nat)
    requires
        n <= a.len(),
        n <= b.len(),
        forall|i: int| 0 <= i < n ==> a[i] == b[i],
    ensures
        find_key(a, key, n) == find_key(b, key, n),
    decreases n,
{
    if n > 0 {
        lemma_find_prefix(a, b, key, (n - 1) as nat);
    }
}

/// The values after applying `ups` in order.
pub open spec fn applied(
    m: Map<Seq<char>, Option<StateValueType>>,
    ups: Seq<(String, Option<StateValueType>)>,
) -> Map<Seq<char>, Option<StateValueType>>
    decreases ups.len(),
{
    if ups.len() == 0 {
        m
    } else {
        applied(m, ups.drop_last()).insert(ups.last().0@, ups.last().1)
    }
}

/// Whether applying `ups` in order changed any value on the way.
pub open spec fn applied_changes(
    m: Map<Seq<char>, Option<StateValueType>>,
    ups: Seq<(String, Option<StateValueType>)>,
) -> bool
    decreases ups.len(),
{
    if ups.len() == 0 {
        false
    } else {
        applied_changes(m, ups.drop_last()) || !same_opt(
            applied(m, ups.drop_last())[ups.last().0@],
            ups.last().1,
        )
    }
}

} // verus!
