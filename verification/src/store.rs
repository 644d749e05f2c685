//! The parameter store: a fixed set of parameters, found by name.

use crate::param::{grants_write, ParamError, Parameter, ParameterView, TypedValue, Value};
use crate::text::same_text;
use vstd::prelude::*;

verus! {

/// A store as the contracts see it: each name with its parameter.
pub type StoreMap = Map<Seq<char>, ParameterView>;

/// No two of the parameters have the same name.
pub open spec fn distinct_names(entries: Seq<ParameterView>) -> bool {
    forall|i: int, j: int|
        0 <= i < j < entries.len() ==> (#[trigger] entries[i]).name != (#[trigger] entries[j]).name
}

/// Whether one of the parameters has the name `name`.
pub open spec fn has_name(entries: Seq<ParameterView>, name: Seq<char>) -> bool {
    exists|i: int| 0 <= i < entries.len() && (#[trigger] entries[i]).name == name
}

/// The place of a parameter named `name` among `entries`.
pub open spec fn place_of(entries: Seq<ParameterView>, name: Seq<char>) -> int {
    choose|i: int| 0 <= i < entries.len() && (#[trigger] entries[i]).name == name
}

/// The store that holds `entries`, each under its name.
pub open spec fn store_of(entries: Seq<ParameterView>) -> StoreMap {
    Map::new(
        |name: Seq<char>| has_name(entries, name),
        |name: Seq<char>| entries[place_of(entries, name)],
    )
}

/// The parameters as they are when a store is built from them: each value
/// is the parameter's default.
pub open spec fn with_defaults(entries: Seq<ParameterView>) -> Seq<ParameterView> {
    entries.map_values(|p: ParameterView| p.reset())
}

/// Every parameter is kept under its own name, and its value and default
/// are of its type.
pub open spec fn consistent(store: StoreMap) -> bool {
    forall|name: Seq<char>| #[trigger]
        store.dom().contains(name) ==> store[name].name == name && store[name].well_typed()
}

/// What a read of `name` returns.
pub open spec fn read_result(store: StoreMap, name: Seq<char>) -> Result<Value, ParamError> {
    if store.dom().contains(name) {
        Ok(store[name].value)
    } else {
        Err(ParamError::NotFound)
    }
}

/// What a read of `name` as an integer returns.
pub open spec fn read_integer_result(store: StoreMap, name: Seq<char>) -> Result<i32, ParamError> {
    match read_result(store, name) {
        Ok(value) => value.as_integer(),
        Err(e) => Err(e),
    }
}

/// What a read of `name` as text returns.
pub open spec fn read_text_result(store: StoreMap, name: Seq<char>) -> Result<
    Seq<char>,
    ParamError,
> {
    match read_result(store, name) {
        Ok(value) => value.as_text(),
        Err(e) => Err(e),
    }
}

/// What a write of `value` to `name` returns: `NotFound` for a name that the
/// store does not hold, else what the parameter answers.
pub open spec fn write_result(store: StoreMap, name: Seq<char>, value: Value) -> Result<
    (),
    ParamError,
> {
    if store.dom().contains(name) {
        store[name].write_result(value)
    } else {
        Err(ParamError::NotFound)
    }
}

/// The store after a write of `value` to `name`: an accepted write changes
/// the value of that one parameter, a refused one changes nothing.
pub open spec fn after_write(store: StoreMap, name: Seq<char>, value: Value) -> StoreMap {
    if store.dom().contains(name) {
        store.insert(name, store[name].after_write(value))
    } else {
        store
    }
}

/// The value and the default of every parameter are of its type.
pub open spec fn well_typed(entries: Seq<ParameterView>) -> bool {
    forall|i: int| 0 <= i < entries.len() ==> (#[trigger] entries[i]).well_typed()
}

/// Where names are distinct, each parameter is found under its name, and
/// the store holds nothing else.
pub proof fn lemma_store_of_distinct(entries: Seq<ParameterView>)
    requires
        distinct_names(entries),
    ensures
        forall|i: int|
            0 <= i < entries.len() ==> store_of(entries).dom().contains(
                (#[trigger] entries[i]).name,
            ) && store_of(entries)[entries[i].name] == entries[i],
        forall|name: Seq<char>| #[trigger]
            store_of(entries).dom().contains(name) ==> store_of(entries)[name].name == name,
        well_typed(entries) ==> consistent(store_of(entries)),
{
    if well_typed(entries) {
        assert forall|name: Seq<char>| #[trigger]
            store_of(entries).dom().contains(name) implies store_of(entries)[name].well_typed() by {
            assert(has_name(entries, name));
        }
    }
    assert forall|i: int| 0 <= i < entries.len() implies store_of(entries).dom().contains(
        (#[trigger] entries[i]).name,
    ) && store_of(entries)[entries[i].name] == entries[i] by {
        let name = entries[i].name;
        assert(has_name(entries, name));
        let k = place_of(entries, name);
        if k < i {
            assert(entries[k].name != entries[i].name);
        } else if i < k {
            assert(entries[i].name != entries[k].name);
        }
    }
    assert forall|name: Seq<char>| #[trigger]
        store_of(entries).dom().contains(name) implies store_of(entries)[name].name == name by {
        assert(has_name(entries, name));
    }
}

/// The parameters of a list, as the contracts see them.
pub open spec fn views(params: Seq<Parameter>) -> Seq<ParameterView> {
    params.map_values(|p: Parameter| p@)
}

/// Right after a store is built, a read of any of its parameters returns
/// that parameter's default.
pub proof fn lemma_fresh_store_reads_defaults(entries: Seq<ParameterView>, i: int)
    requires
        distinct_names(entries),
        0 <= i < entries.len(),
    ensures
        read_result(store_of(with_defaults(entries)), entries[i].name) == Ok::<Value, ParamError>(
            entries[i].default,
        ),
{
    let fresh = with_defaults(entries);
    assert(distinct_names(fresh)) by {
        assert forall|a: int, b: int| 0 <= a < b < fresh.len() implies (
        #[trigger] fresh[a]).name != (#[trigger] fresh[b]).name by {
            assert(entries[a].name != entries[b].name);
        }
    }
    lemma_store_of_distinct(fresh);
    assert(fresh[i].name == entries[i].name);
}

/// A write to a parameter whose permission mask grants none is refused with
/// `PermissionDenied`, whatever the value, and leaves the store as it was.
pub proof fn lemma_denied_write_changes_nothing(store: StoreMap, name: Seq<char>, value: Value)
    requires
        store.dom().contains(name),
        !grants_write(store[name].permission),
    ensures
        write_result(store, name, value) == Err::<(), ParamError>(ParamError::PermissionDenied),
        after_write(store, name, value) == store,
{
    assert(after_write(store, name, value) =~= store);
}

/// A set of parameters that is fixed when the store is built. Values are
/// read and written by name; no parameter is ever added or removed.
#[derive(Debug)]
pub struct ParameterStore {
    params: Vec<Parameter>,
}

impl View for ParameterStore {
    type V = StoreMap;

    closed spec fn view(&self) -> StoreMap {
        store_of(self.entries())
    }
}

/// Whether two of the parameters have the same name.
fn has_duplicate(params: &Vec<Parameter>) -> (r: bool)
    ensures
        r == !distinct_names(views(params@)),
{
    let n = params.len();
    let mut i: usize = 0;
    while i < n
        invariant
            n == params@.len(),
            i <= n,
            forall|a: int, b: int|
                0 <= a < i && a < b < n ==> (#[trigger] params@[a])@.name != (
                #[trigger] params@[b])@.name,
        decreases n - i,
    {
        let mut j: usize = i + 1;
        while j < n
            invariant
                n == params@.len(),
                i < j <= n,
                forall|b: int|
                    i < b < j ==> params@[i as int]@.name != (#[trigger] params@[b])@.name,
            decreases n - j,
        {
            if same_text(params[i].name(), params[j].name()) {
                proof {
                    let entries = views(params@);
                    assert(entries[i as int].name == entries[j as int].name);
                }
                return true;
            }
            j += 1;
        }
        i += 1;
    }
    proof {
        let entries = views(params@);
        assert forall|a: int, b: int| 0 <= a < b < entries.len() implies (
        #[trigger] entries[a]).name != (#[trigger] entries[b]).name by {
            assert(params@[a]@.name != params@[b]@.name);
        }
    }
    false
}

impl Clone for ParameterStore {
    fn clone(&self) -> (r: Self)
        ensures
            r@ == self@,
    {
        proof {
            use_type_invariant(self);
        }
        let mut params: Vec<Parameter> = Vec::new();
        let mut i: usize = 0;
        while i < self.params.len()
            invariant
                i <= self.params@.len(),
                params@.len() == i,
                forall|j: int| 0 <= j < i ==> (#[trigger] params@[j])@ == self.params@[j]@,
            decreases self.params@.len() - i,
        {
            params.push(self.params[i].clone());
            i += 1;
        }
        assert(views(params@) =~= self.entries());
        ParameterStore { params }
    }
}

impl ParameterStore {
    /// What is true of every store: no two parameters have the same name,
    /// and the value and the default of each are of its type.
    #[verifier::type_invariant]
    pub closed spec fn wf(self) -> bool {
        distinct_names(self.entries()) && well_typed(self.entries())
    }

    spec fn entries(self) -> Seq<ParameterView> {
        views(self.params@)
    }

    /// In a store every parameter is kept under its own name and is well
    /// typed.
    pub proof fn lemma_consistent(self)
        requires
            self.wf(),
        ensures
            consistent(self@),
    {
        lemma_store_of_distinct(self.entries());
    }

    /// Builds the store that holds `params`, each with its value set to its
    /// default. There is no such store where two parameters have one name.
    pub fn new(params: Vec<Parameter>) -> (r: Option<ParameterStore>)
        ensures
            r is Some <==> distinct_names(views(params@)),
            r matches Some(store) ==> store@ == store_of(with_defaults(views(params@)))
                && consistent(store@),
    {
        if has_duplicate(&params) {
            return None;
        }
        let ghost given = views(params@);
        let mut params = params;
        let n = params.len();
        let mut i: usize = 0;
        while i < n
            invariant
                n == params@.len(),
                n == given.len(),
                i <= n,
                forall|j: int|
                    0 <= j < i ==> (#[trigger] params@[j])@ == given[j].reset()
                        && params@[j]@.well_typed(),
                forall|j: int| i <= j < n ==> (#[trigger] params@[j])@ == given[j],
            decreases n - i,
        {
            params[i].reset();
            i += 1;
        }
        proof {
            let fresh = views(params@);
            assert(fresh =~= with_defaults(given));
            assert forall|a: int, b: int| 0 <= a < b < fresh.len() implies (
            #[trigger] fresh[a]).name != (#[trigger] fresh[b]).name by {
                assert(given[a].name != given[b].name);
            }
            lemma_store_of_distinct(fresh);
        }
        Some(ParameterStore { params })
    }

    /// The place of the parameter named `name`, if the store holds one.
    fn find(&self, name: &str) -> (r: Option<usize>)
        ensures
            match r {
                Some(i) => i < self.params@.len() && self.params@[i as int]@.name == name@
                    && self@.dom().contains(name@) && self@[name@] == self.params@[i as int]@,
                None => !self@.dom().contains(name@),
            },
    {
        let mut i: usize = 0;
        while i < self.params.len()
            invariant
                i <= self.params@.len(),
                forall|j: int| 0 <= j < i ==> self.params@[j]@.name != name@,
            decreases self.params@.len() - i,
        {
            if same_text(self.params[i].name(), name) {
                proof {
                    use_type_invariant(self);
                    lemma_store_of_distinct(self.entries());
                    assert(self.entries()[i as int] == self.params@[i as int]@);
                }
                return Some(i);
            }
            i += 1;
        }
        assert(!has_name(self.entries(), name@)) by {
            assert forall|j: int| 0 <= j < self.entries().len() implies (
            #[trigger] self.entries()[j]).name != name@ by {
                assert(self.entries()[j] == self.params@[j]@);
            }
        }
        None
    }

    /// Whether the store holds a parameter named `name`.
    pub fn contains(&self, name: &str) -> (r: bool)
        ensures
            r == self@.dom().contains(name@),
    {
        self.find(name).is_some()
    }

    /// The parameter named `name`, if the store holds one.
    pub fn get(&self, name: &str) -> (r: Option<&Parameter>)
        ensures
            r is Some <==> self@.dom().contains(name@),
            r matches Some(p) ==> p@ == self@[name@],
    {
        match self.find(name) {
            Some(i) => Some(&self.params[i]),
            None => None,
        }
    }

    /// The current value of the parameter named `name`.
    pub fn read(&self, name: &str) -> (r: Result<TypedValue, ParamError>)
        ensures
            match r {
                Ok(v) => read_result(self@, name@) == Ok::<Value, ParamError>(v@),
                Err(e) => read_result(self@, name@) == Err::<Value, ParamError>(e),
            },
    {
        match self.find(name) {
            Some(i) => Ok(self.params[i].value().clone()),
            None => Err(ParamError::NotFound),
        }
    }

    /// The current value of the integer parameter named `name`;
    /// `TypeMismatch` where that parameter is a string.
    pub fn read_integer(&self, name: &str) -> (r: Result<i32, ParamError>)
        ensures
            r == read_integer_result(self@, name@),
    {
        match self.find(name) {
            Some(i) => self.params[i].read_integer(),
            None => Err(ParamError::NotFound),
        }
    }

    /// The current value of the string parameter named `name`, as text:
    /// `TypeMismatch` where that parameter is an integer, `EncodingError`
    /// where its bytes are not well-formed UTF-8.
    pub fn read_text(&self, name: &str) -> (r: Result<String, ParamError>)
        ensures
            match r {
                Ok(s) => read_text_result(self@, name@) == Ok::<Seq<char>, ParamError>(s@),
                Err(e) => read_text_result(self@, name@) == Err::<Seq<char>, ParamError>(e),
            },
    {
        match self.find(name) {
            Some(i) => self.params[i].read_text(),
            None => Err(ParamError::NotFound),
        }
    }

    /// Writes `value` to the parameter named `name`. The write is refused
    /// with `NotFound` where the store holds no such parameter, with
    /// `PermissionDenied` where the parameter's mask grants no write, and
    /// with `TypeMismatch` where the value is of another type than the
    /// parameter, in this order. A refused write changes nothing; an
    /// accepted one changes the value of that parameter alone.
    pub fn write(&mut self, name: &str, value: TypedValue) -> (r: Result<(), ParamError>)
        ensures
            r == write_result(old(self)@, name@, value@),
            final(self)@ == after_write(old(self)@, name@, value@),
    {
        proof {
            use_type_invariant(&*self);
        }
        match self.find(name) {
            Some(i) => {
                let ghost before = self.entries();
                let ghost written = before[i as int].after_write(value@);
                let mut params: Vec<Parameter> = Vec::new();
                core::mem::swap(&mut self.params, &mut params);
                let r = params[i].set(value);
                proof {
                    let after = views(params@);
                    assert(after =~= before.update(i as int, written));
                    Self::lemma_update_value(before, i as int, written);
                }
                self.params = params;
                r
            },
            None => Err(ParamError::NotFound),
        }
    }

    /// Replacing one parameter by one of the same name replaces it in the
    /// store and leaves the others alone.
    proof fn lemma_update_value(entries: Seq<ParameterView>, i: int, p: ParameterView)
        requires
            distinct_names(entries),
            0 <= i < entries.len(),
            p.name == entries[i].name,
        ensures
            distinct_names(entries.update(i, p)),
            store_of(entries.update(i, p)) == store_of(entries).insert(p.name, p),
    {
        let updated = entries.update(i, p);
        let expected = store_of(entries).insert(p.name, p);
        assert(distinct_names(updated)) by {
            assert forall|a: int, b: int| 0 <= a < b < updated.len() implies (
            #[trigger] updated[a]).name != (#[trigger] updated[b]).name by {
                assert(entries[a].name != entries[b].name);
            }
        }
        lemma_store_of_distinct(entries);
        lemma_store_of_distinct(updated);
        assert forall|name: Seq<char>|
            store_of(updated).dom().contains(name) == expected.dom().contains(name) by {
            if has_name(updated, name) {
                let k = place_of(updated, name);
                assert(entries[k].name == name);
            }
            if has_name(entries, name) {
                let k = place_of(entries, name);
                assert(updated[k].name == name);
            }
        }
        assert forall|name: Seq<char>| #[trigger]
            store_of(updated).dom().contains(name) implies store_of(updated)[name]
            == expected[name] by {
            let k = place_of(updated, name);
            assert(updated[k].name == name);
            if k != i {
                assert(entries[k].name == name);
                if k < i {
                    assert(entries[k].name != entries[i].name);
                } else {
                    assert(entries[i].name != entries[k].name);
                }
            }
        }
        assert(store_of(updated) =~= expected);
    }
}

} // verus!
