//! The store of variable bindings: names and the values bound to them.

use vstd::prelude::*;
use crate::object::{Object, ObjectView};

verus! {

/// The hasher state of `ahash`, named so that maps keyed with it can be
/// held; nothing is said of what is inside.
#[verifier::external_type_specification]
#[verifier::external_body]
pub struct ExRandomState(ahash::RandomState);

/// The hash map of `ahash`; what one holds is spoken of through
/// `bindings`.
#[verifier::external_type_specification]
#[verifier::external_body]
#[verifier::reject_recursive_types(K)]
#[verifier::reject_recursive_types(V)]
#[verifier::reject_recursive_types(S)]
pub struct ExAHashMap<K, V, S>(ahash::AHashMap<K, V, S>);

/// What a map holds: the value bound to each name that has one.
pub uninterp spec fn bindings(store: ahash::AHashMap<String, Object>) -> Map<
    Seq<char>,
    ObjectView,
>;

/// An empty map.
///
/// Calls `AHashMap::new`, which makes a map without entries.
#[verifier::external_body]
fn store_new() -> (store: ahash::AHashMap<String, Object>)
    ensures
        bindings(store) =~= Map::empty(),
{
    ahash::AHashMap::new()
}

/// Looks `name` up.
///
/// Calls `AHashMap::get`, which hands out the value of the entry whose key
/// equals `name`, and `None` where the map has no such entry.
#[verifier::external_body]
fn store_get<'a>(store: &'a ahash::AHashMap<String, Object>, name: &str) -> (found: Option<
    &'a Object,
>)
    ensures
        match found {
            Some(value) => bindings(*store).contains_key(name@) && bindings(*store)[name@]
                == value@,
            None => !bindings(*store).contains_key(name@),
        },
{
    store.get(name)
}

/// Binds `name` to `value`.
///
/// Calls `AHashMap::insert`, which adds the entry, or replaces the value of
/// the entry that `name` already has, and leaves every other entry alone.
#[verifier::external_body]
fn store_insert(store: &mut ahash::AHashMap<String, Object>, name: String, value: Object)
    ensures
        bindings(*final(store)) == bindings(*old(store)).insert(name@, value@),
{
    store.insert(name, value);
}

/// A copy of the map.
///
/// Calls the `Clone` impl of `AHashMap`, which copies every entry.
#[verifier::external_body]
fn store_clone(store: &ahash::AHashMap<String, Object>) -> (copy: ahash::AHashMap<String, Object>)
    ensures
        bindings(copy) == bindings(*store),
{
    store.clone()
}

/// A scope: the bindings made in it, and the scope around it if there is
/// one.
#[derive(Debug)]
pub struct Environment {
    store: ahash::AHashMap<String, Object>,
    outer: Option<Box<Environment>>,
}

impl View for Environment {
    type V = Map<Seq<char>, ObjectView>;

    closed spec fn view(&self) -> Map<Seq<char>, ObjectView> {
        bindings(self.store)
    }
}

impl Clone for Environment {
    fn clone(&self) -> (copy: Environment)
        ensures
            copy@ == self@,
            copy.enclosed() == self.enclosed(),
    {
        self.duplicate()
    }
}

impl Environment {
    fn duplicate(&self) -> (copy: Environment)
        ensures
            copy@ == self@,
            copy.enclosed() == self.enclosed(),
        decreases self,
    {
        let outer = match &self.outer {
            Some(scope) => Some(Box::new(scope.duplicate())),
            None => None,
        };
        Environment { store: store_clone(&self.store), outer }
    }

    /// Whether a scope lies around this one.
    pub closed spec fn enclosed(&self) -> bool {
        self.outer is Some
    }

    /// A scope without bindings and with no scope around it.
    pub fn new() -> (env: Environment)
        ensures
            env@ =~= Map::empty(),
            !env.enclosed(),
    {
        Environment { store: store_new(), outer: None }
    }

    /// The value bound to `name` in this scope, if there is one.
    pub fn get(&self, name: &str) -> (found: Option<Object>)
        ensures
            match found {
                Some(value) => self@.contains_key(name@) && self@[name@] == value@,
                None => !self@.contains_key(name@),
            },
    {
        match store_get(&self.store, name) {
            Some(value) => Some(value.clone()),
            None => None,
        }
    }

    /// Binds `name` to `value` in this scope; an earlier binding of the
    /// name is replaced.
    pub fn set(&mut self, name: &str, value: Object)
        ensures
            final(self)@ == old(self)@.insert(name@, value@),
            final(self).enclosed() == old(self).enclosed(),
    {
        store_insert(&mut self.store, name.to_owned(), value);
    }
}

} // verus!
