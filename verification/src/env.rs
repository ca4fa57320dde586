//! Bindings of names to values.
//!
//! An `Env` is a persistent map: to bind a name gives a new `Env` and
//! leaves the old one as it was, and the two share what they have in
//! common. The map is `rpds::HashTrieMap`; the functions that call it are
//! trusted and say what the call does to the bindings.

use crate::tree::ObjectView;
use crate::tree::StutterObject;
use vstd::prelude::*;

verus! {

/// A map from names to values.
#[verifier::external_body]
pub struct Env {
    map: rpds::HashTrieMap<String, StutterObject>,
}

/// The bindings that an `Env` holds.
pub uninterp spec fn env_bindings(env: Env) -> Map<Seq<char>, StutterObject>;

impl View for Env {
    type V = Map<Seq<char>, ObjectView>;

    open spec fn view(&self) -> Map<Seq<char>, ObjectView> {
        env_bindings(*self).map_values(|value: StutterObject| value@)
    }
}

/// `HashTrieMap::new`: a map without bindings.
#[verifier::external_body]
fn env_new() -> (r: Env)
    ensures
        (env_bindings(r) == Map::<Seq<char>, StutterObject>::empty()),
{
    Env { map: rpds::HashTrieMap::new() }
}

/// `HashTrieMap::get`: the value bound to the name, if one is.
#[verifier::external_body]
fn env_get<'a>(env: &'a Env, name: &str) -> (r: Option<&'a StutterObject>)
    ensures
        r is Some <==> env_bindings(*env).contains_key(name@),
        r matches Some(value) ==> *value == env_bindings(*env)[name@],
{
    env.map.get(name)
}

/// `HashTrieMap::insert`: a map with the bindings of this one and the name
/// bound to the value, in place of what it was bound to.
#[verifier::external_body]
fn env_insert(env: &Env, name: String, value: StutterObject) -> (r: Env)
    ensures
        env_bindings(r) == env_bindings(*env).insert(name@, value),
{
    Env { map: env.map.insert(name, value) }
}

/// `clone` of `HashTrieMap`: a map with the same bindings.
#[verifier::external_body]
fn env_clone(env: &Env) -> (r: Env)
    ensures
        env_bindings(r) == env_bindings(*env),
{
    Env { map: env.map.clone() }
}

impl Clone for Env {
    fn clone(&self) -> (r: Self)
        ensures
            r@ == self@,
    {
        env_clone(self)
    }
}

impl Env {
    /// An `Env` without bindings.
    pub fn new() -> (r: Env)
        ensures
            r@ == Map::<Seq<char>, ObjectView>::empty(),
    {
        let r = env_new();
        assert(r@ =~= Map::<Seq<char>, ObjectView>::empty());
        r
    }

    /// The value bound to `name`, if one is.
    pub fn get(&self, name: &str) -> (r: Option<&StutterObject>)
        ensures
            r is Some <==> self@.contains_key(name@),
            r matches Some(value) ==> value@ == self@[name@],
    {
        env_get(self, name)
    }

    /// An `Env` with these bindings and `name` bound to `value`.
    pub fn insert(&self, name: String, value: StutterObject) -> (r: Env)
        ensures
            r@ == self@.insert(name@, value@),
    {
        let r = env_insert(self, name, value);
        assert(r@ =~= self@.insert(name@, value@));
        r
    }

    /// Binds `name` to `value` in this `Env`.
    pub fn define(&mut self, name: String, value: StutterObject)
        ensures
            final(self)@ == old(self)@.insert(name@, value@),
    {
        let next = self.insert(name, value);
        *self = next;
    }
}

} // verus!
