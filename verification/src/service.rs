//! A container of shared services for simple dependency injection. It
//! stands beside the hooks: services are found by key, not by call position.

use std::collections::HashMap;
use std::rc::Rc;
use vstd::prelude::*;

verus! {

broadcast use vstd::std_specs::hash::group_hash_axioms;

/// Holds at most one service of type `S` per key. A key stands for the
/// identity of what is provided under it; an application with services of
/// several kinds makes `S` an enum of them and gives each kind its key.
pub struct ServiceContainer<S> {
    services: HashMap<u64, Rc<S>>,
}

impl<S> ServiceContainer<S> {
    /// The services that the container holds, by key.
    pub closed spec fn view(&self) -> Map<u64, S> {
        self.services@.map_values(|service: Rc<S>| *service)
    }

    /// A container that holds nothing.
    pub fn new() -> (container: Self)
        ensures
            container@ == Map::<u64, S>::empty(),
    {
        let container = ServiceContainer { services: HashMap::new() };
        assert(container@ =~= Map::<u64, S>::empty());
        container
    }

    /// Whether a service was provided under `key`.
    pub fn provides(&self, key: u64) -> (b: bool)
        ensures
            b == self@.contains_key(key),
    {
        self.services.contains_key(&key)
    }
}

/// Puts `service` into the container under `key`. A service that was there
/// under the same key is replaced; services under other keys stay.
pub fn provide_service<S>(container: &mut ServiceContainer<S>, key: u64, service: S)
    ensures
        final(container)@ == old(container)@.insert(key, service),
{
    container.services.insert(key, Rc::new(service));
    assert(container@ =~= old(container)@.insert(key, service));
}

/// A shared handle to the service under `key`, or `None` where nothing was
/// provided under it.
pub fn try_inject<S>(container: &ServiceContainer<S>, key: u64) -> (found: Option<Rc<S>>)
    ensures
        match found {
            Some(service) => container@.contains_key(key) && *service == container@[key],
            None => !container@.contains_key(key),
        },
{
    match container.services.get(&key) {
        Some(service) => Some(Rc::clone(service)),
        None => None,
    }
}

/// A shared handle to the service under `key`. To ask for a service that
/// was never provided is a mistake of the caller, not a condition to recover
/// from; `try_inject` is for callers that cannot know.
pub fn inject<S>(container: &ServiceContainer<S>, key: u64) -> (service: Rc<S>)
    requires
        container@.contains_key(key),
    ensures
        *service == container@[key],
{
    try_inject(container, key).expect(
        "Service not provided: Make sure to call `provide_service` before `inject`.",
    )
}

} // verus!
