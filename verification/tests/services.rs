use fenrix_core::{inject, provide_service, try_inject, ServiceContainer};
use std::rc::Rc;

#[derive(Debug, PartialEq)]
enum Service {
    Greeter(String),
    Limit(u32),
}

const GREETER: u64 = 1;
const LIMIT: u64 = 2;

#[test]
fn provided_service_is_injected() {
    let mut container = ServiceContainer::new();
    provide_service(&mut container, GREETER, Service::Greeter("hello".to_string()));
    let greeter = inject(&container, GREETER);
    assert_eq!(*greeter, Service::Greeter("hello".to_string()));
}

#[test]
fn service_that_was_not_provided_is_not_found() {
    let mut container = ServiceContainer::new();
    assert!(try_inject::<Service>(&container, GREETER).is_none());
    assert!(!container.provides(GREETER));
    provide_service(&mut container, GREETER, Service::Greeter("hello".to_string()));
    assert!(container.provides(GREETER));
    assert!(try_inject(&container, LIMIT).is_none());
    assert!(!container.provides(LIMIT));
}

#[test]
fn providing_again_replaces() {
    let mut container = ServiceContainer::new();
    provide_service(&mut container, LIMIT, Service::Limit(10));
    provide_service(&mut container, LIMIT, Service::Limit(20));
    assert_eq!(*inject(&container, LIMIT), Service::Limit(20));
}

#[test]
fn services_under_other_keys_stay() {
    let mut container = ServiceContainer::new();
    provide_service(&mut container, GREETER, Service::Greeter("hi".to_string()));
    provide_service(&mut container, LIMIT, Service::Limit(3));
    assert_eq!(*inject(&container, GREETER), Service::Greeter("hi".to_string()));
    assert_eq!(*inject(&container, LIMIT), Service::Limit(3));
}

#[test]
fn injection_shares_one_instance() {
    let mut container = ServiceContainer::new();
    provide_service(&mut container, LIMIT, Service::Limit(1));
    let first = inject(&container, LIMIT);
    let second = inject(&container, LIMIT);
    assert!(Rc::ptr_eq(&first, &second));
    let third = try_inject(&container, LIMIT);
    assert!(matches!(third, Some(ref found) if Rc::ptr_eq(found, &first)));
}

#[test]
fn handle_outlives_a_replacement() {
    let mut container = ServiceContainer::new();
    provide_service(&mut container, LIMIT, Service::Limit(1));
    let old = inject(&container, LIMIT);
    provide_service(&mut container, LIMIT, Service::Limit(2));
    assert_eq!(*old, Service::Limit(1));
    assert_eq!(*inject(&container, LIMIT), Service::Limit(2));
}
