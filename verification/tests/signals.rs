use fenrix_core::{create_signal, Effect, Runtime};

/// An effect procedure for runtimes whose tests create no effect.
struct Idle;

impl<T> Effect<T> for Idle {
    fn run(&self, _rt: &mut Runtime<T, Idle>) {}
}

#[test]
fn signal_creation_and_initial_value() {
    let mut rt: Runtime<i32, Idle> = Runtime::new();
    let (count, _) = create_signal(&mut rt, 0);
    assert_eq!(count.get(&mut rt), 0, "Signal should be created with the correct initial value.");
}

#[test]
fn signal_setter_updates_value() {
    let mut rt: Runtime<i32, Idle> = Runtime::new();
    let (count, set_count) = create_signal(&mut rt, 0);
    set_count.set(&mut rt, 10);
    assert_eq!(count.get(&mut rt), 10, "Signal value should be updated by the setter.");
}

#[test]
fn signal_with_string_type() {
    let mut rt: Runtime<String, Idle> = Runtime::new();
    let (text, set_text) = create_signal(&mut rt, "hello".to_string());
    assert_eq!(text.get(&mut rt), "hello");
    set_text.set(&mut rt, "world".to_string());
    assert_eq!(text.get(&mut rt), "world");
}

#[test]
fn multiple_cloned_signals_share_state() {
    let mut rt: Runtime<i32, Idle> = Runtime::new();
    let (count, set_count) = create_signal(&mut rt, 0);
    let count2 = count.clone();
    let set_count2 = set_count.clone();

    set_count.set(&mut rt, 5);
    assert_eq!(count.get(&mut rt), 5, "Original getter should see the update.");
    assert_eq!(count2.get(&mut rt), 5, "Cloned getter should also see the update.");

    set_count2.set(&mut rt, 10);
    assert_eq!(count.get(&mut rt), 10, "Update via cloned setter should be reflected in original getter.");
    assert_eq!(count2.get(&mut rt), 10, "Update via cloned setter should be reflected in cloned getter.");
}

#[test]
fn new_runtime_is_empty() {
    let rt: Runtime<i32, Idle> = Runtime::new();
    rt.well_formed();
    assert_eq!(rt.signal_count(), 0);
    assert_eq!(rt.effect_count(), 0);
    assert!(!rt.in_component());
}

#[test]
fn signals_are_independent() {
    let mut rt: Runtime<i32, Idle> = Runtime::new();
    let (a, set_a) = create_signal(&mut rt, 1);
    let (b, set_b) = create_signal(&mut rt, 2);
    assert_eq!(rt.signal_count(), 2);
    set_a.set(&mut rt, 10);
    assert_eq!(a.get(&mut rt), 10);
    assert_eq!(b.get(&mut rt), 2);
    set_b.set(&mut rt, 20);
    assert_eq!(a.get(&mut rt), 10);
    assert_eq!(b.get(&mut rt), 20);
}

#[test]
fn read_without_tracked_effect_changes_nothing() {
    let mut rt: Runtime<i32, Idle> = Runtime::new();
    let (a, _) = create_signal(&mut rt, 7);
    assert_eq!(a.get(&mut rt), 7);
    assert_eq!(a.get(&mut rt), 7);
    assert_eq!(rt.signal_count(), 1);
    assert_eq!(rt.effect_count(), 0);
}

#[test]
fn handle_belongs_to_its_runtime_only() {
    let mut rt: Runtime<i32, Idle> = Runtime::new();
    let other: Runtime<i32, Idle> = Runtime::new();
    let (a, set_a) = create_signal(&mut rt, 0);
    assert!(a.belongs_to(&rt));
    assert!(set_a.belongs_to(&rt));
    assert!(!a.belongs_to(&other));
    assert!(!set_a.belongs_to(&other));
}

#[test]
fn last_write_wins() {
    let mut rt: Runtime<i32, Idle> = Runtime::new();
    let (a, set_a) = create_signal(&mut rt, 0);
    set_a.set(&mut rt, 1);
    set_a.set(&mut rt, 2);
    set_a.set(&mut rt, 2);
    assert_eq!(a.get(&mut rt), 2);
}
