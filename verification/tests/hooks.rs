use fenrix_core::{
    create_signal, use_effect, use_state, with_component_context, ComponentContext, Effect, Getter,
    Runtime, Setter,
};
use std::cell::RefCell;
use std::rc::Rc;

/// An effect procedure made of a closure.
struct Fx(Box<dyn Fn(&mut Runtime<i32, Fx>)>);

impl Effect<i32> for Fx {
    fn run(&self, rt: &mut Runtime<i32, Fx>) {
        (self.0)(rt)
    }
}

type Log = Rc<RefCell<Vec<i32>>>;

fn new_log() -> Log {
    Rc::new(RefCell::new(Vec::new()))
}

/// A component with one piece of state and one effect that logs it.
fn counter(rt: &mut Runtime<i32, Fx>, initial: i32, inits: &Log, log: &Log) -> (Getter, Setter) {
    let inits = Rc::clone(inits);
    let (count, set_count) = use_state(rt, move || {
        inits.borrow_mut().push(initial);
        initial
    });
    let log = Rc::clone(log);
    use_effect(
        rt,
        Fx(Box::new(move |rt| {
            let value = count.get(rt);
            log.borrow_mut().push(value);
        })),
    );
    (count, set_count)
}

#[test]
fn component_result_is_returned() {
    let mut rt: Runtime<i32, Fx> = Runtime::new();
    let mut context = ComponentContext::new();
    let result = with_component_context(&mut rt, &mut context, |_rt| 42);
    assert_eq!(result, 42);
    assert!(!rt.in_component());
}

#[test]
fn hooks_see_a_component_only_while_it_renders() {
    let mut rt: Runtime<i32, Fx> = Runtime::new();
    let mut context = ComponentContext::new();
    assert!(!rt.in_component());
    let inside = with_component_context(&mut rt, &mut context, |rt| rt.in_component());
    assert!(inside);
    assert!(!rt.in_component());
}

#[test]
fn first_render_allocates_state_and_effect() {
    let mut rt: Runtime<i32, Fx> = Runtime::new();
    let mut context = ComponentContext::new();
    let inits = new_log();
    let log = new_log();
    let (count, set_count) =
        with_component_context(&mut rt, &mut context, |rt| counter(rt, 5, &inits, &log));
    assert_eq!(*inits.borrow(), vec![5]);
    assert_eq!(*log.borrow(), vec![5]);
    assert_eq!(context.state_count(), 1);
    assert_eq!(context.effect_count(), 1);
    assert_eq!(rt.signal_count(), 1);
    assert_eq!(rt.effect_count(), 1);
    assert_eq!(count.get(&mut rt), 5);
    set_count.set(&mut rt, 6);
    assert_eq!(*log.borrow(), vec![5, 6]);
}

#[test]
fn second_render_reuses_state_and_effect() {
    let mut rt: Runtime<i32, Fx> = Runtime::new();
    let mut context = ComponentContext::new();
    let inits = new_log();
    let log = new_log();
    let (count, set_count) =
        with_component_context(&mut rt, &mut context, |rt| counter(rt, 5, &inits, &log));
    set_count.set(&mut rt, 8);
    assert_eq!(*log.borrow(), vec![5, 8]);

    let (count2, _) =
        with_component_context(&mut rt, &mut context, |rt| counter(rt, 99, &inits, &log));
    // The initialiser did not run again and the state kept its value.
    assert_eq!(*inits.borrow(), vec![5]);
    assert_eq!(count2.get(&mut rt), 8);
    assert_eq!(count.get(&mut rt), 8);
    // The effect was not created again, so it did not run again.
    assert_eq!(*log.borrow(), vec![5, 8]);
    assert_eq!(rt.signal_count(), 1);
    assert_eq!(rt.effect_count(), 1);
    assert_eq!(context.state_count(), 1);
    assert_eq!(context.effect_count(), 1);

    let (_, set_count3) =
        with_component_context(&mut rt, &mut context, |rt| counter(rt, 100, &inits, &log));
    set_count3.set(&mut rt, 9);
    assert_eq!(count.get(&mut rt), 9);
    // One effect, told once.
    assert_eq!(*log.borrow(), vec![5, 8, 9]);
}

#[test]
fn state_is_matched_by_call_position() {
    let mut rt: Runtime<i32, Fx> = Runtime::new();
    let mut context = ComponentContext::new();
    let (first, second) = with_component_context(&mut rt, &mut context, |rt| {
        let (a, set_a) = use_state(rt, || 1);
        let (b, _) = use_state(rt, || 2);
        set_a.set(rt, 10);
        (a, b)
    });
    assert_eq!(context.state_count(), 2);
    let (first2, second2) = with_component_context(&mut rt, &mut context, |rt| {
        let (a, _) = use_state(rt, || 7);
        let (b, _) = use_state(rt, || 7);
        (a, b)
    });
    assert_eq!(first2.get(&mut rt), 10);
    assert_eq!(second2.get(&mut rt), 2);
    assert_eq!(first.get(&mut rt), 10);
    assert_eq!(second.get(&mut rt), 2);
    assert_eq!(rt.signal_count(), 2);
}

#[test]
fn later_render_may_add_hooks_at_the_end() {
    let mut rt: Runtime<i32, Fx> = Runtime::new();
    let mut context = ComponentContext::new();
    with_component_context(&mut rt, &mut context, |rt| {
        use_state(rt, || 1);
    });
    let added = with_component_context(&mut rt, &mut context, |rt| {
        use_state(rt, || 50);
        let (b, _) = use_state(rt, || 2);
        b
    });
    assert_eq!(context.state_count(), 2);
    assert_eq!(added.get(&mut rt), 2);
}

#[test]
fn separate_records_have_separate_state() {
    let mut rt: Runtime<i32, Fx> = Runtime::new();
    let mut left = ComponentContext::new();
    let mut right = ComponentContext::new();
    let (a, set_a) = with_component_context(&mut rt, &mut left, |rt| use_state(rt, || 1));
    let (b, _) = with_component_context(&mut rt, &mut right, |rt| use_state(rt, || 1));
    set_a.set(&mut rt, 3);
    assert_eq!(a.get(&mut rt), 3);
    assert_eq!(b.get(&mut rt), 1);
}

#[test]
fn fresh_record_means_fresh_state() {
    let mut rt: Runtime<i32, Fx> = Runtime::new();
    let inits = new_log();
    let log = new_log();
    let mut first = ComponentContext::new();
    with_component_context(&mut rt, &mut first, |rt| counter(rt, 1, &inits, &log));
    let mut second = ComponentContext::new();
    with_component_context(&mut rt, &mut second, |rt| counter(rt, 2, &inits, &log));
    assert_eq!(*inits.borrow(), vec![1, 2]);
    assert_eq!(*log.borrow(), vec![1, 2]);
    assert_eq!(rt.signal_count(), 2);
    assert_eq!(rt.effect_count(), 2);
}

#[test]
fn nested_components_use_their_own_records() {
    let mut rt: Runtime<i32, Fx> = Runtime::new();
    let mut parent = ComponentContext::new();
    let mut child = ComponentContext::new();
    let (outer_before, inner, outer_after) =
        with_component_context(&mut rt, &mut parent, |rt| {
            let (above, _) = use_state(rt, || 1);
            let c = with_component_context(rt, &mut child, |rt| {
                let (c, _) = use_state(rt, || 10);
                c
            });
            let (below, _) = use_state(rt, || 2);
            (above, c, below)
        });
    assert_eq!(parent.state_count(), 2);
    assert_eq!(child.state_count(), 1);
    assert_eq!(outer_before.get(&mut rt), 1);
    assert_eq!(inner.get(&mut rt), 10);
    assert_eq!(outer_after.get(&mut rt), 2);
    assert!(!rt.in_component());
}

#[test]
fn failure_of_a_component_is_returned_after_release() {
    let mut rt: Runtime<i32, Fx> = Runtime::new();
    let mut context = ComponentContext::new();
    let result: Result<i32, String> = with_component_context(&mut rt, &mut context, |rt| {
        use_state(rt, || 1);
        Err("no data".to_string())
    });
    assert_eq!(result, Err("no data".to_string()));
    assert!(!rt.in_component());
    assert_eq!(context.state_count(), 1);
}

#[test]
fn hooks_and_plain_signals_share_the_runtime() {
    let mut rt: Runtime<i32, Fx> = Runtime::new();
    let (plain, set_plain) = create_signal(&mut rt, 0);
    let mut context = ComponentContext::new();
    let log = new_log();
    let seen = Rc::clone(&log);
    with_component_context(&mut rt, &mut context, |rt| {
        use_effect(
            rt,
            Fx(Box::new(move |rt| {
                let value = plain.get(rt);
                seen.borrow_mut().push(value);
            })),
        );
    });
    set_plain.set(&mut rt, 3);
    assert_eq!(*log.borrow(), vec![0, 3]);
}

#[test]
fn new_record_is_empty() {
    let context = ComponentContext::new();
    assert_eq!(context.state_count(), 0);
    assert_eq!(context.effect_count(), 0);
}
