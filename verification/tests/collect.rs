use tcvm::dmm::{Collect, Gc, GcWeak, Lock, Trace};
use tcvm::value::Value;

fn edges<C: Collect>(value: &C) -> usize {
    let mut cc = Trace::new();
    cc.trace(value);
    cc.count()
}

#[test]
fn strong_pointer_is_traced() {
    let g: Gc<u64> = Gc::from_ptr(3);
    assert!(<Gc<u64> as Collect>::needs_trace());
    assert_eq!(edges(&g), 1);
}

#[test]
fn weak_pointer_is_not_traced() {
    let w: GcWeak<u64> = GcWeak::from_ptr(3);
    assert!(!<GcWeak<u64> as Collect>::needs_trace());
    assert_eq!(edges(&w), 0);
    let mut cc = Trace::new();
    w.trace(&mut cc);
    assert_eq!(cc.count(), 0);
}

#[test]
fn plain_data_needs_no_trace() {
    assert!(!<u64 as Collect>::needs_trace());
    assert!(!<i64 as Collect>::needs_trace());
    assert!(!<bool as Collect>::needs_trace());
    assert!(!<() as Collect>::needs_trace());
    assert!(!<(u64, bool) as Collect>::needs_trace());
    assert!(!<Vec<u64> as Collect>::needs_trace());
    assert!(!<Option<i64> as Collect>::needs_trace());
    assert!(!<Lock<u64> as Collect>::needs_trace());
    assert_eq!(edges(&(1u64, true)), 0);
}

#[test]
fn containers_trace_what_they_hold() {
    let a: Gc<u64> = Gc::from_ptr(1);
    let b: Gc<u64> = Gc::from_ptr(2);
    assert!(<Vec<Gc<u64>> as Collect>::needs_trace());
    assert!(<(u64, Gc<u64>) as Collect>::needs_trace());
    assert!(<Option<Gc<u64>> as Collect>::needs_trace());
    assert!(<Lock<Gc<u64>> as Collect>::needs_trace());
    assert_eq!(edges(&vec![a, b]), 2);
    assert_eq!(edges(&(a, vec![b, b])), 3);
    assert_eq!(edges(&Some(a)), 1);
    assert_eq!(edges(&None::<Gc<u64>>), 0);
    assert_eq!(edges(&Lock::new(vec![a, b, a])), 3);
}

#[test]
fn values_trace_their_referents() {
    assert_eq!(edges(&Value::Table(4)), 1);
    assert_eq!(edges(&Value::String(4)), 1);
    assert_eq!(edges(&Value::Integer(4)), 0);
    assert_eq!(edges(&Value::Nil), 0);
    assert_eq!(edges(&vec![Value::Table(1), Value::Float(2), Value::Function(3)]), 2);
    assert_eq!(Value::Thread(9).as_gc().map(|g| g.as_ptr()), Some(9));
    assert!(Value::Boolean(true).as_gc().is_none());
}

#[test]
fn tracing_plain_data_leaves_the_visitor_as_it_was() {
    let mut cc = Trace::new();
    cc.trace_gc(Gc::<u64>::from_ptr(3));
    5u64.trace(&mut cc);
    (-5i64).trace(&mut cc);
    true.trace(&mut cc);
    ().trace(&mut cc);
    GcWeak::<u64>::from_ptr(9).trace(&mut cc);
    assert_eq!(cc.count(), 1);
}
