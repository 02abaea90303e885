use tcvm::dmm::hashbrown::{value_hash, Table, ValueSet, ValueTable};
use tcvm::dmm::{Arena, Collect, Gc, Trace};
use tcvm::value::Value;

fn traced<C: Collect>(value: &C) -> usize {
    let mut cc = Trace::new();
    cc.trace(value);
    cc.count()
}

#[test]
fn table_holds_what_was_inserted() {
    let mut table = Table::new();
    assert_eq!(table.get(&Value::Integer(1)), None);
    assert_eq!(table.insert(Value::Integer(1), Value::Table(4)), None);
    assert_eq!(table.insert(Value::String(2), Value::Nil), None);
    assert_eq!(table.get(&Value::Integer(1)), Some(Value::Table(4)));
    assert_eq!(table.get(&Value::String(2)), Some(Value::Nil));
    assert_eq!(table.get(&Value::String(3)), None);
    assert_eq!(table.insert(Value::Integer(1), Value::Boolean(true)), Some(Value::Table(4)));
    assert_eq!(table.get(&Value::Integer(1)), Some(Value::Boolean(true)));
}

#[test]
fn table_traces_keys_and_values() {
    let mut table = Table::new();
    assert_eq!(traced(&table), 0);
    table.insert(Value::Integer(1), Value::Table(4));
    table.insert(Value::String(2), Value::Function(5));
    table.insert(Value::Userdata(3), Value::Float(0));
    assert!(<Table as Collect>::needs_trace());
    assert_eq!(traced(&table), 4);
}

#[test]
fn set_holds_what_was_inserted() {
    let mut set = ValueSet::new();
    assert!(!set.contains(&Value::Integer(1)));
    assert!(set.insert(Value::Integer(1)));
    assert!(!set.insert(Value::Integer(1)));
    assert!(set.insert(Value::Thread(6)));
    assert!(set.contains(&Value::Integer(1)));
    assert!(set.contains(&Value::Thread(6)));
    assert!(!set.contains(&Value::Thread(7)));
}

#[test]
fn set_traces_its_members() {
    let mut set = ValueSet::new();
    set.insert(Value::Integer(1));
    set.insert(Value::Thread(6));
    set.insert(Value::Table(7));
    assert!(<ValueSet as Collect>::needs_trace());
    assert_eq!(traced(&set), 2);
}

#[test]
fn table_keeps_what_it_refers_to_alive() {
    let mut arena: Arena<Table> = Arena::new(Table::new(), 32, 64).unwrap();
    arena.collect_all();
    let (mc, root) = arena.enter();
    let kept = mc.allocate(Table::new(), 32).unwrap();
    let lost = mc.allocate(Table::new(), 32).unwrap();
    let mut globals = Table::new();
    globals.insert(Value::Integer(1), Value::Table(kept.as_ptr()));
    mc.replace(root, globals).unwrap();
    arena.collect_all();
    arena.collect_all();
    let mc = arena.mutation();
    assert!(!Gc::downgrade(kept).is_dropped(mc));
    assert!(Gc::downgrade(lost).is_dropped(mc));
    let held = mc.get(root).unwrap().get(&Value::Integer(1));
    assert_eq!(held, Some(Value::Table(kept.as_ptr())));
    let mut dangling = Table::new();
    dangling.insert(Value::Table(lost.as_ptr()), Value::Nil);
    assert!(mc.replace(root, dangling).is_err());
}

#[test]
fn bag_holds_each_value_as_often_as_inserted() {
    let mut bag = ValueTable::new();
    assert_eq!(bag.count(&Value::Integer(1)), 0);
    bag.insert_unique(Value::Integer(1));
    bag.insert_unique(Value::Table(3));
    bag.insert_unique(Value::Integer(1));
    for i in 0..100 {
        bag.insert_unique(Value::String(i));
    }
    assert_eq!(bag.count(&Value::Integer(1)), 2);
    assert_eq!(bag.count(&Value::Table(3)), 1);
    assert_eq!(bag.count(&Value::String(42)), 1);
    assert_eq!(bag.count(&Value::Table(4)), 0);
}

#[test]
fn bag_traces_its_members() {
    let mut bag = ValueTable::new();
    bag.insert_unique(Value::Integer(1));
    bag.insert_unique(Value::Table(3));
    bag.insert_unique(Value::Table(3));
    bag.insert_unique(Value::Function(9));
    assert!(<ValueTable as Collect>::needs_trace());
    assert_eq!(traced(&bag), 3);
}

#[test]
fn value_hash_formula() {
    let k: u64 = 0x9E37_79B9_7F4A_7C15;
    assert_eq!(value_hash(&Value::Nil), 0);
    assert_eq!(value_hash(&Value::Boolean(false)), 1);
    assert_eq!(value_hash(&Value::Boolean(true)), k.wrapping_add(1));
    assert_eq!(value_hash(&Value::Integer(2)), k.wrapping_mul(2).wrapping_add(2));
    assert_eq!(value_hash(&Value::Integer(-1)), u64::MAX.wrapping_mul(k).wrapping_add(2));
    assert_eq!(value_hash(&Value::Float(7)), k.wrapping_mul(7).wrapping_add(3));
    assert_eq!(value_hash(&Value::String(1)), k.wrapping_add(4));
    assert_eq!(value_hash(&Value::Userdata(1)), k.wrapping_add(5));
    assert_eq!(value_hash(&Value::Function(1)), k.wrapping_add(6));
    assert_eq!(value_hash(&Value::Thread(1)), k.wrapping_add(7));
    assert_eq!(value_hash(&Value::Table(1)), k.wrapping_add(8));
}

#[test]
fn table_shows_each_key_and_value_once() {
    let mut table = Table::new();
    table.insert(Value::Integer(1), Value::Table(4));
    table.insert(Value::Integer(2), Value::Table(4));
    table.insert(Value::Table(4), Value::Table(4));
    // Three values and one key refer to the same object: shown four times.
    assert_eq!(traced(&table), 4);
    table.insert(Value::Integer(2), Value::Nil);
    assert_eq!(traced(&table), 3);
}

#[test]
fn set_shows_each_member_once() {
    let mut set = ValueSet::new();
    set.insert(Value::Table(4));
    set.insert(Value::Table(4));
    set.insert(Value::Function(4));
    assert_eq!(traced(&set), 2);
}
