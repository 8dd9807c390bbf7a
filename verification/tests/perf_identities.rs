use windows_rust_counters::perf::types::CounterTypeDefinition;
use std::cmp::Ordering;
use std::collections::HashMap;

use widestring::U16String;
use windows_rust_counters::perf::provide::{align_to, align_to_dword, ALIGN_OF_PERF_OBJECT_TYPE};
use windows_rust_counters::perf::useful::{
    CounterId, InstanceId, NumInstances, ObjectData, PERF_NO_UNIQUE_ID,
};
use windows_rust_counters::perf::values::{CounterVal, CounterValue};

fn units(s: &str) -> Vec<u16> {
    U16String::from_str(s).into_vec()
}

#[test]
fn test_hash_counter_id() {
    let c1 = CounterId::new(42);
    let c2 = CounterId::new(42);
    let c3 = CounterId::new(37);

    assert_eq!(c1, c2);
    assert_ne!(c1, c3);
    assert_ne!(c2, c3);
}

#[test]
fn test_hash_instance_id() {
    let i1 = InstanceId::new(42, &units("abc"));
    let i2 = InstanceId::new(42, &units("abc"));
    let i3 = InstanceId::new(37, &units("abc"));
    let i4_a = InstanceId::new(PERF_NO_UNIQUE_ID, &units("a"));
    let i4_b = InstanceId::new(PERF_NO_UNIQUE_ID, &units("b"));
    let i5 = InstanceId::perf_no_instances();
    let i6 = InstanceId::perf_no_instances();

    assert!(i1 == i2, "should be equal");
    assert!(i2 != i3, "use ID when available");
    assert!(i4_a != i4_b, "use name when no ID");
    assert!(i5 == i6);

    let mut map: HashMap<InstanceId, u32> = HashMap::new();
    map.insert(i1, 123);
    assert_eq!(map[&i2], 123);
    map.insert(i4_a, 456);
    assert_eq!(map.get(&i4_b), None);
}

#[test]
fn test_align() {
    assert_eq!(std::mem::align_of::<u32>(), std::mem::size_of::<u32>());
    assert_eq!(align_to_dword(0), 0);
    // smallest
    assert_eq!(align_to_dword(1), std::mem::size_of::<u32>());
    // identity
    assert_eq!(align_to_dword(std::mem::size_of::<u32>()), std::mem::size_of::<u32>());
    // smallest on a bigger type
    assert_eq!(align_to(1, ALIGN_OF_PERF_OBJECT_TYPE), 8);
}

#[test]
fn same_id_different_names_are_equal_and_hash_alike() {
    let a = InstanceId::new(7, &units("first"));
    let b = InstanceId::new(7, &units("second"));
    assert!(a == b);
    let mut map: HashMap<InstanceId, u32> = HashMap::new();
    map.insert(a, 1);
    assert_eq!(map.get(&b), Some(&1));
}

#[test]
fn display_of_instances() {
    assert_eq!(InstanceId::perf_no_instances().to_display_string(), "PERF_NO_INSTANCES");
    assert_eq!(InstanceId::new(3, &units("_Total")).to_display_string(), "_Total");
}

#[test]
fn num_instances_raw_values() {
    assert_eq!(NumInstances::try_from_raw(-1), Ok(NumInstances::NoInstances));
    assert_eq!(NumInstances::try_from_raw(5), Ok(NumInstances::N(5)));
    assert_eq!(NumInstances::try_from_raw(1024), Ok(NumInstances::N(1024)));
    assert_eq!(NumInstances::try_from_raw(1025), Err(()));
    assert_eq!(NumInstances::try_from_raw(-2), Err(()));
    assert_eq!(i32::from(NumInstances::N(12)), 12);
    assert_eq!(NumInstances::NoInstances.num_counter_blocks(), 1);
    assert!(!NumInstances::NoInstances.has_instances());
    assert!(NumInstances::N(0).has_instances());
    assert!(NumInstances::N(3).has_instances());
}

#[test]
fn object_data_reads_what_was_written() {
    let mut data = ObjectData::new();
    let counter = CounterId::new(2);
    data.set(counter, InstanceId::new(1, &units("one")), CounterValue::Dword(10));
    data.set(counter, InstanceId::new(2, &units("two")), CounterValue::Large(20));
    data.set(counter, InstanceId::new(1, &units("uno")), CounterValue::Dword(11));
    match data.get(counter, InstanceId::new(1, &units("one"))) {
        Some(CounterVal::Dword(v)) => assert_eq!(v, 11),
        _ => panic!("expected a double word"),
    }
    match data.get(counter, InstanceId::new(2, &units("two"))) {
        Some(CounterVal::Large(v)) => assert_eq!(v, 20),
        _ => panic!("expected a large value"),
    }
    assert!(data.get(CounterId::new(4), InstanceId::new(2, &units("two"))).is_none());
}

#[test]
fn counter_values_are_written_little_endian() {
    let mut buf = [0u8; 4];
    CounterVal::Dword(0x0102_0304).write(&mut buf).unwrap();
    assert_eq!(buf, [4, 3, 2, 1]);
    let mut big = [0u8; 8];
    CounterVal::Large(0x0102_0304_0506_0708).write(&mut big).unwrap();
    assert_eq!(big, [8, 7, 6, 5, 4, 3, 2, 1]);
    let mut wrong = [0u8; 3];
    assert!(CounterVal::Dword(1).write(&mut wrong).is_err());
}

#[test]
fn instances_are_ordered_totally() {
    let nameless_a = InstanceId::new(PERF_NO_UNIQUE_ID, &units("a"));
    let nameless_b = InstanceId::new(PERF_NO_UNIQUE_ID, &units("b"));
    let nameless_ab = InstanceId::new(PERF_NO_UNIQUE_ID, &units("ab"));
    let one = InstanceId::new(1, &units("z"));
    let two = InstanceId::new(2, &units("a"));
    let one_again = InstanceId::new(1, &units("other"));

    assert_eq!(nameless_a.cmp(&nameless_b), Ordering::Less);
    assert_eq!(nameless_b.cmp(&nameless_a), Ordering::Greater);
    assert_eq!(nameless_a.cmp(&nameless_ab), Ordering::Less);
    assert_eq!(nameless_b.cmp(&one), Ordering::Less);
    assert_eq!(one.cmp(&nameless_b), Ordering::Greater);
    assert_eq!(one.cmp(&two), Ordering::Less);
    assert_eq!(one.cmp(&one_again), Ordering::Equal);
    assert!(one == one_again);
    assert_eq!(nameless_a.partial_cmp(&one), None);
    assert_eq!(one.partial_cmp(&two), Some(Ordering::Less));
}

#[test]
fn counter_type_read_back_is_stable() {
    for raw in [0x10410400u32, 0x00010000, 0x00000000, 0x0000F0FF, 0x10410500] {
        if let Some(d) = CounterTypeDefinition::from_raw(raw) {
            let again = CounterTypeDefinition::from_raw(d.into_raw()).unwrap();
            assert_eq!(again.into_raw(), d.into_raw());
        }
    }
    assert_eq!(CounterTypeDefinition::from_raw(0x10410400).unwrap().into_raw(), 0x10410400);
}
