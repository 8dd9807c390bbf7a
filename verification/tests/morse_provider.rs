use windows_rust_counters::morse_counters::{
    get_number_of_instances, get_reg_key_strings_provider, get_tick_interval, initial_data, instances_for,
    message_from_value, name_for_instance, set_dwords, unescape_or_keep, zero_data, ConstString, StringsProvider,
    SUB_KEY_MORSE, VALUE_NAME_CUSTOM_MESSAGE,
};
use windows_rust_counters::perf::useful::{CounterId, InstanceId, NumInstances, ObjectData, PERF_NO_UNIQUE_ID};
use windows_rust_counters::perf::values::CounterValue;
use windows_rust_counters::perf::values::CounterVal;

fn wide(s: &str) -> Vec<u16> {
    s.encode_utf16().collect()
}

#[test]
fn number_of_instances_from_registry() {
    assert_eq!(get_number_of_instances(None), NumInstances::NoInstances);
    assert_eq!(get_number_of_instances(Some(0xFFFF_FFFF)), NumInstances::NoInstances);
    assert_eq!(get_number_of_instances(Some(3)), NumInstances::N(3));
    assert_eq!(get_number_of_instances(Some(0)), NumInstances::N(1));
    assert_eq!(get_number_of_instances(Some(5000)), NumInstances::NoInstances);
    assert_eq!(get_number_of_instances(Some(1024)), NumInstances::N(1024));
    assert_eq!(get_number_of_instances(Some(0xFFFF_FFFE)), NumInstances::NoInstances);
}

#[test]
fn provider_tick_interval() {
    assert_eq!(get_tick_interval(None), 1250);
    assert_eq!(get_tick_interval(Some(5)), 10);
    assert_eq!(get_tick_interval(Some(700)), 700);
}

#[test]
fn channel_names_are_padded() {
    assert_eq!(String::from_utf16(&name_for_instance(3, 2)).unwrap(), "Channel  3");
    assert_eq!(String::from_utf16(&name_for_instance(12, 2)).unwrap(), "Channel 12");
    assert_eq!(String::from_utf16(&name_for_instance(123, 1)).unwrap(), "Channel 123");
}

#[test]
fn instances_are_numbered_channels() {
    let instances = instances_for(NumInstances::N(10));
    assert_eq!(instances.len(), 10);
    assert_eq!(instances[0].unique_id(), Some(0));
    assert_eq!(instances[0].name(), &wide("Channel  0")[..]);
    assert_eq!(instances[9].name(), &wide("Channel  9")[..]);
    let single = instances_for(NumInstances::NoInstances);
    assert_eq!(single.len(), 1);
    assert_eq!(single[0].unique_id(), None);
    assert!(single[0].name().is_empty());
}

#[test]
fn initial_data_is_zero() {
    let counters = [CounterId::new(2), CounterId::new(4)];
    let instances = instances_for(NumInstances::N(2));
    let data = initial_data(&counters, &instances);
    for c in counters.iter() {
        for i in instances.iter() {
            assert!(matches!(data.get(*c, i.duplicate()), Some(CounterVal::Dword(0))));
        }
    }
    assert!(data.get(CounterId::new(6), instances[0].duplicate()).is_none());
    assert!(data.get(CounterId::new(2), InstanceId::new(PERF_NO_UNIQUE_ID, &[])).is_none());
}

#[test]
fn custom_message_from_registry_bytes() {
    let mut bytes: Vec<u8> = Vec::new();
    for u in wide("Hi!\0junk") {
        bytes.extend_from_slice(&u.to_le_bytes());
    }
    assert_eq!(message_from_value(&bytes), "Hi!");
    assert_eq!(message_from_value(&[0x41, 0, 0x42, 0]), "AB");
    assert_eq!(message_from_value(&[0x41, 0, 0x42]), "A");
    assert_eq!(message_from_value(&[]), "");
    let provider = get_reg_key_strings_provider();
    assert_eq!(provider.sub_key(), SUB_KEY_MORSE);
    assert_eq!(provider.sub_key(), r"SYSTEM\CurrentControlSet\Services\Morse");
    assert_eq!(provider.value_name(), VALUE_NAME_CUSTOM_MESSAGE);
}

#[test]
fn const_string_provides_its_message() {
    let mut s = ConstString::new("SOS");
    assert_eq!(s.provide(), "SOS");
    assert_eq!(s.provide(), "SOS");
}

#[test]
fn values_are_set_per_instance() {
    let counter = CounterId::new(4);
    let instances = instances_for(NumInstances::N(3));
    let mut data = ObjectData::new();
    data.set(CounterId::new(6), instances[0].duplicate(), CounterValue::Dword(9));
    zero_data(&mut data, &[counter], &instances);
    assert!(matches!(data.get(counter, instances[2].duplicate()), Some(CounterVal::Dword(0))));
    assert!(matches!(data.get(CounterId::new(6), instances[0].duplicate()), Some(CounterVal::Dword(9))));
    set_dwords(&mut data, counter, &instances, &[10, 21, 32]);
    assert!(matches!(data.get(counter, instances[0].duplicate()), Some(CounterVal::Dword(10))));
    assert!(matches!(data.get(counter, instances[1].duplicate()), Some(CounterVal::Dword(21))));
    assert!(matches!(data.get(counter, instances[2].duplicate()), Some(CounterVal::Dword(32))));
}

#[test]
fn service_messages_are_unescaped() {
    assert_eq!(unescape_or_keep("Chuck &amp; &quot;Norris&quot; &#65;&#x42;"), "Chuck & \"Norris\" AB");
    assert_eq!(unescape_or_keep("no entities here"), "no entities here");
    assert_eq!(unescape_or_keep("a &bogus; b"), "a &bogus; b");
    assert_eq!(unescape_or_keep("dangling & b"), "dangling & b");
}
