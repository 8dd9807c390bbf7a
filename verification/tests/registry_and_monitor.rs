use windows_rust_counters::monitor::{
    fix_active_counter, get_object_name_index, get_tick_interval, parse_tick_duration, pretty_signal, sort_by_instance,
    tab_next, tab_prev, trim_lines_to_width, DataPair, TextAlignment, TickError,
};
use windows_rust_counters::perf::useful::{InstanceId, PERF_NO_UNIQUE_ID};
use windows_rust_counters::reg::{
    after_query, can_use_size_hint, initial_buffer_size, query_value_dword, starts_with, DwordError, QueryStep,
    ERROR_INVALID_DATA, INITIAL_BUFFER_SIZE, MAX_BUFFER_SIZE, REG_DWORD,
};

const ERROR_MORE_DATA: u32 = 234;
const ERROR_FILE_NOT_FOUND: u32 = 2;

#[test]
fn query_grows_the_buffer_by_doubling() {
    assert_eq!(after_query(0, ERROR_MORE_DATA), QueryStep::Retry(INITIAL_BUFFER_SIZE));
    assert_eq!(after_query(8192, ERROR_MORE_DATA), QueryStep::Retry(16384));
    assert_eq!(after_query(MAX_BUFFER_SIZE / 2, ERROR_MORE_DATA), QueryStep::Retry(MAX_BUFFER_SIZE));
    assert_eq!(after_query(MAX_BUFFER_SIZE, ERROR_MORE_DATA), QueryStep::TooLarge(2 * MAX_BUFFER_SIZE));
}

#[test]
fn query_ends_on_success_or_other_errors() {
    assert_eq!(after_query(16, 0), QueryStep::Done);
    assert_eq!(after_query(16, ERROR_FILE_NOT_FOUND), QueryStep::Failed(ERROR_FILE_NOT_FOUND));
}

#[test]
fn size_hint_only_for_names_and_help() {
    assert!(can_use_size_hint(false, "TickIntervalMillis"));
    assert!(can_use_size_hint(true, "Counter 009"));
    assert!(can_use_size_hint(true, "Help"));
    assert!(!can_use_size_hint(true, "Global"));
    assert!(!can_use_size_hint(true, "Count"));
    assert!(starts_with("Counter 009", "Counter"));
    assert!(!starts_with("Count", "Counter"));
}

#[test]
fn first_buffer_size() {
    assert_eq!(initial_buffer_size(Some(4), Some(100)), 4);
    assert_eq!(initial_buffer_size(Some(0), Some(100)), INITIAL_BUFFER_SIZE);
    assert_eq!(initial_buffer_size(None, Some(100)), 100);
    assert_eq!(initial_buffer_size(None, None), INITIAL_BUFFER_SIZE);
}

#[test]
fn dword_values() {
    assert_eq!(query_value_dword(REG_DWORD, &[0x34, 0x12, 0, 0]), Ok(0x1234));
    assert_eq!(query_value_dword(REG_DWORD, &[1, 0, 0, 0x80]), Ok(0x8000_0001));
    assert_eq!(query_value_dword(1, &[0, 0, 0, 0]), Err(DwordError::UnexpectedType(1)));
    assert_eq!(query_value_dword(REG_DWORD, &[0, 0]), Err(DwordError::UnexpectedSize(2)));
    assert_eq!(DwordError::UnexpectedSize(2).code(), ERROR_INVALID_DATA);
}

#[test]
fn signals_are_drawn_as_dots_and_dashes() {
    assert_eq!(pretty_signal(&[]), "");
    assert_eq!(pretty_signal(&[true]), "•");
    assert_eq!(pretty_signal(&[true, false, true, true, true, false, false]), "• ───  ");
    assert_eq!(pretty_signal(&[false, true, true]), " ──");
}

#[test]
fn tabs_move_between_counters() {
    let names = [2usize, 4, 6];
    assert_eq!(tab_next(&names, 2), 4);
    assert_eq!(tab_next(&names, 6), 6);
    assert_eq!(tab_prev(&names, 4), 2);
    assert_eq!(tab_prev(&names, 2), 2);
    assert_eq!(fix_active_counter(&names, 5), 2);
    assert_eq!(fix_active_counter(&names, 4), 4);
    assert_eq!(fix_active_counter(&[], 5), 5);
}

#[test]
fn tick_duration_argument() {
    assert_eq!(parse_tick_duration("250"), Ok(250));
    assert_eq!(parse_tick_duration("10"), Ok(10));
    assert_eq!(parse_tick_duration("9"), Err(TickError::TooShort));
    assert_eq!(parse_tick_duration("fast"), Err(TickError::Unparsable));
    assert_eq!(parse_tick_duration(""), Err(TickError::Unparsable));
}

#[test]
fn monitor_ticks_twice_as_fast_as_the_provider() {
    assert_eq!(get_tick_interval(None), 625);
    assert_eq!(get_tick_interval(Some(1000)), 500);
    assert_eq!(get_tick_interval(Some(3)), 5);
}

#[test]
fn morse_object_is_found_by_name() {
    let names = vec![(2usize, "System".to_string()), (7000, "Morse code".to_string()), (7002, "Morse code".to_string())];
    assert_eq!(get_object_name_index(&names), Some(7000));
    assert_eq!(get_object_name_index(&names[..1]), None);
}

#[test]
fn lines_are_cut_to_width() {
    assert_eq!(trim_lines_to_width("abcdef\nxy", TextAlignment::Right, 3), "def\nxy");
    assert_eq!(trim_lines_to_width("abcdef\nxy", TextAlignment::Left, 3), "abc\nxy");
    assert_eq!(trim_lines_to_width("abcdef\r\n", TextAlignment::Right, 4), "cdef\n");
    assert_eq!(trim_lines_to_width("a\n\nb", TextAlignment::Left, 0), "\n\n");
    assert_eq!(trim_lines_to_width("", TextAlignment::Left, 5), "");
    assert_eq!(trim_lines_to_width("\n", TextAlignment::Left, 5), "\n");
    assert_eq!(trim_lines_to_width("ab\r", TextAlignment::Left, 5), "ab\r");
}

#[test]
fn pairs_are_sorted_by_instance() {
    let wide = |s: &str| s.encode_utf16().collect::<Vec<u16>>();
    let pairs = vec![
        DataPair(InstanceId::new(2, &wide("c")), 30),
        DataPair(InstanceId::new(PERF_NO_UNIQUE_ID, &wide("b")), 20),
        DataPair(InstanceId::new(0, &wide("a")), 10),
        DataPair(InstanceId::new(PERF_NO_UNIQUE_ID, &wide("a")), 5),
        DataPair(InstanceId::new(0, &wide("z")), 11),
    ];
    let sorted = sort_by_instance(pairs);
    let values: Vec<u32> = sorted.iter().map(|p| p.1).collect();
    assert_eq!(values, vec![5, 20, 10, 11, 30]);
}

#[test]
fn pretty_signal_has_one_character_per_value() {
    let signal = [true, true, false, true, false, false, true, true, true, true];
    let drawn: Vec<char> = pretty_signal(&signal).chars().collect();
    assert_eq!(drawn.len(), signal.len());
    for (c, s) in drawn.iter().zip(signal.iter()) {
        assert_eq!(*c == ' ', !*s);
    }
}
