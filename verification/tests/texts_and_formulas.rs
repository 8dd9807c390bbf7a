use windows_rust_counters::perf::consume::{
    language_id_for, parse_null_separated_key_value_pairs, parse_performance_text_pairs, AllCounters, PerfTextKey,
    UseLocale,
};
use windows_rust_counters::perf::display::{formula, get_sample, CalculationError, Formula, Sample};
use windows_rust_counters::perf::raw::{PERF_COUNTER_DEFINITION, PERF_DATA_BLOCK, PERF_OBJECT_TYPE};
use windows_rust_counters::perf::types::{PERF_RAW_BASE, PERF_RAW_FRACTION, PERF_COUNTER_MULTI_TIMER};
use windows_rust_counters::perf::types::{
    CounterTypeDefinition, PERF_COUNTER_COUNTER, PERF_COUNTER_DELTA, PERF_COUNTER_RAWCOUNT, PERF_COUNTER_TEXT,
    PERF_COUNTER_TIMER, PERF_SAMPLE_COUNTER,
};

fn wide(s: &str) -> Vec<u16> {
    s.encode_utf16().collect()
}

fn sample(t: u32, data: u64, time: i64, frequency: i64) -> Sample {
    Sample {
        CounterType: CounterTypeDefinition::from_raw(t).unwrap(),
        Data: data,
        Time: time,
        MultiCounterData: 0,
        Frequency: frequency,
    }
}

#[test]
fn text_pairs_skip_the_header() {
    let raw = wide("1\u{0}1847\u{0}2\u{0}System\u{0}4\u{0}Memory\u{0}\u{0}");
    let pairs = parse_null_separated_key_value_pairs(&raw);
    assert_eq!(pairs, vec![(2, "System".to_string()), (4, "Memory".to_string())]);
}

#[test]
fn text_pairs_skip_bad_indices() {
    let raw = wide("1\u{0}3\u{0}x\u{0}Bad\u{0}6\u{0}Ok\u{0}\u{0}");
    let pairs = parse_null_separated_key_value_pairs(&raw);
    assert_eq!(pairs, vec![(6, "Ok".to_string())]);
}

#[test]
fn text_pairs_from_bytes() {
    let mut bytes = Vec::new();
    for u in wide("1\u{0}2\u{0}10\u{0}Morse code\u{0}\u{0}") {
        bytes.extend_from_slice(&u.to_le_bytes());
    }
    assert_eq!(parse_performance_text_pairs(&bytes), vec![(10, "Morse code".to_string())]);
}

#[test]
fn counters_collect_names_and_help() {
    let mut all = AllCounters::new();
    all.add_names(&[(2, "System".to_string()), (4, "Memory".to_string())]);
    all.add_helps(&[(3, "The system".to_string()), (7, "Orphan".to_string())]);
    let system = all.get(2).unwrap();
    assert_eq!(system.name_value, "System");
    assert_eq!(system.help_index, 3);
    assert_eq!(system.help_value, "The system");
    let memory = all.get(4).unwrap();
    assert_eq!(memory.name_value, "Memory");
    assert_eq!(memory.help_index, 5);
    assert_eq!(memory.help_value, "");
    let orphan = all.get(6).unwrap();
    assert_eq!(orphan.name_value, "");
    assert_eq!(orphan.help_value, "Orphan");
    assert!(all.get(8).is_none());
    assert_eq!(all.map().len(), 3);
}

#[test]
fn locale_queries() {
    assert_eq!(UseLocale::English.format_query("Counter"), "Counter");
    assert_eq!(UseLocale::UIDefault.format_query("Help"), "Help");
    assert_eq!(UseLocale::LangId(9).format_query("Counter"), "Counter 009");
    assert_eq!(UseLocale::LangId(0x416).format_query("Help"), "Help 416");
    assert_eq!(UseLocale::English.raw_hkey(), PerfTextKey::Text);
    assert_eq!(UseLocale::UIDefault.raw_hkey(), PerfTextKey::NlsText);
    assert_eq!(UseLocale::LangId(7).raw_hkey(), PerfTextKey::Data);
    assert_eq!(UseLocale::default(), UseLocale::UIDefault);
}

#[test]
fn language_ids() {
    assert_eq!(language_id_for(0x0409, 10, 0, 19041), 0x0009);
    assert_eq!(language_id_for(0x0416, 10, 0, 19041), 0x0416);
    assert_eq!(language_id_for(0x0416, 5, 1, 5), 0x0016);
    assert_eq!(language_id_for(0x0804, 5, 1, 2600), 0x0804);
    assert_eq!(language_id_for(0x0804, 6, 1, 7601), 0x0004);
}

#[test]
fn rate_needs_two_samples_in_order() {
    let first = sample(PERF_COUNTER_COUNTER, 100, 1000, 10);
    let second = sample(PERF_COUNTER_COUNTER, 300, 3000, 10);
    assert_eq!(
        formula(&first, Some(&second)),
        Ok(Formula::Rate { numerator: 200, denominator: 2000, frequency: 10, per_second: true })
    );
    assert_eq!(formula(&first, None), Err(CalculationError::TwoSamplesNeeded));
    assert_eq!(
        formula(&second, Some(&first)),
        Err(CalculationError::SamplesOutOfOrder { first: 3000, second: 1000 })
    );
    let sampled_first = sample(PERF_SAMPLE_COUNTER, 1, 10, 1);
    let sampled_second = sample(PERF_SAMPLE_COUNTER, 5, 20, 1);
    assert_eq!(
        formula(&sampled_first, Some(&sampled_second)),
        Ok(Formula::Rate { numerator: 4, denominator: 10, frequency: 1, per_second: false })
    );
}

#[test]
fn other_formulas() {
    let raw = sample(PERF_COUNTER_RAWCOUNT, 42, 0, 0);
    assert_eq!(formula(&raw, None), Ok(Formula::Decimal(42)));
    let timer_first = sample(PERF_COUNTER_TIMER, 10, 100, 1);
    let timer_second = sample(PERF_COUNTER_TIMER, 60, 200, 1);
    assert_eq!(
        formula(&timer_first, Some(&timer_second)),
        Ok(Formula::Percent { numerator: 50, denominator: 100 })
    );
    let delta_first = sample(PERF_COUNTER_DELTA, 7, 0, 0);
    let delta_second = sample(PERF_COUNTER_DELTA, 19, 0, 0);
    assert_eq!(formula(&delta_first, Some(&delta_second)), Ok(Formula::Delta(12)));
    let text = sample(PERF_COUNTER_TEXT, 0, 0, 0);
    assert_eq!(formula(&text, None), Err(CalculationError::UnknownType));
}

#[test]
fn bad_data_is_reported() {
    let first = sample(PERF_COUNTER_COUNTER, 300, 1000, 10);
    let second = sample(PERF_COUNTER_COUNTER, 100, 3000, 10);
    assert_eq!(formula(&first, Some(&second)), Err(CalculationError::DataOutOfOrder { first: 300, second: 100 }));
    let multi_first = sample(PERF_COUNTER_MULTI_TIMER, 1, 10, 0);
    let multi_second = sample(PERF_COUNTER_MULTI_TIMER, 5, 20, 0);
    assert_eq!(formula(&multi_first, Some(&multi_second)), Err(CalculationError::NoFrequency));
}

fn definition(counter_type: u32, offset: u32) -> PERF_COUNTER_DEFINITION {
    PERF_COUNTER_DEFINITION {
        ByteLength: 40,
        CounterNameTitleIndex: 0,
        CounterNameTitle: 0,
        CounterHelpTitleIndex: 0,
        CounterHelpTitle: 0,
        DefaultScale: 0,
        DetailLevel: 100,
        CounterType: counter_type,
        CounterSize: 4,
        CounterOffset: offset,
    }
}

#[test]
fn raw_fraction_reads_the_next_counter_as_base() {
    let perf_data = PERF_DATA_BLOCK {
        Signature: [80, 69, 82, 70],
        LittleEndian: 1,
        Version: 1,
        Revision: 1,
        TotalByteLength: 0,
        HeaderLength: 0,
        NumObjectTypes: 1,
        DefaultObject: 0,
        SystemTime: [0; 8],
        PerfTime: 0,
        PerfFreq: 0,
        PerfTime100nSec: 0,
        SystemNameLength: 0,
        SystemNameOffset: 0,
    };
    let object = PERF_OBJECT_TYPE {
        TotalByteLength: 0,
        DefinitionLength: 0,
        HeaderLength: 0,
        ObjectNameTitleIndex: 0,
        ObjectNameTitle: 0,
        ObjectHelpTitleIndex: 0,
        ObjectHelpTitle: 0,
        DetailLevel: 100,
        NumCounters: 2,
        DefaultCounter: 0,
        NumInstances: -1,
        CodePage: 0,
        PerfTime: 0,
        PerfFreq: 0,
    };
    let mut block = vec![12u8, 0, 0, 0];
    block.extend_from_slice(&25u32.to_le_bytes());
    block.extend_from_slice(&100u32.to_le_bytes());
    let counters = [definition(PERF_RAW_FRACTION, 4), definition(PERF_RAW_BASE, 8)];
    let s = get_sample(&perf_data, &object, &counters, 0, &block).unwrap();
    assert_eq!(s.Data, 25);
    assert_eq!(s.Time, 100);
    assert_eq!(formula(&s, None), Ok(Formula::RawFraction { data: 25, base: 100 }));
    // the next counter is no base counter
    let counters = [definition(PERF_RAW_FRACTION, 4), definition(PERF_COUNTER_RAWCOUNT, 8)];
    assert!(get_sample(&perf_data, &object, &counters, 0, &block).is_err());
}
