use windows_rust_counters::error::WinError;
use windows_rust_counters::perf::nom::{perf_data_block, perf_object_type, PerfObjectData};
use windows_rust_counters::perf::provide::{
    build_object, layout_of_counters, parse_query, CachingPerfProvider, PerfClock, PerfCounterDefinitionTemplate,
    PerfInstanceDefinitionTemplate, PerfObjectTypeTemplate, PerfProvider, PerfTimeProvider,
    QueryType, ZeroTimeProvider,
};
use windows_rust_counters::perf::types::{
    CounterTypeDefinition, Size, PERF_COUNTER_LARGE_RAWCOUNT, PERF_COUNTER_RAWCOUNT,
};
use windows_rust_counters::perf::values::CounterValue;

fn wide(s: &str) -> Vec<u16> {
    s.encode_utf16().collect()
}

fn raw_count() -> CounterTypeDefinition {
    CounterTypeDefinition::from_raw(PERF_COUNTER_RAWCOUNT).unwrap()
}

struct BasicPerfProvider {
    timer: ZeroTimeProvider,
    objects: Vec<PerfObjectTypeTemplate>,
    counters: Vec<PerfCounterDefinitionTemplate>,
    base: u32,
}

impl BasicPerfProvider {
    fn new(objects: Vec<PerfObjectTypeTemplate>, counters: Vec<PerfCounterDefinitionTemplate>) -> Self {
        Self { timer: ZeroTimeProvider, objects, counters, base: 0 }
    }
}

impl PerfProvider for BasicPerfProvider {
    fn first_counter(&mut self, _for_object: &PerfObjectTypeTemplate) -> Result<u32, WinError> {
        Ok(self.base)
    }

    fn objects(&self) -> Vec<PerfObjectTypeTemplate> {
        self.objects.clone()
    }

    fn time(&self, _for_object: &PerfObjectTypeTemplate) -> PerfClock {
        self.timer.get_time()
    }

    fn counters(&self, _for_object: &PerfObjectTypeTemplate) -> Vec<PerfCounterDefinitionTemplate> {
        self.counters.clone()
    }

    fn instances(&self, _for_object: &PerfObjectTypeTemplate) -> Option<Vec<PerfInstanceDefinitionTemplate>> {
        None
    }

    fn data(
        &self,
        _for_object: &PerfObjectTypeTemplate,
        per_counter: &PerfCounterDefinitionTemplate,
        _per_instance: Option<&PerfInstanceDefinitionTemplate>,
        _now: PerfClock,
    ) -> CounterValue {
        match per_counter.counter_type.size() {
            Size::Dword => CounterValue::Dword(42),
            Size::Large => CounterValue::Large(37),
            _ => CounterValue::Zero,
        }
    }
}

struct InstancesPerfProvider {
    timer: ZeroTimeProvider,
    objects: Vec<PerfObjectTypeTemplate>,
    counters: Vec<PerfCounterDefinitionTemplate>,
    instances: Vec<String>,
}

impl PerfProvider for InstancesPerfProvider {
    fn first_counter(&mut self, _for_object: &PerfObjectTypeTemplate) -> Result<u32, WinError> {
        Ok(0)
    }

    fn objects(&self) -> Vec<PerfObjectTypeTemplate> {
        self.objects.clone()
    }

    fn time(&self, _for_object: &PerfObjectTypeTemplate) -> PerfClock {
        self.timer.get_time()
    }

    fn counters(&self, _for_object: &PerfObjectTypeTemplate) -> Vec<PerfCounterDefinitionTemplate> {
        self.counters.clone()
    }

    fn instances(&self, _for_object: &PerfObjectTypeTemplate) -> Option<Vec<PerfInstanceDefinitionTemplate>> {
        Some(
            self.instances
                .iter()
                .enumerate()
                .map(|(id, name)| PerfInstanceDefinitionTemplate::new(wide(name)).with_unique_id(id as i32))
                .collect(),
        )
    }

    fn data(
        &self,
        _for_object: &PerfObjectTypeTemplate,
        _per_counter: &PerfCounterDefinitionTemplate,
        per_instance: Option<&PerfInstanceDefinitionTemplate>,
        _now: PerfClock,
    ) -> CounterValue {
        match per_instance {
            Some(instance) => CounterValue::Dword((2 * instance.UniqueID) as u32),
            None => CounterValue::Dword(42),
        }
    }
}

#[test]
fn test_no_instances() {
    let mut provider = BasicPerfProvider::new(
        vec![PerfObjectTypeTemplate::new(0)],
        vec![PerfCounterDefinitionTemplate::new(2, raw_count())],
    );
    let mut buffer = vec![0u8; 10 * 1024];
    let collected = provider.collect(QueryType::Global, buffer.as_mut_slice()).unwrap();
    assert_eq!(collected.num_object_types, 1);
    let buffer_slice = &buffer[..collected.total_bytes];

    let (rest, obj) = perf_object_type(buffer_slice).unwrap();
    assert_eq!(&buffer_slice[rest..], &b""[..]);
    assert_eq!(obj.counters.len(), 1);
    let counter = &obj.counters[0];
    assert_eq!(counter.raw.CounterNameTitleIndex, 2);
}

#[test]
fn test_instances() {
    let mut provider = InstancesPerfProvider {
        timer: ZeroTimeProvider,
        objects: vec![PerfObjectTypeTemplate::new(0)],
        counters: vec![PerfCounterDefinitionTemplate::new(2, raw_count())],
        instances: vec!["first".to_string(), "second".to_string()],
    };

    let mut buffer = vec![0u8; 10 * 1024];
    let collected = provider.collect(QueryType::Global, buffer.as_mut_slice()).unwrap();

    assert_eq!(collected.num_object_types, 1);
    let buffer_slice = &buffer[..collected.total_bytes];

    let (rest, obj) = perf_object_type(buffer_slice).unwrap();
    assert_eq!(&buffer_slice[rest..], &b""[..]);
    assert_eq!(obj.counters.len(), 1);
    let counter = &obj.counters[0];
    assert_eq!(counter.raw.CounterNameTitleIndex, 2);

    assert!(matches!(&obj.data, PerfObjectData::Instances(..)));
    let instances = obj.data.instances().unwrap();
    assert_eq!(instances.len(), 2);
    for (instance, block) in instances {
        match instance.raw.UniqueID {
            0 => {
                assert_eq!(String::from_utf16_lossy(&instance.name), "first");
                assert!(matches!(CounterValue::try_get(counter, block), Ok(CounterValue::Dword(0))));
            }
            1 => {
                assert_eq!(String::from_utf16_lossy(&instance.name), "second");
                assert!(matches!(CounterValue::try_get(counter, block), Ok(CounterValue::Dword(2))));
            }
            _ => unreachable!(),
        }
    }
}

#[test]
fn singleton_value_reads_back() {
    let mut provider = BasicPerfProvider::new(
        vec![PerfObjectTypeTemplate::new(10)],
        vec![
            PerfCounterDefinitionTemplate::new(2, raw_count()),
            PerfCounterDefinitionTemplate::new(4, CounterTypeDefinition::from_raw(PERF_COUNTER_LARGE_RAWCOUNT).unwrap()),
        ],
    );
    provider.base = 1000;
    let mut buffer = vec![0u8; 1024];
    let collected = provider.collect(QueryType::Global, buffer.as_mut_slice()).unwrap();
    let (end, obj) = perf_object_type(&buffer[..collected.total_bytes]).unwrap();
    assert_eq!(end, collected.total_bytes);
    assert_eq!(obj.raw.ObjectNameTitleIndex, 1010);
    assert_eq!(obj.raw.ObjectHelpTitleIndex, 1011);
    assert_eq!(obj.raw.NumInstances, -1);
    assert_eq!(obj.counters[1].raw.CounterNameTitleIndex, 1004);
    assert_eq!(obj.counters[1].raw.CounterOffset, 8);
    let block = obj.data.singleton().unwrap();
    assert_eq!(block.len(), 16);
    assert!(matches!(CounterValue::try_get(&obj.counters[0], block), Ok(CounterValue::Dword(42))));
    assert!(matches!(CounterValue::try_get(&obj.counters[1], block), Ok(CounterValue::Large(37))));
}

#[test]
fn small_buffer_is_more_data() {
    let mut provider = BasicPerfProvider::new(
        vec![PerfObjectTypeTemplate::new(0)],
        vec![PerfCounterDefinitionTemplate::new(2, raw_count())],
    );
    let mut buffer = vec![0u8; 16];
    let err = provider.collect(QueryType::Global, buffer.as_mut_slice()).err().unwrap();
    assert_eq!(err.error_code(), 234);
}

#[test]
fn items_query_picks_objects_by_name_index() {
    let mut provider = BasicPerfProvider::new(
        vec![PerfObjectTypeTemplate::new(0), PerfObjectTypeTemplate::new(6)],
        vec![PerfCounterDefinitionTemplate::new(2, raw_count())],
    );
    provider.base = 100;
    let mut buffer = vec![0u8; 4096];
    let query = parse_query("106 7").unwrap();
    let collected = provider.collect(query, buffer.as_mut_slice()).unwrap();
    assert_eq!(collected.num_object_types, 1);
    let (_, obj) = perf_object_type(&buffer[..collected.total_bytes]).unwrap();
    assert_eq!(obj.raw.ObjectNameTitleIndex, 106);

    let collected = provider.collect(QueryType::Costly, buffer.as_mut_slice()).unwrap();
    assert_eq!(collected.num_object_types, 0);
    assert_eq!(collected.total_bytes, 0);
}

#[test]
fn queries_parse() {
    assert!(matches!(parse_query(""), Ok(QueryType::Global)));
    assert!(matches!(parse_query("Global"), Ok(QueryType::Global)));
    assert!(matches!(parse_query("Costly"), Ok(QueryType::Costly)));
    assert!(matches!(parse_query("Foreign"), Ok(QueryType::Foreign)));
    match parse_query("  2 +4\t 4294967295 ") {
        Ok(QueryType::Items(items)) => assert_eq!(items, vec![2, 4, 4294967295]),
        _ => panic!("items expected"),
    }
    assert!(parse_query("2 x").is_err());
    assert!(parse_query("4294967296").is_err());
    assert!(parse_query("+").is_err());
    assert!(parse_query("global").is_err());
}

#[test]
fn caching_provider_asks_once() {
    let inner = BasicPerfProvider::new(
        vec![PerfObjectTypeTemplate::new(0)],
        vec![PerfCounterDefinitionTemplate::new(2, raw_count())],
    );
    let mut provider = CachingPerfProvider::new(inner);
    let object = PerfObjectTypeTemplate::new(0);
    assert_eq!(provider.first_counter(&object).unwrap(), 0);
    assert_eq!(provider.first_counter(&object).unwrap(), 0);
    let mut buffer = vec![0u8; 4096];
    let collected = provider.collect(QueryType::Global, buffer.as_mut_slice()).unwrap();
    assert_eq!(collected.num_object_types, 1);
}

#[test]
fn data_block_holds_system_name_and_objects() {
    let mut provider = BasicPerfProvider::new(
        vec![PerfObjectTypeTemplate::new(10)],
        vec![PerfCounterDefinitionTemplate::new(2, raw_count())],
    );
    let mut objects = vec![0u8; 1024];
    let collected = provider.collect(QueryType::Global, objects.as_mut_slice()).unwrap();
    let objects = &objects[..collected.total_bytes];

    let name: Vec<u8> = wide("HOST\u{0}").iter().flat_map(|u| u.to_le_bytes()).collect();
    let header_length = 104u32;
    let total = header_length + objects.len() as u32;
    let mut block: Vec<u8> = Vec::new();
    for u in wide("PERF") {
        block.extend_from_slice(&u.to_le_bytes());
    }
    for field in [1u32, 1, 1, total, header_length, 1] {
        block.extend_from_slice(&field.to_le_bytes());
    }
    block.extend_from_slice(&(-1i32).to_le_bytes());
    block.extend_from_slice(&[0u8; 16]);
    block.extend_from_slice(&[0u8; 4]);
    for field in [7i64, 1000, 0] {
        block.extend_from_slice(&field.to_le_bytes());
    }
    block.extend_from_slice(&(name.len() as u32).to_le_bytes());
    block.extend_from_slice(&88u32.to_le_bytes());
    assert_eq!(block.len(), 88);
    block.extend_from_slice(&name);
    block.resize(header_length as usize, 0);
    block.extend_from_slice(objects);

    let (end, data) = perf_data_block(&block).unwrap();
    assert_eq!(end, block.len());
    assert_eq!(String::from_utf16_lossy(&data.system_name), "HOST");
    assert_eq!(data.raw.PerfTime, 7);
    assert_eq!(data.raw.PerfFreq, 1000);
    assert_eq!(data.object_types.len(), 1);
    assert_eq!(data.object_types[0].raw.ObjectNameTitleIndex, 10);
    assert_eq!(data.object_types[0].counters[0].raw.CounterNameTitleIndex, 2);
}

#[test]
fn small_buffer_is_left_unchanged() {
    let mut provider = BasicPerfProvider::new(
        vec![PerfObjectTypeTemplate::new(0)],
        vec![PerfCounterDefinitionTemplate::new(2, raw_count())],
    );
    let mut buffer = vec![7u8; 100];
    let err = provider.collect(QueryType::Global, buffer.as_mut_slice()).err().unwrap();
    assert_eq!(err.error_code(), 234);
    assert!(buffer.iter().all(|b| *b == 7));
}

#[test]
fn collect_leaves_the_rest_of_the_buffer() {
    let mut provider = BasicPerfProvider::new(
        vec![PerfObjectTypeTemplate::new(0)],
        vec![PerfCounterDefinitionTemplate::new(2, raw_count())],
    );
    let mut buffer = vec![7u8; 1024];
    let collected = provider.collect(QueryType::Global, buffer.as_mut_slice()).unwrap();
    assert!(collected.total_bytes < 1024);
    assert!(buffer[collected.total_bytes..].iter().all(|b| *b == 7));
}

#[test]
fn collect_object_writes_at_its_offset() {
    let mut provider = BasicPerfProvider::new(
        vec![PerfObjectTypeTemplate::new(0)],
        vec![PerfCounterDefinitionTemplate::new(2, raw_count())],
    );
    provider.base = 10;
    let object = PerfObjectTypeTemplate::new(0);
    let now = PerfClock { PerfTime: 5, PerfFreq: 1000 };
    let mut buffer = vec![9u8; 1024];
    let length = provider.collect_object(&object, now, buffer.as_mut_slice(), 8).unwrap();
    assert!(buffer[..8].iter().all(|b| *b == 9));
    assert!(buffer[8 + length..].iter().all(|b| *b == 9));
    let (rest, obj) = perf_object_type(&buffer[8..8 + length]).unwrap();
    assert_eq!(rest, length);
    assert_eq!(obj.raw.ObjectNameTitleIndex, 10);
    assert_eq!(obj.raw.PerfTime, 5);

    let mut small = vec![9u8; 40];
    let err = provider.collect_object(&object, now, small.as_mut_slice(), 8).err().unwrap();
    assert_eq!(err.error_code(), 234);
    assert!(small.iter().all(|b| *b == 9));
}

#[test]
fn build_object_lays_out_from_the_first_counter() {
    let object = PerfObjectTypeTemplate::new(4);
    let counters = vec![PerfCounterDefinitionTemplate::new(2, raw_count())];
    let rows = vec![vec![CounterValue::Dword(42)]];
    let now = PerfClock { PerfTime: 0, PerfFreq: 0 };
    let bytes = build_object(&object, 200, counters.as_slice(), None, rows.as_slice(), now, 4096).unwrap();
    // header, one counter definition, a counter block of 4 + 4 bytes, aligned to 8
    assert_eq!(bytes.len(), 64 + 40 + 8);
    let (rest, obj) = perf_object_type(&bytes).unwrap();
    assert_eq!(rest, bytes.len());
    assert_eq!(obj.raw.ObjectNameTitleIndex, 204);
    assert_eq!(obj.raw.ObjectHelpTitleIndex, 205);
    assert_eq!(obj.counters[0].raw.CounterNameTitleIndex, 202);
    assert_eq!(obj.raw.NumInstances, -1);
}

#[test]
fn build_object_errors() {
    let object = PerfObjectTypeTemplate::new(0);
    let counters = vec![PerfCounterDefinitionTemplate::new(2, raw_count())];
    let now = PerfClock { PerfTime: 0, PerfFreq: 0 };
    // the object does not fit in the room left
    let rows = vec![vec![CounterValue::Dword(42)]];
    let err = build_object(&object, 0, counters.as_slice(), None, rows.as_slice(), now, 111).err().unwrap();
    assert_eq!(err.error_code(), 234);
    assert!(build_object(&object, 0, counters.as_slice(), None, rows.as_slice(), now, 112).is_ok());
    // a value of the wrong size
    let rows = vec![vec![CounterValue::Large(42)]];
    let err = build_object(&object, 0, counters.as_slice(), None, rows.as_slice(), now, 4096).err().unwrap();
    assert_eq!(err.error_code(), 5);
    // an instance name with a nul
    let instances = vec![PerfInstanceDefinitionTemplate::new(vec![65, 0, 66])];
    let rows = vec![vec![CounterValue::Dword(1)]];
    let err = build_object(&object, 0, counters.as_slice(), Some(instances.as_slice()), rows.as_slice(), now, 4096)
        .err()
        .unwrap();
    assert_eq!(err.error_code(), 5);
    // first counter too large for the name index
    let rows = vec![vec![CounterValue::Dword(1)]];
    let err = build_object(&object, u32::MAX, counters.as_slice(), None, rows.as_slice(), now, 4096).err().unwrap();
    assert_eq!(err.error_code(), 5);
}

#[test]
fn build_object_with_instances() {
    let object = PerfObjectTypeTemplate::new(0);
    let counters = vec![PerfCounterDefinitionTemplate::new(2, raw_count())];
    let now = PerfClock { PerfTime: 0, PerfFreq: 0 };
    let instances = vec![
        PerfInstanceDefinitionTemplate::new(wide("a")).with_unique_id(0),
        PerfInstanceDefinitionTemplate::new(wide("bc")).with_unique_id(1),
    ];
    let rows = vec![vec![CounterValue::Dword(3)], vec![CounterValue::Dword(4)]];
    let bytes = build_object(&object, 0, counters.as_slice(), Some(instances.as_slice()), rows.as_slice(), now, 4096)
        .unwrap();
    let (rest, obj) = perf_object_type(&bytes).unwrap();
    assert_eq!(rest, bytes.len());
    assert_eq!(obj.raw.NumInstances, 2);
    assert_eq!(bytes.len() % 8, 0);
}

#[test]
fn counters_block_buffer_writes_values_in_place() {
    let counters = vec![
        PerfCounterDefinitionTemplate::new(2, raw_count()),
        PerfCounterDefinitionTemplate::new(4, CounterTypeDefinition::from_raw(PERF_COUNTER_LARGE_RAWCOUNT).unwrap()),
    ];
    let template = layout_of_counters(10, &counters);
    let defs = template.counters().to_vec();
    let mut block = template.block_buffer().unwrap();
    assert_eq!(block.len(), 16);
    assert_eq!(block.write(&defs[0], &CounterValue::Dword(0x0102_0304)), Ok(()));
    assert_eq!(block.write(&defs[1], &CounterValue::Large(7)), Ok(()));
    // a value of another size than its counter's is refused
    assert_eq!(block.write(&defs[0], &CounterValue::Large(1)), Err(()));
    let bytes = block.into_bytes();
    assert_eq!(bytes, vec![16, 0, 0, 0, 4, 3, 2, 1, 7, 0, 0, 0, 0, 0, 0, 0]);
    let values = [CounterValue::Dword(0x0102_0304), CounterValue::Large(7)];
    assert_eq!(template.block(&values), Some(bytes));
}
