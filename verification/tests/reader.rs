use asitop::powermetrics::{GpuMetrics, RawSnapshot};
use asitop::reader::{newest_snapshot, PowermetricsReader, ReadError, ReadPlan};
use std::cell::RefCell;

/// A stand-in for a real snapshot: `ok` and its number.
fn decode(chunk: &[u8]) -> Option<RawSnapshot<u32>> {
    let text = std::str::from_utf8(chunk).ok()?;
    let number: i128 = text.strip_prefix("ok")?.parse().ok()?;
    Some(RawSnapshot {
        timestamp: number,
        thermal_pressure: text.to_string(),
        clusters: vec![],
        cpu_w: 1,
        gpu_w: 2,
        ane_w: 3,
        package_w: 4,
        gpu: GpuMetrics { active_pct: 0, freq_mhz: 0 },
    })
}

fn newest(bytes: &[u8]) -> Option<i128> {
    newest_snapshot(bytes, decode).map(|raw| raw.timestamp)
}

#[test]
fn newest_stretch_that_decodes_wins() {
    assert_eq!(newest(b"ok1\0ok2\0ok3"), Some(3));
    assert_eq!(newest(b"ok1\0ok2\0ok3\0"), Some(3));
    assert_eq!(newest(b"ok1\0ok2\0partial"), Some(2));
    assert_eq!(newest(b"cut off\0ok2\0\0\0"), Some(2));
    assert_eq!(newest(b"ok7"), Some(7));
}

#[test]
fn nothing_decodes() {
    assert_eq!(newest(b""), None);
    assert_eq!(newest(b"\0\0"), None);
    assert_eq!(newest(b"a\0b"), None);
}

#[test]
fn stretches_are_tried_newest_first_and_once() {
    let tried: RefCell<Vec<Vec<u8>>> = RefCell::new(Vec::new());
    let found = newest_snapshot(b"\0one\0\0two\0three\0", |chunk: &[u8]| {
        tried.borrow_mut().push(chunk.to_vec());
        if chunk == b"one" { decode(b"ok1") } else { None }
    });
    assert_eq!(found.map(|raw| raw.timestamp), Some(1));
    assert_eq!(
        tried.into_inner(),
        vec![b"three".to_vec(), b"two".to_vec(), b"one".to_vec()]
    );
}

#[test]
fn same_order_as_splitting() {
    let bytes = b"a\0\0bc\0d\0\0\0ef";
    let tried: RefCell<Vec<Vec<u8>>> = RefCell::new(Vec::new());
    let found = newest_snapshot::<u32, _>(bytes, |chunk: &[u8]| {
        tried.borrow_mut().push(chunk.to_vec());
        None
    });
    assert!(found.is_none());
    let split: Vec<Vec<u8>> = bytes
        .split(|b| *b == 0)
        .rev()
        .filter(|c| !c.is_empty())
        .map(|c| c.to_vec())
        .collect();
    assert_eq!(tried.into_inner(), split);
}

#[test]
fn reader_follows_the_timecode() {
    let mut reader = PowermetricsReader::new("5");
    assert_eq!(reader.path(), "/tmp/asitop_powermetrics5");
    assert_eq!(reader.plan_read(Some(10)), ReadPlan::From(0));
    reader.set_timecode("6");
    assert_eq!(reader.path(), "/tmp/asitop_powermetrics6");
    assert_eq!(reader.plan_read(Some(10)), ReadPlan::From(0));
}

#[test]
fn unchanged_empty_and_missing_files_are_left_alone() {
    let mut reader = PowermetricsReader::new("5");
    assert_eq!(reader.plan_read(None), ReadPlan::Skip);
    assert_eq!(reader.plan_read(Some(0)), ReadPlan::Skip);
    assert_eq!(reader.plan_read(Some(10)), ReadPlan::From(0));
    assert_eq!(reader.plan_read(Some(10)), ReadPlan::Skip);
    assert_eq!(reader.plan_read(None), ReadPlan::Skip);
    assert_eq!(reader.plan_read(Some(0)), ReadPlan::Skip);
    assert_eq!(reader.plan_read(Some(10)), ReadPlan::Skip);
    assert_eq!(reader.plan_read(Some(9)), ReadPlan::From(0));
}

#[test]
fn only_the_end_of_a_long_file_is_read() {
    let mut reader = PowermetricsReader::new("5");
    assert_eq!(reader.plan_read(Some(1 << 20)), ReadPlan::From(0));
    assert_eq!(reader.plan_read(Some((1 << 20) + 1)), ReadPlan::From(1));
    assert_eq!(reader.plan_read(Some(u64::MAX)), ReadPlan::From(u64::MAX - (1 << 20)));
}

#[test]
fn reading_is_converted() {
    let mut reader = PowermetricsReader::new("5");
    let reading = reader.parse(b"ok1\0ok4\0".to_vec(), false, decode).unwrap().unwrap();
    assert_eq!(reading.timestamp, 4);
    assert_eq!(reading.thermal_pressure, "ok4");
    assert_eq!(reading.cpu.package_w, 4);
}

#[test]
fn failed_reads_count_only_without_bytes() {
    let mut reader = PowermetricsReader::new("5");
    assert_eq!(reader.parse(vec![], true, decode).unwrap_err(), ReadError::Unreadable);
    assert!(reader.parse(vec![], false, decode).unwrap().is_none());
    assert_eq!(reader.parse(b"ok9".to_vec(), true, decode).unwrap().unwrap().timestamp, 9);
    assert!(reader.parse(b"zz".to_vec(), true, decode).unwrap().is_none());
}

#[test]
fn buffer_is_handed_out_empty() {
    let mut reader = PowermetricsReader::new("5");
    let buffer = reader.take_buffer();
    assert!(buffer.is_empty());
    assert!(buffer.capacity() >= 1 << 20);
    reader.parse(b"ok9".to_vec(), false, decode).unwrap();
    assert!(reader.take_buffer().is_empty());
}

#[test]
fn end_of_the_file_is_enough() {
    let whole = b"ok1\0ok2\0ok3\0unfinished";
    assert_eq!(newest(whole), Some(3));
    for cut in 0..9 {
        assert_eq!(newest(&whole[cut..]), Some(3));
    }
    assert_eq!(newest(b"older\0ok8"), newest(b"ok8"));
    assert_eq!(newest(b"ok8\0newer"), newest(b"ok8"));
}

/// What a fresh reader makes of a whole file.
fn reading_of_file(file: &[u8]) -> Option<i128> {
    let mut reader = PowermetricsReader::new("5");
    match reader.plan_read(Some(file.len() as u64)) {
        ReadPlan::Skip => None,
        ReadPlan::From(start) => {
            let read = file[start as usize..].to_vec();
            reader.parse(read, false, decode).unwrap().map(|reading| reading.timestamp)
        }
    }
}

#[test]
fn older_bytes_have_no_effect() {
    let mut file = vec![b'x'; (1 << 20) + 10];
    file[..5].copy_from_slice(b"ok1\0\0");
    let mut other = file.clone();
    other[..10].copy_from_slice(b"ok2\0ok3\0zz");
    assert_eq!(reading_of_file(&file), None);
    assert_eq!(reading_of_file(&other), None);
    for f in [&mut file, &mut other] {
        let end = f.len();
        f[end - 9..].copy_from_slice(b"\0ok4\0part");
    }
    assert_eq!(reading_of_file(&file), Some(4));
    assert_eq!(reading_of_file(&other), Some(4));
}

#[test]
fn byte_at_the_limit_counts() {
    let mut file = vec![0u8; (1 << 20) + 1];
    file[..4].copy_from_slice(b"xok7");
    assert_eq!(reading_of_file(&file), Some(7));
    assert_eq!(reading_of_file(&file[1..]), Some(7));
    file.push(0);
    assert_eq!(reading_of_file(&file), None);
}
