use windows_rust_counters::rx::DeduplicateRx;
use std::sync::atomic::{AtomicBool, Ordering};
use std::sync::Arc;
use windows_rust_counters::morse::{Dialect, EncoderTx, ITU};
use windows_rust_counters::pair::pair;
use windows_rust_counters::rtsm::{RtsmRanges, RtsmRx, RtsmTx, Signal, OFF, ON};
use windows_rust_counters::rtsm_proto::RtsmProto;
use windows_rust_counters::rx::{IteratorRx, Rx};
use windows_rust_counters::signal_error::SignalError;
use windows_rust_counters::tx::{Tx, TxExt, VecCollectorTx};

const SIGNAL: &[Signal] = &[ON, OFF, ON, OFF, OFF, ON, ON, ON, OFF, OFF, OFF, OFF, OFF];
const VALUES: &[i32] = &[50, 0, 50, 0, 1, 50, 51, 50, 1, 2, 0, 1, 2];

fn ranges() -> RtsmRanges<i32> {
    RtsmRanges::new(0..3, 50..52).unwrap()
}

#[test]
fn lib_test_encode() {
    // off: 50, 51
    // on: 0, 1, 2
    let mut p = RtsmProto::new(50..52, 0..3);
    let mut encoded = vec![p.value()];
    for &s in SIGNAL {
        encoded.push(p.encode(s));
    }
    let mut expected = vec![0];
    expected.extend_from_slice(VALUES);
    assert_eq!(encoded, expected);
}

#[test]
fn lib_test_decode() {
    let mut p = RtsmProto::new(50..52, 0..3);
    let mut res = Vec::new();
    for &v in VALUES {
        match p.decode(v) {
            Ok(None) => {}
            Ok(Some(signal)) => res.push(signal),
            Err(e) => panic!("unexpected value {}", e),
        }
    }
    assert_eq!(res, SIGNAL);
}

#[test]
fn rtsm_test_encode() {
    let (tx, rx) = pair();
    let mut rtsm = RtsmTx::new(ranges(), tx);
    rtsm.send_all(SIGNAL.to_vec()).unwrap();
    drop(rtsm);

    let encoded = rx.collect_vec().unwrap();
    assert_eq!(encoded, VALUES);
}

#[test]
fn rtsm_test_decode() {
    let rx = IteratorRx::new(VALUES.to_vec());
    let rtsm = RtsmRx::new(ranges(), rx);
    let decoded = rtsm.collect_vec().unwrap();
    assert_eq!(decoded, SIGNAL);
}

#[test]
fn test_deduplication() {
    const VALUES_DUP: &[i32] = &[11, 11, 12, 13, 13, 13, 11];
    const SIGNAL_DUP: &[Signal] = &[ON, ON, ON, ON];

    let ranges = RtsmRanges::new(0..10, 10..20).unwrap();
    let rx = IteratorRx::new(VALUES_DUP.to_vec());
    let rtsm = RtsmRx::new(ranges, rx);

    let res = rtsm.collect_vec().unwrap();
    assert_eq!(res, SIGNAL_DUP);
}

#[test]
fn test_rtsm_tx() {
    let (tx, rx) = pair();
    let ranges = RtsmRanges::new(0..10, 20..30).unwrap();
    let mut rtsm = RtsmTx::new(ranges, tx);

    const SIGNAL3: &[Signal] = &[ON, ON, ON, OFF];
    rtsm.send_all(SIGNAL3.to_vec()).unwrap();
    drop(rtsm);

    let vec = rx.collect_vec().unwrap();
    assert_eq!(vec, &[20, 21, 22, 0]);
}

#[test]
fn test_rtsm_rx_error() {
    let (mut tx, rx) = pair();
    let ranges = RtsmRanges::<u32>::new(0..10, 20..30).unwrap();
    let mut rtsm = RtsmRx::new(ranges, rx);

    tx.send(99).unwrap();
    drop(tx);

    let res = rtsm.recv();
    match res {
        Err(SignalError::RtsmDecode(v)) => assert_eq!(v, 99),
        _ => panic!("expected a decode error"),
    }
}

#[test]
fn test_mpsc() {
    let (mut sender, mut receiver) = pair();

    sender.send(12).unwrap();
    sender.send(42).unwrap();
    sender.send(37).unwrap();
    drop(sender);

    assert!(matches!(receiver.recv(), Ok(Some(12))));
    let vec = receiver.collect_vec();
    assert!(matches!(vec, Ok(_)));
    assert_eq!(vec.unwrap(), &[42, 37]);
}

#[test]
fn invalid_ranges_are_refused() {
    assert!(RtsmRanges::new(0..2, 1..5).is_err());
    assert!(RtsmRanges::new(0..1, 5..9).is_err());
    assert!(RtsmRanges::new(5..3, 6..9).is_err());
    assert!(RtsmRanges::new(0..2, 2..4).is_ok());
    assert!(RtsmRanges::new(10..40, 60..90).is_ok());
}

#[test]
fn roundtrip_through_both_ends() {
    let signal = vec![ON, ON, ON, ON, ON, OFF, OFF, ON, OFF, OFF, OFF, OFF, ON];
    let mut tx = RtsmTx::new(RtsmRanges::new(10u8..13, 60..62).unwrap(), VecCollectorTx::new(Vec::new()));
    tx.send_all(signal.clone()).unwrap();
    let values = tx.into_inner().into_buffer();
    let rx = RtsmRx::new(RtsmRanges::new(10u8..13, 60..62).unwrap(), IteratorRx::new(values));
    assert_eq!(rx.collect_vec().unwrap(), signal);
}

#[test]
fn values_wrap_at_the_end_of_the_type() {
    let mut tx = RtsmTx::new(
        RtsmRanges::new(0u8..10, 250u8..255).unwrap(),
        VecCollectorTx::new(Vec::new()),
    );
    tx.send_all(vec![ON, ON, ON, ON, ON, ON, ON]).unwrap();
    assert_eq!(tx.into_inner().into_buffer(), vec![250, 251, 252, 253, 254, 250, 251]);
}

#[test]
fn test_custom() {
    let side_effect = std::cell::Cell::new(0i32);
    let mut tx = windows_rust_counters::tx::CustomTx::new(|value: i32| {
        side_effect.set(value);
        Ok(())
    });
    tx.send(42).unwrap();
    tx.send(37).unwrap();
    drop(tx);

    assert_eq!(side_effect.get(), 37);
}

#[test]
fn cancelled_transmitter_refuses_values() {
    let token = Arc::new(AtomicBool::new(false));
    let mut tx = windows_rust_counters::tx::CancellableTx::new(Arc::clone(&token), VecCollectorTx::new(Vec::new()));
    assert!(matches!(tx.send_unless_cancelled(true, 1), Err(SignalError::Cancelled)));
    assert!(tx.send_unless_cancelled(false, 2).is_ok());
    assert!(tx.send(3).is_ok());
    token.store(true, Ordering::Relaxed);
    assert!(matches!(tx.send(4), Err(SignalError::Cancelled)));
}

#[test]
fn dialect_encoder_sends_signals() {
    let mut encoder = ITU::encoder(VecCollectorTx::new(Vec::new()));
    encoder.send('e').unwrap();
    assert_eq!(encoder.into_inner().into_buffer(), EncoderTx::<ITU, ()>::encode_str("e"));
}

#[test]
fn value_outside_both_ranges_resets_the_protocol() {
    let mut p: RtsmProto<i32> = RtsmProto::new(60..90, 10..40);
    assert_eq!(p.decode(70), Ok(Some(ON)));
    assert_eq!(p.value(), 70);
    assert_eq!(p.decode(50), Err(50));
    assert_eq!(p.signal(), None);
    assert_eq!(p.value(), 10);
    // the same value again is decoded afresh
    assert_eq!(p.decode(70), Ok(Some(ON)));
}

#[test]
fn fused_receiver_ends_after_an_error() {
    // 5 is off, 100 lies in neither range, 55 is on
    let ranges = RtsmRanges::new(0..10, 50..60).unwrap();
    let inner = RtsmRx::new(ranges, IteratorRx::new(vec![5, 100, 55]));
    let mut fused = inner.fuse();
    assert_eq!(fused.recv().ok(), Some(Some(OFF)));
    assert_eq!(fused.recv().ok(), Some(None));
    assert_eq!(fused.recv().ok(), Some(None));
}

#[test]
fn deduplicated_values_have_no_equal_neighbours() {
    let mut rx = DeduplicateRx::new(IteratorRx::new(vec![1, 1, 2, 2, 2, 1, 3, 3, 3]));
    let mut out = Vec::new();
    while let Ok(Some(v)) = rx.recv() {
        out.push(v);
    }
    assert_eq!(out, vec![1, 2, 1, 3]);
    assert!(out.windows(2).all(|w| w[0] != w[1]));
}
