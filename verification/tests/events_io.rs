use rust_maphf_sandbox::generator::events::{trade_flags, TradeStamp};
use rust_maphf_sandbox::io::{decode_bin, encode_bin, encode_npy, encode_npy_header, EventRecord};
use rust_maphf_sandbox::types::MarketState;

#[test]
fn trade_flags_combine_trade_exchange_local_and_side() {
    assert_eq!(trade_flags(true), 0xE000_0002);
    assert_eq!(trade_flags(false), 0xD000_0002);
    assert_eq!(trade_flags(true), hftbacktest::types::EXCH_BUY_TRADE_EVENT | hftbacktest::types::LOCAL_EVENT);
    assert_eq!(trade_flags(false), hftbacktest::types::EXCH_SELL_TRADE_EVENT | hftbacktest::types::LOCAL_EVENT);
}

#[test]
fn segment_seeds_count_up_from_the_base_seed() {
    let mut state = MarketState::new(0, 0, 456);
    assert_eq!(state.next_segment_seed(), 456);
    assert_eq!(state.next_segment_seed(), 457);
    assert_eq!(state.segment_count, 2);
}

#[test]
fn trades_are_stamped_one_millisecond_apart() {
    let initial_ts = 1_000_000;
    let mut state = MarketState::new(0, initial_ts, 1);
    let first = state.stamp_trades(&vec![true, false, true]);
    assert_eq!(
        first,
        vec![
            TradeStamp { ev: 0xE000_0002, exch_ts: 1_000_001_000_000, local_ts: 1_000_002_000_000 },
            TradeStamp { ev: 0xD000_0002, exch_ts: 1_000_002_000_000, local_ts: 1_000_003_000_000 },
            TradeStamp { ev: 0xE000_0002, exch_ts: 1_000_003_000_000, local_ts: 1_000_004_000_000 },
        ]
    );
    assert_eq!(state.last_timestamp_ms, initial_ts + 3);
    let second = state.stamp_trades(&vec![false; 2000]);
    let all: Vec<TradeStamp> = first.iter().chain(second.iter()).copied().collect();
    for i in 0..all.len() - 1 {
        let current_ts = all[i].exch_ts / 1_000_000;
        let next_ts = all[i + 1].exch_ts / 1_000_000;
        assert_eq!(next_ts, current_ts + 1);
    }
    assert_eq!(state.last_timestamp_ms, initial_ts + 2003);
    assert!(state.stamp_trades(&vec![]).is_empty());
    assert_eq!(state.last_timestamp_ms, initial_ts + 2003);
}

fn sample(i: u64) -> EventRecord {
    EventRecord {
        ev: 0xE000_0002 + i,
        exch_ts: 1000 + i as i64,
        local_ts: -1001 - i as i64,
        px_bits: (5000.25f64 + i as f64).to_bits(),
        qty_bits: 1.0f64.to_bits(),
        order_id: i,
        ival: -7,
        fval_bits: 0.0f64.to_bits(),
    }
}

#[test]
fn binary_records_are_64_little_endian_bytes() {
    let records = vec![sample(0), sample(1)];
    let bytes = encode_bin(&records);
    assert_eq!(bytes.len(), 128);
    assert_eq!(&bytes[0..8], &(0xE000_0002u64).to_le_bytes());
    assert_eq!(&bytes[8..16], &1000i64.to_le_bytes());
    assert_eq!(&bytes[16..24], &(-1001i64).to_le_bytes());
    assert_eq!(&bytes[24..32], &5000.25f64.to_le_bytes());
    assert_eq!(&bytes[64 + 40..64 + 48], &1u64.to_le_bytes());
    assert_eq!(decode_bin(&bytes), records);
}

#[test]
fn decoding_ignores_a_trailing_partial_record() {
    let records = vec![sample(3)];
    let mut bytes = encode_bin(&records);
    bytes.extend_from_slice(&[1, 2, 3]);
    assert_eq!(decode_bin(&bytes), records);
    assert!(decode_bin(&bytes[..63]).is_empty());
}

#[test]
fn npy_header_fills_whole_blocks() {
    let h = encode_npy_header(2);
    assert_eq!((10 + h.len()) % 64, 0);
    let text = String::from_utf8(h.clone()).unwrap();
    assert!(text.starts_with("{'descr': [('ev', '<u8'), ('exch_ts', '<i8')"));
    assert!(text.contains("'fortran_order': False, 'shape': (2,)}"));
    assert!(text.ends_with(" \n"));
    let h = encode_npy_header(1234567);
    assert!(String::from_utf8(h.clone()).unwrap().contains("'shape': (1234567,)}"));
    assert_eq!((10 + h.len()) % 64, 0);
}

#[test]
fn npy_file_holds_magic_header_and_records() {
    let records = vec![sample(0), sample(1), sample(2)];
    let out = encode_npy(&records);
    assert_eq!(&out[0..6], b"\x93NUMPY");
    assert_eq!(&out[6..8], &[1, 0]);
    let header_len = u16::from_le_bytes([out[8], out[9]]) as usize;
    assert_eq!(header_len, encode_npy_header(3).len());
    assert_eq!((10 + header_len) % 64, 0);
    assert_eq!(&out[10 + header_len..], &encode_bin(&records)[..]);
}
