use lib::ioctl::{Cmd, REQ_SET_CUR, REQ_GET_MODE, REQ_SET_LONG};
use lib::request::{build_request, result_offset, Layout, Request};
use lib::wire::{
    gi32, mode_all_at, pi32, pu16, set_long_extra, v1_request_buffer, v2_request_buffer,
    v3_common_buffer,
};

#[test]
fn pu16_little_endian() {
    let mut b = [0xAAu8; 6];
    pu16(&mut b, 2, 0x1234);
    assert_eq!(b, [0xAA, 0xAA, 0x34, 0x12, 0xAA, 0xAA]);
}

#[test]
fn pi32_gi32_roundtrip() {
    let mut b = [0u8; 12];
    for &v in &[0, 1, -1, i32::MIN, i32::MAX, 0x1234_5678, -559038737] {
        pi32(&mut b, 4, v);
        assert_eq!(gi32(&b, 4), v);
        assert_eq!(&b[0..4], &[0, 0, 0, 0]);
        assert_eq!(&b[8..12], &[0, 0, 0, 0]);
    }
    pi32(&mut b, 0, -2);
    assert_eq!(&b[0..4], &[0xFE, 0xFF, 0xFF, 0xFF]);
}

#[test]
fn gi32_reads_little_endian() {
    let b = [0x78u8, 0x56, 0x34, 0x12, 0xFF];
    assert_eq!(gi32(&b, 0), 0x1234_5678);
}

#[test]
fn v1_buffer_layout() {
    let buf = v1_request_buffer(9, &[5, -1]);
    assert_eq!(buf.len(), 1024);
    assert_eq!(gi32(&buf, 0), 9);
    assert_eq!(gi32(&buf, 4), 5);
    assert_eq!(gi32(&buf, 8), -1);
    assert!(buf[12..].iter().all(|&x| x == 0));
}

#[test]
fn v1_buffer_caps_extra_at_255() {
    let vals: Vec<i32> = (1..=300).collect();
    let buf = v1_request_buffer(1, &vals);
    assert_eq!(gi32(&buf, 4 * 255), 255);
}

#[test]
fn v2_buffer_layout_and_cap() {
    let vals: Vec<i32> = (1..=300).collect();
    let buf = v2_request_buffer(2, 14, &vals, 254);
    assert_eq!(gi32(&buf, 0), 2);
    assert_eq!(gi32(&buf, 4), 14);
    assert_eq!(gi32(&buf, 8), 1);
    assert_eq!(gi32(&buf, 1020), 254);
    let buf = v2_request_buffer(2, 14, &vals, 253);
    assert_eq!(gi32(&buf, 1016), 253);
    assert_eq!(gi32(&buf, 1020), 0);
}

#[test]
fn v3_buffer_layout() {
    let buf = v3_common_buffer(1, Cmd::SetLongValue, 0x0102, &[7, -3]);
    assert_eq!(buf.len(), 520);
    assert_eq!(&buf[0..8], &[1, 7, 0x02, 0x01, 2, 0, 0, 0]);
    assert_eq!(gi32(&buf, 8), 7);
    assert_eq!(gi32(&buf, 12), -3);
    assert!(buf[16..].iter().all(|&x| x == 0));
}

#[test]
fn v3_buffer_caps_count_at_128() {
    let vals: Vec<i32> = (1..=200).collect();
    let buf = v3_common_buffer(0, Cmd::SetLongValue, 15, &vals);
    assert_eq!(&buf[4..6], &[128, 0]);
    assert_eq!(gi32(&buf, 516), 128);
}

#[test]
fn mode_all_reads_six_words() {
    let mut b = [0u8; 40];
    for i in 0..6 {
        pi32(&mut b, 8 + 4 * i, (i as i32) * 10 - 1);
    }
    assert_eq!(mode_all_at(&b, 8), [-1, 9, 19, 29, 39, 49]);
}

#[test]
fn set_long_extra_counts() {
    assert_eq!(set_long_extra(&[4, 5, 6], 253), vec![3, 4, 5, 6]);
    assert_eq!(set_long_extra(&[4, 5, 6], 2), vec![2, 4, 5]);
    assert_eq!(set_long_extra(&[], 253), vec![0]);
}

#[test]
fn requests_per_layout() {
    match build_request(Layout::V1, 3, Cmd::SetCurValue, 4, &[77]) {
        Request::Words { req, buf } => {
            assert_eq!(req, REQ_SET_CUR);
            assert_eq!(gi32(&buf, 0), 4);
            assert_eq!(gi32(&buf, 4), 77);
        }
        _ => panic!("V1 uses a word buffer"),
    }
    match build_request(Layout::V2, 3, Cmd::GetModeValue, 4, &[]) {
        Request::Words { req, buf } => {
            assert_eq!(req, REQ_GET_MODE);
            assert_eq!(gi32(&buf, 0), 3);
            assert_eq!(gi32(&buf, 4), 4);
            assert_eq!(gi32(&buf, 8), 0);
        }
        _ => panic!("V2 uses a word buffer"),
    }
    match build_request(Layout::V2Daemon, 1, Cmd::SetLongValue, 15, &[9, 8]) {
        Request::Words { req, buf } => {
            assert_eq!(req, REQ_SET_LONG);
            assert_eq!(gi32(&buf, 8), 2);
            assert_eq!(gi32(&buf, 12), 9);
            assert_eq!(gi32(&buf, 16), 8);
        }
        _ => panic!("V2 uses a word buffer"),
    }
    match build_request(Layout::V3, 2, Cmd::ResetMode, 6, &[]) {
        Request::Common { touch_id, data: buf } => {
            assert_eq!(touch_id, 2);
            assert_eq!(&buf[0..8], &[2, 6, 6, 0, 1, 0, 0, 0]);
        }
        _ => panic!("V3 uses the common-data structure"),
    }
    assert_eq!(result_offset(Layout::V1), 0);
    assert_eq!(result_offset(Layout::V2), 0);
    assert_eq!(result_offset(Layout::V2Daemon), 8);
    assert_eq!(result_offset(Layout::V3), 8);
}

#[test]
fn v1_set_long_caps_at_254_values() {
    let vals: Vec<i32> = (1..=300).collect();
    match build_request(Layout::V1, 0, Cmd::SetLongValue, 15, &vals) {
        Request::Words { buf, .. } => {
            assert_eq!(gi32(&buf, 4), 254);
            assert_eq!(gi32(&buf, 1020), 254);
        }
        _ => panic!("V1 uses a word buffer"),
    }
}

#[test]
fn v1_and_v2_share_request_codes() {
    for cmd in [Cmd::SetCurValue, Cmd::GetMinValue, Cmd::ResetMode, Cmd::SetLongValue] {
        let codes: Vec<u64> = [Layout::V1, Layout::V2, Layout::V2Daemon]
            .iter()
            .map(|&l| match build_request(l, 1, cmd, 2, &[3]) {
                Request::Words { req, .. } => req,
                _ => panic!("word layout expected"),
            })
            .collect();
        assert_eq!(codes[0], cmd.req());
        assert_eq!(codes[0], codes[1]);
        assert_eq!(codes[1], codes[2]);
    }
}
