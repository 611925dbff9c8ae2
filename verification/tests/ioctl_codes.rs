use lib::ioctl::{
    ioc, req1024, Cmd, REQ_SET_CUR, REQ_GET_CUR, REQ_GET_DEF, REQ_GET_MIN, REQ_GET_MAX, REQ_GET_MODE,
    REQ_RESET, REQ_SET_LONG, V3_SELECT_TOUCH_ID, V3_COMMON_DATA, V3_HARDWARE_PARAM, IOC_NONE,
    IOC_READ, IOC_WRITE, TOUCH_MAGIC,
};

#[test]
fn req1024_matches_linux_ioc() {
    assert_eq!(req1024(0), 0xC400_5400);
    assert_eq!(req1024(7), 0xC400_5407);
    assert_eq!(req1024(5), REQ_GET_MODE);
}

#[test]
fn ioc_composes_fields() {
    assert_eq!(ioc(IOC_NONE, TOUCH_MAGIC, 3, 0), 0x5403);
    assert_eq!(ioc(IOC_READ | IOC_WRITE, TOUCH_MAGIC, 0, 520), 0xC208_5400);
    assert_eq!(ioc(IOC_READ, TOUCH_MAGIC, 1, 214), 0x80D6_5401);
    assert_eq!(ioc(1, 0, 0, 0), 0x4000_0000);
}

#[test]
fn ioc_fields_decode() {
    let r = ioc(2, 0x54, 9, 0x123);
    assert_eq!(r >> 30, 2);
    assert_eq!((r >> 16) & 0x3fff, 0x123);
    assert_eq!((r >> 8) & 0xff, 0x54);
    assert_eq!(r & 0xff, 9);
}

#[test]
fn ioc_overlapping_fields_are_ored() {
    // a number wider than its slot spills into the type byte
    assert_eq!(ioc(0, 0x54, 0x1ff, 0), 0x5400 | 0x1ff);
}

#[test]
fn named_constants_are_the_compositions() {
    assert_eq!(REQ_SET_CUR, req1024(0));
    assert_eq!(REQ_GET_CUR, req1024(1));
    assert_eq!(REQ_GET_DEF, req1024(2));
    assert_eq!(REQ_GET_MIN, req1024(3));
    assert_eq!(REQ_GET_MAX, req1024(4));
    assert_eq!(REQ_GET_MODE, req1024(5));
    assert_eq!(REQ_RESET, req1024(6));
    assert_eq!(REQ_SET_LONG, req1024(7));
    assert_eq!(V3_SELECT_TOUCH_ID, ioc(IOC_NONE, TOUCH_MAGIC, 3, 0));
    assert_eq!(V3_COMMON_DATA, ioc(IOC_READ | IOC_WRITE, TOUCH_MAGIC, 0, 520));
    assert_eq!(V3_HARDWARE_PARAM, ioc(IOC_READ, TOUCH_MAGIC, 1, 214));
}

#[test]
fn cmd_numbers_and_requests() {
    let all = [
        Cmd::SetCurValue,
        Cmd::GetCurValue,
        Cmd::GetDefValue,
        Cmd::GetMinValue,
        Cmd::GetMaxValue,
        Cmd::GetModeValue,
        Cmd::ResetMode,
        Cmd::SetLongValue,
    ];
    for (i, c) in all.iter().enumerate() {
        assert_eq!(c.nr(), i as u64);
        assert_eq!(c.req(), req1024(i as u64));
    }
    assert_eq!(Cmd::GetMaxValue.req(), REQ_GET_MAX);
    // distinct commands, distinct requests
    for a in all.iter() {
        for b in all.iter() {
            if a != b {
                assert_ne!(a.req(), b.req());
            }
        }
    }
}
