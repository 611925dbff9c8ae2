use vstd::prelude::*;

verus! {

/// Bit position of the command number inside a Linux `_IOC` request code.
pub const IOC_NRSHIFT: u64 = 0;
/// Bit position of the type (magic) byte.
pub const IOC_TYPESHIFT: u64 = 8;
/// Bit position of the argument size.
pub const IOC_SIZESHIFT: u64 = 16;
/// Bit position of the transfer direction.
pub const IOC_DIRSHIFT: u64 = 30;
/// Direction: no data transfer.
pub const IOC_NONE: u64 = 0;
/// Direction: user space writes.
pub const IOC_WRITE: u64 = 1;
/// Direction: user space reads.
pub const IOC_READ: u64 = 2;

/// The ioctl type byte of the touch driver, `b'T'`.
pub const TOUCH_MAGIC: u64 = 0x54;

pub const CMD_SET_CUR: u64 = 0;
pub const CMD_GET_CUR: u64 = 1;
pub const CMD_GET_DEF: u64 = 2;
pub const CMD_GET_MIN: u64 = 3;
pub const CMD_GET_MAX: u64 = 4;
pub const CMD_GET_MODE: u64 = 5;
pub const CMD_RESET: u64 = 6;
pub const CMD_SET_LONG: u64 = 7;

/// Size of the argument buffer of the V1/V2 requests.
pub const BUF_BYTES: u64 = 1024;

/// Request codes of the V1/V2 protocol, `req1024(CMD_*)`
/// (see `lemma_request_constants`).
pub const REQ_SET_CUR: u64 = 0xC400_5400;
pub const REQ_GET_CUR: u64 = 0xC400_5401;
pub const REQ_GET_DEF: u64 = 0xC400_5402;
pub const REQ_GET_MIN: u64 = 0xC400_5403;
pub const REQ_GET_MAX: u64 = 0xC400_5404;
pub const REQ_GET_MODE: u64 = 0xC400_5405;
pub const REQ_RESET: u64 = 0xC400_5406;
pub const REQ_SET_LONG: u64 = 0xC400_5407;

/// Length in bytes of the V1/V2 argument buffer.
pub const SZ_BUF1024: usize = 1024;

/// `_IOC(NONE, 'T', 3, 0)`: select the panel (argument passed by value).
pub const V3_SELECT_TOUCH_ID: u64 = 0x0000_5403;
/// `_IOC(READ|WRITE, 'T', 0, 520)`: the V3 common-data request.
pub const V3_COMMON_DATA: u64 = 0xC208_5400;
/// `_IOC(READ, 'T', 1, 214)`: the V3 hardware-parameter request.
pub const V3_HARDWARE_PARAM: u64 = 0x80D6_5401;

/// Length in bytes of the V3 common-data structure.
pub const SZ_V3_BUF: usize = 520;

/// The Linux `_IOC(dir, ty, nr, size)` composition, bit for bit.
pub open spec fn ioc_spec(dir: u64, ty: u64, nr: u64, size: u64) -> u64 {
    (dir << 30u64) | (ty << 8u64) | nr | (size << 16u64)
}

/// The request code of a V1/V2 command with a 1024-byte read/write buffer.
pub open spec fn req1024_spec(nr: u64) -> u64 {
    ioc_spec(3, 0x54, nr, 1024)
}

/// Whether every field of an `_IOC` code fits its slot
/// (2 direction bits, 14 size bits, 8 type bits, 8 number bits).
pub open spec fn ioc_fields_fit(dir: u64, ty: u64, nr: u64, size: u64) -> bool {
    dir < 4 && ty < 256 && nr < 256 && size < 0x4000
}

/// Composes an ioctl request code from its direction, type, number and size,
/// as the Linux `_IOC` macro does.
pub fn ioc(dir: u64, ty: u64, nr: u64, size: u64) -> (r: u64)
    ensures
        r == ioc_spec(dir, ty, nr, size),
        ioc_fields_fit(dir, ty, nr, size) ==> r == dir * 0x4000_0000 + size * 0x1_0000 + ty * 0x100 + nr,
{
    proof {
        lemma_ioc_arith(dir, ty, nr, size);
    }
    (dir << IOC_DIRSHIFT) | (ty << IOC_TYPESHIFT) | (nr << IOC_NRSHIFT) | (size << IOC_SIZESHIFT)
}

proof fn lemma_ioc_arith(dir: u64, ty: u64, nr: u64, size: u64)
    ensures
        (dir << 30u64) | (ty << 8u64) | (nr << 0u64) | (size << 16u64) == ioc_spec(dir, ty, nr, size),
        ioc_fields_fit(dir, ty, nr, size) ==> ioc_spec(dir, ty, nr, size) == dir * 0x4000_0000 + size * 0x1_0000 + ty * 0x100 + nr,
{
    assert((dir << 30u64) | (ty << 8u64) | (nr << 0u64) | (size << 16u64) == (dir << 30u64) | (ty << 8u64) | nr | (size << 16u64)) by (bit_vector);
    assert(dir < 4 && ty < 256 && nr < 256 && size < 0x4000 ==> (dir << 30u64) | (ty << 8u64) | nr | (size << 16u64) == dir * 0x4000_0000 + size * 0x1_0000 + ty * 0x100 + nr) by (bit_vector);
}

/// The request code of V1/V2 command `nr`: read/write, type `'T'`, 1024-byte buffer.
pub fn req1024(nr: u64) -> (r: u64)
    ensures
        r == req1024_spec(nr),
        nr < 256 ==> r == 0xC400_5400 + nr,
{
    assert(IOC_READ | IOC_WRITE == 3) by (bit_vector);
    ioc(IOC_READ | IOC_WRITE, TOUCH_MAGIC, nr, BUF_BYTES)
}

/// Law: the fields of a request code are recovered from it whenever each
/// fits its slot, so such a code determines its direction, type, number and size.
pub proof fn lemma_ioc_decode(dir: u64, ty: u64, nr: u64, size: u64)
    requires
        ioc_fields_fit(dir, ty, nr, size),
    ensures
        ioc_spec(dir, ty, nr, size) >> 30u64 == dir,
        (ioc_spec(dir, ty, nr, size) >> 16u64) & 0x3fff == size,
        (ioc_spec(dir, ty, nr, size) >> 8u64) & 0xff == ty,
        ioc_spec(dir, ty, nr, size) & 0xff == nr,
{
    assert(dir < 4 && ty < 256 && nr < 256 && size < 0x4000 ==> {
        &&& ((dir << 30u64) | (ty << 8u64) | nr | (size << 16u64)) >> 30u64 == dir
        &&& (((dir << 30u64) | (ty << 8u64) | nr | (size << 16u64)) >> 16u64) & 0x3fff == size
        &&& (((dir << 30u64) | (ty << 8u64) | nr | (size << 16u64)) >> 8u64) & 0xff == ty
        &&& ((dir << 30u64) | (ty << 8u64) | nr | (size << 16u64)) & 0xff == nr
    }) by (bit_vector);
}

/// Law: two request codes whose fields fit their slots are equal only when
/// all four fields are equal.
pub proof fn lemma_ioc_injective(
    d1: u64, t1: u64, n1: u64, s1: u64,
    d2: u64, t2: u64, n2: u64, s2: u64,
)
    requires
        ioc_fields_fit(d1, t1, n1, s1),
        ioc_fields_fit(d2, t2, n2, s2),
        ioc_spec(d1, t1, n1, s1) == ioc_spec(d2, t2, n2, s2),
    ensures
        d1 == d2 && t1 == t2 && n1 == n2 && s1 == s2,
{
    lemma_ioc_decode(d1, t1, n1, s1);
    lemma_ioc_decode(d2, t2, n2, s2);
}

/// Law: the named request constants are the `_IOC` compositions that name them.
pub proof fn lemma_request_constants()
    ensures
        REQ_SET_CUR == req1024_spec(CMD_SET_CUR),
        REQ_GET_CUR == req1024_spec(CMD_GET_CUR),
        REQ_GET_DEF == req1024_spec(CMD_GET_DEF),
        REQ_GET_MIN == req1024_spec(CMD_GET_MIN),
        REQ_GET_MAX == req1024_spec(CMD_GET_MAX),
        REQ_GET_MODE == req1024_spec(CMD_GET_MODE),
        REQ_RESET == req1024_spec(CMD_RESET),
        REQ_SET_LONG == req1024_spec(CMD_SET_LONG),
        V3_SELECT_TOUCH_ID == ioc_spec(IOC_NONE, TOUCH_MAGIC, 3, 0),
        V3_COMMON_DATA == ioc_spec(IOC_READ | IOC_WRITE, TOUCH_MAGIC, 0, 520),
        V3_HARDWARE_PARAM == ioc_spec(IOC_READ, TOUCH_MAGIC, 1, 214),
{
    lemma_ioc_arith(3, 0x54, 0, 1024);
    lemma_ioc_arith(3, 0x54, 1, 1024);
    lemma_ioc_arith(3, 0x54, 2, 1024);
    lemma_ioc_arith(3, 0x54, 3, 1024);
    lemma_ioc_arith(3, 0x54, 4, 1024);
    lemma_ioc_arith(3, 0x54, 5, 1024);
    lemma_ioc_arith(3, 0x54, 6, 1024);
    lemma_ioc_arith(3, 0x54, 7, 1024);
    lemma_ioc_arith(0, 0x54, 3, 0);
    lemma_ioc_arith(3, 0x54, 0, 520);
    lemma_ioc_arith(2, 0x54, 1, 214);
    assert(IOC_READ | IOC_WRITE == 3) by (bit_vector);
}

/// The eight commands of the touch driver.
#[derive(Debug, Clone, Copy, PartialEq, Eq, Structural)]
pub enum Cmd {
    SetCurValue,
    GetCurValue,
    GetDefValue,
    GetMinValue,
    GetMaxValue,
    GetModeValue,
    ResetMode,
    SetLongValue,
}

impl Cmd {
    /// The driver's number for this command.
    pub open spec fn code(self) -> u64 {
        match self {
            Cmd::SetCurValue => CMD_SET_CUR,
            Cmd::GetCurValue => CMD_GET_CUR,
            Cmd::GetDefValue => CMD_GET_DEF,
            Cmd::GetMinValue => CMD_GET_MIN,
            Cmd::GetMaxValue => CMD_GET_MAX,
            Cmd::GetModeValue => CMD_GET_MODE,
            Cmd::ResetMode => CMD_RESET,
            Cmd::SetLongValue => CMD_SET_LONG,
        }
    }

    /// The command number.
    pub fn nr(self) -> (r: u64)
        ensures
            r == self.code(),
    {
        match self {
            Cmd::SetCurValue => CMD_SET_CUR,
            Cmd::GetCurValue => CMD_GET_CUR,
            Cmd::GetDefValue => CMD_GET_DEF,
            Cmd::GetMinValue => CMD_GET_MIN,
            Cmd::GetMaxValue => CMD_GET_MAX,
            Cmd::GetModeValue => CMD_GET_MODE,
            Cmd::ResetMode => CMD_RESET,
            Cmd::SetLongValue => CMD_SET_LONG,
        }
    }

    /// The V1/V2 request code of this command.
    pub fn req(self) -> (r: u64)
        ensures
            r == req1024_spec(self.code()),
            r == 0xC400_5400 + self.code(),
    {
        req1024(self.nr())
    }
}

/// Law: distinct commands have distinct numbers and distinct request codes.
pub proof fn lemma_cmd_codes_distinct(a: Cmd, b: Cmd)
    requires
        a != b,
    ensures
        a.code() != b.code(),
        req1024_spec(a.code()) != req1024_spec(b.code()),
{
    if req1024_spec(a.code()) == req1024_spec(b.code()) {
        lemma_ioc_injective(3, 0x54, a.code(), 1024, 3, 0x54, b.code(), 1024);
    }
}

} // verus!
