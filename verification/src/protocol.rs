use vstd::prelude::*;
use crate::ioctl::Cmd;

verus! {

/// One generation of the driver's ioctl protocol, implemented by the
/// programs that talk to the device: each method performs the ioctl calls
/// for one operation on the open device `fd`.
///
/// Each method's result satisfies the method's `*_post` predicate for its
/// arguments. The predicates are the implementation's own: they say that a
/// result is what this implementation gives for that call, and nothing
/// more is assumed of them, so every implementation meets them. They let
/// callers state which call, with which arguments, produced a result.
pub trait TouchIoctlProtocol {
    /// Holds of a result that `set` gives for these arguments.
    spec fn set_post(&self, fd: i32, touch_id: u32, mode: u16, value: i32, r: Result<(), String>) -> bool;

    /// Holds of a result that `get` gives for these arguments.
    spec fn get_post(&self, fd: i32, touch_id: u32, mode: u16, cmd: Cmd, r: Result<i32, String>) -> bool;

    /// Holds of a result that `get_mode_all` gives for these arguments.
    spec fn get_mode_all_post(&self, fd: i32, touch_id: u32, mode: u16, r: Result<[i32; 6], String>) -> bool;

    /// Holds of a result that `reset` gives for these arguments.
    spec fn reset_post(&self, fd: i32, touch_id: u32, mode: u16, r: Result<(), String>) -> bool;

    /// Holds of a result that `set_long` gives for these arguments.
    spec fn set_long_post(&self, fd: i32, touch_id: u32, mode: u16, values: &[i32], r: Result<(), String>) -> bool;

    /// Sets the current value of `mode`.
    fn set(&self, fd: i32, touch_id: u32, mode: u16, value: i32) -> (r: Result<(), String>)
        ensures
            self.set_post(fd, touch_id, mode, value, r),
    ;

    /// Reads one value of `mode` (current, default, minimum or maximum, by `cmd`).
    fn get(&self, fd: i32, touch_id: u32, mode: u16, cmd: Cmd) -> (r: Result<i32, String>)
        ensures
            self.get_post(fd, touch_id, mode, cmd, r),
    ;

    /// Reads the six values of `mode`: current, default, minimum, maximum
    /// and two extra values.
    fn get_mode_all(&self, fd: i32, touch_id: u32, mode: u16) -> (r: Result<[i32; 6], String>)
        ensures
            self.get_mode_all_post(fd, touch_id, mode, r),
    ;

    /// Resets `mode` to its default.
    fn reset(&self, fd: i32, touch_id: u32, mode: u16) -> (r: Result<(), String>)
        ensures
            self.reset_post(fd, touch_id, mode, r),
    ;

    /// Sends an array of values to `mode`.
    fn set_long(&self, fd: i32, touch_id: u32, mode: u16, values: &[i32]) -> (r: Result<(), String>)
        ensures
            self.set_long_post(fd, touch_id, mode, values, r),
    ;

    /// Prints the request codes that this generation uses.
    fn print_specific_ioctl_codes(&self);
}

} // verus!
