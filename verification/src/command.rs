//! The shared command record that the serving loop polls, and the
//! listing types that directory operations answer with.

use vstd::prelude::*;

verus! {

/// Command code of a read request.
pub const USER_READ: usize = 1;

/// Command code of a write request.
pub const USER_WRITE: usize = 2;

/// Command code of an open request.
pub const USER_OPEN: usize = 3;

/// Command code of a size request.
pub const USER_SIZE: usize = 4;

/// Command code of a list request.
pub const USER_LIST: usize = 5;

/// Command code of an ioctl request.
pub const USER_IOCTL: usize = 6;

/// What kind of entry a listing names.
#[derive(Debug, PartialEq, Eq, PartialOrd, Ord, Clone, Copy, Structural)]
pub enum InodeTy {
    Dir,
    File,
}

impl Default for InodeTy {
    /// An entry is a file unless said otherwise.
    fn default() -> (r: Self)
        ensures
            r == InodeTy::File,
    {
        InodeTy::File
    }
}

/// One entry of a directory listing.
#[derive(Debug, Clone, PartialEq, Eq, PartialOrd, Ord)]
pub struct FileInfo {
    pub ty: InodeTy,
    pub name: String,
}

impl FileInfo {
    /// Builds one listing entry.
    pub fn new(name: String, ty: InodeTy) -> (r: Self)
        ensures
            r.ty == ty,
            r.name == name,
    {
        FileInfo { ty, name }
    }
}

impl Default for FileInfo {
    /// An empty file entry.
    fn default() -> (r: Self)
        ensures
            r.ty == InodeTy::File,
            r.name@ == Seq::<char>::empty(),
    {
        FileInfo { ty: InodeTy::File, name: String::new() }
    }
}

/// The record a client and the serving loop share: the pending command,
/// its arguments, and the returned values.
#[derive(Debug)]
pub struct UserCommand {
    pub cmd: usize,
    pub offset: usize,
    pub buf_addr: usize,
    pub buf_size: usize,
    pub ok_signal: usize,
    pub ret_val: isize,
    pub ret_val2: isize,
    pub ret_val3: isize,
}

impl UserCommand {
    /// A freshly issued command: not yet acknowledged, all return values
    /// still unset.
    pub fn new(cmd: usize, offset: usize, buf_addr: usize, buf_size: usize) -> (r: UserCommand)
        ensures
            r.cmd == cmd,
            r.offset == offset,
            r.buf_addr == buf_addr,
            r.buf_size == buf_size,
            r.ok_signal == 0,
            r.ret_val == -1,
            r.ret_val2 == -1,
            r.ret_val3 == -1,
    {
        UserCommand {
            cmd,
            offset,
            buf_addr,
            buf_size,
            ok_signal: 0,
            ret_val: -1,
            ret_val2: -1,
            ret_val3: -1,
        }
    }
}

impl Default for UserCommand {
    /// An idle record: no command pending.
    fn default() -> (r: Self)
        ensures
            r.cmd == 0,
            r.offset == 0,
            r.buf_addr == 0,
            r.buf_size == 0,
            r.ok_signal == 0,
            r.ret_val == 0,
            r.ret_val2 == 0,
            r.ret_val3 == 0,
    {
        UserCommand {
            cmd: 0,
            offset: 0,
            buf_addr: 0,
            buf_size: 0,
            ok_signal: 0,
            ret_val: 0,
            ret_val2: 0,
            ret_val3: 0,
        }
    }
}

} // verus!
