//! Which foreign functions are emulated on Linux and on macOS, how many
//! arguments each takes, and what the system calls among them decide.

use vstd::prelude::*;
use vstd::string::*;
use crate::text::{decimal_text, push_decimal, push_decimal_wide};

verus! {

/// Why a shim refuses what the program asks.
#[derive(Debug)]
pub enum ShimError {
    /// The program did what it must not do.
    UndefinedBehavior(String),
    /// The program did what is not provided for.
    Unsupported(String),
}

/// A `ShimError` with its text as a sequence of characters.
pub enum ShimErrorView {
    UndefinedBehavior(Seq<char>),
    Unsupported(Seq<char>),
}

impl View for ShimError {
    type V = ShimErrorView;

    open spec fn view(&self) -> ShimErrorView {
        match self {
            ShimError::UndefinedBehavior(s) => ShimErrorView::UndefinedBehavior(s@),
            ShimError::Unsupported(s) => ShimErrorView::Unsupported(s@),
        }
    }
}

/// How many arguments a foreign function takes.
#[derive(Clone, Copy, Debug, PartialEq, Eq, Structural)]
pub enum Arity {
    Exactly(usize),
    /// Any number: each use checks the arguments that it reads.
    Variadic,
}

/// The foreign functions emulated on Linux.
#[derive(Clone, Copy, Debug, PartialEq, Eq, Structural)]
pub enum LinuxShim {
    ErrnoLocation,
    Close,
    Opendir,
    Readdir64,
    Ftruncate64,
    PosixFadvise,
    SyncFileRange,
    ClockGettime,
    PthreadAttrGetstack,
    Prctl,
    PthreadCondattrSetclock,
    PthreadCondattrGetclock,
    Syscall,
    Getrandom,
    SchedGetaffinity,
    PthreadGetattrNp,
}

/// The foreign functions emulated on macOS.
#[derive(Clone, Copy, Debug, PartialEq, Eq, Structural)]
pub enum MacosShim {
    Error,
    CloseNocancel,
    Stat,
    Lstat,
    Fstat,
    Opendir,
    ReaddirR,
    Lseek,
    Ftruncate,
    NsGetEnviron,
    MachAbsoluteTime,
    MachTimebaseInfo,
    NsGetArgc,
    NsGetArgv,
    TlvAtexit,
    PthreadGetStackaddrNp,
    PthreadGetStacksizeNp,
    PthreadSetnameNp,
    Mmap,
}

/// The system calls emulated on Linux.
#[derive(Clone, Copy, Debug, PartialEq, Eq, Structural)]
pub enum Syscall {
    Getrandom,
    Statx,
    Futex,
}

/// What the `getrandom` shim does.
#[derive(Clone, Copy, Debug, PartialEq, Eq, Structural)]
pub struct Getrandom {
    /// The number of bytes, from the pointer on, to fill with random bytes.
    pub fill: u64,
    /// The value that the call returns.
    pub result: u64,
}

/// The Linux shim of this name, if there is one. The last is there for
/// callers in the standard library only.
pub open spec fn linux_shim(name: Seq<char>, frame_in_std: bool) -> Option<LinuxShim> {
    if name == "__errno_location"@ {
        Some(LinuxShim::ErrnoLocation)
    } else if name == "close"@ {
        Some(LinuxShim::Close)
    } else if name == "opendir"@ {
        Some(LinuxShim::Opendir)
    } else if name == "readdir64"@ {
        Some(LinuxShim::Readdir64)
    } else if name == "ftruncate64"@ {
        Some(LinuxShim::Ftruncate64)
    } else if name == "posix_fadvise"@ {
        Some(LinuxShim::PosixFadvise)
    } else if name == "sync_file_range"@ {
        Some(LinuxShim::SyncFileRange)
    } else if name == "clock_gettime"@ {
        Some(LinuxShim::ClockGettime)
    } else if name == "pthread_attr_getstack"@ {
        Some(LinuxShim::PthreadAttrGetstack)
    } else if name == "prctl"@ {
        Some(LinuxShim::Prctl)
    } else if name == "pthread_condattr_setclock"@ {
        Some(LinuxShim::PthreadCondattrSetclock)
    } else if name == "pthread_condattr_getclock"@ {
        Some(LinuxShim::PthreadCondattrGetclock)
    } else if name == "syscall"@ {
        Some(LinuxShim::Syscall)
    } else if name == "getrandom"@ {
        Some(LinuxShim::Getrandom)
    } else if name == "sched_getaffinity"@ {
        Some(LinuxShim::SchedGetaffinity)
    } else if name == "pthread_getattr_np"@ && frame_in_std {
        Some(LinuxShim::PthreadGetattrNp)
    } else {
        None
    }
}

/// The macOS shim of this name, if there is one. The last is there for
/// callers in the standard library only.
pub open spec fn macos_shim(name: Seq<char>, frame_in_std: bool) -> Option<MacosShim> {
    if name == "__error"@ {
        Some(MacosShim::Error)
    } else if name == "close$NOCANCEL"@ {
        Some(MacosShim::CloseNocancel)
    } else if name == "stat"@ || name == "stat64"@ || name == "stat$INODE64"@ {
        Some(MacosShim::Stat)
    } else if name == "lstat"@ || name == "lstat64"@ || name == "lstat$INODE64"@ {
        Some(MacosShim::Lstat)
    } else if name == "fstat"@ || name == "fstat64"@ || name == "fstat$INODE64"@ {
        Some(MacosShim::Fstat)
    } else if name == "opendir$INODE64"@ {
        Some(MacosShim::Opendir)
    } else if name == "readdir_r"@ || name == "readdir_r$INODE64"@ {
        Some(MacosShim::ReaddirR)
    } else if name == "lseek"@ {
        Some(MacosShim::Lseek)
    } else if name == "ftruncate"@ {
        Some(MacosShim::Ftruncate)
    } else if name == "_NSGetEnviron"@ {
        Some(MacosShim::NsGetEnviron)
    } else if name == "mach_absolute_time"@ {
        Some(MacosShim::MachAbsoluteTime)
    } else if name == "mach_timebase_info"@ {
        Some(MacosShim::MachTimebaseInfo)
    } else if name == "_NSGetArgc"@ {
        Some(MacosShim::NsGetArgc)
    } else if name == "_NSGetArgv"@ {
        Some(MacosShim::NsGetArgv)
    } else if name == "_tlv_atexit"@ {
        Some(MacosShim::TlvAtexit)
    } else if name == "pthread_get_stackaddr_np"@ {
        Some(MacosShim::PthreadGetStackaddrNp)
    } else if name == "pthread_get_stacksize_np"@ {
        Some(MacosShim::PthreadGetStacksizeNp)
    } else if name == "pthread_setname_np"@ {
        Some(MacosShim::PthreadSetnameNp)
    } else if name == "mmap"@ && frame_in_std {
        Some(MacosShim::Mmap)
    } else {
        None
    }
}

pub open spec fn linux_arity(shim: LinuxShim) -> Arity {
    match shim {
        LinuxShim::ErrnoLocation => Arity::Exactly(0),
        LinuxShim::Close | LinuxShim::Opendir | LinuxShim::Readdir64 => Arity::Exactly(1),
        LinuxShim::Ftruncate64
        | LinuxShim::ClockGettime
        | LinuxShim::PthreadCondattrSetclock
        | LinuxShim::PthreadCondattrGetclock
        | LinuxShim::PthreadGetattrNp => Arity::Exactly(2),
        LinuxShim::PthreadAttrGetstack | LinuxShim::Getrandom | LinuxShim::SchedGetaffinity =>
            Arity::Exactly(3),
        LinuxShim::PosixFadvise | LinuxShim::SyncFileRange => Arity::Exactly(4),
        LinuxShim::Prctl | LinuxShim::Syscall => Arity::Variadic,
    }
}

pub open spec fn macos_arity(shim: MacosShim) -> Arity {
    match shim {
        MacosShim::Error
        | MacosShim::NsGetEnviron
        | MacosShim::MachAbsoluteTime
        | MacosShim::NsGetArgc
        | MacosShim::NsGetArgv => Arity::Exactly(0),
        MacosShim::CloseNocancel
        | MacosShim::Opendir
        | MacosShim::MachTimebaseInfo
        | MacosShim::PthreadGetStackaddrNp
        | MacosShim::PthreadGetStacksizeNp
        | MacosShim::PthreadSetnameNp => Arity::Exactly(1),
        MacosShim::Stat | MacosShim::Lstat | MacosShim::Fstat | MacosShim::Ftruncate | MacosShim::TlvAtexit =>
            Arity::Exactly(2),
        MacosShim::ReaddirR | MacosShim::Lseek => Arity::Exactly(3),
        MacosShim::Mmap => Arity::Exactly(6),
    }
}

/// What a system call with number `id` and `n_args` arguments, its number
/// among them, comes to: one of the three emulated calls, if it has the
/// arguments that the call reads; any other number is not provided for.
pub open spec fn syscall_outcome(
    id: u64,
    n_args: usize,
    sys_getrandom: u64,
    sys_statx: u64,
    sys_futex: u64,
) -> Result<Syscall, ShimErrorView> {
    if id == sys_getrandom {
        if n_args < 4 {
            Err(
                ShimErrorView::UndefinedBehavior(
                    "incorrect number of arguments for `getrandom` syscall: got "@ + decimal_text(
                        n_args as nat,
                    ) + ", expected at least 4"@,
                ),
            )
        } else {
            Ok(Syscall::Getrandom)
        }
    } else if id == sys_statx {
        if n_args < 6 {
            Err(
                ShimErrorView::UndefinedBehavior(
                    "incorrect number of arguments for `statx` syscall: got "@ + decimal_text(
                        n_args as nat,
                    ) + ", expected at least 6"@,
                ),
            )
        } else {
            Ok(Syscall::Statx)
        }
    } else if id == sys_futex {
        Ok(Syscall::Futex)
    } else {
        Err(ShimErrorView::Unsupported("can't execute syscall with ID "@ + decimal_text(id as nat)))
    }
}

/// Whether two strings hold the same characters.
fn same(a: &str, b: &str) -> (r: bool)
    ensures
        r == (a@ == b@),
{
    let x = a.to_owned();
    let y = b.to_owned();
    x == y
}

impl LinuxShim {
    /// How many arguments the function takes.
    pub fn arity(self) -> (r: Arity)
        ensures
            r == linux_arity(self),
    {
        match self {
            LinuxShim::ErrnoLocation => Arity::Exactly(0),
            LinuxShim::Close | LinuxShim::Opendir | LinuxShim::Readdir64 => Arity::Exactly(1),
            LinuxShim::Ftruncate64
            | LinuxShim::ClockGettime
            | LinuxShim::PthreadCondattrSetclock
            | LinuxShim::PthreadCondattrGetclock
            | LinuxShim::PthreadGetattrNp => Arity::Exactly(2),
            LinuxShim::PthreadAttrGetstack
            | LinuxShim::Getrandom
            | LinuxShim::SchedGetaffinity => Arity::Exactly(3),
            LinuxShim::PosixFadvise | LinuxShim::SyncFileRange => Arity::Exactly(4),
            LinuxShim::Prctl | LinuxShim::Syscall => Arity::Variadic,
        }
    }
}

impl MacosShim {
    /// How many arguments the function takes.
    pub fn arity(self) -> (r: Arity)
        ensures
            r == macos_arity(self),
    {
        match self {
            MacosShim::Error
            | MacosShim::NsGetEnviron
            | MacosShim::MachAbsoluteTime
            | MacosShim::NsGetArgc
            | MacosShim::NsGetArgv => Arity::Exactly(0),
            MacosShim::CloseNocancel
            | MacosShim::Opendir
            | MacosShim::MachTimebaseInfo
            | MacosShim::PthreadGetStackaddrNp
            | MacosShim::PthreadGetStacksizeNp
            | MacosShim::PthreadSetnameNp => Arity::Exactly(1),
            MacosShim::Stat
            | MacosShim::Lstat
            | MacosShim::Fstat
            | MacosShim::Ftruncate
            | MacosShim::TlvAtexit => Arity::Exactly(2),
            MacosShim::ReaddirR | MacosShim::Lseek => Arity::Exactly(3),
            MacosShim::Mmap => Arity::Exactly(6),
        }
    }
}

/// Finds the Linux shim for the foreign function `link_name`.
/// `frame_in_std` tells whether the caller is in the standard library.
pub fn linux_foreign_item(link_name: &str, frame_in_std: bool) -> (r: Option<LinuxShim>)
    ensures
        r == linux_shim(link_name@, frame_in_std),
{
    if same(link_name, "__errno_location") {
        Some(LinuxShim::ErrnoLocation)
    } else if same(link_name, "close") {
        Some(LinuxShim::Close)
    } else if same(link_name, "opendir") {
        Some(LinuxShim::Opendir)
    } else if same(link_name, "readdir64") {
        Some(LinuxShim::Readdir64)
    } else if same(link_name, "ftruncate64") {
        Some(LinuxShim::Ftruncate64)
    } else if same(link_name, "posix_fadvise") {
        Some(LinuxShim::PosixFadvise)
    } else if same(link_name, "sync_file_range") {
        Some(LinuxShim::SyncFileRange)
    } else if same(link_name, "clock_gettime") {
        Some(LinuxShim::ClockGettime)
    } else if same(link_name, "pthread_attr_getstack") {
        Some(LinuxShim::PthreadAttrGetstack)
    } else if same(link_name, "prctl") {
        Some(LinuxShim::Prctl)
    } else if same(link_name, "pthread_condattr_setclock") {
        Some(LinuxShim::PthreadCondattrSetclock)
    } else if same(link_name, "pthread_condattr_getclock") {
        Some(LinuxShim::PthreadCondattrGetclock)
    } else if same(link_name, "syscall") {
        Some(LinuxShim::Syscall)
    } else if same(link_name, "getrandom") {
        Some(LinuxShim::Getrandom)
    } else if same(link_name, "sched_getaffinity") {
        Some(LinuxShim::SchedGetaffinity)
    } else if same(link_name, "pthread_getattr_np") && frame_in_std {
        Some(LinuxShim::PthreadGetattrNp)
    } else {
        None
    }
}

/// Finds the macOS shim for the foreign function `link_name`.
/// `frame_in_std` tells whether the caller is in the standard library.
pub fn macos_foreign_item(link_name: &str, frame_in_std: bool) -> (r: Option<MacosShim>)
    ensures
        r == macos_shim(link_name@, frame_in_std),
{
    if same(link_name, "__error") {
        Some(MacosShim::Error)
    } else if same(link_name, "close$NOCANCEL") {
        Some(MacosShim::CloseNocancel)
    } else if same(link_name, "stat") || same(link_name, "stat64") || same(
        link_name,
        "stat$INODE64",
    ) {
        Some(MacosShim::Stat)
    } else if same(link_name, "lstat") || same(link_name, "lstat64") || same(
        link_name,
        "lstat$INODE64",
    ) {
        Some(MacosShim::Lstat)
    } else if same(link_name, "fstat") || same(link_name, "fstat64") || same(
        link_name,
        "fstat$INODE64",
    ) {
        Some(MacosShim::Fstat)
    } else if same(link_name, "opendir$INODE64") {
        Some(MacosShim::Opendir)
    } else if same(link_name, "readdir_r") || same(link_name, "readdir_r$INODE64") {
        Some(MacosShim::ReaddirR)
    } else if same(link_name, "lseek") {
        Some(MacosShim::Lseek)
    } else if same(link_name, "ftruncate") {
        Some(MacosShim::Ftruncate)
    } else if same(link_name, "_NSGetEnviron") {
        Some(MacosShim::NsGetEnviron)
    } else if same(link_name, "mach_absolute_time") {
        Some(MacosShim::MachAbsoluteTime)
    } else if same(link_name, "mach_timebase_info") {
        Some(MacosShim::MachTimebaseInfo)
    } else if same(link_name, "_NSGetArgc") {
        Some(MacosShim::NsGetArgc)
    } else if same(link_name, "_NSGetArgv") {
        Some(MacosShim::NsGetArgv)
    } else if same(link_name, "_tlv_atexit") {
        Some(MacosShim::TlvAtexit)
    } else if same(link_name, "pthread_get_stackaddr_np") {
        Some(MacosShim::PthreadGetStackaddrNp)
    } else if same(link_name, "pthread_get_stacksize_np") {
        Some(MacosShim::PthreadGetStacksizeNp)
    } else if same(link_name, "pthread_setname_np") {
        Some(MacosShim::PthreadSetnameNp)
    } else if same(link_name, "mmap") && frame_in_std {
        Some(MacosShim::Mmap)
    } else {
        None
    }
}

/// Checks that a system call has an argument to read its number from.
pub fn check_syscall_args(n_args: usize) -> (r: Result<(), ShimError>)
    ensures
        match r {
            Ok(_) => n_args > 0,
            Err(e) => n_args == 0 && e@ == ShimErrorView::UndefinedBehavior(
                "incorrect number of arguments for syscall: got 0, expected at least 1"@,
            ),
        },
{
    if n_args == 0 {
        Err(
            ShimError::UndefinedBehavior(
                String::from_str(
                    "incorrect number of arguments for syscall: got 0, expected at least 1",
                ),
            ),
        )
    } else {
        Ok(())
    }
}

/// Decides which system call the number `id` asks for, given the numbers
/// of the three that are emulated, and checks that it has its arguments.
pub fn dispatch_syscall(
    id: u64,
    n_args: usize,
    sys_getrandom: u64,
    sys_statx: u64,
    sys_futex: u64,
) -> (r: Result<Syscall, ShimError>)
    ensures
        match r {
            Ok(call) => syscall_outcome(id, n_args, sys_getrandom, sys_statx, sys_futex) == Ok::<
                Syscall,
                ShimErrorView,
            >(call),
            Err(e) => syscall_outcome(id, n_args, sys_getrandom, sys_statx, sys_futex) == Err::<
                Syscall,
                ShimErrorView,
            >(e@),
        },
{
    if id == sys_getrandom {
        if n_args < 4 {
            let mut msg = String::from_str(
                "incorrect number of arguments for `getrandom` syscall: got ",
            );
            push_decimal_wide(&mut msg, n_args as u128);
            msg.append(", expected at least 4");
            return Err(ShimError::UndefinedBehavior(msg));
        }
        Ok(Syscall::Getrandom)
    } else if id == sys_statx {
        if n_args < 6 {
            let mut msg = String::from_str(
                "incorrect number of arguments for `statx` syscall: got ",
            );
            push_decimal_wide(&mut msg, n_args as u128);
            msg.append(", expected at least 6");
            return Err(ShimError::UndefinedBehavior(msg));
        }
        Ok(Syscall::Statx)
    } else if id == sys_futex {
        Ok(Syscall::Futex)
    } else {
        let mut msg = String::from_str("can't execute syscall with ID ");
        push_decimal(&mut msg, id);
        Err(ShimError::Unsupported(msg))
    }
}

/// The `getrandom` call of Linux: all `len` bytes are filled, whatever the
/// flags, and the call returns `len`.
pub fn getrandom(len: u64, flags: i32) -> (r: Getrandom)
    ensures
        r == (Getrandom { fill: len, result: len }),
{
    Getrandom { fill: len, result: len }
}

} // verus!
