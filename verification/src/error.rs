//! The kernel's error codes: a fixed set of negative integers, zero meaning success.

use vstd::prelude::*;

verus! {

/// An error reported by a kernel call. Each variant stands for one negative code.
#[allow(non_camel_case_types)]
#[derive(Debug, Clone, Copy, PartialEq, Eq, Structural)]
pub enum OsErr {
    /// Operation not permitted.
    EPERM,
    /// No such entity.
    ENOENT,
    ESRCH,
    /// Interrupted.
    EINTR,
    /// Input/output error.
    EIO,
    ENXIO,
    E2BIG,
    ENOEXEC,
    EBADF,
    ECHILD,
    EAGAIN,
    /// No room left: a bounded buffer is full.
    ENOMEM,
    EACCES,
    EFAULT,
    ENOTBLK,
    /// Resource busy: a no-wait attempt found the resource unavailable.
    EBUSY,
    /// Already exists.
    EEXIST,
    EXDEV,
    ENODEV,
    ENOTDIR,
    EISDIR,
    /// Invalid argument.
    EINVAL,
    ENFILE,
    EMFILE,
    ENOTTY,
    ETXTBSY,
    EFBIG,
    ENOSPC,
    ESPIPE,
    EROFS,
    EMLINK,
    EPIPE,
    EDOM,
    ERANGE,
    /// No message available.
    ENOMSG,
    /// Not supported.
    ENOTSUP,
    /// The wait ended because its deadline passed.
    ETIMEDOUT,
    /// Already in progress: the thread was started before.
    EALREADY,
    EINPROGRESS,
    /// The wait was canceled because the object went away.
    ECANCELED,
}

impl OsErr {
    /// The integer that stands for this error.
    pub open spec fn spec_code(self) -> int {
        match self {
            OsErr::EPERM => -1,
            OsErr::ENOENT => -2,
            OsErr::ESRCH => -3,
            OsErr::EINTR => -4,
            OsErr::EIO => -5,
            OsErr::ENXIO => -6,
            OsErr::E2BIG => -7,
            OsErr::ENOEXEC => -8,
            OsErr::EBADF => -9,
            OsErr::ECHILD => -10,
            OsErr::EAGAIN => -11,
            OsErr::ENOMEM => -12,
            OsErr::EACCES => -13,
            OsErr::EFAULT => -14,
            OsErr::ENOTBLK => -15,
            OsErr::EBUSY => -16,
            OsErr::EEXIST => -17,
            OsErr::EXDEV => -18,
            OsErr::ENODEV => -19,
            OsErr::ENOTDIR => -20,
            OsErr::EISDIR => -21,
            OsErr::EINVAL => -22,
            OsErr::ENFILE => -23,
            OsErr::EMFILE => -24,
            OsErr::ENOTTY => -25,
            OsErr::ETXTBSY => -26,
            OsErr::EFBIG => -27,
            OsErr::ENOSPC => -28,
            OsErr::ESPIPE => -29,
            OsErr::EROFS => -30,
            OsErr::EMLINK => -31,
            OsErr::EPIPE => -32,
            OsErr::EDOM => -33,
            OsErr::ERANGE => -34,
            OsErr::ENOMSG => -35,
            OsErr::ENOTSUP => -95,
            OsErr::ETIMEDOUT => -110,
            OsErr::EALREADY => -114,
            OsErr::EINPROGRESS => -115,
            OsErr::ECANCELED => -125,
        }
    }

    /// Whether `code` is the code of some error.
    pub open spec fn is_code(code: int) -> bool {
        exists|e: OsErr| #[trigger] e.spec_code() == code
    }

    /// Two errors with the same code are the same error.
    pub proof fn lemma_code_injective(a: OsErr, b: OsErr)
        requires
            a.spec_code() == b.spec_code(),
        ensures
            a == b,
    {
    }

    /// Every code is negative and fits in eight bits.
    pub proof fn lemma_code_range(e: OsErr)
        ensures
            -128 <= e.spec_code() < 0,
    {
    }

    /// Converts an integer error code to the error it stands for; `None` for
    /// an integer that is no error code (zero included).
    pub fn from_code(code: i8) -> (r: Option<OsErr>)
        ensures
            match r {
                Some(e) => e.spec_code() == code,
                None => !OsErr::is_code(code as int),
            },
    {
        let r = match code {
            -1 => Some(OsErr::EPERM),
            -2 => Some(OsErr::ENOENT),
            -3 => Some(OsErr::ESRCH),
            -4 => Some(OsErr::EINTR),
            -5 => Some(OsErr::EIO),
            -6 => Some(OsErr::ENXIO),
            -7 => Some(OsErr::E2BIG),
            -8 => Some(OsErr::ENOEXEC),
            -9 => Some(OsErr::EBADF),
            -10 => Some(OsErr::ECHILD),
            -11 => Some(OsErr::EAGAIN),
            -12 => Some(OsErr::ENOMEM),
            -13 => Some(OsErr::EACCES),
            -14 => Some(OsErr::EFAULT),
            -15 => Some(OsErr::ENOTBLK),
            -16 => Some(OsErr::EBUSY),
            -17 => Some(OsErr::EEXIST),
            -18 => Some(OsErr::EXDEV),
            -19 => Some(OsErr::ENODEV),
            -20 => Some(OsErr::ENOTDIR),
            -21 => Some(OsErr::EISDIR),
            -22 => Some(OsErr::EINVAL),
            -23 => Some(OsErr::ENFILE),
            -24 => Some(OsErr::EMFILE),
            -25 => Some(OsErr::ENOTTY),
            -26 => Some(OsErr::ETXTBSY),
            -27 => Some(OsErr::EFBIG),
            -28 => Some(OsErr::ENOSPC),
            -29 => Some(OsErr::ESPIPE),
            -30 => Some(OsErr::EROFS),
            -31 => Some(OsErr::EMLINK),
            -32 => Some(OsErr::EPIPE),
            -33 => Some(OsErr::EDOM),
            -34 => Some(OsErr::ERANGE),
            -35 => Some(OsErr::ENOMSG),
            -95 => Some(OsErr::ENOTSUP),
            -110 => Some(OsErr::ETIMEDOUT),
            -114 => Some(OsErr::EALREADY),
            -115 => Some(OsErr::EINPROGRESS),
            -125 => Some(OsErr::ECANCELED),
            _ => None,
        };
        proof {
            if r.is_none() {
                assert forall|e: OsErr| e.spec_code() != code by {
                    OsErr::lemma_code_range(e);
                }
            }
        }
        r
    }

    /// Returns the integer representation of the error.
    pub fn to_code(self) -> (code: i8)
        ensures
            code == self.spec_code(),
    {
        match self {
            OsErr::EPERM => -1,
            OsErr::ENOENT => -2,
            OsErr::ESRCH => -3,
            OsErr::EINTR => -4,
            OsErr::EIO => -5,
            OsErr::ENXIO => -6,
            OsErr::E2BIG => -7,
            OsErr::ENOEXEC => -8,
            OsErr::EBADF => -9,
            OsErr::ECHILD => -10,
            OsErr::EAGAIN => -11,
            OsErr::ENOMEM => -12,
            OsErr::EACCES => -13,
            OsErr::EFAULT => -14,
            OsErr::ENOTBLK => -15,
            OsErr::EBUSY => -16,
            OsErr::EEXIST => -17,
            OsErr::EXDEV => -18,
            OsErr::ENODEV => -19,
            OsErr::ENOTDIR => -20,
            OsErr::EISDIR => -21,
            OsErr::EINVAL => -22,
            OsErr::ENFILE => -23,
            OsErr::EMFILE => -24,
            OsErr::ENOTTY => -25,
            OsErr::ETXTBSY => -26,
            OsErr::EFBIG => -27,
            OsErr::ENOSPC => -28,
            OsErr::ESPIPE => -29,
            OsErr::EROFS => -30,
            OsErr::EMLINK => -31,
            OsErr::EPIPE => -32,
            OsErr::EDOM => -33,
            OsErr::ERANGE => -34,
            OsErr::ENOMSG => -35,
            OsErr::ENOTSUP => -95,
            OsErr::ETIMEDOUT => -110,
            OsErr::EALREADY => -114,
            OsErr::EINPROGRESS => -115,
            OsErr::ECANCELED => -125,
        }
    }
}

/// Turns the integer a kernel call reports into a `Result`: zero is success,
/// a known negative code is that error.
pub fn os_error_to_result(err: i8) -> (r: Result<(), OsErr>)
    requires
        err == 0 || OsErr::is_code(err as int),
    ensures
        err == 0 <==> r is Ok,
        r matches Err(e) ==> e.spec_code() == err,
{
    if err == 0 {
        Ok(())
    } else {
        match OsErr::from_code(err) {
            Some(e) => Err(e),
            None => {
                proof {
                    assert(false);
                }
                Err(OsErr::EINVAL)
            },
        }
    }
}

} // verus!
