//! The error codes that the kernel hands back to its callers.
use vstd::prelude::*;

verus! {

/// A POSIX error code.
#[derive(Debug, Clone, Copy, PartialEq, Eq, Structural)]
#[allow(non_camel_case_types)]
pub enum SystemError {
    /// Operation not permitted.
    EPERM,
    /// No such process.
    ESRCH,
    /// Input or output error.
    EIO,
    /// Try again.
    EAGAIN_OR_EWOULDBLOCK,
    /// Permission denied.
    EACCES,
    /// Bad address.
    EFAULT,
    /// Invalid argument.
    EINVAL,
}

} // verus!
