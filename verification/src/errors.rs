use vstd::prelude::*;

verus! {

/// Failure while preparing a program image.
#[derive(Debug, Clone, Copy, PartialEq, Eq, Structural)]
pub enum LoaderError {
    StackToSmall,
}

/// A user pointer that does not pass validation.
#[derive(Debug, Clone, Copy, PartialEq, Eq, Structural)]
pub enum ValidationError {
    InvalidPtr,
}

/// Failure while reading a system-call argument.
#[derive(Debug, Clone, Copy, PartialEq, Eq, Structural)]
pub enum SysArgError {
    InvalidIndex,
    ValidationError(ValidationError),
    SpaceTooSmall,
}

impl From<ValidationError> for SysArgError {
    fn from(value: ValidationError) -> (r: Self) {
        SysArgError::ValidationError(value)
    }
}

impl vstd::std_specs::convert::FromSpecImpl<ValidationError> for SysArgError {
    open spec fn obeys_from_spec() -> bool {
        true
    }

    open spec fn from_spec(v: ValidationError) -> Self {
        SysArgError::ValidationError(v)
    }
}

/// Error numbers returned to user space (the Linux values, see `code`).
#[derive(Debug, Clone, Copy, PartialEq, Eq, Structural)]
pub enum Errno {
    ENOENT,
    EINTR,
    EBADF,
    ECHILD,
    EAGAIN,
    ENOMEM,
    EACCES,
    EFAULT,
    EEXIST,
    ENODEV,
    ENOTDIR,
    EISDIR,
    EINVAL,
    EMFILE,
    ENOTTY,
    ERANGE,
}

/// The Linux number of an error.
pub open spec fn errno_code(e: Errno) -> isize {
    match e {
        Errno::ENOENT => 2,
        Errno::EINTR => 4,
        Errno::EBADF => 9,
        Errno::ECHILD => 10,
        Errno::EAGAIN => 11,
        Errno::ENOMEM => 12,
        Errno::EACCES => 13,
        Errno::EFAULT => 14,
        Errno::EEXIST => 17,
        Errno::ENODEV => 19,
        Errno::ENOTDIR => 20,
        Errno::EISDIR => 21,
        Errno::EINVAL => 22,
        Errno::EMFILE => 24,
        Errno::ENOTTY => 25,
        Errno::ERANGE => 34,
    }
}

impl Errno {
    /// The Linux number of this error.
    pub fn code(self) -> (r: isize)
        ensures
            r == errno_code(self),
            r > 0,
    {
        match self {
            Errno::ENOENT => 2,
            Errno::EINTR => 4,
            Errno::EBADF => 9,
            Errno::ECHILD => 10,
            Errno::EAGAIN => 11,
            Errno::ENOMEM => 12,
            Errno::EACCES => 13,
            Errno::EFAULT => 14,
            Errno::EEXIST => 17,
            Errno::ENODEV => 19,
            Errno::ENOTDIR => 20,
            Errno::EISDIR => 21,
            Errno::EINVAL => 22,
            Errno::EMFILE => 24,
            Errno::ENOTTY => 25,
            Errno::ERANGE => 34,
        }
    }

    /// The value a failing system call leaves in register `a0`: the negated number.
    pub fn syscall_return_value(self) -> (r: isize)
        ensures
            r == -errno_code(self),
            r < 0,
    {
        -self.code()
    }
}

} // verus!
