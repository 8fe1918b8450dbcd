use lib::errors::{SysArgError, ValidationError};
use lib::pid::Tid;
use lib::pointer::{ConstPtr, FatPointer, MutPtr, Pointer};
use lib::syscall_argument::{StrList, SyscallArgument, SyscallTempStorage};
use lib::userspace_ptr::UserspacePtr;

#[test]
fn plain_arguments_pass_through() {
    let mut storage = SyscallTempStorage::default();
    assert_eq!(7u8.convert(&mut storage), 7);
    assert_eq!((-3i64).convert(&mut storage), -3);
    assert_eq!('x'.convert(&mut storage), 'x');
    assert_eq!(Tid(9).convert(&mut storage), Tid(9));
    let fp = FatPointer::new(ConstPtr(0x1000), 4);
    let out = fp.convert(&mut storage);
    assert_eq!(out.ptr(), ConstPtr(0x1000));
    assert_eq!(out.len(), 4);
}

#[test]
fn string_lists_are_kept_for_the_call() {
    let mut storage = SyscallTempStorage::default();
    let list = vec![FatPointer::new(ConstPtr(0x10), 3), FatPointer::new(ConstPtr(0x20), 5)];
    let addr = list.as_ptr() as usize;
    let out = StrList(list).convert(&mut storage);
    assert_eq!(out.len(), 2);
    assert_eq!(out.ptr().as_raw(), addr);
}

#[test]
fn validation_errors_become_argument_errors() {
    assert_eq!(
        SysArgError::from(ValidationError::InvalidPtr),
        SysArgError::ValidationError(ValidationError::InvalidPtr)
    );
}

#[test]
fn pointers_keep_their_address() {
    assert!(!ConstPtr::writable());
    assert!(MutPtr::writable());
    assert_eq!(MutPtr::as_pointer(0x40).as_raw(), 0x40);
    let user = UserspacePtr::new(MutPtr(0x5000));
    assert_eq!(user.get(), MutPtr(0x5000));
}
