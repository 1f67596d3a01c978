use kerla::address::{
    align_down, align_up, is_aligned, PAddr, UserVAddr, VAddr, KERNEL_BASE_ADDR, PAGE_SIZE,
};
use kerla::result::Errno;

#[test]
fn alignment_helpers() {
    assert_eq!(align_down(0x1234, 0x1000), 0x1000);
    assert_eq!(align_down(0x2000, 0x1000), 0x2000);
    assert_eq!(align_up(0x1001, 0x1000), 0x2000);
    assert_eq!(align_up(0x2000, 0x1000), 0x2000);
    assert_eq!(align_up(0, PAGE_SIZE), 0);
    assert!(is_aligned(0x3000, PAGE_SIZE));
    assert!(!is_aligned(0x3001, PAGE_SIZE));
}

#[test]
fn paddr_and_vaddr_straight_map() {
    let p = PAddr::new(0x1000);
    assert!(!p.is_null());
    assert!(PAddr::new(0).is_null());
    let v = p.as_vaddr();
    assert_eq!(v.as_u64(), KERNEL_BASE_ADDR + 0x1000);
    assert_eq!(v.as_paddr().value(), 0x1000);
    assert_eq!(p.add(0x20).value(), 0x1020);
    let v2 = VAddr::new((KERNEL_BASE_ADDR + 0x5123) as usize);
    assert_eq!(v2.add(5).as_u64(), KERNEL_BASE_ADDR + 0x5128);
    assert_eq!(v2.sub(0x123).as_u64(), KERNEL_BASE_ADDR + 0x5000);
    assert_eq!(v2.align_down(0x1000).as_u64(), KERNEL_BASE_ADDR + 0x5000);
}

#[test]
fn user_vaddr_checks() {
    assert_eq!(UserVAddr::new(0).unwrap(), None);
    assert_eq!(UserVAddr::new(0x4000).unwrap().unwrap().value(), 0x4000);
    assert_eq!(
        UserVAddr::new(KERNEL_BASE_ADDR as usize).unwrap_err().errno(),
        Errno::EFAULT
    );
    assert_eq!(UserVAddr::new_nonnull(0).unwrap_err().errno(), Errno::EFAULT);
    assert_eq!(
        UserVAddr::new_nonnull(KERNEL_BASE_ADDR as usize + 1).unwrap_err().errno(),
        Errno::EFAULT
    );
    let u = UserVAddr::new_nonnull(0x1000).unwrap();
    assert_eq!(u.as_isize(), 0x1000);
    assert_eq!(u.add(8).value(), 0x1008);
    assert_eq!(u.sub(8).value(), 0x0ff8);
    assert!(u.access_ok(0x100).is_ok());
    let top = UserVAddr::new_nonnull(KERNEL_BASE_ADDR as usize - 0x10).unwrap();
    assert!(top.access_ok(0x10).is_ok());
    assert_eq!(top.access_ok(0x11).unwrap_err().errno(), Errno::EFAULT);
    assert_eq!(top.access_ok(usize::MAX).unwrap_err().errno(), Errno::EFAULT);
}
