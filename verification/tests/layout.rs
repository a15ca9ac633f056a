use alloc_compose::{Layout, LayoutError};

#[test]
fn layout_from_size_align_checks_alignment() {
    assert!(Layout::from_size_align(8, 3).is_err());
    assert!(Layout::from_size_align(8, 0).is_err());
    let l = Layout::from_size_align(8, 4).unwrap();
    assert_eq!(l.size(), 8);
    assert_eq!(l.align(), 4);
}

#[test]
fn layout_from_size_align_checks_size() {
    assert!(Layout::from_size_align(isize::MAX as usize, 1).is_ok());
    assert!(Layout::from_size_align(isize::MAX as usize + 1, 1).is_err());
    // Rounded up to the alignment, the size must not exceed `isize::MAX`.
    assert!(Layout::from_size_align(isize::MAX as usize, 2).is_err());
}

#[test]
fn layout_of_types() {
    assert_eq!(Layout::new::<u32>().size(), 4);
    assert_eq!(Layout::new::<u32>().align(), 4);
    assert_eq!(Layout::new::<()>().size(), 0);
    assert_eq!(Layout::new::<[u8; 33]>().size(), 33);
}

#[test]
fn layout_padding_and_extend() {
    let l = Layout::from_size_align(5, 1).unwrap();
    assert_eq!(l.padding_needed_for(4), 3);
    assert_eq!(l.padding_needed_for(1), 0);
    let (whole, offset) = Layout::new::<u16>().extend(Layout::new::<u32>()).unwrap();
    assert_eq!(offset, 4);
    assert_eq!(whole.size(), 8);
    assert_eq!(whole.align(), 4);
    let big = Layout::from_size_align(isize::MAX as usize, 1).unwrap();
    let err: Result<(Layout, usize), LayoutError> = big.extend(Layout::new::<u64>());
    assert!(err.is_err());
}
