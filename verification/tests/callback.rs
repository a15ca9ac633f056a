use alloc_compose::{AllocError, CallbackRef, Layout};
use std::rc::Rc;
use std::sync::Arc;

#[derive(Default)]
struct Callback {
    before_allocate: u32,
    after_allocate: u32,
    before_allocate_zeroed: u32,
    after_allocate_zeroed: u32,
    before_allocate_all: u32,
    after_allocate_all: u32,
    before_allocate_all_zeroed: u32,
    after_allocate_all_zeroed: u32,
    before_deallocate: u32,
    after_deallocate: u32,
    before_deallocate_all: u32,
    after_deallocate_all: u32,
    before_grow: u32,
    after_grow: u32,
    before_grow_zeroed: u32,
    after_grow_zeroed: u32,
    before_grow_in_place: u32,
    after_grow_in_place: u32,
    before_grow_in_place_zeroed: u32,
    after_grow_in_place_zeroed: u32,
    before_shrink: u32,
    after_shrink: u32,
    before_shrink_in_place: u32,
    after_shrink_in_place: u32,
    before_owns: u32,
    after_owns: u32,
}

impl CallbackRef for Callback {
    fn before_allocate(&mut self, _layout: Layout) {
        self.before_allocate += 1
    }
    fn after_allocate(&mut self, _layout: Layout, _result: Result<alloc_compose::MemoryBlock, AllocError>) {
        self.after_allocate += 1
    }
    fn before_allocate_zeroed(&mut self, _layout: Layout) {
        self.before_allocate_zeroed += 1
    }
    fn after_allocate_zeroed(&mut self, _layout: Layout, _result: Result<alloc_compose::MemoryBlock, AllocError>) {
        self.after_allocate_zeroed += 1
    }
    fn before_allocate_all(&mut self) {
        self.before_allocate_all += 1
    }
    fn after_allocate_all(&mut self, _result: Result<alloc_compose::MemoryBlock, AllocError>) {
        self.after_allocate_all += 1
    }
    fn before_allocate_all_zeroed(&mut self) {
        self.before_allocate_all_zeroed += 1
    }
    fn after_allocate_all_zeroed(&mut self, _result: Result<alloc_compose::MemoryBlock, AllocError>) {
        self.after_allocate_all_zeroed += 1
    }
    fn before_deallocate(&mut self, _ptr: usize, _layout: Layout) {
        self.before_deallocate += 1
    }
    fn after_deallocate(&mut self, _ptr: usize, _layout: Layout) {
        self.after_deallocate += 1
    }
    fn before_deallocate_all(&mut self) {
        self.before_deallocate_all += 1
    }
    fn after_deallocate_all(&mut self) {
        self.after_deallocate_all += 1
    }
    fn before_grow(&mut self, _ptr: usize, _old_layout: Layout, _new_layout: Layout) {
        self.before_grow += 1
    }
    fn after_grow(&mut self, _ptr: usize, _old_layout: Layout, _new_layout: Layout, _result: Result<alloc_compose::MemoryBlock, AllocError>) {
        self.after_grow += 1
    }
    fn before_grow_zeroed(&mut self, _ptr: usize, _old_layout: Layout, _new_layout: Layout) {
        self.before_grow_zeroed += 1
    }
    fn after_grow_zeroed(&mut self, _ptr: usize, _old_layout: Layout, _new_layout: Layout, _result: Result<alloc_compose::MemoryBlock, AllocError>) {
        self.after_grow_zeroed += 1
    }
    fn before_grow_in_place(&mut self, _ptr: usize, _old_layout: Layout, _new_layout: Layout) {
        self.before_grow_in_place += 1
    }
    fn after_grow_in_place(&mut self, _ptr: usize, _old_layout: Layout, _new_layout: Layout, _result: Result<usize, AllocError>) {
        self.after_grow_in_place += 1
    }
    fn before_grow_in_place_zeroed(&mut self, _ptr: usize, _old_layout: Layout, _new_layout: Layout) {
        self.before_grow_in_place_zeroed += 1
    }
    fn after_grow_in_place_zeroed(&mut self, _ptr: usize, _old_layout: Layout, _new_layout: Layout, _result: Result<usize, AllocError>) {
        self.after_grow_in_place_zeroed += 1
    }
    fn before_shrink(&mut self, _ptr: usize, _old_layout: Layout, _new_layout: Layout) {
        self.before_shrink += 1
    }
    fn after_shrink(&mut self, _ptr: usize, _old_layout: Layout, _new_layout: Layout, _result: Result<alloc_compose::MemoryBlock, AllocError>) {
        self.after_shrink += 1
    }
    fn before_shrink_in_place(&mut self, _ptr: usize, _old_layout: Layout, _new_layout: Layout) {
        self.before_shrink_in_place += 1
    }
    fn after_shrink_in_place(&mut self, _ptr: usize, _old_layout: Layout, _new_layout: Layout, _result: Result<usize, AllocError>) {
        self.after_shrink_in_place += 1
    }
    fn before_owns(&mut self) {
        self.before_owns += 1
    }
    fn after_owns(&mut self, _success: bool) {
        self.after_owns += 1
    }
}

fn test_callback(mut callback: impl CallbackRef) {
    let dangling: usize = 1;
    callback.before_allocate(Layout::new::<()>());
    callback.after_allocate(Layout::new::<()>(), Err(AllocError));
    callback.before_allocate_zeroed(Layout::new::<()>());
    callback.after_allocate_zeroed(Layout::new::<()>(), Err(AllocError));
    callback.before_allocate_all();
    callback.after_allocate_all(Err(AllocError));
    callback.before_allocate_all_zeroed();
    callback.after_allocate_all_zeroed(Err(AllocError));
    callback.before_deallocate(dangling, Layout::new::<()>());
    callback.after_deallocate(dangling, Layout::new::<()>());
    callback.before_deallocate_all();
    callback.after_deallocate_all();
    callback.before_grow(dangling, Layout::new::<()>(), Layout::new::<()>());
    callback.after_grow(dangling, Layout::new::<()>(), Layout::new::<()>(), Err(AllocError));
    callback.before_grow_zeroed(dangling, Layout::new::<()>(), Layout::new::<()>());
    callback.after_grow_zeroed(dangling, Layout::new::<()>(), Layout::new::<()>(), Err(AllocError));
    callback.before_grow_in_place(dangling, Layout::new::<()>(), Layout::new::<()>());
    callback.after_grow_in_place(dangling, Layout::new::<()>(), Layout::new::<()>(), Err(AllocError));
    callback.before_grow_in_place_zeroed(dangling, Layout::new::<()>(), Layout::new::<()>());
    callback.after_grow_in_place_zeroed(
        dangling,
        Layout::new::<()>(),
        Layout::new::<()>(),
        Err(AllocError),
    );
    callback.before_shrink(dangling, Layout::new::<()>(), Layout::new::<()>());
    callback.after_shrink(dangling, Layout::new::<()>(), Layout::new::<()>(), Err(AllocError));
    callback.after_shrink_in_place(dangling, Layout::new::<()>(), Layout::new::<()>(), Err(AllocError));
    callback.before_shrink_in_place(dangling, Layout::new::<()>(), Layout::new::<()>());
    callback.before_owns();
    callback.after_owns(false);
}

fn check_counts(callback: &Callback) {
    assert_eq!(callback.before_allocate, 1);
    assert_eq!(callback.after_allocate, 1);
    assert_eq!(callback.before_allocate_zeroed, 1);
    assert_eq!(callback.after_allocate_zeroed, 1);
    assert_eq!(callback.before_allocate_all, 1);
    assert_eq!(callback.after_allocate_all, 1);
    assert_eq!(callback.before_allocate_all_zeroed, 1);
    assert_eq!(callback.after_allocate_all_zeroed, 1);
    assert_eq!(callback.before_deallocate, 1);
    assert_eq!(callback.after_deallocate, 1);
    assert_eq!(callback.before_deallocate_all, 1);
    assert_eq!(callback.after_deallocate_all, 1);
    assert_eq!(callback.before_grow, 1);
    assert_eq!(callback.after_grow, 1);
    assert_eq!(callback.before_grow_zeroed, 1);
    assert_eq!(callback.after_grow_zeroed, 1);
    assert_eq!(callback.before_grow_in_place, 1);
    assert_eq!(callback.after_grow_in_place, 1);
    assert_eq!(callback.before_grow_in_place_zeroed, 1);
    assert_eq!(callback.after_grow_in_place_zeroed, 1);
    assert_eq!(callback.before_shrink, 1);
    assert_eq!(callback.after_shrink, 1);
    assert_eq!(callback.before_shrink_in_place, 1);
    assert_eq!(callback.after_shrink_in_place, 1);
    assert_eq!(callback.before_owns, 1);
    assert_eq!(callback.after_owns, 1);
}

#[test]
fn plain() {
    let mut callback = Callback::default();
    test_callback(callback.by_ref());
    check_counts(&callback);
}

#[test]
fn boxed() {
    let mut callback = Box::new(Callback::default());
    test_callback(callback.by_ref());
    check_counts(&callback);
}

#[test]
fn rc() {
    let mut callback = Rc::new(Callback::default());
    test_callback(callback.by_ref());
    check_counts(&callback);
}

#[test]
fn arc() {
    let mut callback = Arc::new(Callback::default());
    test_callback(callback.by_ref());
    check_counts(&callback);
}

#[test]
fn rc_shared_callbacks_are_not_reached() {
    let mut callback = Rc::new(Callback::default());
    let other = Rc::clone(&callback);
    callback.before_owns();
    assert_eq!(other.before_owns, 0);
    drop(other);
    callback.before_owns();
    assert_eq!(callback.before_owns, 1);
}

#[test]
fn arc_shared_callbacks_are_not_reached() {
    let mut callback = Arc::new(Callback::default());
    let other = Arc::clone(&callback);
    callback.after_owns(true);
    assert_eq!(other.after_owns, 0);
    drop(other);
    callback.after_owns(true);
    assert_eq!(callback.after_owns, 1);
}
