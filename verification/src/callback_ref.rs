use crate::{AllocError, AllocResult, Layout};
use std::boxed::Box;
use std::rc::Rc;
use std::sync::Arc;
use vstd::prelude::*;

verus! {

/// Backend for the [`Proxy`] allocator.
///
/// As `Callback` is used in `Proxy` and `AllocRef` requires, that the cloned allocator must
/// behave like the same allocator, `CallbackRef` must not be implemented for a type that
/// does not hold on this restriction. Every hook does nothing by default.
///
/// [`Proxy`]: crate::Proxy
pub trait CallbackRef: Sized {
    /// Called before `allocate` is invoked.
    fn before_allocate(&mut self, layout: Layout) {
    }

    /// Called after `allocate` has returned.
    fn after_allocate(&mut self, layout: Layout, result: AllocResult) {
    }

    /// Called before `allocate_zeroed` is invoked.
    fn before_allocate_zeroed(&mut self, layout: Layout) {
    }

    /// Called after `allocate_zeroed` has returned.
    fn after_allocate_zeroed(&mut self, layout: Layout, result: AllocResult) {
    }

    /// Called before `allocate_all` is invoked.
    fn before_allocate_all(&mut self) {
    }

    /// Called after `allocate_all` has returned.
    fn after_allocate_all(&mut self, result: AllocResult) {
    }

    /// Called before `allocate_all_zeroed` is invoked.
    fn before_allocate_all_zeroed(&mut self) {
    }

    /// Called after `allocate_all_zeroed` has returned.
    fn after_allocate_all_zeroed(&mut self, result: AllocResult) {
    }

    /// Called before `deallocate` is invoked.
    fn before_deallocate(&mut self, ptr: usize, layout: Layout) {
    }

    /// Called after `deallocate` has returned.
    fn after_deallocate(&mut self, ptr: usize, layout: Layout) {
    }

    /// Called before `deallocate_all` is invoked.
    fn before_deallocate_all(&mut self) {
    }

    /// Called after `deallocate_all` has returned.
    fn after_deallocate_all(&mut self) {
    }

    /// Called before `grow` is invoked.
    fn before_grow(&mut self, ptr: usize, old_layout: Layout, new_layout: Layout) {
    }

    /// Called after `grow` has returned.
    fn after_grow(&mut self, ptr: usize, old_layout: Layout, new_layout: Layout, result: AllocResult) {
    }

    /// Called before `grow_zeroed` is invoked.
    fn before_grow_zeroed(&mut self, ptr: usize, old_layout: Layout, new_layout: Layout) {
    }

    /// Called after `grow_zeroed` has returned.
    fn after_grow_zeroed(&mut self, ptr: usize, old_layout: Layout, new_layout: Layout, result: AllocResult) {
    }

    /// Called before `grow_in_place` is invoked.
    fn before_grow_in_place(&mut self, ptr: usize, old_layout: Layout, new_layout: Layout) {
    }

    /// Called after `grow_in_place` has returned.
    fn after_grow_in_place(&mut self, ptr: usize, old_layout: Layout, new_layout: Layout, result: Result<usize, AllocError>) {
    }

    /// Called before `grow_in_place_zeroed` is invoked.
    fn before_grow_in_place_zeroed(&mut self, ptr: usize, old_layout: Layout, new_layout: Layout) {
    }

    /// Called after `grow_in_place_zeroed` has returned.
    fn after_grow_in_place_zeroed(&mut self, ptr: usize, old_layout: Layout, new_layout: Layout, result: Result<usize, AllocError>) {
    }

    /// Called before `shrink` is invoked.
    fn before_shrink(&mut self, ptr: usize, old_layout: Layout, new_layout: Layout) {
    }

    /// Called after `shrink` has returned.
    fn after_shrink(&mut self, ptr: usize, old_layout: Layout, new_layout: Layout, result: AllocResult) {
    }

    /// Called before `shrink_in_place` is invoked.
    fn before_shrink_in_place(&mut self, ptr: usize, old_layout: Layout, new_layout: Layout) {
    }

    /// Called after `shrink_in_place` has returned.
    fn after_shrink_in_place(&mut self, ptr: usize, old_layout: Layout, new_layout: Layout, result: Result<usize, AllocError>) {
    }

    /// Called before `owns` is invoked.
    fn before_owns(&mut self) {
    }

    /// Called after `owns` has returned.
    fn after_owns(&mut self, success: bool) {
    }

    /// Creates a "by reference" adaptor for this instance of `CallbackRef`.
    ///
    /// The returned adaptor also implements `CallbackRef` and will simply borrow this.
    fn by_ref(&mut self) -> (r: &mut Self)
        ensures
            *r == *old(self),
            *final(self) == *final(r),
    {
        self
    }
}

/// Forwards every hook to the borrowed callbacks.
impl<C: CallbackRef> CallbackRef for &mut C {
    fn before_allocate(&mut self, layout: Layout)
        ensures
            exists|inner: &mut C| mut_ref_current(inner) == **old(self) && mut_ref_future(inner) == **final(self)
                && call_ensures(C::before_allocate, (inner, layout), ()),
    {
        (**self).before_allocate(layout)
    }

    fn after_allocate(&mut self, layout: Layout, result: AllocResult)
        ensures
            exists|inner: &mut C| mut_ref_current(inner) == **old(self) && mut_ref_future(inner) == **final(self)
                && call_ensures(C::after_allocate, (inner, layout, result), ()),
    {
        (**self).after_allocate(layout, result)
    }

    fn before_allocate_zeroed(&mut self, layout: Layout)
        ensures
            exists|inner: &mut C| mut_ref_current(inner) == **old(self) && mut_ref_future(inner) == **final(self)
                && call_ensures(C::before_allocate_zeroed, (inner, layout), ()),
    {
        (**self).before_allocate_zeroed(layout)
    }

    fn after_allocate_zeroed(&mut self, layout: Layout, result: AllocResult)
        ensures
            exists|inner: &mut C| mut_ref_current(inner) == **old(self) && mut_ref_future(inner) == **final(self)
                && call_ensures(C::after_allocate_zeroed, (inner, layout, result), ()),
    {
        (**self).after_allocate_zeroed(layout, result)
    }

    fn before_allocate_all(&mut self)
        ensures
            exists|inner: &mut C| mut_ref_current(inner) == **old(self) && mut_ref_future(inner) == **final(self)
                && call_ensures(C::before_allocate_all, (inner,), ()),
    {
        (**self).before_allocate_all()
    }

    fn after_allocate_all(&mut self, result: AllocResult)
        ensures
            exists|inner: &mut C| mut_ref_current(inner) == **old(self) && mut_ref_future(inner) == **final(self)
                && call_ensures(C::after_allocate_all, (inner, result), ()),
    {
        (**self).after_allocate_all(result)
    }

    fn before_allocate_all_zeroed(&mut self)
        ensures
            exists|inner: &mut C| mut_ref_current(inner) == **old(self) && mut_ref_future(inner) == **final(self)
                && call_ensures(C::before_allocate_all_zeroed, (inner,), ()),
    {
        (**self).before_allocate_all_zeroed()
    }

    fn after_allocate_all_zeroed(&mut self, result: AllocResult)
        ensures
            exists|inner: &mut C| mut_ref_current(inner) == **old(self) && mut_ref_future(inner) == **final(self)
                && call_ensures(C::after_allocate_all_zeroed, (inner, result), ()),
    {
        (**self).after_allocate_all_zeroed(result)
    }

    fn before_deallocate(&mut self, ptr: usize, layout: Layout)
        ensures
            exists|inner: &mut C| mut_ref_current(inner) == **old(self) && mut_ref_future(inner) == **final(self)
                && call_ensures(C::before_deallocate, (inner, ptr, layout), ()),
    {
        (**self).before_deallocate(ptr, layout)
    }

    fn after_deallocate(&mut self, ptr: usize, layout: Layout)
        ensures
            exists|inner: &mut C| mut_ref_current(inner) == **old(self) && mut_ref_future(inner) == **final(self)
                && call_ensures(C::after_deallocate, (inner, ptr, layout), ()),
    {
        (**self).after_deallocate(ptr, layout)
    }

    fn before_deallocate_all(&mut self)
        ensures
            exists|inner: &mut C| mut_ref_current(inner) == **old(self) && mut_ref_future(inner) == **final(self)
                && call_ensures(C::before_deallocate_all, (inner,), ()),
    {
        (**self).before_deallocate_all()
    }

    fn after_deallocate_all(&mut self)
        ensures
            exists|inner: &mut C| mut_ref_current(inner) == **old(self) && mut_ref_future(inner) == **final(self)
                && call_ensures(C::after_deallocate_all, (inner,), ()),
    {
        (**self).after_deallocate_all()
    }

    fn before_grow(&mut self, ptr: usize, old_layout: Layout, new_layout: Layout)
        ensures
            exists|inner: &mut C| mut_ref_current(inner) == **old(self) && mut_ref_future(inner) == **final(self)
                && call_ensures(C::before_grow, (inner, ptr, old_layout, new_layout), ()),
    {
        (**self).before_grow(ptr, old_layout, new_layout)
    }

    fn after_grow(&mut self, ptr: usize, old_layout: Layout, new_layout: Layout, result: AllocResult)
        ensures
            exists|inner: &mut C| mut_ref_current(inner) == **old(self) && mut_ref_future(inner) == **final(self)
                && call_ensures(C::after_grow, (inner, ptr, old_layout, new_layout, result), ()),
    {
        (**self).after_grow(ptr, old_layout, new_layout, result)
    }

    fn before_grow_zeroed(&mut self, ptr: usize, old_layout: Layout, new_layout: Layout)
        ensures
            exists|inner: &mut C| mut_ref_current(inner) == **old(self) && mut_ref_future(inner) == **final(self)
                && call_ensures(C::before_grow_zeroed, (inner, ptr, old_layout, new_layout), ()),
    {
        (**self).before_grow_zeroed(ptr, old_layout, new_layout)
    }

    fn after_grow_zeroed(&mut self, ptr: usize, old_layout: Layout, new_layout: Layout, result: AllocResult)
        ensures
            exists|inner: &mut C| mut_ref_current(inner) == **old(self) && mut_ref_future(inner) == **final(self)
                && call_ensures(C::after_grow_zeroed, (inner, ptr, old_layout, new_layout, result), ()),
    {
        (**self).after_grow_zeroed(ptr, old_layout, new_layout, result)
    }

    fn before_grow_in_place(&mut self, ptr: usize, old_layout: Layout, new_layout: Layout)
        ensures
            exists|inner: &mut C| mut_ref_current(inner) == **old(self) && mut_ref_future(inner) == **final(self)
                && call_ensures(C::before_grow_in_place, (inner, ptr, old_layout, new_layout), ()),
    {
        (**self).before_grow_in_place(ptr, old_layout, new_layout)
    }

    fn after_grow_in_place(&mut self, ptr: usize, old_layout: Layout, new_layout: Layout, result: Result<usize, AllocError>)
        ensures
            exists|inner: &mut C| mut_ref_current(inner) == **old(self) && mut_ref_future(inner) == **final(self)
                && call_ensures(C::after_grow_in_place, (inner, ptr, old_layout, new_layout, result), ()),
    {
        (**self).after_grow_in_place(ptr, old_layout, new_layout, result)
    }

    fn before_grow_in_place_zeroed(&mut self, ptr: usize, old_layout: Layout, new_layout: Layout)
        ensures
            exists|inner: &mut C| mut_ref_current(inner) == **old(self) && mut_ref_future(inner) == **final(self)
                && call_ensures(C::before_grow_in_place_zeroed, (inner, ptr, old_layout, new_layout), ()),
    {
        (**self).before_grow_in_place_zeroed(ptr, old_layout, new_layout)
    }

    fn after_grow_in_place_zeroed(&mut self, ptr: usize, old_layout: Layout, new_layout: Layout, result: Result<usize, AllocError>)
        ensures
            exists|inner: &mut C| mut_ref_current(inner) == **old(self) && mut_ref_future(inner) == **final(self)
                && call_ensures(C::after_grow_in_place_zeroed, (inner, ptr, old_layout, new_layout, result), ()),
    {
        (**self).after_grow_in_place_zeroed(ptr, old_layout, new_layout, result)
    }

    fn before_shrink(&mut self, ptr: usize, old_layout: Layout, new_layout: Layout)
        ensures
            exists|inner: &mut C| mut_ref_current(inner) == **old(self) && mut_ref_future(inner) == **final(self)
                && call_ensures(C::before_shrink, (inner, ptr, old_layout, new_layout), ()),
    {
        (**self).before_shrink(ptr, old_layout, new_layout)
    }

    fn after_shrink(&mut self, ptr: usize, old_layout: Layout, new_layout: Layout, result: AllocResult)
        ensures
            exists|inner: &mut C| mut_ref_current(inner) == **old(self) && mut_ref_future(inner) == **final(self)
                && call_ensures(C::after_shrink, (inner, ptr, old_layout, new_layout, result), ()),
    {
        (**self).after_shrink(ptr, old_layout, new_layout, result)
    }

    fn before_shrink_in_place(&mut self, ptr: usize, old_layout: Layout, new_layout: Layout)
        ensures
            exists|inner: &mut C| mut_ref_current(inner) == **old(self) && mut_ref_future(inner) == **final(self)
                && call_ensures(C::before_shrink_in_place, (inner, ptr, old_layout, new_layout), ()),
    {
        (**self).before_shrink_in_place(ptr, old_layout, new_layout)
    }

    fn after_shrink_in_place(&mut self, ptr: usize, old_layout: Layout, new_layout: Layout, result: Result<usize, AllocError>)
        ensures
            exists|inner: &mut C| mut_ref_current(inner) == **old(self) && mut_ref_future(inner) == **final(self)
                && call_ensures(C::after_shrink_in_place, (inner, ptr, old_layout, new_layout, result), ()),
    {
        (**self).after_shrink_in_place(ptr, old_layout, new_layout, result)
    }

    fn before_owns(&mut self)
        ensures
            exists|inner: &mut C| mut_ref_current(inner) == **old(self) && mut_ref_future(inner) == **final(self)
                && call_ensures(C::before_owns, (inner,), ()),
    {
        (**self).before_owns()
    }

    fn after_owns(&mut self, success: bool)
        ensures
            exists|inner: &mut C| mut_ref_current(inner) == **old(self) && mut_ref_future(inner) == **final(self)
                && call_ensures(C::after_owns, (inner, success), ()),
    {
        (**self).after_owns(success)
    }
}

/// Forwards every hook to the boxed callbacks.
impl<C: CallbackRef> CallbackRef for Box<C> {
    fn before_allocate(&mut self, layout: Layout)
        ensures
            exists|inner: &mut C| mut_ref_current(inner) == **old(self) && mut_ref_future(inner) == **final(self)
                && call_ensures(C::before_allocate, (inner, layout), ()),
    {
        let callbacks: &mut C = &mut **self;
        assert(*callbacks == **old(self));
        callbacks.before_allocate(layout)
    }

    fn after_allocate(&mut self, layout: Layout, result: AllocResult)
        ensures
            exists|inner: &mut C| mut_ref_current(inner) == **old(self) && mut_ref_future(inner) == **final(self)
                && call_ensures(C::after_allocate, (inner, layout, result), ()),
    {
        let callbacks: &mut C = &mut **self;
        assert(*callbacks == **old(self));
        callbacks.after_allocate(layout, result)
    }

    fn before_allocate_zeroed(&mut self, layout: Layout)
        ensures
            exists|inner: &mut C| mut_ref_current(inner) == **old(self) && mut_ref_future(inner) == **final(self)
                && call_ensures(C::before_allocate_zeroed, (inner, layout), ()),
    {
        let callbacks: &mut C = &mut **self;
        assert(*callbacks == **old(self));
        callbacks.before_allocate_zeroed(layout)
    }

    fn after_allocate_zeroed(&mut self, layout: Layout, result: AllocResult)
        ensures
            exists|inner: &mut C| mut_ref_current(inner) == **old(self) && mut_ref_future(inner) == **final(self)
                && call_ensures(C::after_allocate_zeroed, (inner, layout, result), ()),
    {
        let callbacks: &mut C = &mut **self;
        assert(*callbacks == **old(self));
        callbacks.after_allocate_zeroed(layout, result)
    }

    fn before_allocate_all(&mut self)
        ensures
            exists|inner: &mut C| mut_ref_current(inner) == **old(self) && mut_ref_future(inner) == **final(self)
                && call_ensures(C::before_allocate_all, (inner,), ()),
    {
        let callbacks: &mut C = &mut **self;
        assert(*callbacks == **old(self));
        callbacks.before_allocate_all()
    }

    fn after_allocate_all(&mut self, result: AllocResult)
        ensures
            exists|inner: &mut C| mut_ref_current(inner) == **old(self) && mut_ref_future(inner) == **final(self)
                && call_ensures(C::after_allocate_all, (inner, result), ()),
    {
        let callbacks: &mut C = &mut **self;
        assert(*callbacks == **old(self));
        callbacks.after_allocate_all(result)
    }

    fn before_allocate_all_zeroed(&mut self)
        ensures
            exists|inner: &mut C| mut_ref_current(inner) == **old(self) && mut_ref_future(inner) == **final(self)
                && call_ensures(C::before_allocate_all_zeroed, (inner,), ()),
    {
        let callbacks: &mut C = &mut **self;
        assert(*callbacks == **old(self));
        callbacks.before_allocate_all_zeroed()
    }

    fn after_allocate_all_zeroed(&mut self, result: AllocResult)
        ensures
            exists|inner: &mut C| mut_ref_current(inner) == **old(self) && mut_ref_future(inner) == **final(self)
                && call_ensures(C::after_allocate_all_zeroed, (inner, result), ()),
    {
        let callbacks: &mut C = &mut **self;
        assert(*callbacks == **old(self));
        callbacks.after_allocate_all_zeroed(result)
    }

    fn before_deallocate(&mut self, ptr: usize, layout: Layout)
        ensures
            exists|inner: &mut C| mut_ref_current(inner) == **old(self) && mut_ref_future(inner) == **final(self)
                && call_ensures(C::before_deallocate, (inner, ptr, layout), ()),
    {
        let callbacks: &mut C = &mut **self;
        assert(*callbacks == **old(self));
        callbacks.before_deallocate(ptr, layout)
    }

    fn after_deallocate(&mut self, ptr: usize, layout: Layout)
        ensures
            exists|inner: &mut C| mut_ref_current(inner) == **old(self) && mut_ref_future(inner) == **final(self)
                && call_ensures(C::after_deallocate, (inner, ptr, layout), ()),
    {
        let callbacks: &mut C = &mut **self;
        assert(*callbacks == **old(self));
        callbacks.after_deallocate(ptr, layout)
    }

    fn before_deallocate_all(&mut self)
        ensures
            exists|inner: &mut C| mut_ref_current(inner) == **old(self) && mut_ref_future(inner) == **final(self)
                && call_ensures(C::before_deallocate_all, (inner,), ()),
    {
        let callbacks: &mut C = &mut **self;
        assert(*callbacks == **old(self));
        callbacks.before_deallocate_all()
    }

    fn after_deallocate_all(&mut self)
        ensures
            exists|inner: &mut C| mut_ref_current(inner) == **old(self) && mut_ref_future(inner) == **final(self)
                && call_ensures(C::after_deallocate_all, (inner,), ()),
    {
        let callbacks: &mut C = &mut **self;
        assert(*callbacks == **old(self));
        callbacks.after_deallocate_all()
    }

    fn before_grow(&mut self, ptr: usize, old_layout: Layout, new_layout: Layout)
        ensures
            exists|inner: &mut C| mut_ref_current(inner) == **old(self) && mut_ref_future(inner) == **final(self)
                && call_ensures(C::before_grow, (inner, ptr, old_layout, new_layout), ()),
    {
        let callbacks: &mut C = &mut **self;
        assert(*callbacks == **old(self));
        callbacks.before_grow(ptr, old_layout, new_layout)
    }

    fn after_grow(&mut self, ptr: usize, old_layout: Layout, new_layout: Layout, result: AllocResult)
        ensures
            exists|inner: &mut C| mut_ref_current(inner) == **old(self) && mut_ref_future(inner) == **final(self)
                && call_ensures(C::after_grow, (inner, ptr, old_layout, new_layout, result), ()),
    {
        let callbacks: &mut C = &mut **self;
        assert(*callbacks == **old(self));
        callbacks.after_grow(ptr, old_layout, new_layout, result)
    }

    fn before_grow_zeroed(&mut self, ptr: usize, old_layout: Layout, new_layout: Layout)
        ensures
            exists|inner: &mut C| mut_ref_current(inner) == **old(self) && mut_ref_future(inner) == **final(self)
                && call_ensures(C::before_grow_zeroed, (inner, ptr, old_layout, new_layout), ()),
    {
        let callbacks: &mut C = &mut **self;
        assert(*callbacks == **old(self));
        callbacks.before_grow_zeroed(ptr, old_layout, new_layout)
    }

    fn after_grow_zeroed(&mut self, ptr: usize, old_layout: Layout, new_layout: Layout, result: AllocResult)
        ensures
            exists|inner: &mut C| mut_ref_current(inner) == **old(self) && mut_ref_future(inner) == **final(self)
                && call_ensures(C::after_grow_zeroed, (inner, ptr, old_layout, new_layout, result), ()),
    {
        let callbacks: &mut C = &mut **self;
        assert(*callbacks == **old(self));
        callbacks.after_grow_zeroed(ptr, old_layout, new_layout, result)
    }

    fn before_grow_in_place(&mut self, ptr: usize, old_layout: Layout, new_layout: Layout)
        ensures
            exists|inner: &mut C| mut_ref_current(inner) == **old(self) && mut_ref_future(inner) == **final(self)
                && call_ensures(C::before_grow_in_place, (inner, ptr, old_layout, new_layout), ()),
    {
        let callbacks: &mut C = &mut **self;
        assert(*callbacks == **old(self));
        callbacks.before_grow_in_place(ptr, old_layout, new_layout)
    }

    fn after_grow_in_place(&mut self, ptr: usize, old_layout: Layout, new_layout: Layout, result: Result<usize, AllocError>)
        ensures
            exists|inner: &mut C| mut_ref_current(inner) == **old(self) && mut_ref_future(inner) == **final(self)
                && call_ensures(C::after_grow_in_place, (inner, ptr, old_layout, new_layout, result), ()),
    {
        let callbacks: &mut C = &mut **self;
        assert(*callbacks == **old(self));
        callbacks.after_grow_in_place(ptr, old_layout, new_layout, result)
    }

    fn before_grow_in_place_zeroed(&mut self, ptr: usize, old_layout: Layout, new_layout: Layout)
        ensures
            exists|inner: &mut C| mut_ref_current(inner) == **old(self) && mut_ref_future(inner) == **final(self)
                && call_ensures(C::before_grow_in_place_zeroed, (inner, ptr, old_layout, new_layout), ()),
    {
        let callbacks: &mut C = &mut **self;
        assert(*callbacks == **old(self));
        callbacks.before_grow_in_place_zeroed(ptr, old_layout, new_layout)
    }

    fn after_grow_in_place_zeroed(&mut self, ptr: usize, old_layout: Layout, new_layout: Layout, result: Result<usize, AllocError>)
        ensures
            exists|inner: &mut C| mut_ref_current(inner) == **old(self) && mut_ref_future(inner) == **final(self)
                && call_ensures(C::after_grow_in_place_zeroed, (inner, ptr, old_layout, new_layout, result), ()),
    {
        let callbacks: &mut C = &mut **self;
        assert(*callbacks == **old(self));
        callbacks.after_grow_in_place_zeroed(ptr, old_layout, new_layout, result)
    }

    fn before_shrink(&mut self, ptr: usize, old_layout: Layout, new_layout: Layout)
        ensures
            exists|inner: &mut C| mut_ref_current(inner) == **old(self) && mut_ref_future(inner) == **final(self)
                && call_ensures(C::before_shrink, (inner, ptr, old_layout, new_layout), ()),
    {
        let callbacks: &mut C = &mut **self;
        assert(*callbacks == **old(self));
        callbacks.before_shrink(ptr, old_layout, new_layout)
    }

    fn after_shrink(&mut self, ptr: usize, old_layout: Layout, new_layout: Layout, result: AllocResult)
        ensures
            exists|inner: &mut C| mut_ref_current(inner) == **old(self) && mut_ref_future(inner) == **final(self)
                && call_ensures(C::after_shrink, (inner, ptr, old_layout, new_layout, result), ()),
    {
        let callbacks: &mut C = &mut **self;
        assert(*callbacks == **old(self));
        callbacks.after_shrink(ptr, old_layout, new_layout, result)
    }

    fn before_shrink_in_place(&mut self, ptr: usize, old_layout: Layout, new_layout: Layout)
        ensures
            exists|inner: &mut C| mut_ref_current(inner) == **old(self) && mut_ref_future(inner) == **final(self)
                && call_ensures(C::before_shrink_in_place, (inner, ptr, old_layout, new_layout), ()),
    {
        let callbacks: &mut C = &mut **self;
        assert(*callbacks == **old(self));
        callbacks.before_shrink_in_place(ptr, old_layout, new_layout)
    }

    fn after_shrink_in_place(&mut self, ptr: usize, old_layout: Layout, new_layout: Layout, result: Result<usize, AllocError>)
        ensures
            exists|inner: &mut C| mut_ref_current(inner) == **old(self) && mut_ref_future(inner) == **final(self)
                && call_ensures(C::after_shrink_in_place, (inner, ptr, old_layout, new_layout, result), ()),
    {
        let callbacks: &mut C = &mut **self;
        assert(*callbacks == **old(self));
        callbacks.after_shrink_in_place(ptr, old_layout, new_layout, result)
    }

    fn before_owns(&mut self)
        ensures
            exists|inner: &mut C| mut_ref_current(inner) == **old(self) && mut_ref_future(inner) == **final(self)
                && call_ensures(C::before_owns, (inner,), ()),
    {
        let callbacks: &mut C = &mut **self;
        assert(*callbacks == **old(self));
        callbacks.before_owns()
    }

    fn after_owns(&mut self, success: bool)
        ensures
            exists|inner: &mut C| mut_ref_current(inner) == **old(self) && mut_ref_future(inner) == **final(self)
                && call_ensures(C::after_owns, (inner, success), ()),
    {
        let callbacks: &mut C = &mut **self;
        assert(*callbacks == **old(self));
        callbacks.after_owns(success)
    }
}

/// Forwards every hook to the shared callbacks while this is their only owner; while they
/// are shared, the hooks do nothing.
impl<C: CallbackRef> CallbackRef for Rc<C> {
    fn before_allocate(&mut self, layout: Layout)
        ensures
            **final(self) == **old(self) || exists|inner: &mut C| mut_ref_current(inner) == **old(self) && mut_ref_future(inner) == **final(self)
                && call_ensures(C::before_allocate, (inner, layout), ()),
    {
        if let Some(callbacks) = rc_get_mut(self) {
            callbacks.before_allocate(layout)
        }
    }

    fn after_allocate(&mut self, layout: Layout, result: AllocResult)
        ensures
            **final(self) == **old(self) || exists|inner: &mut C| mut_ref_current(inner) == **old(self) && mut_ref_future(inner) == **final(self)
                && call_ensures(C::after_allocate, (inner, layout, result), ()),
    {
        if let Some(callbacks) = rc_get_mut(self) {
            callbacks.after_allocate(layout, result)
        }
    }

    fn before_allocate_zeroed(&mut self, layout: Layout)
        ensures
            **final(self) == **old(self) || exists|inner: &mut C| mut_ref_current(inner) == **old(self) && mut_ref_future(inner) == **final(self)
                && call_ensures(C::before_allocate_zeroed, (inner, layout), ()),
    {
        if let Some(callbacks) = rc_get_mut(self) {
            callbacks.before_allocate_zeroed(layout)
        }
    }

    fn after_allocate_zeroed(&mut self, layout: Layout, result: AllocResult)
        ensures
            **final(self) == **old(self) || exists|inner: &mut C| mut_ref_current(inner) == **old(self) && mut_ref_future(inner) == **final(self)
                && call_ensures(C::after_allocate_zeroed, (inner, layout, result), ()),
    {
        if let Some(callbacks) = rc_get_mut(self) {
            callbacks.after_allocate_zeroed(layout, result)
        }
    }

    fn before_allocate_all(&mut self)
        ensures
            **final(self) == **old(self) || exists|inner: &mut C| mut_ref_current(inner) == **old(self) && mut_ref_future(inner) == **final(self)
                && call_ensures(C::before_allocate_all, (inner,), ()),
    {
        if let Some(callbacks) = rc_get_mut(self) {
            callbacks.before_allocate_all()
        }
    }

    fn after_allocate_all(&mut self, result: AllocResult)
        ensures
            **final(self) == **old(self) || exists|inner: &mut C| mut_ref_current(inner) == **old(self) && mut_ref_future(inner) == **final(self)
                && call_ensures(C::after_allocate_all, (inner, result), ()),
    {
        if let Some(callbacks) = rc_get_mut(self) {
            callbacks.after_allocate_all(result)
        }
    }

    fn before_allocate_all_zeroed(&mut self)
        ensures
            **final(self) == **old(self) || exists|inner: &mut C| mut_ref_current(inner) == **old(self) && mut_ref_future(inner) == **final(self)
                && call_ensures(C::before_allocate_all_zeroed, (inner,), ()),
    {
        if let Some(callbacks) = rc_get_mut(self) {
            callbacks.before_allocate_all_zeroed()
        }
    }

    fn after_allocate_all_zeroed(&mut self, result: AllocResult)
        ensures
            **final(self) == **old(self) || exists|inner: &mut C| mut_ref_current(inner) == **old(self) && mut_ref_future(inner) == **final(self)
                && call_ensures(C::after_allocate_all_zeroed, (inner, result), ()),
    {
        if let Some(callbacks) = rc_get_mut(self) {
            callbacks.after_allocate_all_zeroed(result)
        }
    }

    fn before_deallocate(&mut self, ptr: usize, layout: Layout)
        ensures
            **final(self) == **old(self) || exists|inner: &mut C| mut_ref_current(inner) == **old(self) && mut_ref_future(inner) == **final(self)
                && call_ensures(C::before_deallocate, (inner, ptr, layout), ()),
    {
        if let Some(callbacks) = rc_get_mut(self) {
            callbacks.before_deallocate(ptr, layout)
        }
    }

    fn after_deallocate(&mut self, ptr: usize, layout: Layout)
        ensures
            **final(self) == **old(self) || exists|inner: &mut C| mut_ref_current(inner) == **old(self) && mut_ref_future(inner) == **final(self)
                && call_ensures(C::after_deallocate, (inner, ptr, layout), ()),
    {
        if let Some(callbacks) = rc_get_mut(self) {
            callbacks.after_deallocate(ptr, layout)
        }
    }

    fn before_deallocate_all(&mut self)
        ensures
            **final(self) == **old(self) || exists|inner: &mut C| mut_ref_current(inner) == **old(self) && mut_ref_future(inner) == **final(self)
                && call_ensures(C::before_deallocate_all, (inner,), ()),
    {
        if let Some(callbacks) = rc_get_mut(self) {
            callbacks.before_deallocate_all()
        }
    }

    fn after_deallocate_all(&mut self)
        ensures
            **final(self) == **old(self) || exists|inner: &mut C| mut_ref_current(inner) == **old(self) && mut_ref_future(inner) == **final(self)
                && call_ensures(C::after_deallocate_all, (inner,), ()),
    {
        if let Some(callbacks) = rc_get_mut(self) {
            callbacks.after_deallocate_all()
        }
    }

    fn before_grow(&mut self, ptr: usize, old_layout: Layout, new_layout: Layout)
        ensures
            **final(self) == **old(self) || exists|inner: &mut C| mut_ref_current(inner) == **old(self) && mut_ref_future(inner) == **final(self)
                && call_ensures(C::before_grow, (inner, ptr, old_layout, new_layout), ()),
    {
        if let Some(callbacks) = rc_get_mut(self) {
            callbacks.before_grow(ptr, old_layout, new_layout)
        }
    }

    fn after_grow(&mut self, ptr: usize, old_layout: Layout, new_layout: Layout, result: AllocResult)
        ensures
            **final(self) == **old(self) || exists|inner: &mut C| mut_ref_current(inner) == **old(self) && mut_ref_future(inner) == **final(self)
                && call_ensures(C::after_grow, (inner, ptr, old_layout, new_layout, result), ()),
    {
        if let Some(callbacks) = rc_get_mut(self) {
            callbacks.after_grow(ptr, old_layout, new_layout, result)
        }
    }

    fn before_grow_zeroed(&mut self, ptr: usize, old_layout: Layout, new_layout: Layout)
        ensures
            **final(self) == **old(self) || exists|inner: &mut C| mut_ref_current(inner) == **old(self) && mut_ref_future(inner) == **final(self)
                && call_ensures(C::before_grow_zeroed, (inner, ptr, old_layout, new_layout), ()),
    {
        if let Some(callbacks) = rc_get_mut(self) {
            callbacks.before_grow_zeroed(ptr, old_layout, new_layout)
        }
    }

    fn after_grow_zeroed(&mut self, ptr: usize, old_layout: Layout, new_layout: Layout, result: AllocResult)
        ensures
            **final(self) == **old(self) || exists|inner: &mut C| mut_ref_current(inner) == **old(self) && mut_ref_future(inner) == **final(self)
                && call_ensures(C::after_grow_zeroed, (inner, ptr, old_layout, new_layout, result), ()),
    {
        if let Some(callbacks) = rc_get_mut(self) {
            callbacks.after_grow_zeroed(ptr, old_layout, new_layout, result)
        }
    }

    fn before_grow_in_place(&mut self, ptr: usize, old_layout: Layout, new_layout: Layout)
        ensures
            **final(self) == **old(self) || exists|inner: &mut C| mut_ref_current(inner) == **old(self) && mut_ref_future(inner) == **final(self)
                && call_ensures(C::before_grow_in_place, (inner, ptr, old_layout, new_layout), ()),
    {
        if let Some(callbacks) = rc_get_mut(self) {
            callbacks.before_grow_in_place(ptr, old_layout, new_layout)
        }
    }

    fn after_grow_in_place(&mut self, ptr: usize, old_layout: Layout, new_layout: Layout, result: Result<usize, AllocError>)
        ensures
            **final(self) == **old(self) || exists|inner: &mut C| mut_ref_current(inner) == **old(self) && mut_ref_future(inner) == **final(self)
                && call_ensures(C::after_grow_in_place, (inner, ptr, old_layout, new_layout, result), ()),
    {
        if let Some(callbacks) = rc_get_mut(self) {
            callbacks.after_grow_in_place(ptr, old_layout, new_layout, result)
        }
    }

    fn before_grow_in_place_zeroed(&mut self, ptr: usize, old_layout: Layout, new_layout: Layout)
        ensures
            **final(self) == **old(self) || exists|inner: &mut C| mut_ref_current(inner) == **old(self) && mut_ref_future(inner) == **final(self)
                && call_ensures(C::before_grow_in_place_zeroed, (inner, ptr, old_layout, new_layout), ()),
    {
        if let Some(callbacks) = rc_get_mut(self) {
            callbacks.before_grow_in_place_zeroed(ptr, old_layout, new_layout)
        }
    }

    fn after_grow_in_place_zeroed(&mut self, ptr: usize, old_layout: Layout, new_layout: Layout, result: Result<usize, AllocError>)
        ensures
            **final(self) == **old(self) || exists|inner: &mut C| mut_ref_current(inner) == **old(self) && mut_ref_future(inner) == **final(self)
                && call_ensures(C::after_grow_in_place_zeroed, (inner, ptr, old_layout, new_layout, result), ()),
    {
        if let Some(callbacks) = rc_get_mut(self) {
            callbacks.after_grow_in_place_zeroed(ptr, old_layout, new_layout, result)
        }
    }

    fn before_shrink(&mut self, ptr: usize, old_layout: Layout, new_layout: Layout)
        ensures
            **final(self) == **old(self) || exists|inner: &mut C| mut_ref_current(inner) == **old(self) && mut_ref_future(inner) == **final(self)
                && call_ensures(C::before_shrink, (inner, ptr, old_layout, new_layout), ()),
    {
        if let Some(callbacks) = rc_get_mut(self) {
            callbacks.before_shrink(ptr, old_layout, new_layout)
        }
    }

    fn after_shrink(&mut self, ptr: usize, old_layout: Layout, new_layout: Layout, result: AllocResult)
        ensures
            **final(self) == **old(self) || exists|inner: &mut C| mut_ref_current(inner) == **old(self) && mut_ref_future(inner) == **final(self)
                && call_ensures(C::after_shrink, (inner, ptr, old_layout, new_layout, result), ()),
    {
        if let Some(callbacks) = rc_get_mut(self) {
            callbacks.after_shrink(ptr, old_layout, new_layout, result)
        }
    }

    fn before_shrink_in_place(&mut self, ptr: usize, old_layout: Layout, new_layout: Layout)
        ensures
            **final(self) == **old(self) || exists|inner: &mut C| mut_ref_current(inner) == **old(self) && mut_ref_future(inner) == **final(self)
                && call_ensures(C::before_shrink_in_place, (inner, ptr, old_layout, new_layout), ()),
    {
        if let Some(callbacks) = rc_get_mut(self) {
            callbacks.before_shrink_in_place(ptr, old_layout, new_layout)
        }
    }

    fn after_shrink_in_place(&mut self, ptr: usize, old_layout: Layout, new_layout: Layout, result: Result<usize, AllocError>)
        ensures
            **final(self) == **old(self) || exists|inner: &mut C| mut_ref_current(inner) == **old(self) && mut_ref_future(inner) == **final(self)
                && call_ensures(C::after_shrink_in_place, (inner, ptr, old_layout, new_layout, result), ()),
    {
        if let Some(callbacks) = rc_get_mut(self) {
            callbacks.after_shrink_in_place(ptr, old_layout, new_layout, result)
        }
    }

    fn before_owns(&mut self)
        ensures
            **final(self) == **old(self) || exists|inner: &mut C| mut_ref_current(inner) == **old(self) && mut_ref_future(inner) == **final(self)
                && call_ensures(C::before_owns, (inner,), ()),
    {
        if let Some(callbacks) = rc_get_mut(self) {
            callbacks.before_owns()
        }
    }

    fn after_owns(&mut self, success: bool)
        ensures
            **final(self) == **old(self) || exists|inner: &mut C| mut_ref_current(inner) == **old(self) && mut_ref_future(inner) == **final(self)
                && call_ensures(C::after_owns, (inner, success), ()),
    {
        if let Some(callbacks) = rc_get_mut(self) {
            callbacks.after_owns(success)
        }
    }
}

/// Forwards every hook to the shared callbacks while this is their only owner; while they
/// are shared, the hooks do nothing.
impl<C: CallbackRef> CallbackRef for Arc<C> {
    fn before_allocate(&mut self, layout: Layout)
        ensures
            **final(self) == **old(self) || exists|inner: &mut C| mut_ref_current(inner) == **old(self) && mut_ref_future(inner) == **final(self)
                && call_ensures(C::before_allocate, (inner, layout), ()),
    {
        if let Some(callbacks) = arc_get_mut(self) {
            callbacks.before_allocate(layout)
        }
    }

    fn after_allocate(&mut self, layout: Layout, result: AllocResult)
        ensures
            **final(self) == **old(self) || exists|inner: &mut C| mut_ref_current(inner) == **old(self) && mut_ref_future(inner) == **final(self)
                && call_ensures(C::after_allocate, (inner, layout, result), ()),
    {
        if let Some(callbacks) = arc_get_mut(self) {
            callbacks.after_allocate(layout, result)
        }
    }

    fn before_allocate_zeroed(&mut self, layout: Layout)
        ensures
            **final(self) == **old(self) || exists|inner: &mut C| mut_ref_current(inner) == **old(self) && mut_ref_future(inner) == **final(self)
                && call_ensures(C::before_allocate_zeroed, (inner, layout), ()),
    {
        if let Some(callbacks) = arc_get_mut(self) {
            callbacks.before_allocate_zeroed(layout)
        }
    }

    fn after_allocate_zeroed(&mut self, layout: Layout, result: AllocResult)
        ensures
            **final(self) == **old(self) || exists|inner: &mut C| mut_ref_current(inner) == **old(self) && mut_ref_future(inner) == **final(self)
                && call_ensures(C::after_allocate_zeroed, (inner, layout, result), ()),
    {
        if let Some(callbacks) = arc_get_mut(self) {
            callbacks.after_allocate_zeroed(layout, result)
        }
    }

    fn before_allocate_all(&mut self)
        ensures
            **final(self) == **old(self) || exists|inner: &mut C| mut_ref_current(inner) == **old(self) && mut_ref_future(inner) == **final(self)
                && call_ensures(C::before_allocate_all, (inner,), ()),
    {
        if let Some(callbacks) = arc_get_mut(self) {
            callbacks.before_allocate_all()
        }
    }

    fn after_allocate_all(&mut self, result: AllocResult)
        ensures
            **final(self) == **old(self) || exists|inner: &mut C| mut_ref_current(inner) == **old(self) && mut_ref_future(inner) == **final(self)
                && call_ensures(C::after_allocate_all, (inner, result), ()),
    {
        if let Some(callbacks) = arc_get_mut(self) {
            callbacks.after_allocate_all(result)
        }
    }

    fn before_allocate_all_zeroed(&mut self)
        ensures
            **final(self) == **old(self) || exists|inner: &mut C| mut_ref_current(inner) == **old(self) && mut_ref_future(inner) == **final(self)
                && call_ensures(C::before_allocate_all_zeroed, (inner,), ()),
    {
        if let Some(callbacks) = arc_get_mut(self) {
            callbacks.before_allocate_all_zeroed()
        }
    }

    fn after_allocate_all_zeroed(&mut self, result: AllocResult)
        ensures
            **final(self) == **old(self) || exists|inner: &mut C| mut_ref_current(inner) == **old(self) && mut_ref_future(inner) == **final(self)
                && call_ensures(C::after_allocate_all_zeroed, (inner, result), ()),
    {
        if let Some(callbacks) = arc_get_mut(self) {
            callbacks.after_allocate_all_zeroed(result)
        }
    }

    fn before_deallocate(&mut self, ptr: usize, layout: Layout)
        ensures
            **final(self) == **old(self) || exists|inner: &mut C| mut_ref_current(inner) == **old(self) && mut_ref_future(inner) == **final(self)
                && call_ensures(C::before_deallocate, (inner, ptr, layout), ()),
    {
        if let Some(callbacks) = arc_get_mut(self) {
            callbacks.before_deallocate(ptr, layout)
        }
    }

    fn after_deallocate(&mut self, ptr: usize, layout: Layout)
        ensures
            **final(self) == **old(self) || exists|inner: &mut C| mut_ref_current(inner) == **old(self) && mut_ref_future(inner) == **final(self)
                && call_ensures(C::after_deallocate, (inner, ptr, layout), ()),
    {
        if let Some(callbacks) = arc_get_mut(self) {
            callbacks.after_deallocate(ptr, layout)
        }
    }

    fn before_deallocate_all(&mut self)
        ensures
            **final(self) == **old(self) || exists|inner: &mut C| mut_ref_current(inner) == **old(self) && mut_ref_future(inner) == **final(self)
                && call_ensures(C::before_deallocate_all, (inner,), ()),
    {
        if let Some(callbacks) = arc_get_mut(self) {
            callbacks.before_deallocate_all()
        }
    }

    fn after_deallocate_all(&mut self)
        ensures
            **final(self) == **old(self) || exists|inner: &mut C| mut_ref_current(inner) == **old(self) && mut_ref_future(inner) == **final(self)
                && call_ensures(C::after_deallocate_all, (inner,), ()),
    {
        if let Some(callbacks) = arc_get_mut(self) {
            callbacks.after_deallocate_all()
        }
    }

    fn before_grow(&mut self, ptr: usize, old_layout: Layout, new_layout: Layout)
        ensures
            **final(self) == **old(self) || exists|inner: &mut C| mut_ref_current(inner) == **old(self) && mut_ref_future(inner) == **final(self)
                && call_ensures(C::before_grow, (inner, ptr, old_layout, new_layout), ()),
    {
        if let Some(callbacks) = arc_get_mut(self) {
            callbacks.before_grow(ptr, old_layout, new_layout)
        }
    }

    fn after_grow(&mut self, ptr: usize, old_layout: Layout, new_layout: Layout, result: AllocResult)
        ensures
            **final(self) == **old(self) || exists|inner: &mut C| mut_ref_current(inner) == **old(self) && mut_ref_future(inner) == **final(self)
                && call_ensures(C::after_grow, (inner, ptr, old_layout, new_layout, result), ()),
    {
        if let Some(callbacks) = arc_get_mut(self) {
            callbacks.after_grow(ptr, old_layout, new_layout, result)
        }
    }

    fn before_grow_zeroed(&mut self, ptr: usize, old_layout: Layout, new_layout: Layout)
        ensures
            **final(self) == **old(self) || exists|inner: &mut C| mut_ref_current(inner) == **old(self) && mut_ref_future(inner) == **final(self)
                && call_ensures(C::before_grow_zeroed, (inner, ptr, old_layout, new_layout), ()),
    {
        if let Some(callbacks) = arc_get_mut(self) {
            callbacks.before_grow_zeroed(ptr, old_layout, new_layout)
        }
    }

    fn after_grow_zeroed(&mut self, ptr: usize, old_layout: Layout, new_layout: Layout, result: AllocResult)
        ensures
            **final(self) == **old(self) || exists|inner: &mut C| mut_ref_current(inner) == **old(self) && mut_ref_future(inner) == **final(self)
                && call_ensures(C::after_grow_zeroed, (inner, ptr, old_layout, new_layout, result), ()),
    {
        if let Some(callbacks) = arc_get_mut(self) {
            callbacks.after_grow_zeroed(ptr, old_layout, new_layout, result)
        }
    }

    fn before_grow_in_place(&mut self, ptr: usize, old_layout: Layout, new_layout: Layout)
        ensures
            **final(self) == **old(self) || exists|inner: &mut C| mut_ref_current(inner) == **old(self) && mut_ref_future(inner) == **final(self)
                && call_ensures(C::before_grow_in_place, (inner, ptr, old_layout, new_layout), ()),
    {
        if let Some(callbacks) = arc_get_mut(self) {
            callbacks.before_grow_in_place(ptr, old_layout, new_layout)
        }
    }

    fn after_grow_in_place(&mut self, ptr: usize, old_layout: Layout, new_layout: Layout, result: Result<usize, AllocError>)
        ensures
            **final(self) == **old(self) || exists|inner: &mut C| mut_ref_current(inner) == **old(self) && mut_ref_future(inner) == **final(self)
                && call_ensures(C::after_grow_in_place, (inner, ptr, old_layout, new_layout, result), ()),
    {
        if let Some(callbacks) = arc_get_mut(self) {
            callbacks.after_grow_in_place(ptr, old_layout, new_layout, result)
        }
    }

    fn before_grow_in_place_zeroed(&mut self, ptr: usize, old_layout: Layout, new_layout: Layout)
        ensures
            **final(self) == **old(self) || exists|inner: &mut C| mut_ref_current(inner) == **old(self) && mut_ref_future(inner) == **final(self)
                && call_ensures(C::before_grow_in_place_zeroed, (inner, ptr, old_layout, new_layout), ()),
    {
        if let Some(callbacks) = arc_get_mut(self) {
            callbacks.before_grow_in_place_zeroed(ptr, old_layout, new_layout)
        }
    }

    fn after_grow_in_place_zeroed(&mut self, ptr: usize, old_layout: Layout, new_layout: Layout, result: Result<usize, AllocError>)
        ensures
            **final(self) == **old(self) || exists|inner: &mut C| mut_ref_current(inner) == **old(self) && mut_ref_future(inner) == **final(self)
                && call_ensures(C::after_grow_in_place_zeroed, (inner, ptr, old_layout, new_layout, result), ()),
    {
        if let Some(callbacks) = arc_get_mut(self) {
            callbacks.after_grow_in_place_zeroed(ptr, old_layout, new_layout, result)
        }
    }

    fn before_shrink(&mut self, ptr: usize, old_layout: Layout, new_layout: Layout)
        ensures
            **final(self) == **old(self) || exists|inner: &mut C| mut_ref_current(inner) == **old(self) && mut_ref_future(inner) == **final(self)
                && call_ensures(C::before_shrink, (inner, ptr, old_layout, new_layout), ()),
    {
        if let Some(callbacks) = arc_get_mut(self) {
            callbacks.before_shrink(ptr, old_layout, new_layout)
        }
    }

    fn after_shrink(&mut self, ptr: usize, old_layout: Layout, new_layout: Layout, result: AllocResult)
        ensures
            **final(self) == **old(self) || exists|inner: &mut C| mut_ref_current(inner) == **old(self) && mut_ref_future(inner) == **final(self)
                && call_ensures(C::after_shrink, (inner, ptr, old_layout, new_layout, result), ()),
    {
        if let Some(callbacks) = arc_get_mut(self) {
            callbacks.after_shrink(ptr, old_layout, new_layout, result)
        }
    }

    fn before_shrink_in_place(&mut self, ptr: usize, old_layout: Layout, new_layout: Layout)
        ensures
            **final(self) == **old(self) || exists|inner: &mut C| mut_ref_current(inner) == **old(self) && mut_ref_future(inner) == **final(self)
                && call_ensures(C::before_shrink_in_place, (inner, ptr, old_layout, new_layout), ()),
    {
        if let Some(callbacks) = arc_get_mut(self) {
            callbacks.before_shrink_in_place(ptr, old_layout, new_layout)
        }
    }

    fn after_shrink_in_place(&mut self, ptr: usize, old_layout: Layout, new_layout: Layout, result: Result<usize, AllocError>)
        ensures
            **final(self) == **old(self) || exists|inner: &mut C| mut_ref_current(inner) == **old(self) && mut_ref_future(inner) == **final(self)
                && call_ensures(C::after_shrink_in_place, (inner, ptr, old_layout, new_layout, result), ()),
    {
        if let Some(callbacks) = arc_get_mut(self) {
            callbacks.after_shrink_in_place(ptr, old_layout, new_layout, result)
        }
    }

    fn before_owns(&mut self)
        ensures
            **final(self) == **old(self) || exists|inner: &mut C| mut_ref_current(inner) == **old(self) && mut_ref_future(inner) == **final(self)
                && call_ensures(C::before_owns, (inner,), ()),
    {
        if let Some(callbacks) = arc_get_mut(self) {
            callbacks.before_owns()
        }
    }

    fn after_owns(&mut self, success: bool)
        ensures
            **final(self) == **old(self) || exists|inner: &mut C| mut_ref_current(inner) == **old(self) && mut_ref_future(inner) == **final(self)
                && call_ensures(C::after_owns, (inner, success), ()),
    {
        if let Some(callbacks) = arc_get_mut(self) {
            callbacks.after_owns(success)
        }
    }
}

/// Calls `std::rc::Rc::get_mut`, which gives a mutable reference into `rc` when `rc` is the
/// only owner of its value and `None` otherwise. Stated: a reference it gives starts at the
/// value behind `rc`, and what is written through it is what `rc` holds afterwards; on `None`,
/// `rc` is left as it was. Which of the two comes back depends on how many owners the value
/// has, which is not part of `rc`'s value, and is left unsaid.
#[verifier::external_body]
fn rc_get_mut<C>(rc: &mut Rc<C>) -> (r: Option<&mut C>)
    ensures
        r matches Some(inner) ==> mut_ref_current(inner) == **old(rc) && mut_ref_future(inner)
            == **final(rc),
        r is None ==> **final(rc) == **old(rc),
{
    Rc::get_mut(rc)
}

/// Calls `std::sync::Arc::get_mut`, which gives a mutable reference into `arc` when `arc` is
/// the only owner of its value and `None` otherwise. Stated: a reference it gives starts at the
/// value behind `arc`, and what is written through it is what `arc` holds afterwards; on
/// `None`, `arc` is left as it was. Which of the two comes back depends on how many owners the
/// value has, which is not part of `arc`'s value, and is left unsaid.
#[verifier::external_body]
fn arc_get_mut<C>(arc: &mut Arc<C>) -> (r: Option<&mut C>)
    ensures
        r matches Some(inner) ==> mut_ref_current(inner) == **old(arc) && mut_ref_future(inner)
            == **final(arc),
        r is None ==> **final(arc) == **old(arc),
{
    Arc::get_mut(arc)
}

} // verus!
