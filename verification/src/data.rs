use vstd::prelude::*;
use core::marker::PhantomData;

use crate::color::{Channel, Color};
use crate::geom::Size;
use crate::meta::Meta;

verus! {

/// Wraps image data slices, tagging them with a Color type
#[derive(Debug)]
pub struct Data<'a, T, C: Color>(pub &'a [T], pub PhantomData<C>);

/// Wraps mutable image data slices, tagging them with a Color type
#[derive(Debug)]
pub struct DataMut<'a, T, C: Color>(pub &'a mut [T], pub PhantomData<C>);

impl<'a, T, C: Color> View for Data<'a, T, C> {
    type V = Seq<T>;

    open spec fn view(&self) -> Seq<T> {
        self.0@
    }
}

impl<'a, T, C: Color> View for DataMut<'a, T, C> {
    type V = Seq<T>;

    open spec fn view(&self) -> Seq<T> {
        self.0@
    }
}

impl<'a, T, C: Color> Data<'a, T, C> {
    /// Wrap a slice
    pub fn new(data: &'a [T]) -> (d: Self)
        ensures
            d@ == data@,
    {
        Data(data, PhantomData)
    }

    /// Number of elements
    pub fn len(&self) -> (r: usize)
        ensures
            r == self@.len(),
    {
        self.0.len()
    }

    /// Returns true when the inner slice is empty
    pub fn is_empty(&self) -> (r: bool)
        ensures
            r == (self@.len() == 0),
    {
        self.0.len() == 0
    }

    /// Get the number of pixels available
    pub fn num_pixels(&self) -> (r: usize)
        ensures
            r == self@.len() / C::spec_channels(),
    {
        self.0.len() / C::channels()
    }

    /// Get the number of channels
    pub fn channels(&self) -> (r: Channel)
        ensures
            r == C::spec_channels(),
    {
        C::channels()
    }

    /// Get information about data: one row holding every available pixel
    pub fn meta(&self) -> (m: Meta<T, C>)
        ensures
            m.size.width == self@.len() / C::spec_channels(),
            m.size.height == 1,
    {
        Meta::new(Size::new(self.num_pixels(), 1))
    }

    /// Get inner slice
    pub fn as_slice(&self) -> (s: &'a [T])
        ensures
            s@ == self@,
    {
        self.0
    }
}

impl<'a, T: Copy, C: Color> DataMut<'a, T, C> {
    /// Wrap a mutable slice
    pub fn new(data: &'a mut [T]) -> (d: Self)
        ensures
            d@ == old(data)@,
            final(data)@ == final(d.0)@,
    {
        DataMut(data, PhantomData)
    }

    /// Number of elements
    pub fn len(&self) -> (r: usize)
        ensures
            r == self@.len(),
    {
        self.0.len()
    }

    /// Returns true when the inner slice is empty
    pub fn is_empty(&self) -> (r: bool)
        ensures
            r == (self@.len() == 0),
    {
        self.0.len() == 0
    }

    /// Get the number of pixels available
    pub fn num_pixels(&self) -> (r: usize)
        ensures
            r == self@.len() / C::spec_channels(),
    {
        self.0.len() / C::channels()
    }

    /// Get the number of channels
    pub fn channels(&self) -> (r: Channel)
        ensures
            r == C::spec_channels(),
    {
        C::channels()
    }

    /// Copy values from slice
    pub fn copy_from_slice(&mut self, slice: &[T])
        requires
            slice@.len() == old(self)@.len(),
        ensures
            final(self)@ == slice@,
    {
        let n = slice.len();
        let mut i: usize = 0;
        while i < n
            invariant
                n == slice@.len(),
                self@.len() == n,
                i <= n,
                forall|k: int| 0 <= k < i ==> self@[k] == slice@[k],
            decreases n - i,
        {
            self.0[i] = slice[i];
            i = i + 1;
        }
        assert(self@ =~= slice@);
    }

    /// Get information about data: one row holding every available pixel
    pub fn meta(&self) -> (m: Meta<T, C>)
        ensures
            m.size.width == self@.len() / C::spec_channels(),
            m.size.height == 1,
    {
        Meta::new(Size::new(self.num_pixels(), 1))
    }

    /// Get inner slice
    pub fn as_slice(&self) -> (s: &[T])
        ensures
            s@ == self@,
    {
        self.0
    }

    /// Get mutable inner slice
    pub fn as_slice_mut(&mut self) -> (s: &mut [T])
        ensures
            s@ == old(self)@,
            final(self)@ == final(s)@,
    {
        self.0
    }

    /// Downcast to `Data` type
    pub fn as_data(&self) -> (d: Data<'_, T, C>)
        ensures
            d@ == self@,
    {
        Data::new(self.0)
    }
}

} // verus!
