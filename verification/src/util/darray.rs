//! Arrays that are shared with C.
use core::marker::PhantomData;
use vstd::prelude::*;

verus! {

/// A C array: storage, how much of it is in use, and how much there is.
pub trait Darray<T>: Sized {
    /// How many elements are in use.
    spec fn used(&self) -> nat;

    /// The storage.
    spec fn storage(&self) -> Seq<T>;

    /// An array without storage.
    fn empty() -> (r: Self)
        ensures
            r.used() == 0,
            r.storage() == Seq::<T>::empty(),
    ;

    /// How many elements are in use.
    fn nr(&self) -> (r: usize)
        ensures
            r == self.used(),
    ;

    /// Takes the storage out.
    fn into_storage(self) -> (r: Vec<T>)
        ensures
            r@ == self.storage(),
    ;

    /// Makes a vector the storage, of which `nr` elements are in use.
    fn set_vec_storage(&mut self, data: Vec<T>, nr: usize)
        ensures
            final(self).storage() == data@,
            final(self).used() == nr,
    ;
}

/// A C array of elements of the type `T`.
#[allow(non_camel_case_types)]
pub struct darray<T> {
    /// How many elements are in use.
    pub nr: usize,
    /// The storage.
    pub data: Vec<T>,
}

impl<T> Darray<T> for darray<T> {
    open spec fn used(&self) -> nat {
        self.nr as nat
    }

    open spec fn storage(&self) -> Seq<T> {
        self.data@
    }

    fn empty() -> (r: Self) {
        darray { nr: 0, data: Vec::new() }
    }

    fn nr(&self) -> (r: usize) {
        self.nr
    }

    fn into_storage(self) -> (r: Vec<T>) {
        self.data
    }

    fn set_vec_storage(&mut self, data: Vec<T>, nr: usize) {
        self.data = data;
        self.nr = nr;
    }
}

/// A vector that is presented to C as an array. C may move elements and use fewer of them; it must
/// not reallocate the storage.
pub struct DarrayVec<D: Darray<T>, T> {
    darray: D,
    _ty: PhantomData<T>,
}

impl<D: Darray<T>, T> DarrayVec<D, T> {
    /// The array.
    pub closed spec fn array(self) -> D {
        self.darray
    }

    /// Presents a vector as an array: all of its elements are in use.
    pub fn from_vec(vec: Vec<T>) -> (r: Self)
        ensures
            r.array().storage() == vec@,
            r.array().used() == vec@.len(),
    {
        let mut darray = D::empty();
        let nr: usize = vec.len();
        darray.set_vec_storage(vec, nr);
        DarrayVec { darray, _ty: PhantomData }
    }

    /// The array, to be handed to C.
    pub fn as_mut(&mut self) -> (r: &mut D)
        ensures
            *r == old(self).array(),
            final(self).array() == *final(r),
    {
        &mut self.darray
    }

    /// The elements that are in use.
    pub fn into_vec(self) -> (r: Vec<T>)
        requires
            self.array().used() <= self.array().storage().len(),
        ensures
            r@ == self.array().storage().take(self.array().used() as int),
    {
        let nr: usize = self.darray.nr();
        let mut data = self.darray.into_storage();
        data.truncate(nr);
        data
    }
}

/// A vector that C leaves alone comes back as it was; where C only uses fewer elements, the first
/// ones come back.
pub proof fn law_vector_round_trip<T>(v: Seq<T>, nr: nat)
    requires
        nr <= v.len(),
    ensures
        v.take(v.len() as int) == v,
        v.take(nr as int).len() == nr,
        forall|i: int| 0 <= i < nr ==> #[trigger] v.take(nr as int)[i] == v[i],
{
}

/// An array is its storage, as far as it is in use.
pub proof fn law_arrays_are_their_storage<T>(a: darray<T>)
    ensures
        a.used() == a.nr,
        a.storage() == a.data@,
{
}

} // verus!
