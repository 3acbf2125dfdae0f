//! The scene: an insertion-ordered collection of objects, each owned by the
//! scene. Objects are added while the scene is built and only read while
//! rays are traced through it.

use vstd::prelude::*;

verus! {

/// The objects of a scene, in the order they were added.
pub struct HittableList<T> {
    objects: Vec<T>,
}

impl<T> View for HittableList<T> {
    type V = Seq<T>;

    closed spec fn view(&self) -> Seq<T> {
        self.objects@
    }
}

impl<T> HittableList<T> {
    /// A scene with no objects.
    pub fn empty() -> (r: HittableList<T>)
        ensures
            r@ == Seq::<T>::empty(),
    {
        HittableList { objects: Vec::new() }
    }

    /// A scene holding `objs`, in their order.
    pub fn from(objs: Vec<T>) -> (r: HittableList<T>)
        ensures
            r@ == objs@,
    {
        HittableList { objects: objs }
    }

    /// Appends an object; the scene takes ownership of it.
    pub fn add(&mut self, obj: T)
        ensures
            final(self)@ == old(self)@.push(obj),
    {
        self.objects.push(obj);
    }

    /// Removes every object.
    pub fn clear(&mut self)
        ensures
            final(self)@ == Seq::<T>::empty(),
    {
        self.objects.clear();
    }

    /// The number of objects.
    pub fn length(&self) -> (r: usize)
        ensures
            r == self@.len(),
    {
        self.objects.len()
    }

    /// The objects, in the order they were added.
    pub fn objects(&self) -> (r: &Vec<T>)
        ensures
            r@ == self@,
    {
        &self.objects
    }
}

} // verus!
