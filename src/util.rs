use vstd::prelude::*;

verus! {

/// Access to the first and last elements of a sequence.
pub trait FirstLast {
    type Ret;

    /// The elements, in order.
    spec fn elements(&self) -> Seq<Self::Ret>;

    fn first(&self) -> (r: &Self::Ret)
        requires
            self.elements().len() > 0,
        ensures
            *r == self.elements()[0],
    ;

    fn last(&self) -> (r: &Self::Ret)
        requires
            self.elements().len() > 0,
        ensures
            *r == self.elements().last(),
    ;

    fn first_mut(&mut self) -> (r: &mut Self::Ret)
        requires
            old(self).elements().len() > 0,
        ensures
            *r == old(self).elements()[0],
            final(self).elements() == old(self).elements().update(0, *final(r)),
    ;

    fn last_mut(&mut self) -> (r: &mut Self::Ret)
        requires
            old(self).elements().len() > 0,
        ensures
            *r == old(self).elements().last(),
            final(self).elements() == old(self).elements().update(
                old(self).elements().len() - 1,
                *final(r),
            ),
    ;
}

impl<T> FirstLast for Vec<T> {
    type Ret = T;

    open spec fn elements(&self) -> Seq<T> {
        self@
    }

    fn first(&self) -> (r: &T) {
        &self[0]
    }

    fn last(&self) -> (r: &T) {
        let len = self.len();
        &self[len - 1]
    }

    fn first_mut(&mut self) -> (r: &mut T) {
        &mut self[0]
    }

    fn last_mut(&mut self) -> (r: &mut T) {
        let len = self.len();
        &mut self[len - 1]
    }
}

} // verus!
