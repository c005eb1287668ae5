use vstd::prelude::*;

verus! {

/// A value that can be copied with a guarantee that the copy has the same
/// mathematical model as the value it was made from.
pub trait Duplicate: DeepView + Sized {
    fn duplicate(&self) -> (r: Self)
        ensures
            r.deep_view() == self.deep_view(),
    ;
}

/// A value that can serve as a key of a [`crate::table::Table`]: keys are
/// compared by their models.
pub trait StoreKey: Duplicate {
    fn same_key(&self, other: &Self) -> (b: bool)
        ensures
            b == (self.deep_view() == other.deep_view()),
    ;
}

impl Duplicate for u64 {
    fn duplicate(&self) -> (r: Self) {
        *self
    }
}

impl StoreKey for u64 {
    fn same_key(&self, other: &Self) -> (b: bool) {
        *self == *other
    }
}

impl Duplicate for () {
    fn duplicate(&self) -> (r: Self) {
        ()
    }
}

impl StoreKey for () {
    fn same_key(&self, other: &Self) -> (b: bool) {
        true
    }
}

impl Duplicate for u128 {
    fn duplicate(&self) -> (r: Self) {
        *self
    }
}

impl Duplicate for bool {
    fn duplicate(&self) -> (r: Self) {
        *self
    }
}

impl Duplicate for String {
    fn duplicate(&self) -> (r: Self) {
        self.clone()
    }
}

impl StoreKey for String {
    fn same_key(&self, other: &Self) -> (b: bool) {
        *self == *other
    }
}

impl<A: Duplicate, B: Duplicate> Duplicate for (A, B) {
    fn duplicate(&self) -> (r: Self) {
        (self.0.duplicate(), self.1.duplicate())
    }
}

impl<A: StoreKey, B: StoreKey> StoreKey for (A, B) {
    fn same_key(&self, other: &Self) -> (b: bool) {
        self.0.same_key(&other.0) && self.1.same_key(&other.1)
    }
}

impl<T: Duplicate> Duplicate for Vec<T> {
    fn duplicate(&self) -> (r: Self) {
        let mut out: Vec<T> = Vec::new();
        let mut i: usize = 0;
        while i < self.len()
            invariant
                i <= self.len(),
                out.len() == i,
                forall|j: int| 0 <= j < i ==> #[trigger] out@[j].deep_view() == self@[j].deep_view(),
            decreases self.len() - i,
        {
            out.push(self[i].duplicate());
            i = i + 1;
        }
        assert(out.deep_view() =~= self.deep_view());
        out
    }
}

impl<T: Duplicate> Duplicate for Option<T> {
    fn duplicate(&self) -> (r: Self) {
        match self {
            Some(v) => Some(v.duplicate()),
            None => None,
        }
    }
}

/// For a vector of integers the deep model is the plain model.
pub proof fn lemma_deep_view_u64(v: &Vec<u64>)
    ensures
        v.deep_view() == v@,
{
    assert(v.deep_view() =~= v@);
}

/// For a vector of integers the deep model is the plain model.
pub proof fn lemma_deep_view_u128(v: &Vec<u128>)
    ensures
        v.deep_view() == v@,
{
    assert(v.deep_view() =~= v@);
}

/// A copy of a vector of integers.
pub fn copy_u64s(v: &Vec<u64>) -> (r: Vec<u64>)
    ensures
        r@ == v@,
{
    let r = v.duplicate();
    proof {
        lemma_deep_view_u64(&r);
        lemma_deep_view_u64(v);
    }
    r
}

/// A copy of a vector of amounts.
pub fn copy_u128s(v: &Vec<u128>) -> (r: Vec<u128>)
    ensures
        r@ == v@,
{
    let r = v.duplicate();
    proof {
        lemma_deep_view_u128(&r);
        lemma_deep_view_u128(v);
    }
    r
}

} // verus!
