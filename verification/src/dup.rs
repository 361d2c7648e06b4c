//! Exact copies of library values, stated over their abstract views.
use vstd::prelude::*;

verus! {

/// A value that can be copied so that the copy has the same abstract content.
pub trait Duplicate: Sized + DeepView {
    fn duplicate(&self) -> (r: Self)
        ensures
            r.deep_view() == self.deep_view(),
    ;
}

impl Duplicate for String {
    fn duplicate(&self) -> (r: Self) {
        self.clone()
    }
}

impl Duplicate for u32 {
    fn duplicate(&self) -> (r: Self) {
        *self
    }
}

impl Duplicate for u8 {
    fn duplicate(&self) -> (r: Self) {
        *self
    }
}

/// Copies every element of `v`.
pub fn duplicate_vec<T: Duplicate>(v: &Vec<T>) -> (r: Vec<T>)
    ensures
        r.deep_view() == v.deep_view(),
{
    let mut r: Vec<T> = Vec::new();
    let mut i: usize = 0;
    while i < v.len()
        invariant
            i <= v.len(),
            r@.len() == i,
            forall|k: int| 0 <= k < i ==> #[trigger] r@[k].deep_view() == v@[k].deep_view(),
        decreases v.len() - i,
    {
        let x = v[i].duplicate();
        let ghost before = r@;
        r.push(x);
        assert(r@ == before.push(x));
        assert forall|k: int| 0 <= k < i + 1 implies #[trigger] r@[k].deep_view() == v@[k].deep_view() by {
            if k < i {
                assert(r@[k] == before[k]);
            }
        }
        i += 1;
    }
    assert(r.deep_view() =~= v.deep_view());
    r
}

/// Copies an optional value.
pub fn duplicate_option<T: Duplicate>(v: &Option<T>) -> (r: Option<T>)
    ensures
        r.deep_view() == v.deep_view(),
{
    match v {
        Some(x) => Some(x.duplicate()),
        None => None,
    }
}

} // verus!
