//! Option overlay merge: field-wise precedence combination of records
//! whose fields are individually optional. A present field of the
//! overriding record wins; an absent one leaves the base field alone.
//! Effective settings across nested scopes are the left fold of this
//! merge, outermost scope first.

use vstd::prelude::*;

verus! {

/// Field-wise overlay merge over optional-valued records.
pub trait OptWrite: Sized {
    /// What merging `self` (base) with `other` (override) yields.
    spec fn merged(self, other: Self) -> Self;

    /// In-place merge: fields present in `other` replace those of `self`.
    fn optwrite(&mut self, other: Self)
        ensures
            *final(self) == (*old(self)).merged(other),
    ;

    /// Non-mutating merge with the same per-field precedence.
    fn overriden_by(self, other: Self) -> (r: Self)
        ensures
            r == self.merged(other),
    ;
}

impl<T> OptWrite for Option<T> {
    open spec fn merged(self, other: Self) -> Self {
        if other is Some {
            other
        } else {
            self
        }
    }

    fn optwrite(&mut self, other: Self) {
        if let Some(v) = other {
            *self = Some(v);
        }
    }

    fn overriden_by(self, other: Self) -> (r: Self) {
        match other {
            Some(_) => other,
            None => self,
        }
    }
}

/// Overlay merge of a single optional field is associative: folding
/// three scopes left-to-right equals merging into a pre-merged
/// override.
pub proof fn lemma_option_merge_associative<T>(a: Option<T>, b: Option<T>, c: Option<T>)
    ensures
        a.merged(b).merged(c) == a.merged(b.merged(c)),
{
}

/// An absent field never reverts a present one: merging with `None`
/// on either side yields the other record's field.
pub proof fn lemma_option_merge_identity<T>(a: Option<T>)
    ensures
        a.merged(None) == a,
        Option::<T>::None.merged(a) == a,
{
}

} // verus!
