//! Equality and order of records. Two records are equal when all four fields
//! are; they are ordered by their paths alone, so two records with one path
//! compare as equal in the order though they may differ in other fields.

use vstd::prelude::*;
use core::cmp::Ordering;
use vstd::std_specs::cmp::PartialOrdSpec;
use crate::record::{lex_le, FileCheckSum, FileInfo};

verus! {

impl PartialEq for FileCheckSum {
    fn eq(&self, other: &FileCheckSum) -> (r: bool) {
        self.same(other)
    }
}

impl vstd::std_specs::cmp::PartialEqSpecImpl for FileCheckSum {
    open spec fn obeys_eq_spec() -> bool {
        true
    }

    open spec fn eq_spec(&self, other: &FileCheckSum) -> bool {
        self@ == other@
    }
}

impl PartialEq for FileInfo {
    fn eq(&self, other: &FileInfo) -> (r: bool) {
        self.same(other)
    }
}

impl vstd::std_specs::cmp::PartialEqSpecImpl for FileInfo {
    open spec fn obeys_eq_spec() -> bool {
        true
    }

    open spec fn eq_spec(&self, other: &FileInfo) -> bool {
        self@ == other@
    }
}

impl PartialOrd for FileInfo {
    fn partial_cmp(&self, other: &FileInfo) -> (r: Option<Ordering>) {
        if self.path_le(other) {
            if other.path_le(self) {
                Some(Ordering::Equal)
            } else {
                Some(Ordering::Less)
            }
        } else {
            Some(Ordering::Greater)
        }
    }
}

impl vstd::std_specs::cmp::PartialOrdSpecImpl for FileInfo {
    open spec fn obeys_partial_cmp_spec() -> bool {
        true
    }

    open spec fn partial_cmp_spec(&self, other: &FileInfo) -> Option<Ordering> {
        if lex_le(self@.path, other@.path) {
            if lex_le(other@.path, self@.path) {
                Some(Ordering::Equal)
            } else {
                Some(Ordering::Less)
            }
        } else {
            Some(Ordering::Greater)
        }
    }
}

/// Records compare as equal in the order exactly when their paths are the
/// same, whatever their other fields hold.
pub proof fn lemma_order_is_by_path(a: FileInfo, b: FileInfo)
    ensures
        a.partial_cmp_spec(&b) == Some(Ordering::Equal) <==> a@.path == b@.path,
        a.partial_cmp_spec(&b) is Some,
{
    if a@.path == b@.path {
        crate::record::lemma_lex_le_reflexive(a@.path);
    }
    if lex_le(a@.path, b@.path) && lex_le(b@.path, a@.path) {
        crate::record::lemma_lex_le_antisymmetric(a@.path, b@.path);
    }
}

} // verus!
