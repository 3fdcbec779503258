//! Errors of data set operations, and their equality.

use vstd::prelude::*;
use vstd::std_specs::cmp::PartialEqSpecImpl;
use crate::errors::{str_eq, DecodingError, IntegrityError, LutError};

verus! {

/// An input/output failure, without further detail.
#[derive(Debug, PartialEq, Eq, Structural, Copy, Clone)]
pub struct IOError;

/// Errors raised by data set operations; each names the `action` under way.
#[derive(Debug)]
#[non_exhaustive]
pub enum DataSetError {
    DataSetLut { action: &'static str, source: LutError },
    DataSetIntegrity { action: &'static str, source: IntegrityError },
    DataDecoding { action: &'static str, source: DecodingError },
    IO { action: &'static str, source: IOError },
    Conversion { action: String },
}

impl DataSetError {
    /// What `==` means on data set errors: same variant, same action and
    /// same source, except that input/output errors are compared by their
    /// action alone and that a conversion error equals no error at all.
    pub open spec fn equals(&self, other: &Self) -> bool {
        match (*self, *other) {
            (
                DataSetError::DataSetLut { action: la, source: ls },
                DataSetError::DataSetLut { action: ra, source: rs },
            ) => la@ == ra@ && ls.same_as(&rs),
            (
                DataSetError::DataSetIntegrity { action: la, source: ls },
                DataSetError::DataSetIntegrity { action: ra, source: rs },
            ) => la@ == ra@ && ls.same_as(&rs),
            (
                DataSetError::DataDecoding { action: la, source: ls },
                DataSetError::DataDecoding { action: ra, source: rs },
            ) => la@ == ra@ && ls.same_as(&rs),
            (DataSetError::IO { action: la, .. }, DataSetError::IO { action: ra, .. }) => la@
                == ra@,
            _ => false,
        }
    }
}

impl PartialEq for DataSetError {
    fn eq(&self, other: &Self) -> (res: bool) {
        match (self, other) {
            (
                DataSetError::DataSetLut { action: l_action, source: l_source },
                DataSetError::DataSetLut { action: r_action, source: r_source },
            ) => str_eq(l_action, r_action) && l_source == r_source,
            (
                DataSetError::DataSetIntegrity { action: l_action, source: l_source },
                DataSetError::DataSetIntegrity { action: r_action, source: r_source },
            ) => str_eq(l_action, r_action) && l_source == r_source,
            (
                DataSetError::DataDecoding { action: l_action, source: l_source },
                DataSetError::DataDecoding { action: r_action, source: r_source },
            ) => str_eq(l_action, r_action) && l_source == r_source,
            (
                DataSetError::IO { action: l_action, source: _l_source },
                DataSetError::IO { action: r_action, source: _r_source },
            ) => str_eq(l_action, r_action),
            _ => false,
        }
    }
}

impl PartialEqSpecImpl for DataSetError {
    open spec fn obeys_eq_spec() -> bool {
        true
    }

    open spec fn eq_spec(&self, other: &Self) -> bool {
        self.equals(other)
    }
}

/// Equality of data set errors is symmetric.
pub proof fn lemma_equals_symmetric(a: DataSetError, b: DataSetError)
    ensures
        a.equals(&b) == b.equals(&a),
{
}

/// Equality of data set errors is transitive.
pub proof fn lemma_equals_transitive(a: DataSetError, b: DataSetError, c: DataSetError)
    requires
        a.equals(&b),
        b.equals(&c),
    ensures
        a.equals(&c),
{
}

/// Every data set error equals itself, except a conversion error, which
/// equals nothing, itself included.
pub proof fn lemma_equals_reflexive_except_conversion(a: DataSetError)
    ensures
        a.equals(&a) <==> !(a is Conversion),
{
}

/// Two input/output errors are equal exactly when their actions are, whatever
/// their sources; errors of different kinds are never equal.
pub proof fn lemma_equals_io_and_kinds(a: DataSetError, b: DataSetError)
    ensures
        (a is IO && b is IO) ==> (a.equals(&b) <==> a->IO_action@ == b->IO_action@),
        a.equals(&b) ==> (a is DataSetLut && b is DataSetLut) || (a is DataSetIntegrity
            && b is DataSetIntegrity) || (a is DataDecoding && b is DataDecoding) || (a is IO
            && b is IO),
{
}

/// Data set errors of the look-up, integrity or decoding kind are equal
/// exactly when their actions are equal and their sources are equal as their
/// own `==` compares them.
pub proof fn lemma_equals_compares_sources(a: DataSetError, b: DataSetError)
    ensures
        a matches DataSetError::DataSetLut { action: la, source: ls }
            ==> b matches DataSetError::DataSetLut { action: ra, source: rs } ==> (a.equals(&b)
            <==> (la@ == ra@ && ls.same_as(&rs))),
        a matches DataSetError::DataSetIntegrity { action: la, source: ls }
            ==> b matches DataSetError::DataSetIntegrity { action: ra, source: rs } ==> (a.equals(
            &b,
        ) <==> (la@ == ra@ && ls.same_as(&rs))),
        a matches DataSetError::DataDecoding { action: la, source: ls }
            ==> b matches DataSetError::DataDecoding { action: ra, source: rs } ==> (a.equals(&b)
            <==> (la@ == ra@ && ls.same_as(&rs))),
{
}

/// Spelled out through the sources' own equality: integrity errors are
/// equal exactly when action, data set and variable agree; decoding errors
/// compare every field of their sources; look-up errors with unknown IDs
/// compare the IDs.
pub proof fn lemma_equals_fieldwise_sources(a: DataSetError, b: DataSetError)
    ensures
        a matches DataSetError::DataSetIntegrity {
            action: la,
            source: IntegrityError::SubNormal { dataset: d1, variable: v1 },
        } ==> b matches DataSetError::DataSetIntegrity {
            action: ra,
            source: IntegrityError::SubNormal { dataset: d2, variable: v2 },
        } ==> (a.equals(&b) <==> (la@ == ra@ && d1@ == d2@ && v1@ == v2@)),
        a matches DataSetError::DataDecoding {
            action: la,
            source: DecodingError::InaccessibleBytes { start: s1, end: e1, size: z1 },
        } ==> b matches DataSetError::DataDecoding {
            action: ra,
            source: DecodingError::InaccessibleBytes { start: s2, end: e2, size: z2 },
        } ==> (a.equals(&b) <==> (la@ == ra@ && s1 == s2 && e1 == e2 && z1 == z2)),
        a matches DataSetError::DataSetLut { action: la, source: LutError::UnknownId { id: x } }
            ==> b matches DataSetError::DataSetLut {
            action: ra,
            source: LutError::UnknownId { id: y },
        } ==> (a.equals(&b) <==> (la@ == ra@ && x == y)),
{
}

} // verus!
