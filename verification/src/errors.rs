use vstd::prelude::*;
use vstd::std_specs::cmp::PartialEqSpecImpl;

verus! {

/// Compares two string slices for equality.
///
/// Trusted: calls `<str as PartialEq>::eq` of std, which compares the
/// characters; the contract claims the result is the equality of the two
/// character sequences.
#[verifier::external_body]
pub(crate) fn str_eq(a: &str, b: &str) -> (res: bool)
    ensures
        res == (a@ == b@),
{
    a == b
}

/// Errors raised while decoding the words of a data set.
#[derive(Debug, Clone)]
pub enum DecodingError {
    /// The bytes (or words) `start..end` lie outside a buffer of `size` items.
    InaccessibleBytes { start: usize, end: usize, size: usize },
    /// The data set `dataset` needs at least `need` doubles and got `got`.
    TooFewDoubles { dataset: &'static str, got: usize, need: usize },
}

impl DecodingError {
    /// Field-wise equality, comparing data set names by their characters.
    pub open spec fn same_as(&self, other: &Self) -> bool {
        match (*self, *other) {
            (
                DecodingError::InaccessibleBytes { start: s1, end: e1, size: z1 },
                DecodingError::InaccessibleBytes { start: s2, end: e2, size: z2 },
            ) => s1 == s2 && e1 == e2 && z1 == z2,
            (
                DecodingError::TooFewDoubles { dataset: d1, got: g1, need: n1 },
                DecodingError::TooFewDoubles { dataset: d2, got: g2, need: n2 },
            ) => d1@ == d2@ && g1 == g2 && n1 == n2,
            _ => false,
        }
    }
}

impl PartialEq for DecodingError {
    fn eq(&self, other: &Self) -> (res: bool) {
        match (self, other) {
            (
                DecodingError::InaccessibleBytes { start: s1, end: e1, size: z1 },
                DecodingError::InaccessibleBytes { start: s2, end: e2, size: z2 },
            ) => *s1 == *s2 && *e1 == *e2 && *z1 == *z2,
            (
                DecodingError::TooFewDoubles { dataset: d1, got: g1, need: n1 },
                DecodingError::TooFewDoubles { dataset: d2, got: g2, need: n2 },
            ) => str_eq(d1, d2) && *g1 == *g2 && *n1 == *n2,
            _ => false,
        }
    }
}

impl PartialEqSpecImpl for DecodingError {
    open spec fn obeys_eq_spec() -> bool {
        true
    }

    open spec fn eq_spec(&self, other: &Self) -> bool {
        self.same_as(other)
    }
}

/// Integrity failures found in the data of a data set.
#[derive(Debug, Clone)]
pub enum IntegrityError {
    /// The variable `variable` of data set `dataset` holds a value that is
    /// not finite.
    SubNormal { dataset: &'static str, variable: &'static str },
}

impl IntegrityError {
    /// Field-wise equality, comparing names by their characters.
    pub open spec fn same_as(&self, other: &Self) -> bool {
        match (*self, *other) {
            (
                IntegrityError::SubNormal { dataset: d1, variable: v1 },
                IntegrityError::SubNormal { dataset: d2, variable: v2 },
            ) => d1@ == d2@ && v1@ == v2@,
        }
    }
}

impl PartialEq for IntegrityError {
    fn eq(&self, other: &Self) -> (res: bool) {
        match (self, other) {
            (
                IntegrityError::SubNormal { dataset: d1, variable: v1 },
                IntegrityError::SubNormal { dataset: d2, variable: v2 },
            ) => str_eq(d1, d2) && str_eq(v1, v2),
        }
    }
}

impl PartialEqSpecImpl for IntegrityError {
    open spec fn obeys_eq_spec() -> bool {
        true
    }

    open spec fn eq_spec(&self, other: &Self) -> bool {
        self.same_as(other)
    }
}

/// Errors raised by the look-up table of a data set.
#[derive(Debug, Clone)]
pub enum LutError {
    /// The ID table is full with all `max_slots` taken.
    IdLutFull { max_slots: usize },
    /// The name table is full with all `max_slots` taken.
    NameLutFull { max_slots: usize },
    /// Neither an ID nor a name was given for a look-up.
    NoKeyProvided,
    /// The ID is not in the table.
    UnknownId { id: i32 },
    /// The name is not in the table.
    UnknownName { name: String },
    /// The table index is not in the data set.
    InvalidIndex { index: u32 },
}

impl LutError {
    /// Field-wise equality, comparing names by their characters.
    pub open spec fn same_as(&self, other: &Self) -> bool {
        match (*self, *other) {
            (LutError::IdLutFull { max_slots: a }, LutError::IdLutFull { max_slots: b }) => a == b,
            (LutError::NameLutFull { max_slots: a }, LutError::NameLutFull { max_slots: b }) => a
                == b,
            (LutError::NoKeyProvided, LutError::NoKeyProvided) => true,
            (LutError::UnknownId { id: a }, LutError::UnknownId { id: b }) => a == b,
            (LutError::UnknownName { name: a }, LutError::UnknownName { name: b }) => a@ == b@,
            (LutError::InvalidIndex { index: a }, LutError::InvalidIndex { index: b }) => a == b,
            _ => false,
        }
    }
}

impl PartialEq for LutError {
    fn eq(&self, other: &Self) -> (res: bool) {
        match (self, other) {
            (LutError::IdLutFull { max_slots: a }, LutError::IdLutFull { max_slots: b }) => *a
                == *b,
            (LutError::NameLutFull { max_slots: a }, LutError::NameLutFull { max_slots: b }) => *a
                == *b,
            (LutError::NoKeyProvided, LutError::NoKeyProvided) => true,
            (LutError::UnknownId { id: a }, LutError::UnknownId { id: b }) => *a == *b,
            (LutError::UnknownName { name: a }, LutError::UnknownName { name: b }) => *a == *b,
            (LutError::InvalidIndex { index: a }, LutError::InvalidIndex { index: b }) => *a == *b,
            _ => false,
        }
    }
}

impl PartialEqSpecImpl for LutError {
    open spec fn obeys_eq_spec() -> bool {
        true
    }

    open spec fn eq_spec(&self, other: &Self) -> bool {
        self.same_as(other)
    }
}

/// Decoding errors are equal exactly when they are of the same kind and
/// carry the same fields (data set names compared by their characters).
pub proof fn lemma_decoding_error_equality_is_fieldwise(a: DecodingError, b: DecodingError)
    ensures
        a matches DecodingError::InaccessibleBytes { start: s1, end: e1, size: z1 }
            ==> b matches DecodingError::InaccessibleBytes { start: s2, end: e2, size: z2 } ==> (
        a.same_as(&b) <==> (s1 == s2 && e1 == e2 && z1 == z2)),
        a matches DecodingError::TooFewDoubles { dataset: d1, got: g1, need: n1 }
            ==> b matches DecodingError::TooFewDoubles { dataset: d2, got: g2, need: n2 } ==> (
        a.same_as(&b) <==> (d1@ == d2@ && g1 == g2 && n1 == n2)),
        (a is InaccessibleBytes) != (b is InaccessibleBytes) ==> !a.same_as(&b),
        a.same_as(&a),
{
}

/// Integrity errors are equal exactly when they name the same data set and
/// the same variable.
pub proof fn lemma_integrity_error_equality_is_fieldwise(a: IntegrityError, b: IntegrityError)
    ensures
        a matches IntegrityError::SubNormal { dataset: d1, variable: v1 }
            ==> b matches IntegrityError::SubNormal { dataset: d2, variable: v2 } ==> (
        a.same_as(&b) <==> (d1@ == d2@ && v1@ == v2@)),
        a.same_as(&a),
{
}

/// Look-up table errors are equal exactly when they are of the same kind and
/// carry the same fields (names compared by their characters).
pub proof fn lemma_lut_error_equality_is_fieldwise(a: LutError, b: LutError)
    ensures
        a matches LutError::IdLutFull { max_slots: x } ==> b matches LutError::IdLutFull {
            max_slots: y,
        } ==> (a.same_as(&b) <==> x == y),
        a matches LutError::NameLutFull { max_slots: x } ==> b matches LutError::NameLutFull {
            max_slots: y,
        } ==> (a.same_as(&b) <==> x == y),
        (a is NoKeyProvided && b is NoKeyProvided) ==> a.same_as(&b),
        a matches LutError::UnknownId { id: x } ==> b matches LutError::UnknownId { id: y } ==> (
        a.same_as(&b) <==> x == y),
        a matches LutError::UnknownName { name: x } ==> b matches LutError::UnknownName {
            name: y,
        } ==> (a.same_as(&b) <==> x@ == y@),
        a matches LutError::InvalidIndex { index: x } ==> b matches LutError::InvalidIndex {
            index: y,
        } ==> (a.same_as(&b) <==> x == y),
        a.same_as(&b) ==> ((a is IdLutFull && b is IdLutFull) || (a is NameLutFull
            && b is NameLutFull) || (a is NoKeyProvided && b is NoKeyProvided) || (a is UnknownId
            && b is UnknownId) || (a is UnknownName && b is UnknownName) || (a is InvalidIndex
            && b is InvalidIndex)),
        a.same_as(&a),
{
}

} // verus!
