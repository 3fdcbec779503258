//! SPK Type 21 (Extended Modified Difference Array) segment layout.
//!
//! A Type 21 segment is a sequence of double precision words:
//!
//! ```text
//! [0 .. N*DLSIZE)                      difference lines (records)
//! [N*DLSIZE .. N*DLSIZE + N)           record epochs
//! [N*DLSIZE + N .. len-2)              epoch registry
//! [len-2]                              MAXDIM
//! [len-1]                              N, the number of records
//! ```
//!
//! with `DLSIZE = 4*MAXDIM + 11` words per difference line. This module
//! decides, from the segment length and the two tail words, where each part
//! of the segment lies, and where each field lies inside one record.

use vstd::prelude::*;
use crate::errors::DecodingError;

verus! {

/// Maximum MAXDIM supported by a Type 21 segment.
pub const MAX_MAXDIM: usize = 25;

/// Name under which this data set reports its errors.
pub const DATASET_NAME: &'static str = "Extended Modified Differences Type 21";

/// Number of words in one difference line of a segment whose MAXDIM is `maxdim`.
pub open spec fn record_size(maxdim: int) -> int {
    4 * maxdim + 11
}

/// A half-open range `start..end` of word indices.
#[derive(Debug, Clone, Copy, PartialEq, Eq, Structural)]
pub struct WordRange {
    pub start: usize,
    pub end: usize,
}

/// Where the parts of a Type 21 segment lie, as half-open ranges of word
/// indices into the segment.
#[derive(Debug, Clone, Copy, PartialEq, Eq, Structural)]
pub struct ExtendedModifiedDiffType21 {
    pub maxdim: usize,
    pub num_records: usize,
    pub record_data: WordRange,
    pub epoch_data: WordRange,
    pub epoch_registry: WordRange,
}

impl ExtendedModifiedDiffType21 {
    /// The layout is that of a segment: MAXDIM in range, `num_records`
    /// difference lines, then one epoch per record, then the registry.
    pub open spec fn wf(&self) -> bool {
        &&& 1 <= self.maxdim <= MAX_MAXDIM
        &&& self.record_data.start == 0
        &&& self.record_data.end == self.num_records * record_size(self.maxdim as int)
        &&& self.epoch_data.start == self.record_data.end
        &&& self.epoch_data.end == self.record_data.end + self.num_records
        &&& self.epoch_registry.start == self.epoch_data.end
        &&& self.epoch_registry.start <= self.epoch_registry.end
    }

    /// Decodes the layout of a segment of `len` words whose word `len-2`
    /// reads `maxdim` and whose word `len-1` reads `num_records`.
    ///
    /// When `len < 4` the tail words are not read and `maxdim` and
    /// `num_records` play no part in the result.
    pub fn decode_layout(len: usize, maxdim: usize, num_records: usize) -> (res: Result<
        Self,
        DecodingError,
    >)
        requires
            len >= 4 && 1 <= maxdim <= MAX_MAXDIM ==> num_records * (record_size(maxdim as int)
                + 1) + 2 <= usize::MAX,
        ensures
            len < 4 ==> res == Err::<Self, DecodingError>(
                DecodingError::TooFewDoubles { dataset: DATASET_NAME, got: len, need: 4 },
            ),
            len >= 4 && !(1 <= maxdim <= MAX_MAXDIM) ==> res == Err::<Self, DecodingError>(
                DecodingError::InaccessibleBytes { start: 0, end: maxdim, size: MAX_MAXDIM },
            ),
            len >= 4 && 1 <= maxdim <= MAX_MAXDIM && num_records * (record_size(maxdim as int)
                + 1) > len - 2 ==> res == Err::<Self, DecodingError>(
                DecodingError::InaccessibleBytes {
                    start: 0,
                    end: (num_records * (record_size(maxdim as int) + 1) + 2) as usize,
                    size: len,
                },
            ),
            len >= 4 && 1 <= maxdim <= MAX_MAXDIM && num_records * (record_size(maxdim as int)
                + 1) <= len - 2 ==> res == Ok::<Self, DecodingError>(
                ExtendedModifiedDiffType21 {
                    maxdim,
                    num_records,
                    record_data: WordRange {
                        start: 0,
                        end: (num_records * record_size(maxdim as int)) as usize,
                    },
                    epoch_data: WordRange {
                        start: (num_records * record_size(maxdim as int)) as usize,
                        end: (num_records * (record_size(maxdim as int) + 1)) as usize,
                    },
                    epoch_registry: WordRange {
                        start: (num_records * (record_size(maxdim as int) + 1)) as usize,
                        end: (len - 2) as usize,
                    },
                },
            ),
            res matches Ok(layout) ==> layout.wf() && layout.epoch_registry.end == len - 2,
    {
        if len < 4 {
            return Err(DecodingError::TooFewDoubles { dataset: DATASET_NAME, got: len, need: 4 });
        }
        if !(maxdim >= 1 && maxdim <= MAX_MAXDIM) {
            return Err(DecodingError::InaccessibleBytes { start: 0, end: maxdim, size: MAX_MAXDIM });
        }
        let dflsiz: usize = 4 * maxdim + 11;
        proof {
            lemma_records_fit(num_records as int, dflsiz as int);
        }
        let record_end: usize = num_records * dflsiz;
        let epoch_end: usize = record_end + num_records;
        if !(epoch_end <= len - 2) {
            return Err(
                DecodingError::InaccessibleBytes { start: 0, end: epoch_end + 2, size: len },
            );
        }
        Ok(ExtendedModifiedDiffType21 {
            maxdim,
            num_records,
            record_data: WordRange { start: 0, end: record_end },
            epoch_data: WordRange { start: record_end, end: epoch_end },
            epoch_registry: WordRange { start: epoch_end, end: len - 2 },
        })
    }

    /// Where the `n`-th difference line lies in the record data (indices
    /// relative to the start of the record data).
    pub open spec fn record_range(&self, n: int) -> WordRange {
        WordRange {
            start: (n * record_size(self.maxdim as int)) as usize,
            end: ((n + 1) * record_size(self.maxdim as int)) as usize,
        }
    }

    /// Locates the `n`-th difference line in the record data.
    ///
    /// Fails when the line would reach past the end of the record data; in a
    /// well-formed layout that is the case exactly when `n >= num_records`.
    pub fn nth_record(&self, n: usize) -> (res: Result<WordRange, DecodingError>)
        requires
            self.record_data.start <= self.record_data.end,
            (n + 1) * record_size(self.maxdim as int) <= usize::MAX,
        ensures
            self.record_range(n as int).end <= self.record_data.end - self.record_data.start
                ==> res == Ok::<WordRange, DecodingError>(self.record_range(n as int)),
            self.record_range(n as int).end > self.record_data.end - self.record_data.start
                ==> res == Err::<WordRange, DecodingError>(
                DecodingError::InaccessibleBytes {
                    start: self.record_range(n as int).start,
                    end: self.record_range(n as int).end,
                    size: (self.record_data.end - self.record_data.start) as usize,
                },
            ),
            self.wf() ==> (res is Ok <==> n < self.num_records),
    {
        proof {
            lemma_line_size_fits(n as int, self.maxdim as int);
        }
        let dflsiz: usize = 4 * self.maxdim + 11;
        proof {
            lemma_records_fit(n as int, dflsiz as int);
            lemma_record_end_iff(n as int, self.num_records as int, dflsiz as int);
        }
        let start: usize = n * dflsiz;
        let end: usize = start + dflsiz;
        let size: usize = self.record_data.end - self.record_data.start;
        if end <= size {
            Ok(WordRange { start, end })
        } else {
            Err(DecodingError::InaccessibleBytes { start, end, size })
        }
    }
}

/// Word offsets, inside one difference line, of each of its fields.
///
/// ```text
/// [0]                       TL, the reference epoch
/// [1 .. 1+maxdim]           G, the step-size vector
/// [1+maxdim .. 7+maxdim]    REFPOS and REFVEL, interleaved (x, vx, y, vy, z, vz)
/// [7+maxdim .. 7+4*maxdim]  DT, maxdim x 3, column-major
/// [7+4*maxdim]              KQMAX1
/// [8+4*maxdim ..]           KQ[0], KQ[1], KQ[2]
/// ```
#[derive(Debug, Clone, Copy)]
pub struct RecordLayout {
    pub ref_epoch: usize,
    pub g: WordRange,
    pub ref_x_km: usize,
    pub ref_vx_km_s: usize,
    pub ref_y_km: usize,
    pub ref_vy_km_s: usize,
    pub ref_z_km: usize,
    pub ref_vz_km_s: usize,
    pub dt: WordRange,
    pub kqmax1: usize,
    pub kq: [usize; 3],
    pub maxdim: usize,
}

/// MAXDIM inferred from the length of a difference line: the largest `m`
/// with `4*m + 11 <= len`, or 0 when the line is shorter than 11 words.
pub open spec fn spec_record_maxdim(len: int) -> int {
    if len >= 11 {
        (len - 11) / 4
    } else {
        0
    }
}

impl RecordLayout {
    /// The field offsets exactly as the layout table gives them.
    pub open spec fn is_layout_for(&self, maxdim: int) -> bool {
        let m = maxdim;
        &&& self.maxdim == m
        &&& self.ref_epoch == 0
        &&& self.g == WordRange { start: 1, end: (1 + m) as usize }
        &&& self.ref_x_km == 1 + m
        &&& self.ref_vx_km_s == 2 + m
        &&& self.ref_y_km == 3 + m
        &&& self.ref_vy_km_s == 4 + m
        &&& self.ref_z_km == 5 + m
        &&& self.ref_vz_km_s == 6 + m
        &&& self.dt == WordRange { start: (7 + m) as usize, end: (7 + 4 * m) as usize }
        &&& self.kqmax1 == 7 + 4 * m
        &&& self.kq[0] == 8 + 4 * m
        &&& self.kq[1] == 9 + 4 * m
        &&& self.kq[2] == 10 + 4 * m
    }

    /// The field offsets of a difference line of a segment whose MAXDIM is `maxdim`.
    pub fn with_maxdim(maxdim: usize) -> (res: Self)
        requires
            record_size(maxdim as int) <= usize::MAX,
        ensures
            res.is_layout_for(maxdim as int),
            res.g.end - res.g.start == maxdim,
            res.dt.end - res.dt.start == 3 * maxdim,
            res.dt.end == res.kqmax1,
            res.kq[2] + 1 == record_size(maxdim as int),
    {
        RecordLayout {
            ref_epoch: 0,
            g: WordRange { start: 1, end: 1 + maxdim },
            ref_x_km: 1 + maxdim,
            ref_vx_km_s: 2 + maxdim,
            ref_y_km: 3 + maxdim,
            ref_vy_km_s: 4 + maxdim,
            ref_z_km: 5 + maxdim,
            ref_vz_km_s: 6 + maxdim,
            dt: WordRange { start: 7 + maxdim, end: 7 + 4 * maxdim },
            kqmax1: 7 + 4 * maxdim,
            kq: [8 + 4 * maxdim, 9 + 4 * maxdim, 10 + 4 * maxdim],
            maxdim,
        }
    }

    /// MAXDIM inferred from the length of a difference line.
    pub fn record_maxdim(len: usize) -> (res: usize)
        ensures
            res == spec_record_maxdim(len as int),
    {
        len.saturating_sub(11) / 4
    }

    /// The field offsets of a difference line of `len` words, its MAXDIM
    /// inferred from its length.
    pub fn from_record_len(len: usize) -> (res: Self)
        ensures
            res.is_layout_for(spec_record_maxdim(len as int)),
    {
        let maxdim = Self::record_maxdim(len);
        Self::with_maxdim(maxdim)
    }
}

/// `n * d + n == n * (d + 1)`, and `n * d` is no more than that.
proof fn lemma_records_fit(n: int, d: int)
    requires
        n >= 0,
        d >= 0,
    ensures
        n * d + n == n * (d + 1),
        n * d + d == (n + 1) * d,
        0 <= n * d <= n * (d + 1),
{
    assert(n * d + n == n * (d + 1)) by (nonlinear_arith);
    assert(n * d + d == (n + 1) * d) by (nonlinear_arith);
    assert(0 <= n * d) by (nonlinear_arith)
        requires
            n >= 0,
            d >= 0,
    ;
}

/// A product `(n + 1) * (4 * m + 11)` that fits bounds its second factor.
proof fn lemma_line_size_fits(n: int, m: int)
    requires
        n >= 0,
        m >= 0,
        (n + 1) * record_size(m) <= usize::MAX,
    ensures
        record_size(m) <= usize::MAX,
{
    assert(record_size(m) <= (n + 1) * record_size(m)) by (nonlinear_arith)
        requires
            n >= 0,
            m >= 0,
    ;
}

/// With positive line size `d`, line `n` ends within `count` lines exactly
/// when `n < count`.
proof fn lemma_record_end_iff(n: int, count: int, d: int)
    requires
        n >= 0,
        count >= 0,
        d > 0,
    ensures
        ((n + 1) * d <= count * d) <==> n < count,
{
    if n < count {
        assert((n + 1) * d <= count * d) by (nonlinear_arith)
            requires
                n + 1 <= count,
                d > 0,
        ;
    } else {
        assert((n + 1) * d > count * d) by (nonlinear_arith)
            requires
                n + 1 > count,
                d > 0,
        ;
    }
}

/// The difference lines tile the record data: each word of the record data
/// belongs to line `w / DLSIZE`, that line lies inside the record data, and
/// distinct lines do not overlap.
pub proof fn lemma_records_tile_record_data(layout: ExtendedModifiedDiffType21, w: int, n1: int, n2: int)
    requires
        layout.wf(),
    ensures
        0 <= w < layout.record_data.end ==> {
            let n = w / record_size(layout.maxdim as int);
            &&& 0 <= n < layout.num_records
            &&& n * record_size(layout.maxdim as int) <= w
            &&& w < (n + 1) * record_size(layout.maxdim as int)
        },
        0 <= n1 < layout.num_records ==> 0 <= n1 * record_size(layout.maxdim as int) && (n1 + 1)
            * record_size(layout.maxdim as int) <= layout.record_data.end,
        0 <= n1 < n2 ==> (n1 + 1) * record_size(layout.maxdim as int) <= n2 * record_size(
            layout.maxdim as int,
        ),
{
    let d = record_size(layout.maxdim as int);
    let count = layout.num_records as int;
    if 0 <= w < layout.record_data.end {
        let n = w / d;
        vstd::arithmetic::div_mod::lemma_fundamental_div_mod(w, d);
        assert(0 <= w % d < d) by {
            vstd::arithmetic::div_mod::lemma_mod_bound(w, d);
        }
        assert(n >= 0) by {
            vstd::arithmetic::div_mod::lemma_div_pos_is_pos(w, d);
        }
        assert(n * d <= w && w < (n + 1) * d) by (nonlinear_arith)
            requires
                w == d * n + w % d,
                0 <= w % d < d,
        ;
        if n >= count {
            assert(n * d >= count * d) by (nonlinear_arith)
                requires
                    n >= count,
                    d > 0,
            ;
        }
    }
    if 0 <= n1 < count {
        lemma_record_end_iff(n1, count, d);
        assert(0 <= n1 * d) by (nonlinear_arith)
            requires
                n1 >= 0,
                d > 0,
        ;
    }
    if 0 <= n1 < n2 {
        assert((n1 + 1) * d <= n2 * d) by (nonlinear_arith)
            requires
                n1 + 1 <= n2,
                d > 0,
        ;
    }
}

/// Inferring MAXDIM from the length of a difference line gives back the
/// MAXDIM the line was sized for, and an inferred MAXDIM never makes the
/// line longer than the words it was inferred from.
pub proof fn lemma_record_maxdim_roundtrip(maxdim: int, len: int)
    requires
        maxdim >= 0,
    ensures
        spec_record_maxdim(record_size(maxdim)) == maxdim,
        len >= 11 ==> record_size(spec_record_maxdim(len)) <= len < record_size(
            spec_record_maxdim(len),
        ) + 4,
        len < 11 ==> spec_record_maxdim(len) == 0,
{
    assert((4 * maxdim) / 4 == maxdim) by {
        vstd::arithmetic::div_mod::lemma_div_by_multiple(maxdim, 4);
    }
    if len >= 11 {
        vstd::arithmetic::div_mod::lemma_fundamental_div_mod(len - 11, 4);
        vstd::arithmetic::div_mod::lemma_mod_bound(len - 11, 4);
    }
}

/// The record data, the epochs and the epoch registry of a decoded segment
/// lie end to end: every word of the segment but the two tail words
/// (MAXDIM and the record count) belongs to exactly one of them.
pub proof fn lemma_parts_cover_segment(layout: ExtendedModifiedDiffType21, len: int, w: int)
    requires
        layout.wf(),
        layout.epoch_registry.end == len - 2,
        0 <= w < len - 2,
    ensures
        (layout.record_data.start <= w < layout.record_data.end) as int + (layout.epoch_data.start
            <= w < layout.epoch_data.end) as int + (layout.epoch_registry.start <= w
            < layout.epoch_registry.end) as int == 1,
{
    lemma_records_fit(layout.num_records as int, record_size(layout.maxdim as int));
}

/// The fields of a difference line tile it, in the order of the layout
/// table and with the lengths it gives: TL (1 word), G (MAXDIM words), the
/// six reference position and velocity components (1 word each), DT
/// (MAXDIM x 3 words), KQMAX1 (1 word) and KQ (3 words), with nothing left
/// over: the line is `4*MAXDIM + 11` words long.
pub proof fn lemma_record_fields_tile(layout: RecordLayout, maxdim: int)
    requires
        maxdim >= 0,
        layout.is_layout_for(maxdim),
    ensures
        layout.maxdim == maxdim,
        layout.ref_epoch == 0,
        layout.g.start == layout.ref_epoch + 1,
        layout.g.end - layout.g.start == maxdim,
        layout.ref_x_km == layout.g.end,
        layout.ref_vx_km_s == layout.ref_x_km + 1,
        layout.ref_y_km == layout.ref_vx_km_s + 1,
        layout.ref_vy_km_s == layout.ref_y_km + 1,
        layout.ref_z_km == layout.ref_vy_km_s + 1,
        layout.ref_vz_km_s == layout.ref_z_km + 1,
        layout.dt.start == layout.ref_vz_km_s + 1,
        layout.dt.end - layout.dt.start == 3 * maxdim,
        layout.kqmax1 == layout.dt.end,
        layout.kq[0] == layout.kqmax1 + 1,
        layout.kq[1] == layout.kq[0] + 1,
        layout.kq[2] == layout.kq[1] + 1,
        layout.kq[2] + 1 == 1 + maxdim + 6 + 3 * maxdim + 1 + 3,
        layout.kq[2] + 1 == record_size(maxdim),
{
}

/// Difference line `n` starts `n` whole lines into the record data, is one
/// line long, and line `n + 1` starts where it ends.
pub proof fn lemma_record_range_consecutive(layout: ExtendedModifiedDiffType21, n: int)
    requires
        n >= 0,
        (n + 2) * record_size(layout.maxdim as int) <= usize::MAX,
    ensures
        layout.record_range(n).start == n * (4 * layout.maxdim + 11),
        layout.record_range(n).end - layout.record_range(n).start == 4 * layout.maxdim + 11,
        layout.record_range(n + 1).start == layout.record_range(n).end,
{
    let d = record_size(layout.maxdim as int);
    assert(0 <= n * d <= (n + 1) * d <= (n + 2) * d) by (nonlinear_arith)
        requires
            n >= 0,
            d >= 0,
    ;
    assert((n + 1) * d == n * d + d) by (nonlinear_arith);
}

} // verus!
