use anise::errors::DecodingError;
use anise::extended_modified_diff::{
    ExtendedModifiedDiffType21, RecordLayout, WordRange, DATASET_NAME, MAX_MAXDIM,
};

#[test]
fn too_few_doubles_below_four_words() {
    for len in 0..4usize {
        let res = ExtendedModifiedDiffType21::decode_layout(len, 3, 1);
        assert_eq!(
            res,
            Err(DecodingError::TooFewDoubles { dataset: DATASET_NAME, got: len, need: 4 })
        );
    }
}

#[test]
fn maxdim_out_of_range_is_rejected() {
    let res = ExtendedModifiedDiffType21::decode_layout(100, 0, 1);
    assert_eq!(res, Err(DecodingError::InaccessibleBytes { start: 0, end: 0, size: 25 }));
    let res = ExtendedModifiedDiffType21::decode_layout(100, 26, 1);
    assert_eq!(res, Err(DecodingError::InaccessibleBytes { start: 0, end: 26, size: MAX_MAXDIM }));
}

#[test]
fn single_record_segment_layout() {
    // maxdim 1: 15 words per record, 1 epoch, 0 registry words, 2 tail words.
    let layout = ExtendedModifiedDiffType21::decode_layout(18, 1, 1).unwrap();
    assert_eq!(layout.maxdim, 1);
    assert_eq!(layout.num_records, 1);
    assert_eq!(layout.record_data, WordRange { start: 0, end: 15 });
    assert_eq!(layout.epoch_data, WordRange { start: 15, end: 16 });
    assert_eq!(layout.epoch_registry, WordRange { start: 16, end: 16 });
}

#[test]
fn segment_with_registry() {
    // maxdim 25: 111 words per record, 3 records, 3 epochs, 5 registry words.
    let len = 3 * 111 + 3 + 5 + 2;
    let layout = ExtendedModifiedDiffType21::decode_layout(len, 25, 3).unwrap();
    assert_eq!(layout.record_data, WordRange { start: 0, end: 333 });
    assert_eq!(layout.epoch_data, WordRange { start: 333, end: 336 });
    assert_eq!(layout.epoch_registry, WordRange { start: 336, end: 341 });
}

#[test]
fn segment_too_short_for_its_records() {
    let res = ExtendedModifiedDiffType21::decode_layout(17, 1, 1);
    assert_eq!(res, Err(DecodingError::InaccessibleBytes { start: 0, end: 18, size: 17 }));
}

#[test]
fn empty_segment_has_no_records() {
    let layout = ExtendedModifiedDiffType21::decode_layout(4, 2, 0).unwrap();
    assert_eq!(layout.record_data, WordRange { start: 0, end: 0 });
    assert_eq!(layout.epoch_data, WordRange { start: 0, end: 0 });
    assert_eq!(layout.epoch_registry, WordRange { start: 0, end: 2 });
    assert_eq!(
        layout.nth_record(0),
        Err(DecodingError::InaccessibleBytes { start: 0, end: 19, size: 0 })
    );
}

#[test]
fn records_tile_the_record_data() {
    let layout = ExtendedModifiedDiffType21::decode_layout(3 * 19 + 3 + 2, 2, 3).unwrap();
    assert_eq!(layout.nth_record(0), Ok(WordRange { start: 0, end: 19 }));
    assert_eq!(layout.nth_record(1), Ok(WordRange { start: 19, end: 38 }));
    assert_eq!(layout.nth_record(2), Ok(WordRange { start: 38, end: 57 }));
    assert_eq!(
        layout.nth_record(3),
        Err(DecodingError::InaccessibleBytes { start: 57, end: 76, size: 57 })
    );
}

#[test]
fn record_field_offsets() {
    let rl = RecordLayout::with_maxdim(2);
    assert_eq!(rl.ref_epoch, 0);
    assert_eq!(rl.g, WordRange { start: 1, end: 3 });
    assert_eq!(
        [rl.ref_x_km, rl.ref_vx_km_s, rl.ref_y_km, rl.ref_vy_km_s, rl.ref_z_km, rl.ref_vz_km_s],
        [3, 4, 5, 6, 7, 8]
    );
    assert_eq!(rl.dt, WordRange { start: 9, end: 15 });
    assert_eq!(rl.kqmax1, 15);
    assert_eq!(rl.kq, [16, 17, 18]);
    assert_eq!(rl.maxdim, 2);
}

#[test]
fn record_maxdim_from_length() {
    assert_eq!(RecordLayout::record_maxdim(0), 0);
    assert_eq!(RecordLayout::record_maxdim(10), 0);
    assert_eq!(RecordLayout::record_maxdim(11), 0);
    assert_eq!(RecordLayout::record_maxdim(14), 0);
    assert_eq!(RecordLayout::record_maxdim(15), 1);
    assert_eq!(RecordLayout::record_maxdim(111), 25);
    assert_eq!(RecordLayout::record_maxdim(114), 25);
}

#[test]
fn record_maxdim_roundtrip() {
    for m in 0..40usize {
        assert_eq!(RecordLayout::record_maxdim(4 * m + 11), m);
        let rl = RecordLayout::from_record_len(4 * m + 11);
        assert_eq!(rl.maxdim, m);
        assert_eq!(rl.kq[2], 4 * m + 10);
    }
}
