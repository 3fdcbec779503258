use anise::pretty_print::{id_label, name_label, order_entries, LutEntry};

fn entry(id: Option<i32>, name: Option<&str>) -> LutEntry {
    (id, name.map(String::from))
}

#[test]
fn entries_sorted_by_id_missing_id_as_zero() {
    let entries = vec![
        entry(Some(399), Some("Earth")),
        entry(Some(-5), None),
        entry(None, Some("Nameless")),
        entry(Some(10), Some("Sun")),
    ];
    let ordered = order_entries(entries);
    assert_eq!(
        ordered,
        vec![
            entry(Some(-5), None),
            entry(None, Some("Nameless")),
            entry(Some(10), Some("Sun")),
            entry(Some(399), Some("Earth")),
        ]
    );
}

#[test]
fn equal_keys_keep_their_order() {
    let entries = vec![
        entry(None, Some("b")),
        entry(Some(0), Some("zero")),
        entry(Some(1), Some("one")),
        entry(None, Some("a")),
        entry(Some(1), Some("uno")),
    ];
    let ordered = order_entries(entries);
    assert_eq!(
        ordered,
        vec![
            entry(None, Some("b")),
            entry(Some(0), Some("zero")),
            entry(None, Some("a")),
            entry(Some(1), Some("one")),
            entry(Some(1), Some("uno")),
        ]
    );
}

#[test]
fn empty_entries() {
    assert_eq!(order_entries(Vec::new()), Vec::<LutEntry>::new());
}

#[test]
fn name_labels() {
    assert_eq!(name_label(&Some(String::from("Earth"))), "Earth");
    assert_eq!(name_label(&None), "Unset");
}

#[test]
fn id_labels() {
    assert_eq!(id_label(None), "Unset");
    assert_eq!(id_label(Some(0)), "0");
    assert_eq!(id_label(Some(7)), "7");
    assert_eq!(id_label(Some(399)), "399");
    assert_eq!(id_label(Some(-10)), "-10");
    assert_eq!(id_label(Some(i32::MAX)), "2147483647");
    assert_eq!(id_label(Some(i32::MIN)), "-2147483648");
}

#[test]
fn id_labels_match_decimal_formatting() {
    for id in [-123456, -1, 1, 9, 10, 99, 100, 1000000007] {
        assert_eq!(id_label(Some(id)), format!("{id}"));
    }
}
