use svled::persist::{
    decode_table, encode_table, status_tag, table_of_rows, table_rows, tag_status, TableError,
};
use svled::positions::{ScanEntry, Status};

const ALL: [(Status, &str); 7] = [
    (Status::Uncalibrated, "UNCALIBRATED"),
    (Status::SuccessXy, "SUCCESS-XY"),
    (Status::SuccessZ, "SUCCESS-Z"),
    (Status::RecalibrateXy, "RECALIBRATE-XY"),
    (Status::RecalibrateZ, "RECALIBRATE-Z"),
    (Status::ManualXy, "MANUAL-XY"),
    (Status::ManualZ, "MANUAL-Z"),
];

#[test]
fn tags_are_written_and_read() {
    for (status, tag) in ALL {
        assert_eq!(status_tag(status), tag);
        assert_eq!(tag_status(&tag.to_string()), Some(status));
    }
    assert_eq!(tag_status(&"SUCCESS".to_string()), None);
    assert_eq!(tag_status(&"success-xy".to_string()), None);
    assert_eq!(tag_status(&String::new()), None);
}

fn table() -> Vec<ScanEntry> {
    vec![
        ScanEntry { status: Status::SuccessZ, xy: (1, 2), depth: Some((3, 4)) },
        ScanEntry { status: Status::RecalibrateXy, xy: (-5, 0), depth: None },
        ScanEntry { status: Status::ManualZ, xy: (i32::MAX, i32::MIN), depth: Some((0, -1)) },
    ]
}

#[test]
fn rows_hold_tag_front_and_side() {
    assert_eq!(
        table_rows(&table()),
        vec![
            ("SUCCESS-Z".to_string(), (1, 2), Some((3, 4))),
            ("RECALIBRATE-XY".to_string(), (-5, 0), None),
            ("MANUAL-Z".to_string(), (i32::MAX, i32::MIN), Some((0, -1))),
        ]
    );
    assert_eq!(table_of_rows(&table_rows(&table())), Ok(table()));
}

#[test]
fn row_with_an_unknown_tag_is_reported() {
    let rows = vec![
        ("SUCCESS-Z".to_string(), (1, 2), Some((3, 4))),
        ("DONE".to_string(), (1, 2), None),
        ("ALSO".to_string(), (1, 2), None),
    ];
    assert_eq!(table_of_rows(&rows), Err(TableError::UnknownStatus { row: 1 }));
}

#[test]
fn table_is_written_as_pretty_json() {
    let text = encode_table(&vec![ScanEntry {
        status: Status::SuccessXy,
        xy: (1, 2),
        depth: Some((3, 4)),
    }])
    .unwrap();
    assert_eq!(
        text,
        "[\n  [\n    \"SUCCESS-XY\",\n    [\n      1,\n      2\n    ],\n    [\n      3,\n      4\n    ]\n  ]\n]"
    );
    assert_eq!(encode_table(&vec![]).unwrap(), "[]");
}

#[test]
fn written_table_reads_back() {
    let text = encode_table(&table()).unwrap();
    assert_eq!(decode_table(&text), Ok(table()));
}

#[test]
fn position_file_is_read() {
    let text = r#"[["UNCALIBRATED",[0,0],[0,0]],["MANUAL-XY",[10,20],null]]"#;
    assert_eq!(
        decode_table(text),
        Ok(vec![
            ScanEntry { status: Status::Uncalibrated, xy: (0, 0), depth: Some((0, 0)) },
            ScanEntry { status: Status::ManualXy, xy: (10, 20), depth: None },
        ])
    );
}

#[test]
fn broken_position_files_are_refused() {
    assert_eq!(decode_table(""), Err(TableError::Syntax));
    assert_eq!(decode_table("{}"), Err(TableError::Syntax));
    assert_eq!(decode_table(r#"[["SUCCESS-XY",[1],[0,0]]]"#), Err(TableError::Syntax));
    assert_eq!(decode_table(r#"[["SUCCESS-XY",[1,2],[0,0]]"#), Err(TableError::Syntax));
    assert_eq!(
        decode_table(r#"[["SUCCESS-XY",[1,2],[0,0]],["NOPE",[1,2],[0,0]]]"#),
        Err(TableError::UnknownStatus { row: 1 })
    );
}

#[test]
fn every_table_has_a_text() {
    assert!(encode_table(&vec![]).is_some());
    let mut large = Vec::new();
    for i in 0..2000i32 {
        let (status, _) = ALL[(i % 7) as usize];
        let depth = if i % 3 == 0 { None } else { Some((i32::MIN + i, i32::MAX - i)) };
        large.push(ScanEntry { status, xy: (-i, i), depth });
    }
    let text = encode_table(&large);
    assert!(text.is_some());
    assert_eq!(decode_table(&text.unwrap()), Ok(large));
}
