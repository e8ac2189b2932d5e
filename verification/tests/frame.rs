use polars::prelude::{Column, DataFrame};
use versionwatch::error::Error;
use versionwatch::frame::{columns_of, cycles_of, table_from_frame, FrameColumns};
use versionwatch::{dataframe_to_product_cycles, product_cycles_to_dataframe, ProductCycle};

fn table() -> Vec<ProductCycle> {
    vec![
        ProductCycle { name: "1.21.0".to_string(), release_date: Some(19577), eol_date: Some(19948), lts: false },
        ProductCycle { name: "20.11.0".to_string(), release_date: None, eol_date: Some(-5), lts: true },
        ProductCycle { name: String::new(), release_date: Some(0), eol_date: None, lts: false },
    ]
}

#[test]
fn frame_holds_the_rows_of_the_table() {
    let frame = product_cycles_to_dataframe(table()).expect("a frame");
    assert_eq!(frame.height(), 3);
    assert_eq!(frame.width(), 4);
    let names: Vec<Option<&str>> = frame.column("name").unwrap().str().unwrap().iter().collect();
    assert_eq!(names, vec![Some("1.21.0"), Some("20.11.0"), Some("")]);
    let release: Vec<Option<i32>> = frame.column("release_date").unwrap().i32().unwrap().iter().collect();
    assert_eq!(release, vec![Some(19577), None, Some(0)]);
    let eol: Vec<Option<i32>> = frame.column("eol_date").unwrap().i32().unwrap().iter().collect();
    assert_eq!(eol, vec![Some(19948), Some(-5), None]);
    let lts: Vec<Option<bool>> = frame.column("lts").unwrap().bool().unwrap().iter().collect();
    assert_eq!(lts, vec![Some(false), Some(true), Some(false)]);
}

#[test]
fn table_written_and_read_back_is_the_same_table() {
    let frame = product_cycles_to_dataframe(table()).expect("a frame");
    assert_eq!(dataframe_to_product_cycles(&frame).expect("a table"), table());
    let empty = product_cycles_to_dataframe(Vec::new()).expect("a frame");
    assert_eq!(empty.height(), 0);
    assert_eq!(dataframe_to_product_cycles(&empty).expect("a table"), Vec::new());
}

#[test]
fn frame_of_another_shape_is_refused() {
    let no_lts = DataFrame::new(
        1,
        vec![
            Column::new("name".into(), vec!["1.0.0".to_string()]),
            Column::new("release_date".into(), vec![Some(1i32)]),
            Column::new("eol_date".into(), vec![Some(2i32)]),
        ],
    )
    .unwrap();
    assert!(dataframe_to_product_cycles(&no_lts).is_err());
    let wrong_type = DataFrame::new(
        1,
        vec![
            Column::new("name".into(), vec!["1.0.0".to_string()]),
            Column::new("release_date".into(), vec![Some(1i64)]),
            Column::new("eol_date".into(), vec![Some(2i32)]),
            Column::new("lts".into(), vec![true]),
        ],
    )
    .unwrap();
    assert!(dataframe_to_product_cycles(&wrong_type).is_err());
    assert!(dataframe_to_product_cycles(&DataFrame::empty()).is_err());
}

#[test]
fn nulls_read_as_empty_name_and_false() {
    let frame = DataFrame::new(
        2,
        vec![
            Column::new("extra".into(), vec![1u32, 2]),
            Column::new("lts".into(), vec![None, Some(true)]),
            Column::new("name".into(), vec![None, Some("2.0.0".to_string())]),
            Column::new("eol_date".into(), vec![None::<i32>, None]),
            Column::new("release_date".into(), vec![Some(7i32), None]),
        ],
    )
    .unwrap();
    assert_eq!(
        dataframe_to_product_cycles(&frame).expect("a table"),
        vec![
            ProductCycle { name: String::new(), release_date: Some(7), eol_date: None, lts: false },
            ProductCycle { name: "2.0.0".to_string(), release_date: None, eol_date: None, lts: true },
        ]
    );
}

#[test]
fn columns_and_cycles_convert_into_each_other() {
    let columns = columns_of(table());
    assert_eq!(
        columns,
        FrameColumns {
            names: vec![Some("1.21.0".to_string()), Some("20.11.0".to_string()), Some(String::new())],
            release_dates: vec![Some(19577), None, Some(0)],
            eol_dates: vec![Some(19948), Some(-5), None],
            lts: vec![Some(false), Some(true), Some(false)],
        }
    );
    assert_eq!(cycles_of(&columns), Some(table()));
    let ragged = FrameColumns {
        names: vec![Some("1.0.0".to_string())],
        release_dates: Vec::new(),
        eol_dates: vec![None],
        lts: vec![Some(true)],
    };
    assert_eq!(cycles_of(&ragged), None);
}

#[test]
fn frame_of_another_shape_is_a_malformed_answer() {
    let frame = product_cycles_to_dataframe(table()).expect("a frame");
    assert_eq!(table_from_frame(&frame), Ok(table()));
    let odd = DataFrame::new(1, vec![Column::new("name".into(), vec![1i32])]).unwrap();
    match table_from_frame(&odd) {
        Err(Error::Malformed(words)) => assert!(!words.is_empty()),
        other => panic!("{other:?}"),
    }
    assert!(matches!(table_from_frame(&DataFrame::empty()), Err(Error::Malformed(_))));
}
