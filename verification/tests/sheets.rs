use dami::engine::dataframe::DataFrame;
use dami::engine::series::Float64;
use dami::enums::{DataFrameErrors, DataTypes};
use dami::io::excel::{is_wanted, read_excel, CellFault, Sheet, SheetCell, SheetError};

fn text(s: &str) -> SheetCell {
    SheetCell::Text(s.to_string())
}

fn float(v: f64) -> SheetCell {
    SheetCell::Float(Float64::from_bits(v.to_bits()))
}

fn floats_of(frame: &DataFrame, name: &str) -> Vec<f64> {
    frame.get::<Float64>(name).unwrap().to_vec().iter().map(|v| f64::from_bits(v.to_bits())).collect()
}

fn people() -> Sheet {
    Sheet {
        name: "people".to_string(),
        rows: vec![
            vec![text("age"), text("height"), text("name")],
            vec![SheetCell::Int(31), float(1.5), text("ann")],
            vec![SheetCell::Int(47), float(1.75), text("bob")],
            vec![SheetCell::Int(5), SheetCell::Empty, text("cy")],
            vec![SheetCell::Int(62), float(1.25), text("dee")],
        ],
    }
}

fn kinds() -> Option<Vec<DataTypes>> {
    Some(vec![DataTypes::I64, DataTypes::F64, DataTypes::STRING])
}

#[test]
fn a_sheet_with_headers_becomes_a_table() {
    let frame = read_excel(&vec![people()], "people", true, kinds()).unwrap();
    assert_eq!(frame.get_order(), vec!["age", "height", "name"]);
    assert_eq!(frame.len(), 3);
    assert_eq!(frame.get::<i64>("age").unwrap().to_vec(), vec![31, 47, 62]);
    assert_eq!(floats_of(&frame, "height"), vec![1.5, 1.75, 1.25]);
    assert_eq!(frame.get::<String>("name").unwrap().to_vec(), vec!["ann", "bob", "dee"]);
    assert_eq!(frame.get_index(), vec!["0", "1", "2"]);
    assert_eq!(frame.get::<i64>("age").unwrap().get_index(), vec!["0", "1", "2"]);
}

#[test]
fn a_row_with_an_empty_cell_or_an_error_is_left_out() {
    let sheet = Sheet {
        name: "s".to_string(),
        rows: vec![
            vec![SheetCell::Int(1), text("a")],
            vec![SheetCell::Int(2), SheetCell::Fault(CellFault::Div0)],
            vec![SheetCell::Int(3), SheetCell::Empty],
            vec![SheetCell::Int(4)],
            vec![SheetCell::Int(5), text("e")],
        ],
    };
    let frame =
        read_excel(&vec![sheet], "s", false, Some(vec![DataTypes::I32, DataTypes::STR])).unwrap();
    assert_eq!(frame.get::<i64>("series").unwrap().to_vec(), vec![1, 5]);
    assert_eq!(frame.get::<String>("1").unwrap().to_vec(), vec!["a", "e"]);
    assert_eq!(frame.get_order(), vec!["series", "1"]);
}

#[test]
fn a_value_that_is_not_available_keeps_its_row() {
    let sheet = Sheet {
        name: "s".to_string(),
        rows: vec![
            vec![SheetCell::Int(1), SheetCell::Fault(CellFault::NA)],
            vec![SheetCell::Int(2), SheetCell::Bool(true)],
        ],
    };
    let frame =
        read_excel(&vec![sheet], "s", false, Some(vec![DataTypes::I64, DataTypes::BOOL])).unwrap();
    assert_eq!(frame.width(), 1);
    assert_eq!(frame.get::<i64>("series").unwrap().to_vec(), vec![1, 2]);
}

#[test]
fn a_header_that_is_no_text_is_refused() {
    let sheet = Sheet {
        name: "s".to_string(),
        rows: vec![vec![text("a"), SheetCell::Int(7), SheetCell::Bool(true)], vec![
            SheetCell::Int(1),
            SheetCell::Int(2),
            SheetCell::Int(3),
        ]],
    };
    let r = read_excel(&vec![sheet], "s", true, None);
    assert!(matches!(r, Err(SheetError::Header(1))));
}

#[test]
fn one_kind_is_needed_for_every_column() {
    let r = read_excel(&vec![people()], "people", true, Some(vec![DataTypes::I64]));
    assert!(matches!(r, Err(SheetError::Width(3, 1))));
}

#[test]
fn a_column_of_integers_needs_an_integer_in_every_row() {
    let r = read_excel(
        &vec![people()],
        "people",
        true,
        Some(vec![DataTypes::I64, DataTypes::I64, DataTypes::STRING]),
    );
    assert!(matches!(r, Err(SheetError::Integer(1))));
}

#[test]
fn a_column_that_lacks_values_of_its_kind_is_too_short() {
    let sheet = Sheet {
        name: "s".to_string(),
        rows: vec![
            vec![SheetCell::Int(1), float(0.5)],
            vec![SheetCell::Int(2), text("x")],
            vec![SheetCell::Int(3), float(2.5)],
        ],
    };
    let r = read_excel(&vec![sheet], "s", false, Some(vec![DataTypes::I64, DataTypes::F32]));
    match r {
        Err(SheetError::Frame(DataFrameErrors::DifferentLength(2, 3))) => {},
        _ => panic!("the column was not refused for its length"),
    }
}

#[test]
fn a_column_without_any_value_of_its_kind_is_passed_over() {
    let sheet = Sheet {
        name: "s".to_string(),
        rows: vec![vec![SheetCell::Int(1), text("x")], vec![SheetCell::Int(2), text("y")]],
    };
    let frame =
        read_excel(&vec![sheet], "s", false, Some(vec![DataTypes::F64, DataTypes::STRING])).unwrap();
    assert_eq!(frame.get_order(), vec!["series"]);
    assert_eq!(frame.get::<String>("series").unwrap().to_vec(), vec!["x", "y"]);
}

#[test]
fn without_kinds_no_column_is_read() {
    let frame = read_excel(&vec![people()], "people", true, None).unwrap();
    assert_eq!(frame.width(), 0);
}

#[test]
fn only_the_sheets_that_are_asked_for_are_read() {
    let mut other = people();
    other.name = "others".to_string();
    let mut third = people();
    third.name = "third".to_string();
    let frame = read_excel(&vec![other, people(), third], "people,none", true, kinds()).unwrap();
    assert_eq!(frame.width(), 3);
    assert!(is_wanted("people", "people,none"));
    assert!(is_wanted("none", "people,none"));
    assert!(!is_wanted("others", "people,none"));
    assert!(!is_wanted("people", "people ,none"));
}

#[test]
fn the_columns_of_a_second_sheet_follow_under_other_names() {
    let mut second = people();
    second.name = "more".to_string();
    let frame = read_excel(&vec![people(), second], "people,more", true, kinds()).unwrap();
    assert_eq!(frame.get_order(), vec!["age", "height", "name", "3", "4", "5"]);
    assert_eq!(frame.get::<i64>("3").unwrap().to_vec(), vec![31, 47, 62]);
}

#[test]
fn a_sheet_without_rows_changes_nothing() {
    let empty = Sheet { name: "people".to_string(), rows: Vec::new() };
    let frame = read_excel(&vec![empty, people()], "people", true, kinds()).unwrap();
    assert_eq!(frame.width(), 3);
}
