use dami::engine::block_manager::column::Cell;
use dami::engine::block_manager::format::{is_plain, Grid};
use dami::engine::dataframe::DataFrame;
use dami::engine::series::{Float32, Float64, Series};
use prettytable::format::consts::FORMAT_CLEAN;
use prettytable::{Row, Table};

fn wide_text(v: Float64) -> String {
    format!("{:0<3.3}", f64::from_bits(v.to_bits()))
}

fn narrow_text(v: Float32) -> String {
    format!("{:0<3.3}", f32::from_bits(v.to_bits()))
}

fn expected(titles: &[&str], rows: &[Vec<&str>]) -> String {
    let mut table = Table::new();
    table.set_format(*FORMAT_CLEAN);
    table.set_titles(Row::new(titles.iter().map(|c| prettytable::Cell::new(c)).collect()));
    for row in rows {
        table.add_row(Row::new(row.iter().map(|c| prettytable::Cell::new(c)).collect()));
    }
    table.to_string()
}

#[test]
fn a_grid_is_laid_out_as_a_table() {
    let grid = Grid {
        titles: vec![" ".to_string(), "n".to_string(), "value".to_string()],
        rows: vec![
            vec![
                Cell::Text("0".to_string()),
                Cell::Text("12".to_string()),
                Cell::F64(Float64::from_bits(1.5f64.to_bits())),
            ],
            vec![
                Cell::Text("1".to_string()),
                Cell::Text("-3".to_string()),
                Cell::F32(Float32::from_bits(2.25f32.to_bits())),
            ],
            Vec::new(),
        ],
    };
    let text = grid.render(wide_text, narrow_text).unwrap();
    let want = expected(
        &[" ", "n", "value"],
        &[vec!["0", "12", "1.500"], vec!["1", "-3", "2.250"], vec![]],
    );
    assert_eq!(text, want);
    assert!(text.contains("value"));
    assert!(text.contains("1.500"));
    assert_ne!(text, " nvalue");
    let cells = grid.cell_texts(&wide_text, &narrow_text);
    assert_eq!(cells[1], vec!["1".to_string(), "-3".to_string(), "2.250".to_string()]);
    assert!(cells[2].is_empty());
}

#[test]
fn a_table_is_shown_with_its_types() {
    let mut df = DataFrame::new();
    let mut a = Series::from(vec![1i32, 2]);
    a.set_name("a");
    df.add_series(a, true).unwrap();
    let mut b = Series::from(vec![true, false]);
    b.set_name("b");
    df.add_series(b, true).unwrap();
    let text = df.real_formatter(true).render(wide_text, narrow_text).unwrap();
    let want = expected(
        &[" ", "a", "b"],
        &[
            vec!["0", "1", "true"],
            vec!["1", "2", "false"],
            vec![],
            vec!["types", "i32", "bool"],
        ],
    );
    assert_eq!(text, want);
    let lines: Vec<&str> = text.lines().collect();
    assert_eq!(lines.len(), 5);
    assert_eq!(lines[1].split_whitespace().collect::<Vec<_>>(), vec!["0", "1", "true"]);
}

#[test]
fn text_with_an_escape_character_is_not_rendered() {
    let odd = "\u{1b}[\u{644}\u{627}\u{644}\u{627}";
    let cell = Grid {
        titles: vec![" ".to_string(), "n".to_string()],
        rows: vec![vec![Cell::Text("0".to_string()), Cell::Text(odd.to_string())]],
    };
    assert!(cell.render(wide_text, narrow_text).is_none());
    let title = Grid { titles: vec![odd.to_string()], rows: Vec::new() };
    assert!(title.render(wide_text, narrow_text).is_none());
    let made = Grid {
        titles: vec!["v".to_string()],
        rows: vec![vec![Cell::F64(Float64::from_bits(1.5f64.to_bits()))]],
    };
    assert!(made.render(|_| "\u{1b}".to_string(), narrow_text).is_none());
    assert!(made.render(wide_text, narrow_text).is_some());
    assert!(!is_plain(odd));
    assert!(is_plain("plain [m text"));
    let mut df = DataFrame::new();
    let mut named = Series::from(vec![1i32]);
    named.set_name("\u{1b}[31mred");
    df.add_series(named, true).unwrap();
    assert!(df.real_formatter(false).render(wide_text, narrow_text).is_none());
}
