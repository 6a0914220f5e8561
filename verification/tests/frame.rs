use dami::engine::block_manager::column::Cell;
use dami::engine::block_manager::manager::Block;
use dami::engine::block_manager::BlockManager;
use dami::engine::dataframe::construct::sorted_by_name;
use dami::engine::dataframe::DataFrame;
use dami::engine::series::ops::Operation;
use dami::engine::series::{Float32, Float64, Series};
use dami::enums::{DataFrameErrors, DataTypes};

fn names(v: &[&str]) -> Vec<String> {
    v.iter().map(|s| s.to_string()).collect()
}

fn wide(x: f64) -> Float64 {
    Float64::from_bits(x.to_bits())
}

fn unwide(x: Float64) -> f64 {
    f64::from_bits(x.to_bits())
}

fn narrow(x: f32) -> Float32 {
    Float32::from_bits(x.to_bits())
}

fn add_wide(a: Float64, b: Float64) -> Float64 {
    wide(unwide(a) + unwide(b))
}

fn add_narrow(a: Float32, b: Float32) -> Float32 {
    narrow(f32::from_bits(a.to_bits()) + f32::from_bits(b.to_bits()))
}

fn named<T: dami::engine::series::Scalar>(name: &str, values: Vec<T>) -> Series<T> {
    let mut s = Series::from(values);
    s.set_name(name);
    s
}

fn sample() -> DataFrame {
    let mut df = DataFrame::new();
    df.add_series(named("a", vec![1i32, 2, 3]), true).unwrap();
    df.add_series(named("b", vec![wide(0.5), wide(1.5), wide(2.5)]), true).unwrap();
    df.add_series(named("c", vec!["x".to_string(), "y".to_string(), "z".to_string()]), true)
        .unwrap();
    df.add_series(named("d", vec![10i32, 20, 30]), true).unwrap();
    df
}

fn text(cell: &Cell) -> String {
    match cell {
        Cell::Text(t) => t.clone(),
        Cell::F64(v) => format!("{:0<3.3}", unwide(*v)),
        Cell::F32(v) => format!("{:0<3.3}", f32::from_bits(v.to_bits())),
    }
}

fn texts(rows: &[Vec<Cell>]) -> Vec<Vec<String>> {
    rows.iter().map(|r| r.iter().map(text).collect()).collect()
}

#[test]
fn a_new_table_is_empty() {
    let df = DataFrame::new();
    assert_eq!(df.len(), 0);
    assert_eq!(df.width(), 0);
    assert!(df.get_order().is_empty());
    assert!(df.dtypes().is_empty());
    let d = DataFrame::default();
    assert_eq!(d.width(), 0);
    let m = BlockManager::default();
    assert_eq!(m.width(), 0);
}

#[test]
fn the_first_column_sets_the_length() {
    let mut df = DataFrame::new();
    let mut first = Series::from(vec![1i32, 2]);
    first.set_index(names(&["r0", "r1"]));
    df.add_series(first, true).unwrap();
    assert_eq!(df.len(), 2);
    assert_eq!(df.get_index(), names(&["r0", "r1"]));
    df.add_series(named("b", vec![true, false]), true).unwrap();
    assert_eq!(df.len(), 2);
    assert_eq!(df.width(), 2);
    assert_eq!(df.get_index(), names(&["r0", "r1"]));
}

#[test]
fn a_column_of_another_length_is_refused_and_nothing_changes() {
    let mut df = sample();
    let before_order = df.get_order();
    let r = df.add_series(named("late", vec![1i64, 2]), true);
    match r {
        Err(DataFrameErrors::DifferentLength(offered, held)) => {
            assert_eq!((offered, held), (2, 3));
        }
        _ => panic!("expected a refusal"),
    }
    assert_eq!(df.get_order(), before_order);
    assert_eq!(df.len(), 3);
    assert_eq!(df.width(), 4);
    assert!(df.get::<i64>("late").is_none());
    assert_eq!(df.get::<i32>("a").unwrap().to_vec(), vec![1, 2, 3]);
    assert_eq!(
        DataFrameErrors::DifferentLength(2, 3).message(),
        "Arrays must be of same length. me 2. Other array 3"
    );
}

#[test]
fn a_taken_name_is_replaced_by_the_number_of_columns() {
    let mut df = DataFrame::new();
    df.add_series(named("x", vec![1i32]), true).unwrap();
    df.add_series(named("x", vec![2i32]), true).unwrap();
    assert_eq!(df.get_order(), names(&["x", "1"]));
    assert_eq!(df.get::<i32>("1").unwrap().to_vec(), vec![2]);
    assert_eq!(df.get::<i32>("1").unwrap().get_name(), "1");
}

#[test]
fn a_column_whose_number_is_taken_too_is_refused() {
    let mut df = DataFrame::new();
    df.add_series(named("x", vec![1i32]), true).unwrap();
    df.add_series(named("2", vec![2i32]), true).unwrap();
    let r = df.add_series(named("x", vec![3i32]), true);
    match r {
        Err(DataFrameErrors::ColumnNameErrors(name)) => assert_eq!(name, "2"),
        _ => panic!("expected a refusal"),
    }
    assert_eq!(df.get_order(), names(&["x", "2"]));
    assert_eq!(
        DataFrameErrors::ColumnNameErrors("2".to_string()).message(),
        "Name 2 already in DataFrame, consider changing the series name"
    );
}

#[test]
fn names_that_are_not_preserved_are_numbers() {
    let mut df = DataFrame::new();
    df.add_series(named("p", vec![1i32]), false).unwrap();
    df.add_series(named("q", vec![2i32]), false).unwrap();
    assert_eq!(df.get_order(), names(&["0", "1"]));
}

#[test]
fn columns_that_tables_do_not_store_are_dropped() {
    let mut df = sample();
    df.add_series(named("counts", vec![1usize, 2, 3]), true).unwrap();
    assert_eq!(df.width(), 4);
    assert!(df.get::<usize>("counts").is_none());
    let r = df.add_series(named("counts", vec![1usize]), true);
    assert!(matches!(r, Err(DataFrameErrors::DifferentLength(1, 3))));
    let mut empty = DataFrame::new();
    empty.add_series(named("counts", vec![1u64, 2]), true).unwrap();
    assert_eq!(empty.width(), 0);
    empty.add_series(named("real", vec![1i32, 2, 3]), true).unwrap();
    assert_eq!(empty.len(), 3);
}

#[test]
fn get_needs_the_name_and_the_type() {
    let df = sample();
    assert_eq!(df.get::<i32>("a").unwrap().to_vec(), vec![1, 2, 3]);
    assert_eq!(df.get::<i32>("a").unwrap().get_name(), "a");
    assert!(df.get::<i64>("a").is_none());
    assert!(df.get::<i32>("missing").is_none());
    assert!(df.get::<i32>("b").is_none());
    assert_eq!(unwide(*df.get::<Float64>("b").unwrap().get(1).unwrap()), 1.5);
    assert_eq!(df.get::<String>("c").unwrap().to_vec(), names(&["x", "y", "z"]));
    assert!(df.get::<&'static str>("c").is_none());
}

#[test]
fn dtypes_and_order() {
    let df = sample();
    let kinds = df.dtypes();
    assert_eq!(kinds.len(), 4);
    assert_eq!(kinds[0].0, "a");
    assert!(matches!(kinds[0].1, DataTypes::I32));
    assert!(matches!(kinds[1].1, DataTypes::F64));
    assert!(matches!(kinds[2].1, DataTypes::STRING));
    assert_eq!(df.get_order(), names(&["a", "b", "c", "d"]));
    assert!(matches!(df.get_dtype_at_key("c"), Some(DataTypes::STRING)));
    assert!(df.get_dtype_at_key("zz").is_none());
    assert_eq!(df.get_index(), names(&["0", "1", "2"]));
}

#[test]
fn a_copy_holds_equal_columns() {
    let df = sample();
    let copy = df.clone();
    assert_eq!(copy.get_order(), df.get_order());
    assert_eq!(copy.get_index(), df.get_index());
    assert_eq!(copy.len(), df.len());
    for name in ["a", "d"] {
        let x = df.get::<i32>(name).unwrap();
        let y = copy.get::<i32>(name).unwrap();
        assert_eq!(x.get_name(), y.get_name());
        assert_eq!(x.get_index(), y.get_index());
        assert_eq!(x.to_vec(), y.to_vec());
    }
    let x = df.get::<Float64>("b").unwrap();
    let y = copy.get::<Float64>("b").unwrap();
    let xs: Vec<u64> = x.to_vec().iter().map(|v| v.to_bits()).collect();
    let ys: Vec<u64> = y.to_vec().iter().map(|v| v.to_bits()).collect();
    assert_eq!(xs, ys);
    assert_eq!(
        df.get::<String>("c").unwrap().to_vec(),
        copy.get::<String>("c").unwrap().to_vec()
    );
    let kinds = copy.dtypes();
    assert!(kinds.iter().all(|k| !matches!(k.1, DataTypes::OBJECT)));
}

#[test]
fn apply_map_keeps_the_columns_of_one_type() {
    let df = sample();
    let mapped = df.apply_map::<i32, _>(|x| x * 2);
    assert_eq!(mapped.get_order(), names(&["a", "d"]));
    assert_eq!(mapped.get::<i32>("a").unwrap().to_vec(), vec![2, 4, 6]);
    assert_eq!(mapped.get::<i32>("d").unwrap().to_vec(), vec![20, 40, 60]);
    assert_eq!(mapped.len(), 3);
    let par = df.par_apply_map::<i32, _>(|x| x + 1);
    assert_eq!(par.get_order(), names(&["a", "d"]));
    assert_eq!(par.get::<i32>("a").unwrap().to_vec(), vec![2, 3, 4]);
    assert_eq!(par.get::<i32>("d").unwrap().to_vec(), vec![11, 21, 31]);
    let none = df.apply_map::<i64, _>(|x| x);
    assert_eq!(none.width(), 0);
    let floats = df.apply_map::<Float64, _>(|x| wide(unwide(x).sqrt()));
    assert_eq!(floats.get_order(), names(&["b"]));
}

#[test]
fn apply_map_inplace_and_mask_leave_the_rest() {
    let mut df = sample();
    df.apply_map_inplace::<i32, _>(|x| x - 1);
    assert_eq!(df.get_order(), names(&["a", "b", "c", "d"]));
    assert_eq!(df.get::<i32>("a").unwrap().to_vec(), vec![0, 1, 2]);
    assert_eq!(df.get::<i32>("d").unwrap().to_vec(), vec![9, 19, 29]);
    assert_eq!(df.get::<String>("c").unwrap().to_vec(), names(&["x", "y", "z"]));
    df.mask::<i32, _>(-1, |x| x > 5);
    assert_eq!(df.get::<i32>("a").unwrap().to_vec(), vec![0, 1, 2]);
    assert_eq!(df.get::<i32>("d").unwrap().to_vec(), vec![-1, -1, -1]);
    df.mask::<String, _>("?".to_string(), |x| x == "y");
    assert_eq!(df.get::<String>("c").unwrap().to_vec(), names(&["x", "?", "z"]));
}

#[test]
fn apply_reduces_rows_or_columns() {
    let df = sample();
    let rows = df.apply::<i32, _>(true, |v| v.iter().sum()).unwrap();
    assert_eq!(rows.to_vec(), vec![11, 22, 33]);
    assert_eq!(rows.get_name(), "series");
    let cols = df.apply::<i32, _>(false, |v| v.iter().sum()).unwrap();
    assert_eq!(cols.to_vec(), vec![6, 60]);
    assert!(df.apply::<i64, _>(true, |v| v.iter().sum()).is_none());
    let mean = df
        .apply::<Float64, _>(false, |v| {
            wide(v.iter().map(|x| unwide(*x)).sum::<f64>() / v.len() as f64)
        })
        .unwrap();
    assert_eq!(unwide(*mean.get(0).unwrap()), 1.5);
}

#[test]
fn transform_names_its_columns_by_number() {
    let df = sample();
    let by_column = df
        .transform::<i32, i64, _>(false, |v| v.iter().map(|x| i64::from(*x) * 10).collect())
        .unwrap();
    assert_eq!(by_column.get_order(), names(&["series", "1"]));
    assert_eq!(by_column.get::<i64>("series").unwrap().to_vec(), vec![10, 20, 30]);
    assert_eq!(by_column.get::<i64>("1").unwrap().to_vec(), vec![100, 200, 300]);
    let by_row = df
        .transform::<i32, i32, _>(true, |v| v.into_iter().rev().collect())
        .unwrap();
    assert_eq!(by_row.get_order(), names(&["series", "1", "2"]));
    assert_eq!(by_row.get::<i32>("2").unwrap().to_vec(), vec![30, 3]);
    assert!(df.transform::<bool, bool, _>(false, |v| v).is_none());
}

#[test]
fn assign_adds_a_mapped_column() {
    let df = sample();
    let more = df.assign::<i32, _>("a", "a_squared", |x| x * x).unwrap();
    assert_eq!(more.get_order(), names(&["a", "b", "c", "d", "a_squared"]));
    assert_eq!(more.get::<i32>("a_squared").unwrap().to_vec(), vec![1, 4, 9]);
    assert_eq!(df.width(), 4);
    let renamed = df.assign::<i32, _>("a", "d", |x| x).unwrap();
    assert_eq!(renamed.get_order(), names(&["a", "b", "c", "d", "4"]));
    let mut same = sample();
    same.assign_inplace::<i32, _>("d", "half", |x| x / 2).unwrap();
    assert_eq!(same.get::<i32>("half").unwrap().to_vec(), vec![5, 10, 15]);
}

#[test]
fn assign_reports_a_missing_key() {
    let df = sample();
    match df.assign::<i32, _>("nope", "n", |x| x) {
        Err(DataFrameErrors::KeyError(text)) => assert_eq!(text, "key nope does not exist"),
        _ => panic!("expected a key error"),
    }
    match df.assign::<i64, _>("a", "n", |x| x) {
        Err(e) => assert_eq!(e.message(), "key a does not exist"),
        _ => panic!("expected a key error"),
    }
    let mut same = sample();
    assert!(same.assign_inplace::<bool, _>("a", "n", |x| x).is_err());
    assert_eq!(same.width(), 4);
}

#[test]
fn at_finds_a_value_by_column_and_row() {
    let df = sample();
    assert_eq!(df.at::<i32>(("d", "1")), Some(20));
    assert_eq!(df.at::<String>(("c", "2")), Some("z".to_string()));
    assert_eq!(df.at::<i64>(("d", "1")), None);
    assert_eq!(df.at::<i32>(("zz", "1")), None);
}

#[test]
fn combine_pairs_columns_by_name_and_type() {
    let mut left = DataFrame::new();
    left.add_series(named("0", vec![1i32, 4]), true).unwrap();
    left.add_series(named("1", vec![6i32, 5]), true).unwrap();
    left.add_series(named("2", vec![3i32, 6]), true).unwrap();
    left.add_series(named("t", vec![true, true]), true).unwrap();
    let mut right = DataFrame::new();
    right.add_series(named("0", vec![1i32, 42]), true).unwrap();
    right.add_series(named("2", vec![32i32, 6]), true).unwrap();
    right.add_series(named("1", vec![2i64, 5]), true).unwrap();
    right.add_series(named("t", vec![false, false]), true).unwrap();
    let both = left.combine::<i32, _>(&right, std::cmp::max);
    assert_eq!(both.get_order(), names(&["0", "2"]));
    assert_eq!(both.get::<i32>("0").unwrap().to_vec(), vec![1, 42]);
    assert_eq!(both.get::<i32>("2").unwrap().to_vec(), vec![32, 6]);
}

#[test]
fn sum_of_tables_holds_the_shared_numeric_columns() {
    let mut t1 = DataFrame::new();
    t1.add_series(named("a", vec![1i32, 2]), true).unwrap();
    t1.add_series(named("b", vec![3i32, 4]), true).unwrap();
    let mut t2 = DataFrame::new();
    t2.add_series(named("a", vec![10i32, 20]), true).unwrap();
    t2.add_series(named("c", vec![5i32, 6]), true).unwrap();
    let sum = t1.arithmetic(&t2, Operation::Add, add_wide, add_narrow);
    assert_eq!(sum.get_order(), names(&["a"]));
    assert_eq!(sum.get::<i32>("a").unwrap().to_vec(), vec![11, 22]);
}

#[test]
fn arithmetic_skips_other_types_and_other_tags() {
    let mut t1 = sample();
    t1.add_series(named("e", vec![1i64, 2, 3]), true).unwrap();
    t1.add_series(named("f", vec![narrow(1.0), narrow(2.0), narrow(3.0)]), true).unwrap();
    let mut t2 = DataFrame::new();
    t2.add_series(named("d", vec![1i32, 2, 3]), true).unwrap();
    t2.add_series(named("a", vec![1i64, 1, 1]), true).unwrap();
    t2.add_series(named("b", vec![wide(1.0), wide(1.0), wide(1.0)]), true).unwrap();
    t2.add_series(named("c", vec!["x".to_string(), "y".to_string(), "z".to_string()]), true)
        .unwrap();
    t2.add_series(named("e", vec![2i64, 2, 2]), true).unwrap();
    t2.add_series(named("f", vec![narrow(0.5), narrow(0.5), narrow(0.5)]), true).unwrap();
    let product = t1.arithmetic(
        &t2,
        Operation::Mul,
        |a, b| wide(unwide(a) * unwide(b)),
        |a, b| narrow(f32::from_bits(a.to_bits()) * f32::from_bits(b.to_bits())),
    );
    assert_eq!(product.get_order(), names(&["b", "d", "e", "f"]));
    assert_eq!(product.get::<i32>("d").unwrap().to_vec(), vec![10, 40, 90]);
    assert_eq!(product.get::<i64>("e").unwrap().to_vec(), vec![2, 4, 6]);
    assert_eq!(unwide(*product.get::<Float64>("b").unwrap().get(2).unwrap()), 2.5);
    let f = product.get::<Float32>("f").unwrap();
    assert_eq!(f32::from_bits(f.get(1).unwrap().to_bits()), 1.0);
    let difference = t1.arithmetic(&t2, Operation::Sub, add_wide, add_narrow);
    assert_eq!(difference.get::<i32>("d").unwrap().to_vec(), vec![9, 18, 27]);
    let quotient = t1.arithmetic(&t2, Operation::Div, add_wide, add_narrow);
    assert_eq!(quotient.get::<i32>("d").unwrap().to_vec(), vec![10, 10, 10]);
}

#[test]
fn arithmetic_stops_at_the_shorter_table() {
    let mut t1 = DataFrame::new();
    t1.add_series(named("a", vec![1i32, 2, 3]), true).unwrap();
    let mut t2 = DataFrame::new();
    t2.add_series(named("a", vec![10i32, 20]), true).unwrap();
    let sum = t1.arithmetic(&t2, Operation::Add, add_wide, add_narrow);
    assert_eq!(sum.get::<i32>("a").unwrap().to_vec(), vec![11, 22]);
    assert_eq!(sum.len(), 2);
    assert_eq!(sum.get_index(), names(&["0", "1"]));
}

#[test]
fn head_and_tail_show_rows() {
    let df = sample();
    let head = df.head(2);
    assert_eq!(head.titles, names(&[" ", "a", "b", "c", "d"]));
    assert_eq!(
        texts(&head.rows),
        vec![
            names(&["0", "1", "0.500", "x", "10"]),
            names(&["1", "2", "1.500", "y", "20"]),
        ]
    );
    let tail = df.tail(1);
    assert_eq!(texts(&tail.rows), vec![names(&["2", "3", "2.500", "z", "30"])]);
    assert_eq!(df.head(3).rows.len(), 3);
    assert_eq!(df.tail(3).rows.len(), 3);
    assert_eq!(df.head(0).rows.len(), 0);
    assert_eq!(df.tail(0).rows.len(), 0);
    assert_eq!(texts(&df.head_ecvxr(1).rows), texts(&df.head(1).rows));
    assert_eq!(texts(&df.tail_evcxr(2).rows), texts(&df.tail(2).rows));
}

#[test]
fn short_tables_are_shown_whole() {
    let mut df = DataFrame::new();
    df.add_series(named("n", (0..10).collect::<Vec<i32>>()), true).unwrap();
    df.add_series(named("ok", vec![true; 10]), true).unwrap();
    let shown = df.real_formatter(false);
    assert_eq!(shown.rows.len(), 10);
    assert_eq!(texts(&shown.rows)[9], names(&["9", "9", "true"]));
    let debug = df.real_formatter(true);
    assert_eq!(debug.rows.len(), 12);
    assert!(debug.rows[10].is_empty());
    assert_eq!(texts(&debug.rows)[11], names(&["types", "i32", "bool"]));
    assert!(df.footer(true).is_none());
}

#[test]
fn long_tables_are_cut_in_the_middle() {
    let mut df = DataFrame::new();
    df.add_series(named("n", (0..11).collect::<Vec<i64>>()), true).unwrap();
    df.add_series(named("s", vec!["v"; 11]), true).unwrap();
    let shown = df.real_formatter(false);
    let rows = texts(&shown.rows);
    assert_eq!(rows.len(), 11);
    assert_eq!(rows[4], names(&["4", "4", "v"]));
    assert_eq!(rows[5], names(&["....", "....", "...."]));
    assert_eq!(rows[6], names(&["6", "6", "v"]));
    assert_eq!(rows[10], names(&["10", "10", "v"]));
    assert_eq!(shown.titles, names(&[" ", "n", "s"]));
}

#[test]
fn long_strings_are_shortened() {
    let mut df = DataFrame::new();
    let long = "abcdefghijklmnopqrstuvwxyz0123456789".to_string();
    let short = "abcdefghijklmnopqrstuvwxyz012".to_string();
    df.add_series(named("s", vec![long, short.clone()]), true).unwrap();
    df.add_series(named("neg", vec![-12i64, i64::MIN]), true).unwrap();
    let rows = texts(&df.head(2).rows);
    assert_eq!(rows[0][1], "abcdefghijklmnopqrstuvwxyz0123...");
    assert_eq!(rows[1][1], short);
    assert_eq!(rows[0][2], "-12");
    assert_eq!(rows[1][2], "-9223372036854775808");
}

#[test]
fn large_tables_tell_their_size() {
    let mut df = DataFrame::new();
    df.add_series(named("n", (0..50).collect::<Vec<i32>>()), true).unwrap();
    assert_eq!(df.footer(true).unwrap(), "\n[50 rows x 1 columns]");
    assert_eq!(df.footer(false).unwrap(), "\n50[rows x 1 columns]");
    let mut small = DataFrame::new();
    small.add_series(named("n", (0..49).collect::<Vec<i32>>()), true).unwrap();
    assert!(small.footer(false).is_none());
}

#[test]
fn drop_takes_rows_out_of_every_column() {
    let df = sample();
    let less = df.drop(&["1"]);
    assert_eq!(less.get_order(), names(&["a", "b", "c", "d"]));
    assert_eq!(less.len(), 2);
    assert_eq!(less.get_index(), names(&["0", "2"]));
    assert_eq!(less.get::<i32>("a").unwrap().to_vec(), vec![1, 3]);
    assert_eq!(less.get::<String>("c").unwrap().to_vec(), names(&["x", "z"]));
    assert_eq!(df.len(), 3);
    let mut same = sample();
    same.drop_inplace(&["0", "2"]);
    assert_eq!(same.len(), 1);
    assert_eq!(same.get::<i32>("d").unwrap().to_vec(), vec![20]);
    assert_eq!(same.get_index(), names(&["1"]));
}

#[test]
fn remove_and_pop_take_columns_out() {
    let mut df = sample();
    df.remove("b");
    assert_eq!(df.get_order(), names(&["a", "c", "d"]));
    df.remove("nothing");
    assert_eq!(df.width(), 3);
    let d = df.pop::<i32>("d").unwrap();
    assert_eq!(d.to_vec(), vec![10, 20, 30]);
    assert_eq!(df.get_order(), names(&["a", "c"]));
    assert!(df.pop::<i32>("c").is_none());
    assert!(df.pop::<i32>("zz").is_none());
    assert_eq!(df.width(), 2);
    df.remove("a");
    df.remove("c");
    assert_eq!(df.width(), 0);
    assert_eq!(df.len(), 0);
    df.add_series(named("new", vec![1i32]), true).unwrap();
    assert_eq!(df.len(), 1);
}

#[test]
fn running_values_of_numeric_columns() {
    let df = sample();
    let sums = df.cum_sum(add_wide, add_narrow);
    assert_eq!(sums.get_order(), names(&["a", "b", "d"]));
    assert_eq!(sums.get::<i32>("a").unwrap().to_vec(), vec![1, 3, 6]);
    assert_eq!(sums.get::<i32>("d").unwrap().to_vec(), vec![10, 30, 60]);
    let b: Vec<f64> = sums.get::<Float64>("b").unwrap().to_vec().into_iter().map(unwide).collect();
    assert_eq!(b, vec![0.5, 2.0, 4.5]);
    let products = df.cum_prod(
        true,
        |a, b| wide(unwide(a) * unwide(b)),
        |a, b| narrow(f32::from_bits(a.to_bits()) * f32::from_bits(b.to_bits())),
    );
    assert_eq!(products.get::<i32>("d").unwrap().to_vec(), vec![10, 200, 6000]);
    let mut mixed = DataFrame::new();
    mixed.add_series(named("m", vec![3i64, 1, 2]), true).unwrap();
    mixed.add_series(named("f", vec![wide(2.0), wide(1.0), wide(3.0)]), true).unwrap();
    mixed.add_series(named("g", vec![narrow(-1.0), narrow(-0.5), narrow(-2.0)]), true).unwrap();
    mixed.add_series(named("s", vec!["x".to_string(), "y".to_string(), "z".to_string()]), true)
        .unwrap();
    assert!(mixed.has_no_nan());
    let least = mixed.cum_min();
    assert_eq!(least.get_order(), names(&["m", "f", "g"]));
    let f: Vec<f64> = least.get::<Float64>("f").unwrap().to_vec().into_iter().map(unwide).collect();
    assert_eq!(f, vec![2.0, 1.0, 1.0]);
    let g: Vec<f32> = least
        .get::<Float32>("g")
        .unwrap()
        .to_vec()
        .into_iter()
        .map(|v| f32::from_bits(v.to_bits()))
        .collect();
    assert_eq!(g, vec![-1.0, -1.0, -2.0]);
    assert_eq!(least.get_index(), mixed.get_index());
    assert_eq!(least.get::<i64>("m").unwrap().to_vec(), vec![3, 1, 1]);
    let most = mixed.cum_max();
    let f: Vec<f64> = most.get::<Float64>("f").unwrap().to_vec().into_iter().map(unwide).collect();
    assert_eq!(f, vec![2.0, 2.0, 3.0]);
    let mut gaps = DataFrame::new();
    gaps.add_series(named("n", vec![wide(1.0), wide(f64::NAN)]), true).unwrap();
    assert!(!gaps.has_no_nan());
    assert_eq!(most.get::<i64>("m").unwrap().to_vec(), vec![3, 3, 3]);
}

#[test]
fn tables_from_rows_and_entries() {
    let df = DataFrame::from_rows(vec![vec![1i32, 2, 3, 4, 5, 6], vec![7, 8, 9, 10, 11, 12]]);
    assert_eq!(df.width(), 6);
    assert_eq!(df.len(), 2);
    assert_eq!(df.get_order(), names(&["0", "1", "2", "3", "4", "5"]));
    assert_eq!(df.get::<i32>("0").unwrap().to_vec(), vec![1, 7]);
    assert_eq!(df.get::<i32>("5").unwrap().to_vec(), vec![6, 12]);
    let dropped = DataFrame::from_rows(vec![vec![1usize, 2]]);
    assert_eq!(dropped.width(), 0);
    let entries = DataFrame::try_from_entries(vec![
        ("temp_c".to_string(), vec![17i32, 25]),
        ("temp_f".to_string(), vec![62, 77]),
    ])
    .unwrap();
    assert_eq!(entries.get_order(), names(&["temp_c", "temp_f"]));
    assert_eq!(entries.get::<i32>("temp_f").unwrap().to_vec(), vec![62, 77]);
    let uneven = DataFrame::try_from_entries(vec![
        ("a".to_string(), vec![1i32, 2]),
        ("b".to_string(), vec![1]),
        ("c".to_string(), vec![1, 2]),
    ]);
    assert!(matches!(uneven, Err(DataFrameErrors::DifferentLength(1, 2))));
}

#[test]
fn blocks_group_columns_of_one_type() {
    let mut block: Block<i32> = Block::new();
    block.push(named("p", vec![1, 2, 3]));
    block.push(named("q", vec![4, 5, 6]));
    assert_eq!(block.len(), 2);
    assert_eq!(block.rows(), 3);
    assert_eq!(block.get_value_at(1, 2), 6);
    assert_eq!(block.get(0).to_vec(), vec![1, 2, 3]);
    assert_eq!(block.get_str_value_at(1, "0"), 4);
    assert_eq!(block.get_series_at_name("q").to_vec(), vec![4, 5, 6]);
    assert_eq!(block.apply(|v| v.iter().sum(), true).to_vec(), vec![5, 7, 9]);
    assert_eq!(block.apply(|v| v.iter().sum(), false).to_vec(), vec![6, 15]);
    let doubled = block.apply_map(|x| x * 2);
    assert_eq!(doubled.get_series_at_name("p").to_vec(), vec![2, 4, 6]);
    let par = block.par_apply(|x| x * 3);
    assert_eq!(par.get_series_at_name("q").to_vec(), vec![12, 15, 18]);
    assert_eq!(par.get(0).get_name(), "p");
    let wide_block: Block<i64> = block.as_type();
    assert_eq!(wide_block.get_series_at_name("q").to_vec(), vec![4i64, 5, 6]);
    let turned = block.transform(|v| v.iter().map(|x| *x > 2).collect::<Vec<bool>>(), false);
    assert_eq!(turned.get(1).to_vec(), vec![true, true, true]);
    assert_eq!(turned.get(0).get_name(), "series");
    block.apply_inplace(|x| x + 1);
    assert_eq!(block.get(0).to_vec(), vec![2, 3, 4]);
    block.mask(0, |x| x > 5);
    assert_eq!(block.get(1).to_vec(), vec![5, 0, 0]);
    block.push_names(names(&["first", "second"]));
    assert_eq!(block.get_series_at_name("second").to_vec(), vec![5, 0, 0]);
    block.drop_cols("first");
    assert_eq!(block.len(), 1);
    assert_eq!(block.get(0).get_name(), "q");
    let from = Block::from_series(vec![named("z", vec![true])]);
    assert_eq!(from.get_series_at_name("z").to_vec(), vec![true]);
}

#[test]
fn stores_hand_out_groups_and_take_them_in() {
    let df = sample();
    let block = df.clone();
    let mut store = BlockManager::new();
    let mut group: Block<i32> = Block::new();
    group.push(named("k", vec![1, 2]));
    group.push(named("l", vec![3, 4]));
    store.extend_from_block(group);
    assert_eq!(store.get_order(), names(&["k", "l"]));
    let again = BlockManager::from_block(store.block::<i32>());
    assert_eq!(again.get_order(), names(&["k", "l"]));
    assert_eq!(again.get::<i32>("l").unwrap().to_vec(), vec![3, 4]);
    assert_eq!(block.width(), 4);
}

#[test]
fn questions_to_numeric_columns() {
    let mut df = sample();
    df.add_series(named("z", vec![0i32, 0, 0]), true).unwrap();
    df.add_series(named("n", vec![wide(f64::NAN), wide(0.0), wide(f64::NAN)]), true).unwrap();
    df.add_series(named("w", vec![narrow(1.0), narrow(2.0), narrow(f32::NAN)]), true).unwrap();
    let all = df.all();
    assert_eq!(all.get_index(), names(&["a", "b", "d", "z", "n", "w"]));
    assert_eq!(all.to_vec(), vec![true, true, true, false, false, true]);
    let any = df.any();
    assert_eq!(any.to_vec(), vec![true, true, true, false, true, true]);
    let missing = df.count();
    assert_eq!(missing.get_index(), names(&["b", "n", "w"]));
    assert_eq!(missing.to_vec(), vec![0, 2, 1]);
    let none = DataFrame::new().all();
    assert!(none.is_empty());
}

#[test]
fn a_column_is_found_by_its_position() {
    let df = sample();
    assert_eq!(df.index::<i32>(3).to_vec(), vec![10, 20, 30]);
    assert_eq!(df.index::<String>(2).get_name(), "c");
}

#[test]
fn arithmetic_that_leaves_the_range_is_refused() {
    let mut t1 = DataFrame::new();
    t1.add_series(named("a", vec![i32::MAX, 2]), true).unwrap();
    t1.add_series(named("b", vec![i64::MIN, 4]), true).unwrap();
    t1.add_series(named("c", vec![7i32, 8]), true).unwrap();
    let mut t2 = DataFrame::new();
    t2.add_series(named("a", vec![1i32, 0]), true).unwrap();
    t2.add_series(named("b", vec![-1i64, 4]), true).unwrap();
    t2.add_series(named("c", vec![0i64, 0]), true).unwrap();
    assert!(!t1.can_compute(&t2, Operation::Add));
    assert!(t1.checked_arithmetic(&t2, Operation::Add, add_wide, add_narrow).is_none());
    assert!(t1.can_compute(&t2, Operation::Sub));
    let made = t1.checked_arithmetic(&t2, Operation::Sub, add_wide, add_narrow).unwrap();
    assert_eq!(made.get_order(), names(&["a", "b"]));
    assert_eq!(made.get::<i32>("a").unwrap().to_vec(), vec![i32::MAX - 1, 2]);
    assert_eq!(made.get::<i64>("b").unwrap().to_vec(), vec![i64::MIN + 1, 0]);
    assert!(!t1.can_compute(&t2, Operation::Mul));
    assert!(!t1.can_compute(&t2, Operation::Div));
    let mut t3 = DataFrame::new();
    t3.add_series(named("b", vec![-1i64, 4]), true).unwrap();
    assert!(!t1.can_compute(&t3, Operation::Div));
    assert!(!t1.can_compute(&t3, Operation::Mul));
    let mut t4 = DataFrame::new();
    t4.add_series(named("b", vec![2i64, -3]), true).unwrap();
    let quotient = t1.checked_arithmetic(&t4, Operation::Div, add_wide, add_narrow).unwrap();
    assert_eq!(quotient.get::<i64>("b").unwrap().to_vec(), vec![i64::MIN / 2, -1]);
    assert!(t1.can_compute(&DataFrame::new(), Operation::Div));
}

#[test]
fn columns_tell_whether_arithmetic_stays_within_range() {
    let left = Series::from(vec![i32::MIN, -7, 7, i32::MAX]);
    for (op, right, fits) in [
        (Operation::Add, vec![0, 1, 1, 0], true),
        (Operation::Add, vec![0, 1, 1, 1], false),
        (Operation::Add, vec![-1, 1, 1, 0], false),
        (Operation::Sub, vec![0, 1, 1, 0], true),
        (Operation::Sub, vec![1, 1, 1, 0], false),
        (Operation::Sub, vec![0, 1, 1, -1], false),
        (Operation::Mul, vec![1, 3, 3, 1], true),
        (Operation::Mul, vec![-1, 3, 3, 1], false),
        (Operation::Mul, vec![1, 3, 3, 2], false),
        (Operation::Div, vec![1, 2, -2, -1], true),
        (Operation::Div, vec![-1, 2, -2, -1], false),
        (Operation::Div, vec![1, 0, -2, -1], false),
    ] {
        let right = Series::from(right);
        assert_eq!(left.can_arith(&right, op), fits);
        let checked = left.checked_arith(&right, op);
        assert_eq!(checked.is_some(), fits);
        if let Some(made) = checked {
            let expected: Vec<i32> = left
                .to_vec()
                .iter()
                .zip(right.to_vec())
                .map(|(a, b)| match op {
                    Operation::Add => a + b,
                    Operation::Sub => a - b,
                    Operation::Mul => a * b,
                    Operation::Div => a / b,
                })
                .collect();
            assert_eq!(made.to_vec(), expected);
        }
    }
    assert!(left.can_arith_scalar(1, Operation::Div));
    assert!(!left.can_arith_scalar(-1, Operation::Div));
    assert!(!left.can_arith_scalar(0, Operation::Div));
    assert!(Series::from(vec![1i32, 2]).can_arith(&Series::from(vec![i32::MAX]), Operation::Sub));
}

#[test]
fn head_and_tail_beyond_the_rows_give_nothing() {
    let df = sample();
    assert!(df.try_head(3).is_some());
    assert!(df.try_head(4).is_none());
    assert!(df.try_tail(4).is_none());
    assert_eq!(df.try_tail(2).unwrap().rows.len(), 2);
    assert_eq!(df.try_head(0).unwrap().rows.len(), 0);
    assert!(DataFrame::new().try_head(1).is_none());
    let column = Series::from(vec![1i32, 2]);
    assert!(column.try_head(2).is_some());
    assert!(column.try_head(3).is_none());
    assert!(column.try_tail(3).is_none());
}

#[test]
fn a_table_of_a_map_holds_its_columns_in_the_order_of_their_names() {
    let entries = vec![
        ("pear".to_string(), vec![1i32, 2]),
        ("apple".to_string(), vec![3, 4]),
        ("zebra".to_string(), vec![5, 6]),
        ("Apple".to_string(), vec![7, 8]),
    ];
    let df = DataFrame::try_from_map(entries.clone()).unwrap();
    assert_eq!(df.get_order(), names(&["Apple", "apple", "pear", "zebra"]));
    assert_eq!(df.get::<i32>("apple").unwrap().to_vec(), vec![3, 4]);
    let sorted = sorted_by_name(entries);
    let order: Vec<&str> = sorted.iter().map(|e| e.0.as_str()).collect();
    assert_eq!(order, vec!["Apple", "apple", "pear", "zebra"]);
    let uneven = vec![("b".to_string(), vec![1i32]), ("a".to_string(), vec![1, 2])];
    match DataFrame::try_from_map(uneven) {
        Err(DataFrameErrors::DifferentLength(1, 2)) => {},
        _ => panic!("the shorter column was not refused"),
    }
    assert_eq!(sorted_by_name(Vec::<(String, Vec<i32>)>::new()).len(), 0);
    let twice = sorted_by_name(vec![
        ("b".to_string(), vec![1i32]),
        ("a".to_string(), vec![2]),
        ("b".to_string(), vec![3]),
    ]);
    assert_eq!(twice.len(), 3);
    assert_eq!(twice[0].0, "a");
}

#[test]
fn the_values_of_a_column_are_handed_out_in_order() {
    let mut walk = Series::from(vec![4i32, 5, 6]).into_iter();
    assert_eq!(walk.next(), Some(4));
    assert_eq!(walk.next(), Some(5));
    assert_eq!(walk.next(), Some(6));
    assert_eq!(walk.next(), None);
    assert_eq!(walk.next(), None);
}
