use dami::engine::block_manager::column::Cell;
use dami::engine::common::most_frequent;
use dami::engine::series::errors::{Error, SeriesErrors};
use dami::engine::series::generic::validate_names;
use dami::engine::series::ops::Operation;
use dami::engine::series::{create_index, get_type, Float32, Float64, Series};
use dami::enums::DataTypes;

fn shown(rows: &[Vec<Cell>]) -> Vec<Vec<String>> {
    rows.iter()
        .map(|r| {
            r.iter()
                .map(|c| match c {
                    Cell::Text(t) => t.clone(),
                    Cell::F64(v) => f64::from_bits(v.to_bits()).to_string(),
                    Cell::F32(v) => f32::from_bits(v.to_bits()).to_string(),
                })
                .collect()
        })
        .collect()
}

fn labels(v: &[&str]) -> Vec<String> {
    v.iter().map(|s| s.to_string()).collect()
}

fn wide(x: f64) -> Float64 {
    Float64::from_bits(x.to_bits())
}

fn unwide(x: Float64) -> f64 {
    f64::from_bits(x.to_bits())
}

#[test]
fn from_vec_round_trip() {
    let s = Series::from(vec![1i32, 2, 3]);
    assert_eq!(s.to_vec(), vec![1, 2, 3]);
    assert_eq!(s.get_name(), "series");
    assert_eq!(s.get_index(), labels(&["0", "1", "2"]));
    assert!(matches!(s.get_dtype(), DataTypes::I32));
    assert_eq!(s.len(), 3);
    assert!(!s.is_empty());
}

#[test]
fn round_trip_of_every_stored_type() {
    assert_eq!(Series::from(vec![7i64, -8]).to_vec(), vec![7i64, -8]);
    assert_eq!(Series::from(vec![true, false]).to_vec(), vec![true, false]);
    assert_eq!(
        Series::from(vec!["a".to_string(), "b".to_string()]).to_vec(),
        vec!["a".to_string(), "b".to_string()]
    );
    assert_eq!(Series::from(vec!["x", "y"]).to_vec(), vec!["x", "y"]);
    let floats: Vec<f64> = Series::from(vec![wide(1.5), wide(-2.25)])
        .to_vec()
        .into_iter()
        .map(unwide)
        .collect();
    assert_eq!(floats, vec![1.5, -2.25]);
    let narrow: Vec<f32> = Series::from(vec![Float32::from_bits(0.5f32.to_bits())])
        .to_vec()
        .into_iter()
        .map(|v| f32::from_bits(v.to_bits()))
        .collect();
    assert_eq!(narrow, vec![0.5f32]);
    let empty: Series<i32> = Series::from(Vec::<i32>::new());
    assert_eq!(empty.to_vec(), Vec::<i32>::new());
    assert!(empty.is_empty());
}

#[test]
fn constructors_from_slices_arrays_and_default() {
    let data = [4i32, 5, 6];
    let a = Series::from(&data[..]);
    assert_eq!(a.to_vec(), vec![4, 5, 6]);
    let b = Series::from([9i64, 8]);
    assert_eq!(b.to_vec(), vec![9, 8]);
    assert_eq!(b.get_index(), labels(&["0", "1"]));
    let d: Series<bool> = Series::default();
    assert_eq!(d.len(), 0);
    assert_eq!(d.get_name(), "series");
    assert!(d.item().is_none());
}

#[test]
fn constructors_from_labelled_values() {
    let s = Series::from(vec![("first", 1i32), ("second", 2)]);
    assert_eq!(s.get_index(), labels(&["first", "second"]));
    assert_eq!(s.to_vec(), vec![1, 2]);
    let t = Series::from(vec![("a".to_string(), 5i64), ("b".to_string(), 6)]);
    assert_eq!(t.get_index(), labels(&["a", "b"]));
    assert_eq!(t.at("b"), 6);
}

#[test]
fn a_mapping_of_one_entry_gives_a_column() {
    let s = Series::try_from_entries(vec![("temp".to_string(), vec![17i32, 25])]).unwrap();
    assert_eq!(s.get_name(), "temp");
    assert_eq!(s.to_vec(), vec![17, 25]);
    assert_eq!(s.get_index(), labels(&["0", "1"]));
}

#[test]
fn a_mapping_of_more_entries_is_refused() {
    let r = Series::try_from_entries(vec![
        ("a".to_string(), vec![1i32]),
        ("b".to_string(), vec![2i32]),
    ]);
    match r {
        Err(Error::HashMapError(n)) => assert_eq!(n, 2),
        _ => panic!("expected a refusal"),
    }
    let none: Result<Series<i32>, Error> = Series::try_from_entries(Vec::new());
    match none {
        Err(e) => assert_eq!(
            e.message(),
            "Expected a hashmap of length 1\nFound a Hashmap of length 0"
        ),
        _ => panic!("expected a refusal"),
    }
    assert_eq!(Error::LabelError.message(), "found duplicate labels");
}

#[test]
fn tags_follow_the_element_type() {
    assert!(matches!(get_type(&1i32), DataTypes::I32));
    assert!(matches!(get_type(&1i64), DataTypes::I64));
    assert!(matches!(get_type(&wide(1.0)), DataTypes::F64));
    assert!(matches!(get_type(&Float32::from_bits(0)), DataTypes::F32));
    assert!(matches!(get_type(&"x".to_string()), DataTypes::STRING));
    assert!(matches!(get_type(&"x"), DataTypes::STR));
    assert!(matches!(get_type(&true), DataTypes::BOOL));
    assert!(matches!(get_type(&1usize), DataTypes::OBJECT));
    assert!(matches!(get_type(&1u64), DataTypes::OBJECT));
    assert!(matches!(get_type(&1i128), DataTypes::OBJECT));
    let s = Series::from(vec![3i64, 4]);
    assert!(matches!(s.get_dtype(), DataTypes::I64));
    assert!(matches!(get_type(s.get(0).unwrap()), DataTypes::I64));
    let e: Series<&'static str> = Series::default();
    assert!(matches!(e.get_dtype(), DataTypes::STR));
}

#[test]
fn tag_labels() {
    assert_eq!(DataTypes::F32.label(), "f32");
    assert_eq!(DataTypes::F64.label(), "f64");
    assert_eq!(DataTypes::I32.label(), "i32");
    assert_eq!(DataTypes::I64.label(), "i64");
    assert_eq!(DataTypes::STR.label(), "str");
    assert_eq!(DataTypes::BOOL.label(), "bool");
    assert_eq!(DataTypes::STRING.label(), "string");
    assert_eq!(DataTypes::OBJECT.label(), "object");
    assert!(DataTypes::I32.supported());
    assert!(!DataTypes::OBJECT.supported());
}

#[test]
fn create_index_numbers_the_labels() {
    assert_eq!(create_index(3, "", ""), labels(&["0", "1", "2"]));
    assert_eq!(create_index(2, "row_", ""), labels(&["row_0", "row_1"]));
    assert_eq!(create_index(12, "", "!")[11], "11!");
    assert_eq!(create_index(0, "a", "b"), Vec::<String>::new());
}

#[test]
fn getters_and_setters() {
    let mut s = Series::from(vec![10i32, 20, 30]);
    assert_eq!(s.get(1), Some(&20));
    assert_eq!(s.get(3), None);
    assert_eq!(s.item(), Some(&10));
    s.set_name("speed");
    assert_eq!(s.get_name(), "speed");
    s.set_index(labels(&["a", "b", "c"]));
    assert_eq!(s.get_index(), labels(&["a", "b", "c"]));
    assert_eq!(s.at("c"), 30);
    s.add_prefix("p");
    assert_eq!(s.get_index(), labels(&["p0", "p1", "p2"]));
    s.add_suffix("s");
    assert_eq!(s.get_index(), labels(&["0s", "1s", "2s"]));
    s.reindex(labels(&["x", "y", "z"]), true);
    assert_eq!(s.get_index(), labels(&["x", "y", "z"]));
    assert_eq!(s.to_vec(), vec![10, 20, 30]);
    let c = s.clone();
    assert_eq!(c.get_name(), "speed");
    assert_eq!(c.get_index(), s.get_index());
    assert_eq!(c.to_vec(), s.to_vec());
}

#[test]
fn at_takes_the_first_of_equal_labels() {
    let mut s = Series::from(vec![1i32, 2, 3]);
    s.set_index(labels(&["k", "k", "m"]));
    assert_eq!(s.at("k"), 1);
    assert_eq!(s.at("m"), 3);
}

#[test]
fn apply_keeps_name_and_labels() {
    let mut s = Series::from(vec![1i32, 2, 3]);
    s.set_name("n");
    s.set_index(labels(&["a", "b", "c"]));
    let squared = s.apply(|x| x * x);
    assert_eq!(squared.to_vec(), vec![1, 4, 9]);
    assert_eq!(squared.get_name(), "n");
    assert_eq!(squared.get_index(), labels(&["a", "b", "c"]));
    s.apply_inplace(|x| x + 1);
    assert_eq!(s.to_vec(), vec![2, 3, 4]);
    assert_eq!(s.get_name(), "n");
}

#[test]
fn apply_works_on_floats_through_the_caller() {
    let s = Series::from(vec![wide(1.0), wide(2.0), wide(3.0)]);
    let squared = s.apply(|x| wide(unwide(x).powi(2)));
    let got: Vec<f64> = squared.to_vec().into_iter().map(unwide).collect();
    assert_eq!(got, vec![1.0, 4.0, 9.0]);
}

#[test]
fn mask_replaces_where_the_condition_holds() {
    let s = Series::from(vec![1i32, -1, 2, 5, 3]);
    let all = s.mask(5, |f| f < 20);
    assert_eq!(all.to_vec(), vec![5, 5, 5, 5, 5]);
    let some = s.mask(0, |f| f < 2);
    assert_eq!(some.to_vec(), vec![0, 0, 2, 5, 3]);
    let mut t = Series::from(vec![1i32, 2, 3]);
    t.mask_inplace(9, |f| f == 2);
    assert_eq!(t.to_vec(), vec![1, 9, 3]);
}

#[test]
fn transform_changes_the_element_type() {
    let mut s = Series::from(vec![1i32, 2, 3]);
    s.set_name("n");
    let t = s.transform(|x| i64::from(x) * 1_000_000_000_000);
    assert_eq!(t.to_vec(), vec![1_000_000_000_000i64, 2_000_000_000_000, 3_000_000_000_000]);
    assert_eq!(t.get_name(), "n");
    assert!(matches!(t.get_dtype(), DataTypes::I64));
    let f = s.transform(|x| wide(f64::from(x)));
    assert_eq!(unwide(*f.get(2).unwrap()), 3.0);
}

#[test]
fn as_type_widens() {
    let mut s = Series::from(vec![0i32, 1, -5]);
    s.set_name("narrow");
    let w: Series<i64> = s.as_type();
    assert_eq!(w.to_vec(), vec![0i64, 1, -5]);
    assert_eq!(w.get_name(), "narrow");
    assert!(matches!(w.get_dtype(), DataTypes::I64));
}

#[test]
fn combine_keeps_the_name_of_the_first() {
    let mut a = Series::from(vec![1i32, 7, 3]);
    a.set_name("left");
    let b = Series::from(vec![4i32, 2, 9]);
    let c = a.combine(&b, std::cmp::max);
    assert_eq!(c.to_vec(), vec![4, 7, 9]);
    assert_eq!(c.get_name(), "left");
    let same = a.combine(&a, std::cmp::max);
    assert_eq!(same.to_vec(), a.to_vec());
}

#[test]
fn append_puts_one_column_behind_the_other() {
    let mut a = Series::from(vec![1i32, 2, 3]);
    let b = Series::from(vec![4i32, 5, 6]);
    a.append(b, false, true);
    assert_eq!(a.to_vec(), vec![1, 2, 3, 4, 5, 6]);
    assert_eq!(a.get_index(), labels(&["0", "1", "2", "0", "1", "2"]));
    let mut c = Series::from(vec![1i32]);
    c.append(Series::from(Vec::<i32>::new()), true, false);
    assert_eq!(c.to_vec(), vec![1]);
}

#[test]
fn drop_removes_labelled_positions() {
    let s = Series::from(vec![1i32, 2, 3, 4, 5]);
    let d = s.drop(&["0", "1", "2"]);
    assert_eq!(d.to_vec(), vec![4, 5]);
    assert_eq!(d.get_index(), labels(&["3", "4"]));
    let none = s.drop(&[]);
    assert_eq!(none.to_vec(), vec![1, 2, 3, 4, 5]);
    let mut t = Series::from(vec![1i32, 2, 3]);
    t.set_name("t");
    t.drop_inplace(&["1", "nine"]);
    assert_eq!(t.to_vec(), vec![1, 3]);
    assert_eq!(t.get_index(), labels(&["0", "2"]));
    assert_eq!(t.get_name(), "t");
}

#[test]
fn filters_by_label() {
    let s = Series::from(vec![("first_idx", 1i32), ("random_idx", 3), ("next", 4)]);
    let none = s.filter_by_func(|f| f.starts_with('d'));
    assert!(none.is_empty());
    let some = s.filter_by_func(|f| f.ends_with("idx"));
    assert_eq!(some.to_vec(), vec![1, 3]);
    assert_eq!(some.get_index(), labels(&["first_idx", "random_idx"]));
    let t = Series::from([1i32, 2, 3, 4, 5]);
    let chosen = t.filter_by_regex("1|2|3").unwrap();
    assert_eq!(chosen.to_vec(), vec![2, 3, 4]);
    assert_eq!(chosen.get_index(), labels(&["1", "2", "3"]));
    assert!(t.filter_by_regex("(").is_none());
    let anchored = t.filter_by_regex("^4$").unwrap();
    assert_eq!(anchored.to_vec(), vec![5]);
}

#[test]
fn duplicated_and_unique() {
    let s = Series::from(vec![1i32, 2, 1, 2, 1]);
    assert_eq!(s.duplicated().to_vec(), vec![false, false, true, true, true]);
    assert_eq!(s.unique(), vec![1, 2]);
    let t = Series::from(vec!["b".to_string(), "a".to_string(), "b".to_string()]);
    assert_eq!(t.duplicated().to_vec(), vec![false, false, true]);
    assert_eq!(t.unique(), vec!["b".to_string(), "a".to_string()]);
    let e: Series<i64> = Series::default();
    assert!(e.unique().is_empty());
}

#[test]
fn validate_names_compares_counts_of_different_labels() {
    assert!(validate_names(labels(&["a", "b"]), labels(&["x", "y"])).is_ok());
    assert!(validate_names(labels(&["a", "a"]), labels(&["x", "y"])).is_err());
    assert!(validate_names(labels(&["a", "a", "b"]), labels(&["y", "x", "y"])).is_ok());
    assert!(validate_names(Vec::new(), Vec::new()).is_ok());
}

#[test]
fn between_and_clip() {
    let s = Series::from(vec![0i32, 1, 2, 4]);
    assert_eq!(s.between(1, 3, true).to_vec(), vec![false, true, true, false]);
    assert_eq!(s.between(1, 4, false).to_vec(), vec![false, false, true, false]);
    let c = Series::from(vec![1i32, 2, 3, 4, 5]).clip(0, 3);
    assert_eq!(c.to_vec(), vec![1, 2, 3, 3, 3]);
    let low = Series::from(vec![-4i64, 9]).clip(-1, 1);
    assert_eq!(low.to_vec(), vec![-1, 1]);
    let words = Series::from(vec!["apple".to_string(), "pear".to_string(), "fig".to_string()]);
    assert_eq!(
        words.between("b".to_string(), "g".to_string(), true).to_vec(),
        vec![false, false, true]
    );
    assert_eq!(
        words.clip("b".to_string(), "g".to_string()).to_vec(),
        vec!["b".to_string(), "g".to_string(), "fig".to_string()]
    );
    let refs = Series::from(vec!["a", "ab", "b"]);
    assert_eq!(refs.between("a", "b", false).to_vec(), vec![false, true, false]);
}

#[test]
fn truth_of_integer_columns() {
    assert!(!Series::from(vec![0i32, 4, 9, 8]).all());
    assert!(Series::from(vec![0i32, 4, 9, 8]).any());
    assert!(Series::from(vec![1i64, 4]).all());
    assert!(!Series::from(vec![0i64, 0]).any());
    assert!(Series::<i32>::default().all());
    assert!(!Series::<i32>::default().any());
    assert!(Series::from(vec![3i32]).bool());
    assert!(!Series::from(vec![0i32]).bool());
}

#[test]
fn running_values() {
    let s = Series::from([0i32, 1, 3, 4]);
    assert_eq!(s.cum_sum().to_vec(), vec![0, 1, 4, 8]);
    assert_eq!(Series::from([1i32, 2, 3, 4]).cum_prod().to_vec(), vec![1, 2, 6, 24]);
    assert_eq!(Series::from([2i64, 3]).cum_prod().to_vec(), vec![2, 6]);
    assert_eq!(Series::from([0i32, 1, 3, 4, 2, 4]).cum_max().to_vec(), vec![0, 1, 3, 4, 4, 4]);
    assert_eq!(Series::from([0i32, 1, 3, 4, 2, 4]).cum_min().to_vec(), vec![0, 0, 0, 0, 0, 0]);
    assert_eq!(Series::from([5i32, 7, 3, 4]).cum_min().to_vec(), vec![5, 5, 3, 3]);
    assert_eq!(Series::from([-5i32, -7]).cum_max().to_vec(), vec![-5, -5]);
    assert!(Series::<i32>::default().cum_sum().is_empty());
    assert!(Series::<i32>::default().cum_prod().is_empty());
    assert!(Series::<i32>::default().cum_max().is_empty());
    assert!(Series::<i32>::default().cum_min().is_empty());
}

#[test]
fn dot_product() {
    let a = Series::from(vec![1i32, 2, 3]);
    let b = Series::from(vec![4i32, -5, 6]);
    assert_eq!(a.dot(&b).unwrap(), 12);
    let short = Series::from(vec![1i32]);
    match a.dot(&short) {
        Err(SeriesErrors::MatrixUnaligned(me, other)) => {
            assert_eq!((me, other), (3, 1));
        }
        _ => panic!("expected an error"),
    }
    assert_eq!(
        SeriesErrors::MatrixUnaligned(3, 1).message(),
        "Matrices unaligned. Length for me 3,length for other 1"
    );
    let e = Series::<i64>::default();
    assert_eq!(e.dot(&e).unwrap(), 0);
}

#[test]
fn arithmetic_of_columns() {
    let mut a = Series::from(vec![1i32, 2, 3]);
    a.set_name("a");
    let b = Series::from(vec![10i32, 20, 30]);
    let sum = a.clone() + b.clone();
    assert_eq!(sum.to_vec(), vec![11, 22, 33]);
    assert_eq!(sum.get_name(), "a");
    assert_eq!((b.clone() - a.clone()).to_vec(), vec![9, 18, 27]);
    assert_eq!((a.clone() * b.clone()).to_vec(), vec![10, 40, 90]);
    assert_eq!((b.clone() / a.clone()).to_vec(), vec![10, 10, 10]);
    let q = Series::from(vec![-7i64, 7, -7]) / Series::from(vec![2i64, -2, -2]);
    assert_eq!(q.to_vec(), vec![-3, -3, 3]);
    let short = a.arith(&Series::from(vec![5i32]), Operation::Add);
    assert_eq!(short.to_vec(), vec![6]);
    assert_eq!(short.get_index(), labels(&["0"]));
    assert_eq!(a.arith_scalar(35, Operation::Add).to_vec(), vec![36, 37, 38]);
    assert_eq!(a.arith_scalar(2, Operation::Mul).to_vec(), vec![2, 4, 6]);
    let mut c = Series::from(vec![8i32, 9]);
    c.arith_assign(4, Operation::Div);
    assert_eq!(c.to_vec(), vec![2, 2]);
    c.arith_assign(1, Operation::Sub);
    assert_eq!(c.to_vec(), vec![1, 1]);
}

#[test]
fn most_frequent_value() {
    let (count, value) = most_frequent(&[3i32, 1, 3, 2, 3, 1]);
    assert_eq!((count, value), (3, 3));
    let (n, v) = most_frequent(&["a".to_string(), "b".to_string(), "b".to_string()]);
    assert_eq!((n, v.as_str()), (2, "b"));
    let (zero, d) = most_frequent::<i32>(&[]);
    assert_eq!((zero, d), (0, 0));
    let (one, any) = most_frequent(&[5i64, 6]);
    assert_eq!(one, 1);
    assert!(any == 5 || any == 6);
}

#[test]
fn columns_of_different_lengths_are_not_combined() {
    let a = Series::from(vec![1i32, 2, 3]);
    let short = Series::from(vec![1i32, 2]);
    let long = Series::from(vec![1i32, 2, 3, 4]);
    match a.try_combine(&short, std::cmp::max) {
        Err(SeriesErrors::MatrixUnaligned(me, other)) => assert_eq!((me, other), (3, 2)),
        _ => panic!("expected an error"),
    }
    match a.try_combine(&long, std::cmp::max) {
        Err(SeriesErrors::MatrixUnaligned(me, other)) => assert_eq!((me, other), (3, 4)),
        _ => panic!("expected an error"),
    }
    let same = a.try_combine(&Series::from(vec![3i32, 2, 1]), std::cmp::min).unwrap();
    assert_eq!(same.to_vec(), vec![1, 2, 1]);
    assert_eq!(same.len(), 3);
}

#[test]
fn equal_columns() {
    let a = Series::from(vec![1i32, 2, 3]);
    assert!(a.equals(&Series::from(vec![1i32, 2, 3])));
    assert!(!a.equals(&Series::from(vec![1i32, 2, 4])));
    let s = Series::from(vec!["a".to_string()]);
    assert!(s.equals(&Series::from(vec!["a".to_string()])));
}

#[test]
fn a_column_is_shown_with_its_labels() {
    let mut s = Series::from(vec![7i32, -8, 9]);
    s.set_name("n");
    let grid = s.real_formatter();
    assert_eq!(grid.titles, labels(&["index", "values"]));
    assert_eq!(
        shown(&grid.rows),
        vec![
            labels(&["0", "7"]),
            labels(&["1", "-8"]),
            labels(&["2", "9"]),
            Vec::<String>::new(),
            labels(&["name:n", "dtype:i32"]),
        ]
    );
    let long = Series::from((0..12).map(|i| i * 1000i64).collect::<Vec<i64>>());
    let rows = shown(&long.real_formatter().rows);
    assert_eq!(rows.len(), 12);
    assert_eq!(rows[4], labels(&["4", "4000"]));
    assert!(rows[5].is_empty());
    assert_eq!(rows[6], labels(&["7", "7000"]));
    assert_eq!(rows[11], labels(&["name:series", "dtype:i64", "length:12"]));
    assert_eq!(shown(&s.head(2).rows), vec![labels(&["0", "7"]), labels(&["1", "-8"])]);
    assert_eq!(shown(&s.tail(1).rows), vec![labels(&["2", "9"])]);
    let f = Series::from(vec![wide(2.5)]);
    assert_eq!(shown(&f.head(1).rows), vec![labels(&["0", "2.5"])]);
    let big = Series::from(vec![i128::MIN, 5]);
    assert_eq!(shown(&big.head(1).rows)[0][1], i128::MIN.to_string());
    let u = Series::from(vec![u64::MAX]);
    assert_eq!(shown(&u.head(1).rows)[0][1], u64::MAX.to_string());
}

#[test]
fn values_are_set_by_position_and_by_label() {
    let mut s = Series::from(vec![("a", 1i32), ("b", 2), ("a", 3)]);
    s.set(1, 20);
    assert_eq!(s.to_vec(), vec![1, 20, 3]);
    s.set_at("a", 10);
    assert_eq!(s.to_vec(), vec![10, 20, 3]);
    assert_eq!(s.get_index(), labels(&["a", "b", "a"]));
}
