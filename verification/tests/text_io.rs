use dami::engine::series::Float64;
use dami::enums::DataTypes;
use dami::io::clipboard::ClipReader;
use dami::io::csv::{smart_split, Builder, Reader};
use dami::io::dtypes::{
    float_text, is_bool, is_float, is_int, parse_bool, parse_i32, parse_i64, str_to_big_int,
    str_to_bool, str_to_int,
};
use dami::io::fwf::FWFReader;
use dami::io::infer::{tabulate, CSVError};
use dami::io::parser::{
    check_names, defaults, lookup, merge_settings, read_clipboard, read_csv, read_fwf,
    remove_setting, update_kwargs, validate_names, Errors,
};
use dami::io::utils::{ends_with, is_url, packing, Packing};
use dami::text::scan::{contains, is_white_space, lines, split, starts_with, trim};
use dami::text::{chars_of, i64_to_string, text_less, usize_to_string};

fn strings(v: &[&str]) -> Vec<String> {
    v.iter().map(|s| s.to_string()).collect()
}

fn parse_float(s: &str) -> Float64 {
    Float64::from_bits(s.parse::<f64>().unwrap_or(f64::NAN).to_bits())
}

fn floats(v: Vec<Float64>) -> Vec<f64> {
    v.into_iter().map(|x| f64::from_bits(x.to_bits())).collect()
}

const SAMPLES: [&str; 40] = [
    "", " ", "0", "7", "-7", "+7", "+", "-", "--1", "007", "2147483647", "2147483648",
    "-2147483648", "-2147483649", "9223372036854775807", "9223372036854775808",
    "-9223372036854775808", "-9223372036854775809", "99999999999999999999999999", "1.5", "1.",
    ".5", ".", "1e5", "1E5", "1e", "e5", "1e+5", "1e-5", "1.5e3x", "inf", "-INF", "Infinity",
    "nan", "+NaN", "infinit", "1 ", " 1", "1_000", "0x10",
];

#[test]
fn numbers_as_text() {
    assert_eq!(usize_to_string(0), "0");
    assert_eq!(usize_to_string(9), "9");
    assert_eq!(usize_to_string(10), "10");
    assert_eq!(usize_to_string(1234567890), "1234567890");
    assert_eq!(usize_to_string(usize::MAX), usize::MAX.to_string());
    assert_eq!(i64_to_string(0), "0");
    assert_eq!(i64_to_string(-1), "-1");
    assert_eq!(i64_to_string(i64::MAX), i64::MAX.to_string());
    assert_eq!(i64_to_string(i64::MIN), i64::MIN.to_string());
    assert_eq!(chars_of("héllo"), vec!['h', 'é', 'l', 'l', 'o']);
}

#[test]
fn strings_are_ordered_as_the_language_orders_them() {
    let words = ["", "a", "A", "ab", "abc", "b", "é", "z", "aa", "\u{10000}", "ÿ"];
    for x in words {
        for y in words {
            assert_eq!(text_less(x, y), x < y, "{:?} < {:?}", x, y);
        }
    }
}

#[test]
fn integers_are_parsed_as_the_language_parses_them() {
    for s in SAMPLES {
        assert_eq!(parse_i32(s), s.parse::<i32>().ok(), "{:?}", s);
        assert_eq!(parse_i64(s), s.parse::<i64>().ok(), "{:?}", s);
    }
    assert_eq!(parse_i32("-0"), Some(0));
    assert_eq!(parse_i32("١"), None);
}

#[test]
fn truth_values_are_parsed_as_the_language_parses_them() {
    for s in ["true", "false", "True", "1", "", " true", "truee"] {
        assert_eq!(parse_bool(s), s.parse::<bool>().ok(), "{:?}", s);
    }
}

#[test]
fn floats_are_recognised_as_the_language_recognises_them() {
    for s in SAMPLES {
        assert_eq!(float_text(s), s.parse::<f64>().is_ok(), "{:?}", s);
    }
    for s in ["+.5e-3", "-1.e2", "1.5E+10", "iNf", "-infinity", "+inf", "nan ", "in", "1e5.5",
        "1..2", "+-1", "１", "1e１", "NAN", "1.0e", "++inf", "-.e1", "00.00", "5e005"]
    {
        assert_eq!(float_text(s), s.parse::<f64>().is_ok(), "{:?}", s);
    }
}

#[test]
fn samples_tell_types() {
    assert!(is_int(&strings(&["1", "-2", "+3"])));
    assert!(!is_int(&strings(&["1", "2.0"])));
    assert!(is_int(&[]));
    assert!(is_float(&strings(&["1", "2.5", "nan"])));
    assert!(!is_float(&strings(&["1", "two"])));
    assert!(is_bool(&strings(&["true", "false"])));
    assert!(!is_bool(&strings(&["true", "1"])));
    assert_eq!(str_to_int(&strings(&["4", "x", "-5", "3000000000"])), vec![4, 0, -5, 0]);
    assert_eq!(str_to_big_int(&strings(&["3000000000", "x"])), vec![3000000000i64, 0]);
    assert_eq!(str_to_bool(&strings(&["true", "x", "false"])), vec![true, false, false]);
}

#[test]
fn trimming_follows_the_language() {
    for s in ["", " ", "  a  ", "\t\na b\r\n", "a", "\u{a0}x\u{2003}", " \u{3000} ", "x y "] {
        assert_eq!(trim(s), s.trim(), "{:?}", s);
    }
}

#[test]
fn lines_follow_the_language() {
    for s in ["", "\n", "a", "a\n", "a\nb", "a\r\nb\r\n", "a\n\nb", "\r\n", "a\rb\n", "a\r",
        "\n\n", "x\r\r\ny"]
    {
        let want: Vec<String> = s.lines().map(|l| l.to_string()).collect();
        assert_eq!(lines(s), want, "{:?}", s);
    }
}

#[test]
fn splitting_follows_the_language() {
    let texts = ["", "a", "a,b", ",a,,b,", "a, b", "aaa", "abcabc", ",", ",,"];
    let seps = [",", "a", "aa", "bc", "", ", ", "abcabcabc"];
    for s in texts {
        for p in seps {
            let want: Vec<String> = s.split(p).map(|l| l.to_string()).collect();
            assert_eq!(split(s, p), want, "{:?} by {:?}", s, p);
            assert_eq!(contains(s, p), s.contains(p), "{:?} holds {:?}", s, p);
            assert_eq!(starts_with(s, p), s.starts_with(p), "{:?} begins {:?}", s, p);
            assert_eq!(ends_with(s, p), s.ends_with(p), "{:?} ends {:?}", s, p);
        }
    }
}

#[test]
fn smart_split_respects_quotes() {
    assert_eq!(smart_split("a,b,c", ",", "\""), strings(&["a", "b", "c"]));
    assert_eq!(smart_split("a,\"b,c\",d", ",", "\""), strings(&["a", "\"b,c\"", "d"]));
    assert_eq!(smart_split("\"x\",", ",", "\""), strings(&["\"x\""]));
    assert_eq!(smart_split("\"x\",,y", ",", "\""), strings(&["\"x\"", "", "y"]));
    assert_eq!(smart_split("a,b,", ",", "\""), strings(&["a", "b", ""]));
    assert_eq!(smart_split("'a;b';c", ";", "'"), strings(&["'a;b'", "c"]));
    assert_eq!(smart_split("\"a::b\"::c", "::", "\""), strings(&["\"a::b\"::c"]));
    assert_eq!(smart_split("", ",", "\""), strings(&[""]));
}

#[test]
fn places_and_packings() {
    assert!(is_url("http://example.org/a.csv"));
    assert!(is_url("https://example.org"));
    assert!(is_url("file:///tmp/a"));
    assert!(is_url("ftp://host/a"));
    assert!(is_url("ftps://host/a"));
    assert!(!is_url("/tmp/http://"));
    assert!(!is_url("http:/x"));
    assert!(!is_url(""));
    assert_eq!(packing("a.zip"), Packing::Zip);
    assert_eq!(packing("a.lzma"), Packing::Lzma);
    assert_eq!(packing("a.lzma2"), Packing::Xz);
    assert_eq!(packing("a.xz"), Packing::Xz);
    assert_eq!(packing("a.csv"), Packing::Plain);
    assert_eq!(packing("zip"), Packing::Plain);
}

#[test]
fn settings_by_name() {
    let base = defaults();
    assert_eq!(base.len(), 18);
    assert_eq!(lookup(&base, "delimiter"), Some(","));
    assert_eq!(lookup(&base, "decimal"), Some("."));
    assert_eq!(lookup(&base, "sep"), None);
    let merged = update_kwargs(&base, &vec![("delimiter", ";"), ("unknown", "1"), ("prefix", "p")]);
    assert_eq!(merged.len(), 18);
    assert_eq!(lookup(&merged, "delimiter"), Some(";"));
    assert_eq!(lookup(&merged, "prefix"), Some("p"));
    assert_eq!(lookup(&merged, "unknown"), None);
    assert_eq!(lookup(&merged, "quoting"), Some("\""));
    let twice = vec![("a", "1"), ("b", "2"), ("a", "3")];
    assert_eq!(lookup(&twice, "a"), Some("3"));
    assert_eq!(remove_setting(&twice, "a"), vec![("b", "2")]);
    assert_eq!(merge_settings(None).len(), 18);
    assert_eq!(lookup(&merge_settings(Some(vec![("names", "x,y")])), "names"), Some("x,y"));
    assert!(validate_names("a,b,c").is_ok());
    assert!(validate_names("").is_ok());
    assert_eq!(validate_names("a,b,a"), Err(Errors::NameError));
    assert_eq!(Errors::NameError.message(), "Duplicate names are not allowed.");
    assert_eq!(CSVError::ParseError.message(), "Could not parse csv");
}

#[test]
fn the_builder_keeps_settings() {
    let mut b = Builder::new();
    assert!(b.headers());
    assert!(b.flexible());
    assert_eq!(b.delimiter(), ",");
    assert_eq!(b.line_terminator(), "\n");
    assert_eq!(b.ignore(), "#");
    b.set_delimiter(";");
    b.set_headers(false);
    b.set_line_terminator("\r\n");
    b.set_flexible(false);
    b.set_ignore("//");
    let c = b.build();
    assert_eq!(c.delimiter(), ";");
    assert!(!c.headers());
    assert_eq!(c.line_terminator(), "\r\n");
    assert!(!c.flexible());
    assert_eq!(c.ignore(), "//");
}

#[test]
fn columns_of_text_become_typed_columns() {
    let data = vec![
        strings(&["1", "2", "-3"]),
        strings(&["1.5", "2", "nan"]),
        strings(&["true", "false", "maybe"]),
        strings(&["a", "2", "3"]),
        strings(&["1", "2.5", "3"]),
        strings(&["true", "false", "true"]),
        strings(&["1", "2", "x"]),
    ];
    let headers = strings(&["i", "f", "b", "s", "g", "t", "m"]);
    let df = tabulate(&data, &headers, parse_float).unwrap();
    assert_eq!(df.get_order(), headers);
    assert_eq!(df.get::<i32>("i").unwrap().to_vec(), vec![1, 2, -3]);
    let f = floats(df.get::<Float64>("f").unwrap().to_vec());
    assert_eq!(&f[..2], &[1.5, 2.0]);
    assert!(f[2].is_nan());
    assert!(df.get::<bool>("b").is_none());
    assert_eq!(df.get::<String>("b").unwrap().to_vec(), strings(&["true", "false", "maybe"]));
    assert_eq!(df.get::<String>("s").unwrap().to_vec(), strings(&["a", "2", "3"]));
    assert_eq!(df.get::<bool>("t").unwrap().to_vec(), vec![true, false, true]);
    assert_eq!(df.get::<String>("m").unwrap().to_vec(), strings(&["1", "2", "x"]));
    assert_eq!(floats(df.get::<Float64>("g").unwrap().to_vec()), vec![1.0, 2.5, 3.0]);
    assert_eq!(df.get_index(), strings(&["0", "1", "2"]));
}

#[test]
fn only_the_first_ten_values_tell_the_type() {
    let mut ints = strings(&["1"; 10]);
    ints.push("later".to_string());
    let mut bools = strings(&["true"; 10]);
    bools.push("later".to_string());
    let df = tabulate(&vec![ints, bools], &strings(&["n", "t"]), parse_float).unwrap();
    let n = df.get::<i32>("n").unwrap().to_vec();
    assert_eq!(n.len(), 11);
    assert_eq!(n[10], 0);
    let t = df.get::<bool>("t").unwrap().to_vec();
    assert_eq!(t[9], true);
    assert_eq!(t[10], false);
    assert!(matches!(df.get_dtype_at_key("t"), Some(DataTypes::BOOL)));
}

#[test]
fn what_cannot_be_a_table_is_refused() {
    assert!(tabulate(&Vec::new(), &Vec::new(), parse_float).is_err());
    assert!(tabulate(&vec![strings(&["1"])], &Vec::new(), parse_float).is_err());
    let uneven = vec![strings(&["1", "2"]), strings(&["1"])];
    assert!(tabulate(&uneven, &strings(&["a", "b"]), parse_float).is_err());
    let twice = vec![strings(&["1"]), strings(&["2"]), strings(&["3"])];
    let renamed = tabulate(&twice, &strings(&["a", "a", "a"]), parse_float).unwrap();
    assert_eq!(renamed.get_order(), strings(&["a", "1", "2"]));
    assert!(tabulate(&twice, &strings(&["a", "2", "a"]), parse_float).is_err());
    let no_rows = tabulate(&vec![Vec::new()], &strings(&["a"]), parse_float).unwrap();
    assert_eq!(no_rows.len(), 0);
    assert!(matches!(no_rows.get_dtype_at_key("a"), Some(DataTypes::I32)));
}

#[test]
fn delimited_text_is_read() {
    let text = "name, age,score\n# a comment\nann,31,1.5\n\"bo,b\",27,2\n";
    let df = read_csv(text, None, parse_float).unwrap();
    assert_eq!(df.get_order(), strings(&["name", "age", "score"]));
    assert_eq!(df.get::<String>("name").unwrap().to_vec(), strings(&["ann", "\"bo,b\""]));
    assert_eq!(df.get::<i32>("age").unwrap().to_vec(), vec![31, 27]);
    assert_eq!(floats(df.get::<Float64>("score").unwrap().to_vec()), vec![1.5, 2.0]);
}

#[test]
fn delimited_text_with_options() {
    let text = "1;2\r\n3;4\r\n";
    let options = Some(vec![("delimiter", ";"), ("names", "x;y")]);
    let df = read_csv(text, options, parse_float).unwrap();
    assert_eq!(df.get_order(), strings(&["x", "y"]));
    assert_eq!(df.get::<i32>("x").unwrap().to_vec(), vec![1, 3]);
    assert_eq!(df.get::<i32>("y").unwrap().to_vec(), vec![2, 4]);
    assert!(check_names(&Some(vec![("names", "p,p")])).is_err());
    assert!(read_csv("", None, parse_float).is_err());
    assert!(read_csv("h1,h2\n1,2\n3\n", None, parse_float).is_err());
    assert!(read_csv("only,names\n", None, parse_float).is_err());
}

#[test]
fn the_reader_keeps_what_it_read() {
    let mut reader = Reader::new();
    reader.update_kwargs(vec![("sep", "|"), ("ignore", "//")]);
    let df = reader.parse_string_csv("a|b\n// skipped\n 1 | 2 \n3|4", parse_float).unwrap();
    assert_eq!(df.get::<i32>("b").unwrap().to_vec(), vec![2, 4]);
    let copy = reader.own_it();
    let again = copy.to_dataframe(parse_float).unwrap();
    assert_eq!(again.get::<i32>("a").unwrap().to_vec(), vec![1, 3]);
    let mut strict = Reader::new();
    strict.smart_push(strings(&[" h ", "k"]), true).unwrap();
    strict.smart_push(strings(&["1", "2"]), false).unwrap();
    strict.smart_push(strings(&["3"]), false).unwrap();
    assert!(strict.to_dataframe(parse_float).is_err());
}

#[test]
fn fixed_width_text_is_read() {
    let text = "id     value \nid8141 360.25\nid1594 444.50";
    let df = read_fwf(text, Some(vec![(0, 6), (7, 13)]), None, parse_float).unwrap();
    assert_eq!(df.get_order(), strings(&["id", "value"]));
    assert_eq!(df.get::<String>("id").unwrap().to_vec(), strings(&["id8141", "id1594"]));
    assert_eq!(floats(df.get::<Float64>("value").unwrap().to_vec()), vec![360.25, 444.5]);
    let by_comma = read_fwf("name,size\na,1\nb,2", None, None, parse_float).unwrap();
    assert_eq!(by_comma.get_order(), strings(&["name", "size"]));
    assert_eq!(by_comma.get::<String>("name").unwrap().to_vec(), strings(&["a", "b"]));
    assert_eq!(by_comma.get::<i32>("size").unwrap().to_vec(), vec![1, 2]);
    let mut blank = FWFReader::new();
    blank.read("name size\na 1\nb 2", Vec::new());
    let by_blank = blank.to_dataframe(parse_float).unwrap();
    assert_eq!(by_blank.get_order(), strings(&["name", "size"]));
    assert_eq!(by_blank.get::<i32>("size").unwrap().to_vec(), vec![1, 2]);
    let mut reader = FWFReader::new();
    reader.read_with_colspecs("ab cd\n12 34\n56 78", &[(0, 2), (3, 5), (9, 12)], Vec::new());
    let table = reader.to_dataframe(parse_float).unwrap();
    assert_eq!(table.get_order(), strings(&["ab", "cd"]));
    assert_eq!(table.get::<i32>("ab").unwrap().to_vec(), vec![12, 56]);
    assert_eq!(table.get::<i32>("cd").unwrap().to_vec(), vec![34, 78]);
    let mut other = FWFReader::new();
    other.read("h;k|1;2", vec![("line_terminator", "|"), ("delimiter", ";")]);
    let t = other.to_dataframe(parse_float).unwrap();
    assert_eq!(t.get::<i32>("k").unwrap().to_vec(), vec![2]);
}

#[test]
fn text_from_the_clipboard_is_read() {
    let df = read_clipboard("a\tb\n1\t2", "\t", None, parse_float).unwrap();
    assert_eq!(df.get::<i32>("a").unwrap().to_vec(), vec![1]);
    let mut clip = ClipReader::new();
    assert_eq!(clip.data(), "");
    let t = clip.read("x y\n5 6\n", " ", None, parse_float).unwrap();
    assert_eq!(t.get::<i32>("y").unwrap().to_vec(), vec![6]);
    assert_eq!(clip.data(), "x y\n5 6\n");
}

#[test]
fn white_space_is_what_unicode_says() {
    for code in 0u32..=0x10ffff {
        if let Some(c) = char::from_u32(code) {
            assert_eq!(is_white_space(c), c.is_whitespace(), "U+{:04X}", code);
        }
    }
}

#[test]
fn names_of_columns_are_checked_before_anything_is_read() {
    assert!(check_names(&None).is_ok());
    assert!(check_names(&Some(vec![("names", "a,b,c")])).is_ok());
    assert_eq!(check_names(&Some(vec![("names", "a,b,a")])), Err(Errors::NameError));
    assert_eq!(check_names(&Some(vec![("sep", ";"), ("names", "x,x")])), Err(Errors::NameError));
    assert!(check_names(&Some(vec![("names", "x,x"), ("names", "x,y")])).is_ok());
    assert_eq!(Errors::NameError.message(), "Duplicate names are not allowed.");
}
