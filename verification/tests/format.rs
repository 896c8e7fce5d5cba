use funcfmt::{Error, FormatMap, Render, ToFormatPieces};

type Cb = fn(&String) -> Option<String>;

fn formatters() -> FormatMap<Cb> {
    let mut f: FormatMap<Cb> = FormatMap::new();
    f.insert("foo".to_string(), (|e: &String| Some(format!("{e} foo {e}"))) as Cb);
    f.insert("bar".to_string(), (|e: &String| Some(format!("{e} bar {e}"))) as Cb);
    f.insert("nodata".to_string(), (|_: &String| None) as Cb);
    f
}

#[test]
fn unicode_ok() {
    let inp = String::from("bar");
    let fp = formatters().to_format_pieces("一{foo}二{bar}").unwrap();
    let fmt = fp.render(&inp);
    assert_eq!(fmt, Ok("一bar foo bar二bar bar bar".to_owned()));
}

#[test]
fn imbalance_open() {
    assert_eq!(
        formatters().to_format_pieces("一{f{oo}二{bar}"),
        Err(Error::ImbalancedBrackets)
    );
}

#[test]
fn imbalance_close() {
    assert_eq!(
        formatters().to_format_pieces("一{foo}}二{bar}"),
        Err(Error::ImbalancedBrackets)
    );
}

#[test]
fn imbalance_escaped() {
    let inp = String::from("bar");
    let fp = formatters().to_format_pieces("一{foo}二{{bar}}").unwrap();
    let fmt = fp.render(&inp);
    assert_eq!(fmt, Ok("一bar foo bar二{bar}".to_owned()));
}

#[test]
fn unknown_key() {
    assert_eq!(
        formatters().to_format_pieces("一{baz}二{bar}"),
        Err(Error::UnknownKey("baz".to_string()))
    );
}

#[test]
fn no_data() {
    let inp = String::from("bar");
    let fp = formatters().to_format_pieces("一{foo}二{nodata}").unwrap();
    assert_eq!(fp.render(&inp), Err(Error::NoData("nodata".to_string())));
}

#[test]
fn two_formatters_in_order() {
    let mut f: FormatMap<Cb> = FormatMap::new();
    f.insert("foo".to_string(), (|e: &String| Some(format!("{e} foo {e}"))) as Cb);
    f.insert("bar".to_string(), (|e: &String| Some(format!("{e} bar {e}"))) as Cb);
    let fp = f.to_format_pieces("X{foo}Y{bar}Z").unwrap();
    let data = String::from("Q");
    assert_eq!(fp.render(&data), Ok("XQ foo QYQ bar QZ".to_owned()));
}

#[test]
fn stray_close_after_placeholder() {
    assert_eq!(
        formatters().to_format_pieces("{foo}}"),
        Err(Error::ImbalancedBrackets)
    );
}

#[test]
fn unknown_key_alone() {
    assert_eq!(
        formatters().to_format_pieces("{baz}"),
        Err(Error::UnknownKey("baz".to_string()))
    );
}

#[test]
fn no_data_between_literals() {
    let fp = formatters().to_format_pieces("A{nodata}B").unwrap();
    let data = String::from("x");
    assert_eq!(fp.render(&data), Err(Error::NoData("nodata".to_string())));
}

#[test]
fn escaped_placeholder_with_empty_map() {
    let f: FormatMap<Cb> = FormatMap::new();
    let fp = f.to_format_pieces("{{literal}}").unwrap();
    let data = String::from("unused");
    assert_eq!(fp.render(&data), Ok("{literal}".to_owned()));
}

#[test]
fn nested_open_is_imbalanced() {
    assert_eq!(
        formatters().to_format_pieces("{f{oo}"),
        Err(Error::ImbalancedBrackets)
    );
}

#[test]
fn no_braces_is_identity() {
    let fp = formatters().to_format_pieces("hello world").unwrap();
    let data = String::from("ignored");
    assert_eq!(fp.render(&data), Ok("hello world".to_owned()));
}

#[test]
fn only_escaped_pairs_collapse() {
    let f: FormatMap<Cb> = FormatMap::new();
    let fp = f.to_format_pieces("{{}}}}{{").unwrap();
    let data = String::from("unused");
    assert_eq!(fp.render(&data), Ok("{}}{".to_owned()));
}

#[test]
fn empty_template() {
    let fp = formatters().to_format_pieces("").unwrap();
    let data = String::from("d");
    assert_eq!(fp.render(&data), Ok(String::new()));
}

#[test]
fn trailing_open_placeholder_is_dropped() {
    let fp = formatters().to_format_pieces("a{foo").unwrap();
    let data = String::from("d");
    assert_eq!(fp.render(&data), Ok("a".to_owned()));
}

#[test]
fn empty_key_looked_up() {
    let mut f: FormatMap<Cb> = FormatMap::new();
    f.insert(String::new(), (|_: &String| Some("empty".to_string())) as Cb);
    let fp = f.to_format_pieces("<{}>").unwrap();
    let data = String::from("d");
    assert_eq!(fp.render(&data), Ok("<empty>".to_owned()));
}

#[test]
fn empty_key_unknown() {
    assert_eq!(
        formatters().to_format_pieces("{}"),
        Err(Error::UnknownKey(String::new()))
    );
}

#[test]
fn insert_replaces_earlier_entry() {
    let mut f: FormatMap<Cb> = FormatMap::new();
    f.insert("k".to_string(), (|_: &String| Some("old".to_string())) as Cb);
    f.insert("k".to_string(), (|_: &String| Some("new".to_string())) as Cb);
    let fp = f.to_format_pieces("{k}").unwrap();
    let data = String::from("d");
    assert_eq!(fp.render(&data), Ok("new".to_owned()));
}

#[test]
fn render_is_repeatable() {
    let fp = formatters().to_format_pieces("{foo}-{bar}").unwrap();
    let d1 = String::from("a");
    let d2 = String::from("b");
    let first = fp.render(&d1);
    let other = fp.render(&d2);
    let again = fp.render(&d1);
    assert_eq!(first, Ok("a foo a-a bar a".to_owned()));
    assert_eq!(other, Ok("b foo b-b bar b".to_owned()));
    assert_eq!(first, again);
}

#[test]
fn multibyte_key_ok() {
    let mut f: FormatMap<Cb> = FormatMap::new();
    f.insert("日".to_string(), (|e: &String| Some(format!("<{e}>"))) as Cb);
    let fp = f.to_format_pieces("一{日}二").unwrap();
    let data = String::from("д");
    assert_eq!(fp.render(&data), Ok("一<д>二".to_owned()));
}
