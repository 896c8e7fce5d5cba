use funcfmt::{Error, FormatPiece, Formatter};

type Cb = fn(&String) -> Option<String>;

#[test]
fn error_from_fmt_error() {
    assert_eq!(Error::from(std::fmt::Error), Error::Write(std::fmt::Error));
}

#[test]
fn error_display() {
    assert_eq!(
        Error::Write(std::fmt::Error).message(),
        "std::fmt::Write error"
    );
}

#[test]
fn error_messages_by_variant() {
    assert_eq!(
        Error::UnknownKey("baz".to_string()).message(),
        "unknown key 'baz'"
    );
    assert_eq!(
        Error::NoData("nodata".to_string()).message(),
        "no data for key 'nodata'"
    );
    assert_eq!(
        Error::ImbalancedBrackets.message(),
        "imbalanced brackets in template"
    );
    assert_eq!(Error::Overflow.message(), "integer overflow/underflow");
}

#[test]
fn error_equality_by_variant_and_key() {
    assert_eq!(
        Error::UnknownKey("a".to_string()),
        Error::UnknownKey("a".to_string())
    );
    assert_ne!(
        Error::UnknownKey("a".to_string()),
        Error::UnknownKey("b".to_string())
    );
    assert_ne!(
        Error::UnknownKey("a".to_string()),
        Error::NoData("a".to_string())
    );
    assert_eq!(Error::ImbalancedBrackets, Error::ImbalancedBrackets);
    assert_ne!(Error::ImbalancedBrackets, Error::Overflow);
}

#[test]
fn formatter_eq_based_on_key_only() {
    let c1: Cb = |e| Some(e.to_string());
    let c2: Cb = |e| Some(e.to_string());

    let f1 = Formatter {
        key: "foo".to_string(),
        cb: c1,
    };
    let f2 = Formatter {
        key: "foo".to_string(),
        cb: c2,
    };
    let b1 = Formatter {
        key: "bar".to_string(),
        cb: c1,
    };

    assert_eq!(f1, f2);
    assert_ne!(f1, b1);
}

#[test]
fn formatter_debug() {
    let c1: Cb = |e| Some(e.to_string());
    let f1 = Formatter {
        key: "foo".to_string(),
        cb: c1,
    };
    assert_eq!(f1.debug_string(), "Formatter(key: foo)");
}

#[test]
fn piece_equality_by_model() {
    let c1: Cb = |e| Some(e.to_string());
    let c2: Cb = |_| None;
    let lit_a: FormatPiece<Cb> = FormatPiece::Char('a');
    let lit_a2: FormatPiece<Cb> = FormatPiece::Char('a');
    let lit_b: FormatPiece<Cb> = FormatPiece::Char('b');
    let fmt_foo = FormatPiece::Formatter(Formatter {
        key: "foo".to_string(),
        cb: c1,
    });
    let fmt_foo2 = FormatPiece::Formatter(Formatter {
        key: "foo".to_string(),
        cb: c2,
    });
    let fmt_bar = FormatPiece::Formatter(Formatter {
        key: "bar".to_string(),
        cb: c1,
    });
    assert_eq!(lit_a, lit_a2);
    assert_ne!(lit_a, lit_b);
    assert_eq!(fmt_foo, fmt_foo2);
    assert_ne!(fmt_foo, fmt_bar);
    assert_ne!(lit_a, fmt_foo);
}
