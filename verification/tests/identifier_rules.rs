use arxiv::decimal::{decimal_padded_string, decimal_string, parse_unsigned};
use arxiv::identifier::{parse_numbervv, ArxivId, ArxivIdError};

fn number_of_length(n: usize) -> String {
    "0123456789".chars().take(n).collect()
}

#[test]
fn roundtrip_keeps_year_month_and_number() {
    for (year, month, number) in [
        (2007u16, 1u8, "0001"),
        (2015, 1, "00001"),
        (2014, 12, "7878"),
        (2099, 12, "99999"),
        (2020, 10, "0000"),
    ] {
        let id = ArxivId::try_latest(year, month, String::from(number)).unwrap();
        let text = id.to_string();
        assert_eq!(ArxivId::from_str(&text), Ok(id.clone()));
        assert_eq!(ArxivId::from_str(&text).unwrap().number, number);
    }
}

#[test]
fn roundtrip_keeps_the_version() {
    let id = ArxivId::try_new(2099, 12, String::from("12345"), Some(2)).unwrap();
    assert_eq!(id.to_string(), "arXiv:9912.12345v2");
    assert_eq!(
        ArxivId::from_str(&id.to_string()),
        Ok(ArxivId::new_raw(2099, 12, String::from("12345"), Some(2)))
    );
    for version in [None, Some(0u8), Some(1), Some(9), Some(10), Some(99), Some(100), Some(255)] {
        for number in ["0001", "00001"] {
            let id = ArxivId::try_new(2015, 1, String::from(number), version).unwrap();
            let read = ArxivId::from_str(&id.to_string()).unwrap();
            assert_eq!(read, id);
            assert_eq!(read.version, version);
            assert_eq!(read.number, number);
        }
    }
}

#[test]
fn text_writes_the_version() {
    let text = |version| ArxivId::new_raw(2015, 1, String::from("00001"), version).to_string();
    assert_eq!(text(None), "arXiv:1501.00001");
    assert_eq!(text(Some(0)), "arXiv:1501.00001v0");
    assert_eq!(text(Some(7)), "arXiv:1501.00001v7");
    assert_eq!(text(Some(12)), "arXiv:1501.00001v12");
    assert_eq!(text(Some(255)), "arXiv:1501.00001v255");
}

#[test]
fn roundtrip_fails_on_a_delimiter_in_the_number() {
    for number in ["12v4", "1.23", "1:23"] {
        for version in [None, Some(3u8)] {
            let id = ArxivId::try_new(2015, 1, String::from(number), version).unwrap();
            assert_ne!(ArxivId::from_str(&id.to_string()), Ok(id));
        }
    }
}

#[test]
fn year_range() {
    for year in [0u16, 1999, 2006, 2100, u16::MAX] {
        assert_eq!(
            ArxivId::try_new(year, 1, String::from("00001"), None),
            Err(ArxivIdError::InvalidYear)
        );
    }
    for year in [2007u16, 2050, 2099] {
        let id = ArxivId::try_new(year, 1, String::from("00001"), None).unwrap();
        assert_eq!(id.year, year);
    }
}

#[test]
fn month_range() {
    for month in [0u8, 13, 255] {
        assert_eq!(
            ArxivId::try_new(2007, month, String::from("00001"), None),
            Err(ArxivIdError::InvalidMonth)
        );
    }
    for month in [1u8, 6, 12] {
        let id = ArxivId::try_new(2007, month, String::from("00001"), None).unwrap();
        assert_eq!(id.month, month);
    }
}

#[test]
fn number_length() {
    for n in [0usize, 1, 2, 3, 6, 7, 10] {
        assert_eq!(
            ArxivId::try_new(2007, 1, number_of_length(n), Some(1)),
            Err(ArxivIdError::InvalidId)
        );
    }
    for n in [4usize, 5] {
        let id = ArxivId::try_new(2007, 1, number_of_length(n), Some(1)).unwrap();
        assert_eq!(id.number, number_of_length(n));
        assert_eq!(id.version, Some(1));
    }
}

#[test]
fn number_length_counts_bytes() {
    assert!(ArxivId::try_latest(2007, 1, String::from("\u{e9}\u{e9}")).is_ok());
    assert_eq!(
        ArxivId::try_latest(2007, 1, String::from("\u{e9}\u{e9}\u{e9}\u{e9}")),
        Err(ArxivIdError::InvalidId)
    );
}

#[test]
fn first_failing_check_wins() {
    assert_eq!(ArxivId::try_latest(2006, 13, String::new()), Err(ArxivIdError::InvalidYear));
    assert_eq!(ArxivId::try_latest(2007, 13, String::new()), Err(ArxivIdError::InvalidMonth));
    assert_eq!(ArxivId::try_latest(2007, 12, String::new()), Err(ArxivIdError::InvalidId));
}

#[test]
fn raw_constructors_check_nothing() {
    let id = ArxivId::new_raw(1, 99, String::from("x"), Some(7));
    assert_eq!((id.year, id.month, id.number.as_str(), id.version), (1, 99, "x", Some(7)));
    let id = ArxivId::new_latest(1, 99, String::from("x"));
    assert_eq!(id.version, None);
    assert!(id.is_latest());
}

#[test]
fn version_setters() {
    let mut id = ArxivId::from_str("arXiv:2001.00001").unwrap();
    assert!(id.is_latest());
    id.set_version(3);
    assert_eq!(id.version, Some(3));
    assert!(!id.is_latest());
    assert_eq!((id.year, id.month, id.number.as_str()), (2020, 1, "00001"));
    id.set_latest();
    assert_eq!(id.version, None);
    assert_eq!(id, ArxivId::new_latest(2020, 1, String::from("00001")));
}

#[test]
fn parse_with_version_fields() {
    let id = ArxivId::from_str("arXiv:9912.12345v2").unwrap();
    assert_eq!(id.year, 2099);
    assert_eq!(id.month, 12);
    assert_eq!(id.number, "12345");
    assert_eq!(id.version, Some(2));
}

#[test]
fn parse_without_version_fields() {
    let id = ArxivId::from_str("arXiv:1501.00001").unwrap();
    assert_eq!(id.year, 2015);
    assert_eq!(id.month, 1);
    assert_eq!(id.number, "00001");
    assert_eq!(id.version, None);
    assert_eq!(id.to_string(), "arXiv:1501.00001");
}

#[test]
fn parse_syntax_errors() {
    for text in [
        "",
        "arXiv",
        "arXiv:",
        "1501.00001",
        "arxiv:1501.00001",
        "arXiv:1501.00001:",
        "arXiv:arXiv:1501.00001",
        "arXiv:150100001",
        "arXiv:1501.000.01",
        "arXiv:15.00001",
        "arXiv:150.00001",
        "arXiv:.00001",
        "arXiv:ab01.00001",
        "arXiv:15xy.00001",
        "arXiv:15-1.00001",
        " arXiv:1501.00001",
    ] {
        assert_eq!(ArxivId::from_str(text), Err(ArxivIdError::Syntax), "{}", text);
    }
}

#[test]
fn parse_range_errors() {
    assert_eq!(ArxivId::from_str("arXiv:0601.00001"), Err(ArxivIdError::InvalidYear));
    assert_eq!(ArxivId::from_str("arXiv:0012.00001"), Err(ArxivIdError::InvalidYear));
    assert_eq!(ArxivId::from_str("arXiv:1500.00001"), Err(ArxivIdError::InvalidMonth));
    assert_eq!(ArxivId::from_str("arXiv:1513.00001"), Err(ArxivIdError::InvalidMonth));
    assert_eq!(ArxivId::from_str("arXiv:1501.001"), Err(ArxivIdError::InvalidId));
    assert_eq!(ArxivId::from_str("arXiv:1501.000001"), Err(ArxivIdError::InvalidId));
    assert_eq!(ArxivId::from_str("arXiv:1501."), Err(ArxivIdError::InvalidId));
    assert_eq!(ArxivId::from_str("arXiv:1501.v1"), Err(ArxivIdError::InvalidId));
    assert_eq!(ArxivId::from_str("arXiv:0613.1"), Err(ArxivIdError::InvalidYear));
    assert_eq!(ArxivId::from_str("arXiv:0713.1"), Err(ArxivIdError::InvalidMonth));
}

#[test]
fn parse_boundaries() {
    assert_eq!(ArxivId::from_str("arXiv:0701.0001").unwrap().year, 2007);
    assert_eq!(ArxivId::from_str("arXiv:9912.0001").unwrap().year, 2099);
    assert_eq!(ArxivId::from_str("arXiv:0701.0001").unwrap().month, 1);
    assert_eq!(ArxivId::from_str("arXiv:0712.0001").unwrap().month, 12);
}

#[test]
fn parse_reads_the_first_four_characters_of_the_date() {
    assert_eq!(
        ArxivId::from_str("arXiv:15011.00001"),
        Ok(ArxivId::new_latest(2015, 1, String::from("00001")))
    );
    assert_eq!(
        ArxivId::from_str("arXiv:+912.00001"),
        Ok(ArxivId::new_latest(2009, 12, String::from("00001")))
    );
}

#[test]
fn unreadable_version_counts_as_absent() {
    assert_eq!(parse_numbervv("00001"), (String::from("00001"), None));
    assert_eq!(parse_numbervv("00001v2"), (String::from("00001"), Some(2)));
    assert_eq!(parse_numbervv("00001v"), (String::from("00001"), None));
    assert_eq!(parse_numbervv("00001vX"), (String::from("00001"), None));
    assert_eq!(parse_numbervv("00001v255"), (String::from("00001"), Some(255)));
    assert_eq!(parse_numbervv("00001v256"), (String::from("00001"), None));
    assert_eq!(parse_numbervv("00001v007"), (String::from("00001"), Some(7)));
    assert_eq!(parse_numbervv("00001v2v3"), (String::from("00001"), None));
    assert_eq!(parse_numbervv("12345v2v3"), (String::from("12345"), None));
    assert_eq!(parse_numbervv("00001v2v"), (String::from("00001"), None));
    assert_eq!(parse_numbervv("00001v2 "), (String::from("00001"), None));
    assert_eq!(parse_numbervv("00001v+2"), (String::from("00001"), Some(2)));
    assert_eq!(
        ArxivId::from_str("arXiv:1501.12345v2v3"),
        Ok(ArxivId::new_latest(2015, 1, String::from("12345")))
    );
    assert_eq!(parse_numbervv("00001vv3"), (String::from("00001"), None));
    assert_eq!(parse_numbervv("v3"), (String::new(), Some(3)));
    assert_eq!(parse_numbervv(""), (String::new(), None));
    assert_eq!(
        ArxivId::from_str("arXiv:1501.00001vX"),
        Ok(ArxivId::new_latest(2015, 1, String::from("00001")))
    );
}

#[test]
fn text_pads_year_and_month() {
    assert_eq!(ArxivId::new_latest(2007, 4, String::from("0001")).to_string(), "arXiv:0704.0001");
    assert_eq!(ArxivId::new_latest(2000, 1, String::from("0000")).to_string(), "arXiv:0001.0000");
    assert_eq!(ArxivId::new_latest(2099, 12, String::from("00000")).to_string(), "arXiv:9912.00000");
}

#[test]
fn error_messages() {
    assert_eq!(
        ArxivIdError::Syntax.to_string(),
        "There was a syntax error; an ArXiv identifier must conform to the schema of arXiv:YYMM.number{vV}."
    );
    assert_eq!(ArxivIdError::InvalidMonth.to_string(), "A valid month must be between 1 and 12.");
    assert_eq!(
        ArxivIdError::InvalidYear.to_string(),
        "A valid year must be be between 2007 and 2099."
    );
    assert_eq!(
        ArxivIdError::InvalidId.to_string(),
        "A valid identifier must be between 1 and 99999."
    );
}

#[test]
fn constants() {
    assert_eq!(ArxivId::MIN_YEAR, 2007);
    assert_eq!(ArxivId::MAX_YEAR, 2099);
    assert_eq!(ArxivId::MIN_MONTH, 1);
    assert_eq!(ArxivId::MAX_MONTH, 12);
}

#[test]
fn reading_decimal_numbers() {
    let chars = |s: &str| s.chars().collect::<Vec<char>>();
    assert_eq!(parse_unsigned(&chars("15"), 0, 2, 99), Some(15));
    assert_eq!(parse_unsigned(&chars("07"), 0, 2, 99), Some(7));
    assert_eq!(parse_unsigned(&chars("+7"), 0, 2, 99), Some(7));
    assert_eq!(parse_unsigned(&chars("+"), 0, 1, 99), None);
    assert_eq!(parse_unsigned(&chars("-7"), 0, 2, 99), None);
    assert_eq!(parse_unsigned(&chars("7+"), 0, 2, 99), None);
    assert_eq!(parse_unsigned(&chars(""), 0, 0, 99), None);
    assert_eq!(parse_unsigned(&chars("1501"), 2, 4, 99), Some(1));
    assert_eq!(parse_unsigned(&chars("1501"), 0, 4, 99), None);
    assert_eq!(parse_unsigned(&chars("1501"), 0, 4, 1501), Some(1501));
    assert_eq!(parse_unsigned(&chars("1501"), 0, 4, 1500), None);
    assert_eq!(parse_unsigned(&chars("65535"), 0, 5, 0xFFFF), Some(65535));
    assert_eq!(parse_unsigned(&chars("65536"), 0, 5, 0xFFFF), None);
    assert_eq!(parse_unsigned(&chars("99999999999999999999999"), 0, 23, 0xFFFF), None);
    assert_eq!(parse_unsigned(&chars("00000000000000000000042"), 0, 23, 0xFFFF), Some(42));
    assert_eq!(parse_unsigned(&chars("\u{663}"), 0, 1, 99), None);
    assert_eq!(parse_unsigned(&chars("4294967295"), 0, 10, u32::MAX), Some(u32::MAX));
    assert_eq!(parse_unsigned(&chars("4294967296"), 0, 10, u32::MAX), None);
    assert_eq!(parse_unsigned(&chars("0"), 0, 1, 0), Some(0));
    assert_eq!(parse_unsigned(&chars("1"), 0, 1, 0), None);
}

#[test]
fn writing_decimal_numbers() {
    assert_eq!(decimal_string(0), "0");
    assert_eq!(decimal_string(9), "9");
    assert_eq!(decimal_string(10), "10");
    assert_eq!(decimal_string(2011), "2011");
    assert_eq!(decimal_string(u32::MAX), "4294967295");
    assert_eq!(decimal_padded_string(0), "00");
    assert_eq!(decimal_padded_string(7), "07");
    assert_eq!(decimal_padded_string(12), "12");
    assert_eq!(decimal_padded_string(255), "255");
}
