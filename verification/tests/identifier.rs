use arxiv::identifier::{ArxivId, ArxivIdError};

#[test]
fn parse_arxiv_empty() {
    assert_eq!(ArxivId::from_str(""), Err(ArxivIdError::Syntax));
}

#[test]
fn parse_arxiv_without_version() {
    assert_eq!(
        ArxivId::from_str("arXiv:1501.00001"),
        Ok(ArxivId::new_latest(2015, 1, String::from("00001")))
    );
}

#[test]
fn parse_arxiv_with_version() {
    assert_eq!(
        ArxivId::from_str("arXiv:9912.12345v2"),
        Ok(ArxivId::new_raw(2099, 12, String::from("12345"), Some(2)))
    )
}

#[test]
fn arxiv_as_string_number4digits() {
    assert_eq!(
        ArxivId::new_latest(2014, 1, String::from("7878")).to_string(),
        String::from("arXiv:1401.7878")
    );
    assert_eq!(
        ArxivId::new_latest(2014, 12, String::from("7878")).to_string(),
        String::from("arXiv:1412.7878")
    );
}

#[test]
fn arxiv_as_string_number5digits() {
    assert_eq!(
        ArxivId::new_latest(2014, 1, String::from("00008")).to_string(),
        String::from("arXiv:1401.00008")
    );
    assert_eq!(
        ArxivId::new_latest(2014, 12, String::from("00008")).to_string(),
        String::from("arXiv:1412.00008")
    );
}

#[test]
fn parse_arxiv_invalid_year() {
    assert_eq!(
        ArxivId::try_latest(2006, 1, String::from("00001")),
        Err(ArxivIdError::InvalidYear)
    );
}

#[test]
fn parse_arxiv_invalid_month() {
    assert_eq!(
        ArxivId::try_latest(2007, u8::MAX, String::from("00001")),
        Err(ArxivIdError::InvalidMonth)
    )
}

#[test]
fn parse_arxiv_invalid_id() {
    assert_eq!(
        ArxivId::try_latest(2007, 11, String::new()),
        Err(ArxivIdError::InvalidId)
    )
}
