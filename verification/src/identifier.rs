//! Article identifiers such as `arXiv:1501.00001v2`.
use vstd::prelude::*;
use vstd::utf8::is_ascii_chars;
use crate::decimal::{
    decimal, decimal_padded, decimal_padded_string, decimal_string, digits_value, is_digit,
    lemma_decimal_padded_value, lemma_decimal_value, parse_unsigned, unsigned_digits,
    unsigned_value, unsigned_value_up_to,
};
use crate::text::{
    byte_len, chars_of, free_of, lemma_ascii_byte_len, lemma_first_index_from,
    lemma_split_in_two_joined, lemma_split_once_joined, lemma_split_once_none, split_at_first,
    split_at_only, split_in_two, split_once, str_eq,
};

verus! {

/// Why an identifier was refused.
#[derive(Debug, Clone, Copy, PartialEq, Eq, Structural)]
pub enum ArxivIdError {
    /// The text does not have the shape `arXiv:YYMM.number{vV}`.
    Syntax,
    /// The month lies outside of 1 to 12.
    InvalidMonth,
    /// The year lies outside of 2007 to 2099.
    InvalidYear,
    /// The number does not have four or five digits.
    InvalidId,
}

impl ArxivIdError {
    /// The sentence that describes the error.
    pub open spec fn message(self) -> Seq<char> {
        match self {
            ArxivIdError::Syntax =>
                "There was a syntax error; an ArXiv identifier must conform to the schema of arXiv:YYMM.number{vV}."@,
            ArxivIdError::InvalidMonth => "A valid month must be between 1 and 12."@,
            ArxivIdError::InvalidYear => "A valid year must be be between 2007 and 2099."@,
            ArxivIdError::InvalidId => "A valid identifier must be between 1 and 99999."@,
        }
    }

    /// The sentence that describes the error.
    pub fn to_string(&self) -> (r: String)
        ensures
            r@ == self.message(),
    {
        String::from_str(
            match self {
                ArxivIdError::Syntax =>
                    "There was a syntax error; an ArXiv identifier must conform to the schema of arXiv:YYMM.number{vV}.",
                ArxivIdError::InvalidMonth => "A valid month must be between 1 and 12.",
                ArxivIdError::InvalidYear => "A valid year must be be between 2007 and 2099.",
                ArxivIdError::InvalidId => "A valid identifier must be between 1 and 99999.",
            },
        )
    }
}

/// The first failing check on the parts of an identifier, in the order year, month, number.
pub open spec fn validate(year: int, month: int, number: Seq<char>) -> Result<(), ArxivIdError> {
    if !(ArxivId::MIN_YEAR <= year <= ArxivId::MAX_YEAR) {
        Err(ArxivIdError::InvalidYear)
    } else if !(ArxivId::MIN_MONTH <= month <= ArxivId::MAX_MONTH) {
        Err(ArxivIdError::InvalidMonth)
    } else if !(4 <= byte_len(number) <= 5) {
        Err(ArxivIdError::InvalidId)
    } else {
        Ok(())
    }
}

/// What an identifier holds.
pub struct IdView {
    pub year: u16,
    pub month: u8,
    pub number: Seq<char>,
    pub version: Option<u8>,
}

impl IdView {
    /// Year, month and number pass every check.
    pub open spec fn wf(self) -> bool {
        validate(self.year as int, self.month as int, self.number) is Ok
    }

    /// The year and the month as the text writes them: the last two digits of the
    /// year, then the month in two digits.
    pub open spec fn date_text(self) -> Seq<char> {
        decimal_padded((self.year % 100) as nat) + decimal_padded(self.month as nat)
    }

    /// The version as the text writes it: a `v` and the version in decimal, or nothing
    /// where there is no version.
    pub open spec fn version_text(self) -> Seq<char> {
        match self.version {
            Some(v) => seq!['v'] + decimal(v as nat),
            None => Seq::<char>::empty(),
        }
    }

    /// What the text writes behind the dot: the number as it is stored, then the version.
    pub open spec fn tail_text(self) -> Seq<char> {
        self.number + self.version_text()
    }

    /// What the text writes behind the colon: year and month, a dot, number and version.
    pub open spec fn body_text(self) -> Seq<char> {
        self.date_text() + seq!['.'] + self.tail_text()
    }

    /// The text of the identifier.
    pub open spec fn text(self) -> Seq<char> {
        "arXiv:"@ + self.body_text()
    }
}

/// The number and the version in the text behind the dot. The number ends at the
/// first `v`; all that follows that `v` is the version, if it writes a number up to
/// 255. Without a `v`, or with anything else behind it, there is no version.
pub open spec fn number_and_version(s: Seq<char>) -> (Seq<char>, Option<u8>) {
    match split_once(s, 'v') {
        None => (s, None),
        Some((number, rest)) => match unsigned_value_up_to(rest, 255) {
            Some(n) => (number, Some(n as u8)),
            None => (number, None),
        },
    }
}

/// The identifier that a text denotes, or the reason why it denotes none.
pub open spec fn parse_id(s: Seq<char>) -> Result<IdView, ArxivIdError> {
    match split_in_two(s, ':') {
        Some((scheme, body)) => if scheme != "arXiv"@ {
            Err(ArxivIdError::Syntax)
        } else {
            match split_in_two(body, '.') {
                Some((date, tail)) => if date.len() < 4 {
                    Err(ArxivIdError::Syntax)
                } else {
                    match (
                        unsigned_value(date.subrange(0, 2)),
                        unsigned_value(date.subrange(2, 4)),
                    ) {
                        (Some(year), Some(month)) => {
                            let (number, version) = number_and_version(tail);
                            match validate(2000 + year as int, month as int, number) {
                                Ok(_) => Ok(
                                    IdView {
                                        year: (2000 + year) as u16,
                                        month: month as u8,
                                        number,
                                        version,
                                    },
                                ),
                                Err(e) => Err(e),
                            }
                        },
                        _ => Err(ArxivIdError::Syntax),
                    }
                },
                None => Err(ArxivIdError::Syntax),
            }
        },
        None => Err(ArxivIdError::Syntax),
    }
}

/// An identifier, or the reason why there is none.
pub type ArxivIdResult = Result<ArxivId, ArxivIdError>;

/// A unique identifier for articles published on arXiv.org.
#[derive(Debug, PartialEq, Eq)]
pub struct ArxivId {
    pub year: u16,
    pub month: u8,
    pub number: String,
    pub version: Option<u8>,
}

impl View for ArxivId {
    type V = IdView;

    open spec fn view(&self) -> IdView {
        IdView { year: self.year, month: self.month, number: self.number@, version: self.version }
    }
}

impl Clone for ArxivId {
    fn clone(&self) -> (r: Self)
        ensures
            r@ == self@,
    {
        Self {
            year: self.year,
            month: self.month,
            number: self.number.clone(),
            version: self.version,
        }
    }
}

impl ArxivId {
    /// The first year that the identifier scheme covers.
    pub const MIN_YEAR: u16 = 2007;

    /// The last year that the identifier scheme covers.
    pub const MAX_YEAR: u16 = 2099;

    /// The first month of a year.
    pub const MIN_MONTH: u8 = 1;

    /// The last month of a year.
    pub const MAX_MONTH: u8 = 12;

    /// Composes an identifier from parts that the caller knows to be valid; nothing is checked.
    pub fn new_raw(year: u16, month: u8, id: String, version: Option<u8>) -> (r: Self)
        ensures
            r@ == (IdView { year, month, number: id@, version }),
    {
        Self { year, month, number: id, version }
    }

    /// Composes an identifier of the latest version from parts that the caller knows to be
    /// valid; nothing is checked.
    pub fn new_latest(year: u16, month: u8, id: String) -> (r: Self)
        ensures
            r@ == (IdView { year, month, number: id@, version: None }),
    {
        Self::new_raw(year, month, id, None)
    }

    /// Composes an identifier after checking the year, then the month, then the length of
    /// the number; the first check that fails gives the error.
    pub fn try_new(year: u16, month: u8, id: String, version: Option<u8>) -> (r: Result<
        Self,
        ArxivIdError,
    >)
        ensures
            match r {
                Ok(a) => validate(year as int, month as int, id@) is Ok && a@ == (IdView {
                    year,
                    month,
                    number: id@,
                    version,
                }),
                Err(e) => validate(year as int, month as int, id@) == Err::<(), ArxivIdError>(e),
            },
    {
        if year < Self::MIN_YEAR || year > Self::MAX_YEAR {
            return Err(ArxivIdError::InvalidYear);
        }
        if month < Self::MIN_MONTH || month > Self::MAX_MONTH {
            return Err(ArxivIdError::InvalidMonth);
        }
        let len = id.as_str().as_bytes().len();
        if len < 4 || len > 5 {
            return Err(ArxivIdError::InvalidId);
        }
        Ok(Self::new_raw(year, month, id, version))
    }

    /// Composes an identifier of the latest version after the checks of `try_new`.
    pub fn try_latest(year: u16, month: u8, id: String) -> (r: Result<Self, ArxivIdError>)
        ensures
            match r {
                Ok(a) => validate(year as int, month as int, id@) is Ok && a@ == (IdView {
                    year,
                    month,
                    number: id@,
                    version: None,
                }),
                Err(e) => validate(year as int, month as int, id@) == Err::<(), ArxivIdError>(e),
            },
    {
        Self::try_new(year, month, id, None)
    }

    /// Whether the identifier refers to the most recent version of the article.
    pub fn is_latest(&self) -> (r: bool)
        ensures
            r == (self@.version is None),
    {
        self.version.is_none()
    }

    /// Sets the version of the article.
    pub fn set_version(&mut self, version: u8)
        ensures
            final(self)@ == (IdView { version: Some(version), ..old(self)@ }),
    {
        self.version = Some(version);
    }

    /// Makes the identifier refer to the latest version of the article.
    pub fn set_latest(&mut self)
        ensures
            final(self)@ == (IdView { version: None, ..old(self)@ }),
    {
        self.version = None;
    }

    /// The text of the identifier, such as `arXiv:1501.00001` or `arXiv:1501.00001v2`.
    pub fn to_string(&self) -> (r: String)
        ensures
            r@ == self@.text(),
    {
        proof {
            reveal_strlit(".");
            reveal_strlit("v");
            assert("."@ =~= seq!['.']);
            assert("v"@ =~= seq!['v']);
        }
        let mut out = String::from_str("arXiv:");
        out.append(decimal_padded_string((self.year % 100) as u32).as_str());
        out.append(decimal_padded_string(self.month as u32).as_str());
        out.append(".");
        out.append(self.number.as_str());
        match self.version {
            Some(v) => {
                out.append("v");
                out.append(decimal_string(v as u32).as_str());
            },
            None => {},
        }
        assert(out@ =~= self@.text());
        out
    }

    /// Reads an identifier from its text.
    pub fn from_str(value: &str) -> (r: Result<Self, ArxivIdError>)
        ensures
            match r {
                Ok(a) => parse_id(value@) == Ok::<IdView, ArxivIdError>(a@) && a@.wf(),
                Err(e) => parse_id(value@) == Err::<IdView, ArxivIdError>(e),
            },
    {
        let (scheme, body) = match split_at_only(value, ':') {
            Some(parts) => parts,
            None => {
                return Err(ArxivIdError::Syntax);
            },
        };
        if !str_eq(scheme, "arXiv") {
            return Err(ArxivIdError::Syntax);
        }
        let (date, tail) = match split_at_only(body, '.') {
            Some(parts) => parts,
            None => {
                return Err(ArxivIdError::Syntax);
            },
        };
        let d = chars_of(date);
        if d.len() < 4 {
            return Err(ArxivIdError::Syntax);
        }
        proof {
            lemma_two_characters_value(date@.subrange(0, 2));
            lemma_two_characters_value(date@.subrange(2, 4));
        }
        let year = match parse_unsigned(&d, 0, 2, 99) {
            Some(year) => year,
            None => {
                return Err(ArxivIdError::Syntax);
            },
        };
        let month = match parse_unsigned(&d, 2, 4, 99) {
            Some(month) => month,
            None => {
                return Err(ArxivIdError::Syntax);
            },
        };
        let (number, version) = parse_numbervv(tail);
        Self::try_new((year + 2000) as u16, month as u8, number, version)
    }
}

/// Two characters write a number below one hundred, if they write one.
pub proof fn lemma_two_characters_value(s: Seq<char>)
    requires
        s.len() == 2,
    ensures
        unsigned_value(s) matches Some(n) ==> n <= 99,
        unsigned_value_up_to(s, 99) == unsigned_value(s),
{
    reveal_with_fuel(digits_value, 3);
    if unsigned_value(s) is Some {
        let digits = unsigned_digits(s);
        assert(forall|k: int| 0 <= k < digits.len() ==> is_digit(digits[k]));
        if digits.len() == 2 {
            assert(digits.drop_last().last() == digits[0]);
            assert(digits.last() == digits[1]);
        } else {
            assert(digits.last() == digits[0]);
        }
    }
}

/// Reads the text behind the dot of an identifier: the number, and the version if
/// all that follows the number's `v` writes one.
pub fn parse_numbervv(s: &str) -> (r: (String, Option<u8>))
    ensures
        (r.0@, r.1) == number_and_version(s@),
{
    let (number, rest) = match split_at_first(s, 'v') {
        Some(parts) => parts,
        None => {
            return (String::from_str(s), None);
        },
    };
    let d = chars_of(rest);
    assert(d@.subrange(0, d.len() as int) =~= rest@);
    let version = match parse_unsigned(&d, 0, d.len(), 255) {
        Some(n) => Some(n as u8),
        None => None,
    };
    (String::from_str(number), version)
}

/// The checks accept the years from 2007 to 2099, the months from 1 to 12 and the
/// numbers of four or five bytes, and nothing else; of the checks that fail, the
/// first in the order year, month, number names the error.
pub proof fn lemma_validate_ranges(year: int, month: int, number: Seq<char>)
    ensures
        validate(year, month, number) is Ok <==> 2007 <= year <= 2099 && 1 <= month <= 12 && 4
            <= byte_len(number) <= 5,
        validate(year, month, number) == Err::<(), ArxivIdError>(ArxivIdError::InvalidYear)
            <==> year < 2007 || year > 2099,
        validate(year, month, number) == Err::<(), ArxivIdError>(ArxivIdError::InvalidMonth)
            <==> 2007 <= year <= 2099 && (month < 1 || month > 12),
        validate(year, month, number) == Err::<(), ArxivIdError>(ArxivIdError::InvalidId)
            <==> 2007 <= year <= 2099 && 1 <= month <= 12 && (byte_len(number) < 4 || byte_len(
            number,
        ) > 5),
        validate(year, month, number) != Err::<(), ArxivIdError>(ArxivIdError::Syntax),
{
}

/// A number written in ASCII, as every digit is, passes the check of its length
/// if and only if it has four or five characters.
pub proof fn lemma_validate_ascii_number(year: int, month: int, number: Seq<char>)
    requires
        2007 <= year <= 2099,
        1 <= month <= 12,
        is_ascii_chars(number),
    ensures
        validate(year, month, number) is Ok <==> number.len() == 4 || number.len() == 5,
        validate(year, month, number) is Err ==> validate(year, month, number) == Err::<
            (),
            ArxivIdError,
        >(ArxivIdError::InvalidId),
{
    lemma_ascii_byte_len(number);
}

/// The version as the text writes it holds a `v` and digits only, and behind a number
/// without a `v` it is read as that version again.
pub proof fn lemma_version_text(id: IdView)
    ensures
        forall|k: int|
            0 <= k < id.version_text().len() ==> is_digit(#[trigger] id.version_text()[k])
                || id.version_text()[k] == 'v',
        free_of(id.number, 'v') ==> number_and_version(id.tail_text()) == (id.number, id.version),
{
    match id.version {
        Some(v) => {
            let digits = decimal(v as nat);
            lemma_decimal_value(v as nat);
            assert forall|k: int| 0 <= k < id.version_text().len() implies is_digit(
                #[trigger] id.version_text()[k],
            ) || id.version_text()[k] == 'v' by {
                if k > 0 {
                    assert(id.version_text()[k] == digits[k - 1]);
                }
            }
            if free_of(id.number, 'v') {
                assert(id.tail_text() =~= id.number + seq!['v'] + digits);
                lemma_split_once_joined(id.number, digits, 'v');
                assert(is_digit(digits[0]));
                assert(unsigned_digits(digits) == digits);
            }
        },
        None => {
            assert(id.tail_text() =~= id.number);
            lemma_split_once_none(id.number, 'v');
        },
    }
}

/// The shape of the text of a valid identifier: `arXiv`, a colon, four digits that
/// write the year and the month, a dot, the number and the version. A character that
/// is no digit and none of `a`, `r`, `X`, `i`, `v`, `:` and `.` is in the text only
/// if it is in the number.
proof fn lemma_text_shape(id: IdView)
    requires
        id.wf(),
    ensures
        id.text() == "arXiv"@ + seq![':'] + id.body_text(),
        free_of("arXiv"@, ':'),
        id.date_text().len() == 4,
        free_of(id.date_text(), ':'),
        free_of(id.date_text(), '.'),
        unsigned_value(id.date_text().subrange(0, 2)) == Some((id.year - 2000) as nat),
        unsigned_value(id.date_text().subrange(2, 4)) == Some(id.month as nat),
        free_of(id.number, '.') ==> free_of(id.tail_text(), '.'),
        free_of(id.number, ':') ==> free_of(id.body_text(), ':'),
        free_of(id.number, ' ') ==> free_of(id.text(), ' '),
{
    reveal_strlit("arXiv");
    reveal_strlit("arXiv:");
    let yy = decimal_padded((id.year % 100) as nat);
    let mm = decimal_padded(id.month as nat);
    let date = id.date_text();
    let tail = id.tail_text();
    let body = id.body_text();
    let n = id.number.len() as int;
    lemma_decimal_padded_value((id.year % 100) as nat);
    lemma_decimal_padded_value(id.month as nat);
    lemma_version_text(id);
    assert(id.text() =~= "arXiv"@ + seq![':'] + body);
    assert(date.subrange(0, 2) =~= yy);
    assert(date.subrange(2, 4) =~= mm);
    assert forall|k: int| 0 <= k < date.len() implies is_digit(date[k]) by {
        if k < 2 {
            assert(date[k] == yy[k]);
        } else {
            assert(date[k] == mm[k - 2]);
        }
    }
    assert forall|k: int| n <= k < tail.len() implies is_digit(tail[k]) || tail[k] == 'v' by {
        assert(tail[k] == id.version_text()[k - n]);
    }
    assert forall|k: int| 0 <= k < n implies tail[k] == id.number[k] by {}
    assert forall|k: int| 0 <= k < body.len() implies body[k] == if k < 4 {
        date[k]
    } else if k == 4 {
        '.'
    } else {
        tail[k - 5]
    } by {}
    assert forall|k: int| 6 <= k < id.text().len() implies id.text()[k] == body[k - 6] by {}
}

/// Reading the text of a valid identifier gives the identifier back: its year, its
/// month, every character of its number, and its version or the absence of one. The
/// number must hold none of the characters that delimit the parts.
pub proof fn lemma_id_roundtrip(id: IdView)
    requires
        id.wf(),
        free_of(id.number, ':'),
        free_of(id.number, '.'),
        free_of(id.number, 'v'),
    ensures
        parse_id(id.text()) == Ok::<IdView, ArxivIdError>(id),
{
    lemma_text_shape(id);
    lemma_version_text(id);
    lemma_split_in_two_joined("arXiv"@, id.body_text(), ':');
    lemma_split_in_two_joined(id.date_text(), id.tail_text(), '.');
}

/// The text of a valid identifier holds no space unless its number does.
pub proof fn lemma_id_text_spaceless(id: IdView)
    requires
        id.wf(),
        free_of(id.number, ' '),
    ensures
        free_of(id.text(), ' '),
{
    lemma_text_shape(id);
}

/// A number that holds one of the delimiters `:`, `.` and `v` is not read back from
/// the text of its identifier.
pub proof fn lemma_id_roundtrip_needs_plain_number(id: IdView)
    requires
        id.wf(),
        !free_of(id.number, ':') || !free_of(id.number, '.') || !free_of(id.number, 'v'),
    ensures
        parse_id(id.text()) matches Ok(read) ==> read.number != id.number,
{
    let tail = id.tail_text();
    lemma_text_shape(id);
    lemma_split_once_joined("arXiv"@, id.body_text(), ':');
    lemma_split_once_joined(id.date_text(), tail, '.');
    if !free_of(id.number, ':') {
        let k = choose|k: int| 0 <= k < id.number.len() && id.number[k] == ':';
        assert(tail[k] == ':');
        assert(id.body_text()[k + 5] == ':');
    } else if !free_of(id.number, '.') {
        let k = choose|k: int| 0 <= k < id.number.len() && id.number[k] == '.';
        assert(tail[k] == '.');
    } else {
        let k = choose|k: int| 0 <= k < id.number.len() && id.number[k] == 'v';
        assert(tail[k] == 'v');
        lemma_split_once_none(tail, 'v');
        lemma_first_index_from(tail, 'v', 0);
        assert(number_and_version(tail).0.len() <= k);
    }
}

} // verus!
