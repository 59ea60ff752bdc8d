//! Calendar dates as they are printed on a stamp, such as `1 Jan 2000`.
use vstd::prelude::*;
use crate::decimal::{decimal, decimal_string};
use time::error::{Parse, ParseFromDescription, TryFromParsed};
use time::format_description::parse_borrowed;
use time::Date;

verus! {

/// The first year that a date can have.
pub const FIRST_YEAR: i32 = -9999;

/// The last year that a date can have.
pub const LAST_YEAR: i32 = 9999;

/// Whether `year` is a leap year of the proleptic Gregorian calendar.
pub open spec fn is_leap_year(year: int) -> bool {
    year % 4 == 0 && (year % 100 != 0 || year % 400 == 0)
}

/// The number of days of a month.
pub open spec fn days_in_month(year: int, month: int) -> int {
    if month == 2 {
        if is_leap_year(year) {
            29
        } else {
            28
        }
    } else if month == 4 || month == 6 || month == 9 || month == 11 {
        30
    } else {
        31
    }
}

/// What a date holds: a year, a month from 1 to 12 and a day of that month.
pub struct DateView {
    pub year: i32,
    pub month: u8,
    pub day: u8,
}

impl DateView {
    /// The day exists in the calendar.
    pub open spec fn wf(self) -> bool {
        &&& FIRST_YEAR <= self.year <= LAST_YEAR
        &&& 1 <= self.month <= 12
        &&& 1 <= self.day <= days_in_month(self.year as int, self.month as int)
    }

    /// The text of the date: the day without padding, the abbreviated month and the
    /// year, with one space between them.
    pub open spec fn text(self) -> Seq<char> {
        decimal(self.day as nat) + seq![' '] + month_abbr(self.month as int) + seq![' ']
            + year_text(self.year as int)
    }
}

/// The abbreviation that stands for a month on a stamp.
pub open spec fn month_abbr(month: int) -> Seq<char> {
    if month == 1 {
        "Jan"@
    } else if month == 2 {
        "Feb"@
    } else if month == 3 {
        "Mar"@
    } else if month == 4 {
        "Apr"@
    } else if month == 5 {
        "May"@
    } else if month == 6 {
        "June"@
    } else if month == 7 {
        "July"@
    } else if month == 8 {
        "Aug"@
    } else if month == 9 {
        "Sept"@
    } else if month == 10 {
        "Oct"@
    } else if month == 11 {
        "Nov"@
    } else {
        "Dec"@
    }
}

/// The decimal writing of a year, with a minus sign before a negative one.
pub open spec fn year_text(year: int) -> Seq<char> {
    if year < 0 {
        seq!['-'] + decimal((-year) as nat)
    } else {
        decimal(year as nat)
    }
}

/// A day of the proleptic Gregorian calendar.
#[derive(Debug, Clone, Copy, PartialEq, Eq)]
pub struct CalendarDate {
    year: i32,
    month: u8,
    day: u8,
}

impl View for CalendarDate {
    type V = DateView;

    closed spec fn view(&self) -> DateView {
        DateView { year: self.year, month: self.month, day: self.day }
    }
}

impl CalendarDate {
    #[verifier::type_invariant]
    spec fn inv(self) -> bool {
        self@.wf()
    }

    /// Composes a date if the day exists in the calendar.
    pub fn from_calendar_date(year: i32, month: u8, day: u8) -> (r: Option<Self>)
        ensures
            r is Some == (DateView { year, month, day }).wf(),
            r matches Some(d) ==> d@ == (DateView { year, month, day }),
    {
        if year < FIRST_YEAR || year > LAST_YEAR || month < 1 || month > 12 || day < 1 {
            return None;
        }
        let leap = year % 4 == 0 && (year % 100 != 0 || year % 400 == 0);
        let days: u8 = if month == 2 {
            if leap {
                29
            } else {
                28
            }
        } else if month == 4 || month == 6 || month == 9 || month == 11 {
            30
        } else {
            31
        };
        if day > days {
            return None;
        }
        Some(Self { year, month, day })
    }

    /// The year of the date.
    pub fn year(&self) -> (r: i32)
        ensures
            r == self@.year,
            self@.wf(),
    {
        proof {
            use_type_invariant(self);
        }
        self.year
    }

    /// The month of the date, from 1 to 12.
    pub fn month(&self) -> (r: u8)
        ensures
            r == self@.month,
            self@.wf(),
    {
        proof {
            use_type_invariant(self);
        }
        self.month
    }

    /// The day of the month, from 1 to 31.
    pub fn day(&self) -> (r: u8)
        ensures
            r == self@.day,
            self@.wf(),
    {
        proof {
            use_type_invariant(self);
        }
        self.day
    }

    /// The text of the date, such as `1 Jan 2000`.
    pub fn to_string(&self) -> (r: String)
        ensures
            r@ == self@.text(),
            self@.wf(),
    {
        proof {
            use_type_invariant(self);
            reveal_strlit(" ");
            reveal_strlit("-");
            assert(" "@ =~= seq![' ']);
            assert("-"@ =~= seq!['-']);
        }
        let mut out = decimal_string(self.day as u32);
        out.append(" ");
        out.append(month_as_abbr(self.month));
        out.append(" ");
        if self.year < 0 {
            out.append("-");
            out.append(decimal_string((-self.year) as u32).as_str());
        } else {
            out.append(decimal_string(self.year as u32).as_str());
        }
        assert(out@ =~= self@.text());
        out
    }
}

/// The abbreviation that stands for a month on a stamp.
pub fn month_as_abbr(month: u8) -> (r: &'static str)
    requires
        1 <= month <= 12,
    ensures
        r@ == month_abbr(month as int),
{
    match month {
        1 => "Jan",
        2 => "Feb",
        3 => "Mar",
        4 => "Apr",
        5 => "May",
        6 => "June",
        7 => "July",
        8 => "Aug",
        9 => "Sept",
        10 => "Oct",
        11 => "Nov",
        _ => "Dec",
    }
}

/// Why a text was refused as a date.
#[derive(Debug, Clone, Copy, PartialEq, Eq)]
pub enum DateParseError {
    /// A part of the date, named here, could not be read.
    InvalidComponent(&'static str),
    /// A space between two parts was missing.
    InvalidLiteral,
    /// Text was left behind the year.
    UnexpectedTrailingCharacters,
    /// Every part could be read, but the part named here lies outside of the calendar;
    /// the flag says whether other values of the other parts would have let it pass.
    ComponentRange(&'static str, bool),
    /// The parts that were read do not determine a date.
    InsufficientInformation,
    /// The layout that dates are read in was refused.
    InvalidLayout,
}

impl DateParseError {
    /// The sentence that describes the error.
    pub open spec fn message(self) -> Seq<char> {
        match self {
            DateParseError::InvalidComponent(name) => "the '"@ + name@
                + "' component could not be parsed"@,
            DateParseError::InvalidLiteral => "a character literal was not valid"@,
            DateParseError::UnexpectedTrailingCharacters =>
                "unexpected trailing characters; the end of input was expected"@,
            DateParseError::ComponentRange(name, _) => name@ + " was not in range"@,
            DateParseError::InsufficientInformation =>
                "the `Parsed` struct did not include enough information to construct the type"@,
            DateParseError::InvalidLayout => "the layout of the date is not valid"@,
        }
    }

    /// The sentence that describes the error.
    pub fn to_string(&self) -> (r: String)
        ensures
            r@ == self.message(),
    {
        match self {
            DateParseError::InvalidComponent(name) => {
                let mut out = String::from_str("the '");
                out.append(name);
                out.append("' component could not be parsed");
                out
            },
            DateParseError::InvalidLiteral => String::from_str("a character literal was not valid"),
            DateParseError::UnexpectedTrailingCharacters => String::from_str(
                "unexpected trailing characters; the end of input was expected",
            ),
            DateParseError::ComponentRange(name, _) => {
                let mut out = String::from_str(name);
                out.append(" was not in range");
                out
            },
            DateParseError::InsufficientInformation => String::from_str(
                "the `Parsed` struct did not include enough information to construct the type",
            ),
            DateParseError::InvalidLayout => String::from_str("the layout of the date is not valid"),
        }
    }
}

/// The layout of the date on a stamp: the day without padding, the month by its first
/// three letters, the year in four digits, with one space between them.
pub const DATE_LAYOUT: &'static str = "[day padding:none] [month repr:short] [year]";

/// What `time` makes of a text that is read as a date in a layout.
pub uninterp spec fn parsed_date(layout: Seq<char>, token: Seq<char>) -> Result<
    DateView,
    DateParseError,
>;

/// Reads `date_str` with `time::Date::parse`, in the layout that
/// `time::format_description::parse_borrowed` makes of `layout`.
///
/// Taken on trust: the outcome is decided by the two texts alone. The year, the month
/// and the day of a date that comes back are handed on as `time` gives them, and an
/// error as the variant of the same name with what `time` reports in it; a layout that
/// `time` refuses gives `InvalidLayout`.
#[verifier::external_body]
fn parse_date(layout: &str, date_str: &str) -> (r: Result<DateView, DateParseError>)
    ensures
        r == parsed_date(layout@, date_str@),
{
    let items = match parse_borrowed::<1>(layout) {
        Ok(items) => items,
        Err(_) => return Err(DateParseError::InvalidLayout),
    };
    match Date::parse(date_str, &items) {
        Ok(d) => Ok(DateView { year: d.year(), month: u8::from(d.month()), day: d.day() }),
        Err(Parse::TryFromParsed(TryFromParsed::ComponentRange(e))) =>
            Err(DateParseError::ComponentRange(e.name(), e.is_conditional())),
        Err(Parse::ParseFromDescription(ParseFromDescription::InvalidComponent(name))) =>
            Err(DateParseError::InvalidComponent(name)),
        Err(Parse::ParseFromDescription(ParseFromDescription::InvalidLiteral { .. })) =>
            Err(DateParseError::InvalidLiteral),
        Err(Parse::ParseFromDescription(_)) => Err(DateParseError::UnexpectedTrailingCharacters),
        Err(_) => Err(DateParseError::InsufficientInformation),
    }
}

/// The error for a year, a month and a day that are no day of the calendar: it names
/// the first of them that is out of range. Whether a day passes depends on the month.
pub open spec fn out_of_calendar(d: DateView) -> DateParseError {
    if !(FIRST_YEAR <= d.year <= LAST_YEAR) {
        DateParseError::ComponentRange("year", false)
    } else if !(1 <= d.month <= 12) {
        DateParseError::ComponentRange("month", false)
    } else {
        DateParseError::ComponentRange("day", true)
    }
}

/// What reading the text of a date gives: what `time` makes of it in the layout of the
/// stamp, where that is an error or a day of the calendar.
pub open spec fn read_date(token: Seq<char>) -> Result<DateView, DateParseError> {
    match parsed_date(DATE_LAYOUT@, token) {
        Ok(d) => if d.wf() {
            Ok(d)
        } else {
            Err(out_of_calendar(d))
        },
        Err(e) => Err(e),
    }
}

impl CalendarDate {
    /// Composes a date if the day exists in the calendar, and says which part is out
    /// of range if it does not.
    pub fn checked(d: DateView) -> (r: Result<Self, DateParseError>)
        ensures
            match r {
                Ok(date) => d.wf() && date@ == d,
                Err(e) => !d.wf() && e == out_of_calendar(d),
            },
    {
        match Self::from_calendar_date(d.year, d.month, d.day) {
            Some(date) => Ok(date),
            None => if d.year < FIRST_YEAR || d.year > LAST_YEAR {
                Err(DateParseError::ComponentRange("year", false))
            } else if d.month < 1 || d.month > 12 {
                Err(DateParseError::ComponentRange("month", false))
            } else {
                Err(DateParseError::ComponentRange("day", true))
            },
        }
    }

    /// Reads a date from its text.
    pub fn from_str(s: &str) -> (r: Result<Self, DateParseError>)
        ensures
            match r {
                Ok(d) => read_date(s@) == Ok::<DateView, DateParseError>(d@) && d@.wf(),
                Err(e) => read_date(s@) == Err::<DateView, DateParseError>(e),
            },
    {
        match parse_date(DATE_LAYOUT, s) {
            Ok(d) => Self::checked(d),
            Err(e) => Err(e),
        }
    }
}

} // verus!
