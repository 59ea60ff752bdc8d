//! Stamps as they are printed on the margin of an article, such as
//! `arXiv:2001.00001 [cs.LG] 1 Jan 2000`.
use vstd::prelude::*;
use crate::category::{
    lemma_category_roundtrip, lemma_category_text_chars, parse_category, ArxivCategoryId,
    CategoryView,
};
use crate::date::{read_date, CalendarDate, DateParseError, DateView};
use crate::decimal::{decimal, lemma_decimal_value};
use crate::identifier::{
    lemma_id_roundtrip, lemma_id_text_spaceless, parse_id, ArxivId, ArxivIdError, IdView,
};
use crate::text::{
    chars_of, free_of, lemma_split_once_joined, lemma_split_once_none, split_at_first, split_once,
};

verus! {

/// Why a stamp was refused.
#[derive(Debug, Clone, Copy, PartialEq, Eq)]
pub enum ArxivStampError {
    /// The identifier was refused, for the reason given.
    InvalidArxivId(ArxivIdError),
    /// The date was refused, for the reason given.
    InvalidDate(DateParseError),
    /// The brackets do not match, or no category stands between them.
    InvalidCategory,
    /// No space parts the identifier from the rest.
    NotEnoughComponents,
}

impl ArxivStampError {
    /// The sentence that describes the error, with the cause where there is one.
    pub open spec fn message(self) -> Seq<char> {
        match self {
            ArxivStampError::InvalidArxivId(e) => "Invalid arXiv ID: "@ + e.message(),
            ArxivStampError::InvalidDate(e) => "Invalid date: "@ + e.message(),
            ArxivStampError::InvalidCategory => "Invalid category"@,
            ArxivStampError::NotEnoughComponents => "Not enough components"@,
        }
    }

    /// The sentence that describes the error, with the cause where there is one.
    pub fn to_string(&self) -> (r: String)
        ensures
            r@ == self.message(),
    {
        match self {
            ArxivStampError::InvalidArxivId(e) => {
                let mut out = String::from_str("Invalid arXiv ID: ");
                out.append(e.to_string().as_str());
                out
            },
            ArxivStampError::InvalidDate(e) => {
                let mut out = String::from_str("Invalid date: ");
                out.append(e.to_string().as_str());
                out
            },
            ArxivStampError::InvalidCategory => String::from_str("Invalid category"),
            ArxivStampError::NotEnoughComponents => String::from_str("Not enough components"),
        }
    }
}

/// What a stamp holds.
pub struct StampView {
    pub id: IdView,
    pub category: Option<CategoryView>,
    pub submitted: DateView,
}

impl StampView {
    /// The category, if there is one, and the date are well formed.
    pub open spec fn wf(self) -> bool {
        &&& self.category matches Some(c) ==> c.wf()
        &&& self.submitted.wf()
    }

    /// The text of the stamp: the identifier, the category in brackets if there is
    /// one, and the date, with one space between them.
    pub open spec fn text(self) -> Seq<char> {
        let category = match self.category {
            Some(c) => seq![' ', '['] + c.text() + seq![']'],
            None => Seq::<char>::empty(),
        };
        self.id.text() + category + seq![' '] + self.submitted.text()
    }
}

/// Whether `s` starts with an opening and ends with a closing square bracket.
pub open spec fn is_bracketed(s: Seq<char>) -> bool {
    s.len() >= 2 && s.first() == '[' && s.last() == ']'
}

/// What stands between the first and the last character of `s`.
pub open spec fn interior(s: Seq<char>) -> Seq<char> {
    s.subrange(1, s.len() - 1)
}

/// The identifier and the category of a stamp, and the text that is left for the date.
/// The identifier ends at the first space. If a bracket follows, the category ends at
/// the next space; without such a space nothing is left for the date.
pub open spec fn parse_stamp_head(s: Seq<char>) -> Result<
    (IdView, Option<CategoryView>, Seq<char>),
    ArxivStampError,
> {
    match split_once(s, ' ') {
        None => Err(ArxivStampError::NotEnoughComponents),
        Some((id_token, rest)) => match parse_id(id_token) {
            Err(e) => Err(ArxivStampError::InvalidArxivId(e)),
            Ok(id) => if rest.len() > 0 && rest.first() == '[' {
                let (category_token, date_token) = match split_once(rest, ' ') {
                    Some(tokens) => tokens,
                    None => (rest, Seq::<char>::empty()),
                };
                if !is_bracketed(category_token) {
                    Err(ArxivStampError::InvalidCategory)
                } else {
                    match parse_category(interior(category_token)) {
                        Some(category) => Ok((id, Some(category), date_token)),
                        None => Err(ArxivStampError::InvalidCategory),
                    }
                }
            } else {
                Ok((id, None, rest))
            },
        },
    }
}

/// The stamp that an identifier, a category and the outcome of reading the date make.
pub open spec fn stamp_with_date(
    id: IdView,
    category: Option<CategoryView>,
    date: Result<DateView, DateParseError>,
) -> Result<StampView, ArxivStampError> {
    match date {
        Ok(submitted) => Ok(StampView { id, category, submitted }),
        Err(e) => Err(ArxivStampError::InvalidDate(e)),
    }
}

/// The stamp that a text denotes, or the reason why it denotes none. An error of the
/// identifier comes first, then one of the category, then one of the date.
pub open spec fn parse_stamp(s: Seq<char>) -> Result<StampView, ArxivStampError> {
    match parse_stamp_head(s) {
        Ok((id, category, date_token)) => stamp_with_date(id, category, read_date(date_token)),
        Err(e) => Err(e),
    }
}

/// What an optional category holds.
pub open spec fn category_view(category: Option<ArxivCategoryId>) -> Option<CategoryView> {
    match category {
        Some(c) => Some(c@),
        None => None,
    }
}

/// Whether `s` starts with an opening and ends with a closing square bracket; no
/// other kind of bracket counts.
pub fn brackets_match(s: &str) -> (r: bool)
    ensures
        r == is_bracketed(s@),
{
    let v = chars_of(s);
    v.len() >= 2 && v[0] == '[' && v[v.len() - 1] == ']'
}

/// The text between the brackets of `s`, if `s` has them.
pub fn parse_brackets(s: &str) -> (r: Result<String, ()>)
    ensures
        match r {
            Ok(inner) => is_bracketed(s@) && inner@ == interior(s@),
            Err(_) => !is_bracketed(s@),
        },
{
    if brackets_match(s) {
        let n = s.unicode_len();
        Ok(String::from_str(s.substring_char(1, n - 1)))
    } else {
        Err(())
    }
}

/// A stamp, or the reason why there is none.
pub type ArxivStampResult = Result<ArxivStamp, ArxivStampError>;

/// A stamp that is added onto the side of the PDF version of an article.
#[derive(Debug, PartialEq, Eq)]
pub struct ArxivStamp {
    id: ArxivId,
    category: Option<ArxivCategoryId>,
    submitted: CalendarDate,
}

impl View for ArxivStamp {
    type V = StampView;

    closed spec fn view(&self) -> StampView {
        StampView {
            id: self.id@,
            category: category_view(self.category),
            submitted: self.submitted@,
        }
    }
}

impl Clone for ArxivStamp {
    fn clone(&self) -> (r: Self)
        ensures
            r@ == self@,
    {
        let category = match &self.category {
            Some(c) => Some(c.clone()),
            None => None,
        };
        Self { id: self.id.clone(), category, submitted: self.submitted }
    }
}

impl ArxivStamp {
    /// Composes a stamp from its parts.
    pub fn new(id: ArxivId, category: Option<ArxivCategoryId>, submitted: CalendarDate) -> (r:
        Self)
        ensures
            r@ == (StampView { id: id@, category: category_view(category), submitted: submitted@ }),
    {
        Self { id, category, submitted }
    }

    /// The identifier of the stamp.
    pub fn id(&self) -> (r: &ArxivId)
        ensures
            r@ == self@.id,
    {
        &self.id
    }

    /// The category of the stamp, if it has one.
    pub fn category(&self) -> (r: Option<&ArxivCategoryId>)
        ensures
            match r {
                Some(c) => self@.category == Some(c@),
                None => self@.category is None,
            },
    {
        match &self.category {
            Some(c) => Some(c),
            None => None,
        }
    }

    /// The day on which the article was submitted.
    pub fn submitted(&self) -> (r: CalendarDate)
        ensures
            r@ == self@.submitted,
    {
        self.submitted
    }

    /// Reads the identifier and the category of a stamp, and hands back the text that
    /// is left for the date.
    pub fn parse_head<'a>(s: &'a str) -> (r: Result<
        (ArxivId, Option<ArxivCategoryId>, &'a str),
        ArxivStampError,
    >)
        ensures
            match r {
                Ok((id, category, date_token)) => parse_stamp_head(s@) == Ok::<
                    (IdView, Option<CategoryView>, Seq<char>),
                    ArxivStampError,
                >((id@, category_view(category), date_token@)),
                Err(e) => parse_stamp_head(s@) == Err::<
                    (IdView, Option<CategoryView>, Seq<char>),
                    ArxivStampError,
                >(e),
            },
    {
        let (id_token, rest) = match split_at_first(s, ' ') {
            Some(tokens) => tokens,
            None => {
                return Err(ArxivStampError::NotEnoughComponents);
            },
        };
        let id = match ArxivId::from_str(id_token) {
            Ok(id) => id,
            Err(e) => {
                return Err(ArxivStampError::InvalidArxivId(e));
            },
        };
        if rest.unicode_len() == 0 || rest.get_char(0) != '[' {
            return Ok((id, None, rest));
        }
        let (category_token, date_token) = match split_at_first(rest, ' ') {
            Some(tokens) => tokens,
            None => {
                proof {
                    reveal_strlit("");
                    assert(""@ =~= Seq::<char>::empty());
                }
                (rest, "")
            },
        };
        let inner = match parse_brackets(category_token) {
            Ok(inner) => inner,
            Err(_) => {
                return Err(ArxivStampError::InvalidCategory);
            },
        };
        match ArxivCategoryId::from_str(inner.as_str()) {
            Ok(category) => Ok((id, Some(category), date_token)),
            Err(_) => Err(ArxivStampError::InvalidCategory),
        }
    }

    /// Completes a stamp with the outcome of reading its date.
    pub fn with_date(
        id: ArxivId,
        category: Option<ArxivCategoryId>,
        date: Result<CalendarDate, DateParseError>,
    ) -> (r: Result<Self, ArxivStampError>)
        ensures
            match r {
                Ok(stamp) => date is Ok && stamp@ == (StampView {
                    id: id@,
                    category: category_view(category),
                    submitted: date->Ok_0@,
                }),
                Err(e) => date is Err && e == ArxivStampError::InvalidDate(date->Err_0),
            },
    {
        match date {
            Ok(submitted) => Ok(Self::new(id, category, submitted)),
            Err(e) => Err(ArxivStampError::InvalidDate(e)),
        }
    }

    /// Reads a stamp from its text.
    pub fn from_str(s: &str) -> (r: Result<Self, ArxivStampError>)
        ensures
            match r {
                Ok(stamp) => parse_stamp(s@) == Ok::<StampView, ArxivStampError>(stamp@)
                    && stamp@.wf() && stamp@.id.wf(),
                Err(e) => parse_stamp(s@) == Err::<StampView, ArxivStampError>(e),
            },
    {
        let (id, category, date_token) = match Self::parse_head(s) {
            Ok(head) => head,
            Err(e) => {
                return Err(e);
            },
        };
        Self::with_date(id, category, CalendarDate::from_str(date_token))
    }

    /// The text of the stamp, such as `arXiv:2011.00001 [cs.LG] 1 Jan 2011`.
    pub fn to_string(&self) -> (r: String)
        ensures
            r@ == self@.text(),
    {
        proof {
            reveal_strlit(" [");
            reveal_strlit("]");
            reveal_strlit(" ");
            assert(" ["@ =~= seq![' ', '[']);
            assert("]"@ =~= seq![']']);
            assert(" "@ =~= seq![' ']);
        }
        let mut out = self.id.to_string();
        match &self.category {
            Some(c) => {
                out.append(" [");
                out.append(c.to_string().as_str());
                out.append("]");
            },
            None => {},
        }
        out.append(" ");
        out.append(self.submitted.to_string().as_str());
        assert(out@ =~= self@.text());
        out
    }
}

/// Behind a valid identifier, a token that opens a bracket and does not close it is
/// refused as a category, whatever follows it.
pub proof fn lemma_unbalanced_brackets(s: Seq<char>)
    requires
        split_once(s, ' ') matches Some((id_token, rest)) && parse_id(id_token) is Ok && rest.len()
            > 0 && rest.first() == '[' && {
            let category_token = match split_once(rest, ' ') {
                Some((token, _)) => token,
                None => rest,
            };
            category_token.last() != ']'
        },
    ensures
        parse_stamp(s) == Err::<StampView, ArxivStampError>(ArxivStampError::InvalidCategory),
{
}

/// Nothing between the brackets is no category: there is no dot in it.
pub proof fn lemma_empty_brackets()
    ensures
        is_bracketed(seq!['[', ']']),
        interior(seq!['[', ']']) == Seq::<char>::empty(),
        parse_category(Seq::<char>::empty()) is None,
{
    assert(interior(seq!['[', ']']) =~= Seq::<char>::empty());
    lemma_split_once_none(Seq::<char>::empty(), '.');
}

/// Reading the text of a stamp gives back its identifier and its category, and leaves
/// the text of its date to be read. The identifier must be valid, and its number free
/// of delimiters and spaces.
pub proof fn lemma_stamp_head_roundtrip(stamp: StampView)
    requires
        stamp.wf(),
        stamp.id.wf(),
        free_of(stamp.id.number, ':'),
        free_of(stamp.id.number, '.'),
        free_of(stamp.id.number, 'v'),
        free_of(stamp.id.number, ' '),
    ensures
        parse_stamp_head(stamp.text()) == Ok::<
            (IdView, Option<CategoryView>, Seq<char>),
            ArxivStampError,
        >((stamp.id, stamp.category, stamp.submitted.text())),
{
    let date = stamp.submitted.text();
    lemma_decimal_value(stamp.submitted.day as nat);
    assert(date[0] == decimal(stamp.submitted.day as nat)[0]);
    lemma_id_roundtrip(stamp.id);
    lemma_id_text_spaceless(stamp.id);
    match stamp.category {
        Some(c) => {
            let token = seq!['['] + c.text() + seq![']'];
            let rest = token + seq![' '] + date;
            assert(stamp.text() =~= stamp.id.text() + seq![' '] + rest);
            lemma_split_once_joined(stamp.id.text(), rest, ' ');
            lemma_category_text_chars(c);
            assert forall|k: int| 0 <= k < token.len() implies token[k] != ' ' by {
                if 0 < k < token.len() - 1 {
                    assert(token[k] == c.text()[k - 1]);
                }
            }
            lemma_split_once_joined(token, date, ' ');
            assert(interior(token) =~= c.text());
            lemma_category_roundtrip(c);
        },
        None => {
            assert(stamp.text() =~= stamp.id.text() + seq![' '] + date);
            lemma_split_once_joined(stamp.id.text(), date, ' ');
        },
    }
}

} // verus!
