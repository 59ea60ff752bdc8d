//! Archives, groups and category identifiers such as `cs.LG`.
use vstd::prelude::*;
use vstd::std_specs::convert::FromSpecImpl;
use crate::subject_tables::{
    codes, compsci_codes, compsci_table, is_code, is_code_char, lemma_compsci_codes,
    lemma_compsci_sorted, lemma_math_codes, lemma_math_sorted, lemma_physics_codes,
    lemma_physics_sorted, math_codes, math_table, physics_codes, physics_table, table_contains,
};
use crate::text::{lemma_split_in_two_joined, split_at_only, split_in_two, str_eq};

verus! {

/// A coarse classification of arXiv publications; every archive belongs to one group.
#[derive(Debug, Clone, Copy, PartialEq, Eq, Structural)]
pub enum ArxivGroup {
    /// Computer science
    Cs,
    /// Economics
    Econ,
    /// Electrical engineering and systems science
    Eess,
    /// Mathematics
    Math,
    /// Physics
    Physics,
    /// Quantitative biology
    QBio,
    /// Quantitative finance
    QFin,
    /// Statistics
    Stat,
}

/// A collection of publications that relate under the same field of study.
#[derive(Debug, Clone, Copy, PartialEq, Eq, Structural)]
pub enum ArxivArchive {
    /// Astrophysics
    AstroPh,
    /// Condensed matter
    CondMat,
    /// Computer science
    Cs,
    /// Economics
    Econ,
    /// Electrical engineering and systems science
    Eess,
    /// General relativity and quantum cosmology
    GrQc,
    /// High energy physics, experiment
    HepEx,
    /// High energy physics, lattice
    HepLat,
    /// High energy physics, phenomenology
    HepPh,
    /// High energy physics, theory
    HepTh,
    /// Mathematical physics
    MathPh,
    /// Mathematics
    Math,
    /// Nonlinear sciences
    Nlin,
    /// Nuclear experiment
    NuclEx,
    /// Nuclear theory
    NuclTh,
    /// Physics
    Physics,
    /// Quantitative biology
    QBio,
    /// Quantitative finance
    QFin,
    /// Quantum physics
    QuantPh,
    /// Statistics
    Stat,
}

/// The group that an archive belongs to.
pub open spec fn group_of(archive: ArxivArchive) -> ArxivGroup {
    match archive {
        ArxivArchive::AstroPh => ArxivGroup::Physics,
        ArxivArchive::CondMat => ArxivGroup::Physics,
        ArxivArchive::Cs => ArxivGroup::Cs,
        ArxivArchive::Econ => ArxivGroup::Econ,
        ArxivArchive::Eess => ArxivGroup::Eess,
        ArxivArchive::GrQc => ArxivGroup::Physics,
        ArxivArchive::HepEx => ArxivGroup::Physics,
        ArxivArchive::HepLat => ArxivGroup::Physics,
        ArxivArchive::HepPh => ArxivGroup::Physics,
        ArxivArchive::HepTh => ArxivGroup::Physics,
        ArxivArchive::MathPh => ArxivGroup::Physics,
        ArxivArchive::Math => ArxivGroup::Math,
        ArxivArchive::Nlin => ArxivGroup::Physics,
        ArxivArchive::NuclEx => ArxivGroup::Physics,
        ArxivArchive::NuclTh => ArxivGroup::Physics,
        ArxivArchive::Physics => ArxivGroup::Physics,
        ArxivArchive::QBio => ArxivGroup::QBio,
        ArxivArchive::QFin => ArxivGroup::QFin,
        ArxivArchive::QuantPh => ArxivGroup::Physics,
        ArxivArchive::Stat => ArxivGroup::Stat,
    }
}

impl From<ArxivArchive> for ArxivGroup {
    fn from(archive: ArxivArchive) -> (group: Self) {
        match archive {
            ArxivArchive::Cs => ArxivGroup::Cs,
            ArxivArchive::Econ => ArxivGroup::Econ,
            ArxivArchive::Eess => ArxivGroup::Eess,
            ArxivArchive::Math => ArxivGroup::Math,
            ArxivArchive::AstroPh
            | ArxivArchive::CondMat
            | ArxivArchive::GrQc
            | ArxivArchive::HepEx
            | ArxivArchive::HepLat
            | ArxivArchive::HepPh
            | ArxivArchive::HepTh
            | ArxivArchive::MathPh
            | ArxivArchive::Nlin
            | ArxivArchive::NuclEx
            | ArxivArchive::NuclTh
            | ArxivArchive::Physics
            | ArxivArchive::QuantPh => ArxivGroup::Physics,
            ArxivArchive::QBio => ArxivGroup::QBio,
            ArxivArchive::QFin => ArxivGroup::QFin,
            ArxivArchive::Stat => ArxivGroup::Stat,
        }
    }
}

impl FromSpecImpl<ArxivArchive> for ArxivGroup {
    open spec fn obeys_from_spec() -> bool {
        true
    }

    open spec fn from_spec(archive: ArxivArchive) -> Self {
        group_of(archive)
    }
}

impl ArxivArchive {
    /// The canonical name of the archive, as it is written in a category.
    pub open spec fn name(self) -> Seq<char> {
        match self {
            ArxivArchive::AstroPh => "astro-ph"@,
            ArxivArchive::CondMat => "cond-mat"@,
            ArxivArchive::Cs => "cs"@,
            ArxivArchive::Econ => "econ"@,
            ArxivArchive::Eess => "eess"@,
            ArxivArchive::GrQc => "gr-qc"@,
            ArxivArchive::HepEx => "hep-ex"@,
            ArxivArchive::HepLat => "hep-lat"@,
            ArxivArchive::HepPh => "hep-ph"@,
            ArxivArchive::HepTh => "hep-th"@,
            ArxivArchive::MathPh => "math-ph"@,
            ArxivArchive::Math => "math"@,
            ArxivArchive::Nlin => "nlin"@,
            ArxivArchive::NuclEx => "nucl-ex"@,
            ArxivArchive::NuclTh => "nucl-th"@,
            ArxivArchive::Physics => "physics"@,
            ArxivArchive::QBio => "q-bio"@,
            ArxivArchive::QFin => "q-fin"@,
            ArxivArchive::QuantPh => "quant-ph"@,
            ArxivArchive::Stat => "stat"@,
        }
    }

    /// The archive that a name denotes, if any.
    pub open spec fn of_name(s: Seq<char>) -> Option<ArxivArchive> {
        if s == "astro-ph"@ {
            Some(ArxivArchive::AstroPh)
        } else if s == "cond-mat"@ {
            Some(ArxivArchive::CondMat)
        } else if s == "cs"@ {
            Some(ArxivArchive::Cs)
        } else if s == "econ"@ {
            Some(ArxivArchive::Econ)
        } else if s == "eess"@ {
            Some(ArxivArchive::Eess)
        } else if s == "gr-qc"@ {
            Some(ArxivArchive::GrQc)
        } else if s == "hep-ex"@ {
            Some(ArxivArchive::HepEx)
        } else if s == "hep-lat"@ {
            Some(ArxivArchive::HepLat)
        } else if s == "hep-ph"@ {
            Some(ArxivArchive::HepPh)
        } else if s == "hep-th"@ {
            Some(ArxivArchive::HepTh)
        } else if s == "math-ph"@ {
            Some(ArxivArchive::MathPh)
        } else if s == "math"@ {
            Some(ArxivArchive::Math)
        } else if s == "nlin"@ {
            Some(ArxivArchive::Nlin)
        } else if s == "nucl-ex"@ {
            Some(ArxivArchive::NuclEx)
        } else if s == "nucl-th"@ {
            Some(ArxivArchive::NuclTh)
        } else if s == "physics"@ {
            Some(ArxivArchive::Physics)
        } else if s == "q-bio"@ {
            Some(ArxivArchive::QBio)
        } else if s == "q-fin"@ {
            Some(ArxivArchive::QFin)
        } else if s == "quant-ph"@ {
            Some(ArxivArchive::QuantPh)
        } else if s == "stat"@ {
            Some(ArxivArchive::Stat)
        } else {
            None
        }
    }

    /// The canonical name of the archive.
    pub fn as_str(&self) -> (r: &'static str)
        ensures
            r@ == self.name(),
    {
        match self {
            ArxivArchive::AstroPh => "astro-ph",
            ArxivArchive::CondMat => "cond-mat",
            ArxivArchive::Cs => "cs",
            ArxivArchive::Econ => "econ",
            ArxivArchive::Eess => "eess",
            ArxivArchive::GrQc => "gr-qc",
            ArxivArchive::HepEx => "hep-ex",
            ArxivArchive::HepLat => "hep-lat",
            ArxivArchive::HepPh => "hep-ph",
            ArxivArchive::HepTh => "hep-th",
            ArxivArchive::MathPh => "math-ph",
            ArxivArchive::Math => "math",
            ArxivArchive::Nlin => "nlin",
            ArxivArchive::NuclEx => "nucl-ex",
            ArxivArchive::NuclTh => "nucl-th",
            ArxivArchive::Physics => "physics",
            ArxivArchive::QBio => "q-bio",
            ArxivArchive::QFin => "q-fin",
            ArxivArchive::QuantPh => "quant-ph",
            ArxivArchive::Stat => "stat",
        }
    }

    /// The canonical name of the archive, as an owned string.
    pub fn to_string(&self) -> (r: String)
        ensures
            r@ == self.name(),
    {
        String::from_str(self.as_str())
    }

    /// Recognizes the canonical name of an archive; any other string is refused.
    pub fn from_str(s: &str) -> (r: Result<Self, ()>)
        ensures
            match r {
                Ok(archive) => Self::of_name(s@) == Some(archive),
                Err(_) => Self::of_name(s@) is None,
            },
    {
        if crate::text::str_eq(s, "astro-ph") {
            Ok(ArxivArchive::AstroPh)
        } else if crate::text::str_eq(s, "cond-mat") {
            Ok(ArxivArchive::CondMat)
        } else if crate::text::str_eq(s, "cs") {
            Ok(ArxivArchive::Cs)
        } else if crate::text::str_eq(s, "econ") {
            Ok(ArxivArchive::Econ)
        } else if crate::text::str_eq(s, "eess") {
            Ok(ArxivArchive::Eess)
        } else if crate::text::str_eq(s, "gr-qc") {
            Ok(ArxivArchive::GrQc)
        } else if crate::text::str_eq(s, "hep-ex") {
            Ok(ArxivArchive::HepEx)
        } else if crate::text::str_eq(s, "hep-lat") {
            Ok(ArxivArchive::HepLat)
        } else if crate::text::str_eq(s, "hep-ph") {
            Ok(ArxivArchive::HepPh)
        } else if crate::text::str_eq(s, "hep-th") {
            Ok(ArxivArchive::HepTh)
        } else if crate::text::str_eq(s, "math-ph") {
            Ok(ArxivArchive::MathPh)
        } else if crate::text::str_eq(s, "math") {
            Ok(ArxivArchive::Math)
        } else if crate::text::str_eq(s, "nlin") {
            Ok(ArxivArchive::Nlin)
        } else if crate::text::str_eq(s, "nucl-ex") {
            Ok(ArxivArchive::NuclEx)
        } else if crate::text::str_eq(s, "nucl-th") {
            Ok(ArxivArchive::NuclTh)
        } else if crate::text::str_eq(s, "physics") {
            Ok(ArxivArchive::Physics)
        } else if crate::text::str_eq(s, "q-bio") {
            Ok(ArxivArchive::QBio)
        } else if crate::text::str_eq(s, "q-fin") {
            Ok(ArxivArchive::QFin)
        } else if crate::text::str_eq(s, "quant-ph") {
            Ok(ArxivArchive::QuantPh)
        } else if crate::text::str_eq(s, "stat") {
            Ok(ArxivArchive::Stat)
        } else {
            Err(())
        }
    }
}

/// Reveals the characters of every archive name.
pub proof fn reveal_archive_names()
    ensures
        "astro-ph"@ == seq!['a', 's', 't', 'r', 'o', '-', 'p', 'h'],
        "cond-mat"@ == seq!['c', 'o', 'n', 'd', '-', 'm', 'a', 't'],
        "cs"@ == seq!['c', 's'],
        "econ"@ == seq!['e', 'c', 'o', 'n'],
        "eess"@ == seq!['e', 'e', 's', 's'],
        "gr-qc"@ == seq!['g', 'r', '-', 'q', 'c'],
        "hep-ex"@ == seq!['h', 'e', 'p', '-', 'e', 'x'],
        "hep-lat"@ == seq!['h', 'e', 'p', '-', 'l', 'a', 't'],
        "hep-ph"@ == seq!['h', 'e', 'p', '-', 'p', 'h'],
        "hep-th"@ == seq!['h', 'e', 'p', '-', 't', 'h'],
        "math-ph"@ == seq!['m', 'a', 't', 'h', '-', 'p', 'h'],
        "math"@ == seq!['m', 'a', 't', 'h'],
        "nlin"@ == seq!['n', 'l', 'i', 'n'],
        "nucl-ex"@ == seq!['n', 'u', 'c', 'l', '-', 'e', 'x'],
        "nucl-th"@ == seq!['n', 'u', 'c', 'l', '-', 't', 'h'],
        "physics"@ == seq!['p', 'h', 'y', 's', 'i', 'c', 's'],
        "q-bio"@ == seq!['q', '-', 'b', 'i', 'o'],
        "q-fin"@ == seq!['q', '-', 'f', 'i', 'n'],
        "quant-ph"@ == seq!['q', 'u', 'a', 'n', 't', '-', 'p', 'h'],
        "stat"@ == seq!['s', 't', 'a', 't'],
{
    reveal_strlit("astro-ph");
    assert("astro-ph"@ =~= seq!['a', 's', 't', 'r', 'o', '-', 'p', 'h']);
    reveal_strlit("cond-mat");
    assert("cond-mat"@ =~= seq!['c', 'o', 'n', 'd', '-', 'm', 'a', 't']);
    reveal_strlit("cs");
    assert("cs"@ =~= seq!['c', 's']);
    reveal_strlit("econ");
    assert("econ"@ =~= seq!['e', 'c', 'o', 'n']);
    reveal_strlit("eess");
    assert("eess"@ =~= seq!['e', 'e', 's', 's']);
    reveal_strlit("gr-qc");
    assert("gr-qc"@ =~= seq!['g', 'r', '-', 'q', 'c']);
    reveal_strlit("hep-ex");
    assert("hep-ex"@ =~= seq!['h', 'e', 'p', '-', 'e', 'x']);
    reveal_strlit("hep-lat");
    assert("hep-lat"@ =~= seq!['h', 'e', 'p', '-', 'l', 'a', 't']);
    reveal_strlit("hep-ph");
    assert("hep-ph"@ =~= seq!['h', 'e', 'p', '-', 'p', 'h']);
    reveal_strlit("hep-th");
    assert("hep-th"@ =~= seq!['h', 'e', 'p', '-', 't', 'h']);
    reveal_strlit("math-ph");
    assert("math-ph"@ =~= seq!['m', 'a', 't', 'h', '-', 'p', 'h']);
    reveal_strlit("math");
    assert("math"@ =~= seq!['m', 'a', 't', 'h']);
    reveal_strlit("nlin");
    assert("nlin"@ =~= seq!['n', 'l', 'i', 'n']);
    reveal_strlit("nucl-ex");
    assert("nucl-ex"@ =~= seq!['n', 'u', 'c', 'l', '-', 'e', 'x']);
    reveal_strlit("nucl-th");
    assert("nucl-th"@ =~= seq!['n', 'u', 'c', 'l', '-', 't', 'h']);
    reveal_strlit("physics");
    assert("physics"@ =~= seq!['p', 'h', 'y', 's', 'i', 'c', 's']);
    reveal_strlit("q-bio");
    assert("q-bio"@ =~= seq!['q', '-', 'b', 'i', 'o']);
    reveal_strlit("q-fin");
    assert("q-fin"@ =~= seq!['q', '-', 'f', 'i', 'n']);
    reveal_strlit("quant-ph");
    assert("quant-ph"@ =~= seq!['q', 'u', 'a', 'n', 't', '-', 'p', 'h']);
    reveal_strlit("stat");
    assert("stat"@ =~= seq!['s', 't', 'a', 't']);
}

/// Distinct archives have distinct names, made of letters and hyphens: reading an
/// archive's name gives the archive back.
pub proof fn lemma_archive_name_roundtrip(archive: ArxivArchive)
    ensures
        ArxivArchive::of_name(archive.name()) == Some(archive),
        is_code(archive.name()),
{
    reveal_archive_names();
    let n = archive.name();
    // Names of one length differ at one of these places.
    assert(n.len() >= 2 && n[0] != '.' && n[1] != '.');
    assert(n.len() >= 5 ==> n[2] != '.' && n[4] != '.');
    assert(n.len() >= 6 ==> n[5] != '.');
}

/// The subject codes that an archive accepts. An archive without sub-classification
/// accepts the empty subject alone.
pub open spec fn subject_codes(archive: ArxivArchive) -> Seq<&'static str> {
    match archive {
        ArxivArchive::AstroPh => seq!["CO", "EP", "GA", "HE", "IM", "SR"],
        ArxivArchive::CondMat => seq![
            "dis-nn", "mes-hall", "mtrl-sci", "other", "quant-gas", "soft", "stat-mech", "str-el",
            "supr-con",
        ],
        ArxivArchive::Cs => compsci_codes(),
        ArxivArchive::Econ => seq!["EM", "GN", "TH"],
        ArxivArchive::Eess => seq!["AS", "IV", "SP", "SY"],
        ArxivArchive::GrQc => seq![""],
        ArxivArchive::HepEx => seq![""],
        ArxivArchive::HepLat => seq![""],
        ArxivArchive::HepPh => seq![""],
        ArxivArchive::HepTh => seq![""],
        ArxivArchive::MathPh => seq![""],
        ArxivArchive::Math => math_codes(),
        ArxivArchive::Nlin => seq!["AO", "CD", "CG", "PS", "SI"],
        ArxivArchive::NuclEx => seq![""],
        ArxivArchive::NuclTh => seq![""],
        ArxivArchive::Physics => physics_codes(),
        ArxivArchive::QBio => seq!["BM", "CB", "GN", "MN", "NC", "OT", "PE", "QM", "SC", "TO"],
        ArxivArchive::QFin => seq!["CP", "EC", "GN", "MF", "PM", "PR", "RM", "ST", "SR"],
        ArxivArchive::QuantPh => seq![""],
        ArxivArchive::Stat => seq!["AP", "CO", "ME", "ML", "OT", "TH"],
    }
}

/// Whether `subject` is a subject code of `archive`.
pub open spec fn is_valid_subject(archive: ArxivArchive, subject: Seq<char>) -> bool {
    codes(subject_codes(archive)).contains(subject)
}

/// Looks `key` up in a short list of codes, one after the other.
pub fn list_contains(list: &[&'static str], key: &str) -> (r: bool)
    ensures
        r == codes(list@).contains(key@),
{
    let mut i: usize = 0;
    while i < list.len()
        invariant
            i <= list.len(),
            forall|j: int| 0 <= j < i ==> codes(list@)[j] != key@,
        decreases list.len() - i,
    {
        if str_eq(list[i], key) {
            assert(codes(list@)[i as int] == key@);
            return true;
        }
        i += 1;
    }
    false
}

/// What a category identifier holds: a group, an archive of that group and one of
/// the archive's subject codes.
pub struct CategoryView {
    pub group: ArxivGroup,
    pub archive: ArxivArchive,
    pub subject: Seq<char>,
}

impl CategoryView {
    /// The category of an archive and a subject, in the archive's group.
    pub open spec fn of(archive: ArxivArchive, subject: Seq<char>) -> CategoryView {
        CategoryView { group: group_of(archive), archive, subject }
    }

    /// The group is the archive's, and the subject is one that the archive accepts.
    pub open spec fn wf(self) -> bool {
        self.group == group_of(self.archive) && is_valid_subject(self.archive, self.subject)
    }

    /// The text of the category: the archive's name, a dot, the subject.
    pub open spec fn text(self) -> Seq<char> {
        self.archive.name() + seq!['.'] + self.subject
    }
}

/// The category that a text denotes: exactly one dot, the name of an archive before it
/// and one of that archive's subject codes after it.
pub open spec fn parse_category(s: Seq<char>) -> Option<CategoryView> {
    match split_in_two(s, '.') {
        Some((name, subject)) => match ArxivArchive::of_name(name) {
            Some(archive) => if is_valid_subject(archive, subject) {
                Some(CategoryView::of(archive, subject))
            } else {
                None
            },
            None => None,
        },
        None => None,
    }
}

/// An identifier for arXiv categories, composed of an archive and a subject class.
#[derive(Debug, PartialEq, Eq)]
pub struct ArxivCategoryId {
    group: ArxivGroup,
    archive: ArxivArchive,
    subject: String,
}

impl View for ArxivCategoryId {
    type V = CategoryView;

    closed spec fn view(&self) -> CategoryView {
        CategoryView { group: self.group, archive: self.archive, subject: self.subject@ }
    }
}

impl Clone for ArxivCategoryId {
    fn clone(&self) -> (r: Self)
        ensures
            r@ == self@,
    {
        proof {
            use_type_invariant(self);
        }
        Self { group: self.group, archive: self.archive, subject: self.subject.clone() }
    }
}

impl ArxivCategoryId {
    #[verifier::type_invariant]
    spec fn inv(self) -> bool {
        self@.wf()
    }

    /// Composes a category from parts that are known to fit together.
    pub fn new(group: ArxivGroup, archive: ArxivArchive, subject: String) -> (r: Self)
        requires
            group == group_of(archive),
            is_valid_subject(archive, subject@),
        ensures
            r@ == CategoryView::of(archive, subject@),
    {
        Self { group, archive, subject }
    }

    /// Composes a category if `subject` is a subject code of `archive`.
    pub fn try_new(archive: ArxivArchive, subject: &str) -> (r: Option<Self>)
        ensures
            r is Some == is_valid_subject(archive, subject@),
            r matches Some(c) ==> c@ == CategoryView::of(archive, subject@),
    {
        let is_valid = match archive {
            ArxivArchive::AstroPh => {
                let list = ["CO", "EP", "GA", "HE", "IM", "SR"];
                assert(list@ =~= subject_codes(archive));
                list_contains(&list, subject)
            },
            ArxivArchive::CondMat => {
                let list = [
                    "dis-nn", "mes-hall", "mtrl-sci", "other", "quant-gas", "soft", "stat-mech",
                    "str-el", "supr-con",
                ];
                assert(list@ =~= subject_codes(archive));
                list_contains(&list, subject)
            },
            ArxivArchive::Cs => {
                proof {
                    lemma_compsci_sorted();
                }
                table_contains(&compsci_table(), subject)
            },
            ArxivArchive::Econ => {
                let list = ["EM", "GN", "TH"];
                assert(list@ =~= subject_codes(archive));
                list_contains(&list, subject)
            },
            ArxivArchive::Eess => {
                let list = ["AS", "IV", "SP", "SY"];
                assert(list@ =~= subject_codes(archive));
                list_contains(&list, subject)
            },
            ArxivArchive::Math => {
                proof {
                    lemma_math_sorted();
                }
                table_contains(&math_table(), subject)
            },
            ArxivArchive::Nlin => {
                let list = ["AO", "CD", "CG", "PS", "SI"];
                assert(list@ =~= subject_codes(archive));
                list_contains(&list, subject)
            },
            ArxivArchive::Physics => {
                proof {
                    lemma_physics_sorted();
                }
                table_contains(&physics_table(), subject)
            },
            ArxivArchive::QBio => {
                let list = ["BM", "CB", "GN", "MN", "NC", "OT", "PE", "QM", "SC", "TO"];
                assert(list@ =~= subject_codes(archive));
                list_contains(&list, subject)
            },
            ArxivArchive::QFin => {
                let list = ["CP", "EC", "GN", "MF", "PM", "PR", "RM", "ST", "SR"];
                assert(list@ =~= subject_codes(archive));
                list_contains(&list, subject)
            },
            ArxivArchive::Stat => {
                let list = ["AP", "CO", "ME", "ML", "OT", "TH"];
                assert(list@ =~= subject_codes(archive));
                list_contains(&list, subject)
            },
            ArxivArchive::GrQc
            | ArxivArchive::HepEx
            | ArxivArchive::HepLat
            | ArxivArchive::HepPh
            | ArxivArchive::HepTh
            | ArxivArchive::MathPh
            | ArxivArchive::NuclEx
            | ArxivArchive::NuclTh
            | ArxivArchive::QuantPh => {
                proof {
                    reveal_strlit("");
                    if subject@.len() == 0 {
                        assert(subject@ =~= ""@);
                        assert(codes(subject_codes(archive))[0] == subject@);
                    }
                }
                subject.is_empty()
            },
        };
        if is_valid {
            Some(Self::new(ArxivGroup::from(archive), archive, String::from_str(subject)))
        } else {
            None
        }
    }

    /// The group, which contains one or more archives.
    pub fn group(&self) -> (r: ArxivGroup)
        ensures
            r == self@.group,
            self@.wf(),
    {
        proof {
            use_type_invariant(self);
        }
        self.group
    }

    /// The archive, a collection of publications of one field of study.
    pub fn archive(&self) -> (r: ArxivArchive)
        ensures
            r == self@.archive,
            self@.wf(),
    {
        proof {
            use_type_invariant(self);
        }
        self.archive
    }

    /// The subject class of the category.
    pub fn subject(&self) -> (r: String)
        ensures
            r@ == self@.subject,
            self@.wf(),
    {
        proof {
            use_type_invariant(self);
        }
        self.subject.clone()
    }

    /// The text of the category, such as `astro-ph.HE`.
    pub fn to_string(&self) -> (r: String)
        ensures
            r@ == self@.text(),
            self@.wf(),
    {
        proof {
            use_type_invariant(self);
            reveal_strlit(".");
            assert("."@ =~= seq!['.']);
        }
        let mut out = self.archive.to_string();
        out.append(".");
        out.append(self.subject.as_str());
        out
    }

    /// Reads a category from its text.
    pub fn from_str(s: &str) -> (r: Result<Self, ()>)
        ensures
            match r {
                Ok(c) => parse_category(s@) == Some(c@),
                Err(_) => parse_category(s@) is None,
            },
    {
        let (name, subject) = match split_at_only(s, '.') {
            Some(parts) => parts,
            None => {
                return Err(());
            },
        };
        let archive = match ArxivArchive::from_str(name) {
            Ok(archive) => archive,
            Err(_) => {
                return Err(());
            },
        };
        match Self::try_new(archive, subject) {
            Some(c) => Ok(c),
            None => Err(()),
        }
    }
}

/// Every subject code is made of letters and hyphens.
pub proof fn lemma_subject_is_code(archive: ArxivArchive, subject: Seq<char>)
    requires
        is_valid_subject(archive, subject),
    ensures
        is_code(subject),
{
    let list = subject_codes(archive);
    let i = choose|i: int| 0 <= i < codes(list).len() && codes(list)[i] == subject;
    assert(list[i]@ == subject);
    match archive {
        ArxivArchive::Cs => {
            lemma_compsci_codes();
        },
        ArxivArchive::Math => {
            lemma_math_codes();
        },
        ArxivArchive::Physics => {
            lemma_physics_codes();
        },
        _ => {
            reveal_strlit("");
            reveal_strlit("AO");
            reveal_strlit("AP");
            reveal_strlit("AS");
            reveal_strlit("BM");
            reveal_strlit("CB");
            reveal_strlit("CD");
            reveal_strlit("CG");
            reveal_strlit("CO");
            reveal_strlit("CP");
            reveal_strlit("EC");
            reveal_strlit("EM");
            reveal_strlit("EP");
            reveal_strlit("GA");
            reveal_strlit("GN");
            reveal_strlit("HE");
            reveal_strlit("IM");
            reveal_strlit("IV");
            reveal_strlit("ME");
            reveal_strlit("MF");
            reveal_strlit("ML");
            reveal_strlit("MN");
            reveal_strlit("NC");
            reveal_strlit("OT");
            reveal_strlit("PE");
            reveal_strlit("PM");
            reveal_strlit("PR");
            reveal_strlit("PS");
            reveal_strlit("QM");
            reveal_strlit("RM");
            reveal_strlit("SC");
            reveal_strlit("SI");
            reveal_strlit("SP");
            reveal_strlit("SR");
            reveal_strlit("ST");
            reveal_strlit("SY");
            reveal_strlit("TH");
            reveal_strlit("TO");
            reveal_strlit("dis-nn");
            reveal_strlit("mes-hall");
            reveal_strlit("mtrl-sci");
            reveal_strlit("other");
            reveal_strlit("quant-gas");
            reveal_strlit("soft");
            reveal_strlit("stat-mech");
            reveal_strlit("str-el");
            reveal_strlit("supr-con");
        },
    }
}

/// Reading the text of a category gives the category back, so that writing it
/// once more gives the same text.
pub proof fn lemma_category_roundtrip(c: CategoryView)
    requires
        c.wf(),
    ensures
        parse_category(c.text()) == Some(c),
        parse_category(c.text())->0.text() == c.text(),
{
    lemma_archive_name_roundtrip(c.archive);
    lemma_subject_is_code(c.archive, c.subject);
    lemma_split_in_two_joined(c.archive.name(), c.subject, '.');
}

/// The text of a category is made of letters, hyphens and its one dot.
pub proof fn lemma_category_text_chars(c: CategoryView)
    requires
        c.wf(),
    ensures
        forall|k: int|
            0 <= k < c.text().len() ==> is_code_char(#[trigger] c.text()[k]) || c.text()[k] == '.',
{
    lemma_archive_name_roundtrip(c.archive);
    lemma_subject_is_code(c.archive, c.subject);
    let n = c.archive.name().len() as int;
    assert forall|k: int| 0 <= k < c.text().len() implies is_code_char(#[trigger] c.text()[k])
        || c.text()[k] == '.' by {
        if k < n {
            assert(c.text()[k] == c.archive.name()[k]);
        } else if k > n {
            assert(c.text()[k] == c.subject[k - n - 1]);
        }
    }
}

} // verus!
