use arxiv::category::{list_contains, ArxivArchive, ArxivCategoryId, ArxivGroup};
use arxiv::subject_tables::{compsci_table, math_table, physics_table, str_less, table_contains};

const ARCHIVES: [(ArxivArchive, &str, ArxivGroup); 20] = [
    (ArxivArchive::AstroPh, "astro-ph", ArxivGroup::Physics),
    (ArxivArchive::CondMat, "cond-mat", ArxivGroup::Physics),
    (ArxivArchive::Cs, "cs", ArxivGroup::Cs),
    (ArxivArchive::Econ, "econ", ArxivGroup::Econ),
    (ArxivArchive::Eess, "eess", ArxivGroup::Eess),
    (ArxivArchive::GrQc, "gr-qc", ArxivGroup::Physics),
    (ArxivArchive::HepEx, "hep-ex", ArxivGroup::Physics),
    (ArxivArchive::HepLat, "hep-lat", ArxivGroup::Physics),
    (ArxivArchive::HepPh, "hep-ph", ArxivGroup::Physics),
    (ArxivArchive::HepTh, "hep-th", ArxivGroup::Physics),
    (ArxivArchive::MathPh, "math-ph", ArxivGroup::Physics),
    (ArxivArchive::Math, "math", ArxivGroup::Math),
    (ArxivArchive::Nlin, "nlin", ArxivGroup::Physics),
    (ArxivArchive::NuclEx, "nucl-ex", ArxivGroup::Physics),
    (ArxivArchive::NuclTh, "nucl-th", ArxivGroup::Physics),
    (ArxivArchive::Physics, "physics", ArxivGroup::Physics),
    (ArxivArchive::QBio, "q-bio", ArxivGroup::QBio),
    (ArxivArchive::QFin, "q-fin", ArxivGroup::QFin),
    (ArxivArchive::QuantPh, "quant-ph", ArxivGroup::Physics),
    (ArxivArchive::Stat, "stat", ArxivGroup::Stat),
];

fn subjects(archive: ArxivArchive) -> Vec<&'static str> {
    match archive {
        ArxivArchive::AstroPh => vec!["CO", "EP", "GA", "HE", "IM", "SR"],
        ArxivArchive::CondMat => vec![
            "dis-nn", "mes-hall", "mtrl-sci", "other", "quant-gas", "soft", "stat-mech", "str-el",
            "supr-con",
        ],
        ArxivArchive::Cs => compsci_table().to_vec(),
        ArxivArchive::Econ => vec!["EM", "GN", "TH"],
        ArxivArchive::Eess => vec!["AS", "IV", "SP", "SY"],
        ArxivArchive::Math => math_table().to_vec(),
        ArxivArchive::Nlin => vec!["AO", "CD", "CG", "PS", "SI"],
        ArxivArchive::Physics => physics_table().to_vec(),
        ArxivArchive::QBio => vec!["BM", "CB", "GN", "MN", "NC", "OT", "PE", "QM", "SC", "TO"],
        ArxivArchive::QFin => vec!["CP", "EC", "GN", "MF", "PM", "PR", "RM", "ST", "SR"],
        ArxivArchive::Stat => vec!["AP", "CO", "ME", "ML", "OT", "TH"],
        _ => vec![""],
    }
}

#[test]
fn archive_names_read_back() {
    for (archive, name, _) in ARCHIVES {
        assert_eq!(archive.as_str(), name);
        assert_eq!(archive.to_string(), name);
        assert_eq!(ArxivArchive::from_str(name), Ok(archive));
    }
}

#[test]
fn unknown_archives_are_refused() {
    for name in ["", "CS", "cs ", " cs", "astro", "astro-ph.HE", "hep", "physic", "physicss", "q_bio"] {
        assert_eq!(ArxivArchive::from_str(name), Err(()), "{}", name);
    }
}

#[test]
fn every_archive_has_its_group() {
    for (archive, _, group) in ARCHIVES {
        assert_eq!(ArxivGroup::from(archive), group);
    }
}

#[test]
fn every_accepted_pair_reads_back() {
    let mut pairs = 0;
    for (archive, name, group) in ARCHIVES {
        for subject in subjects(archive) {
            let category = ArxivCategoryId::try_new(archive, subject).unwrap();
            assert_eq!(category.archive(), archive);
            assert_eq!(category.group(), group);
            assert_eq!(category.subject(), subject);
            let text = category.to_string();
            assert_eq!(text, format!("{}.{}", name, subject));
            let read = ArxivCategoryId::from_str(&text).unwrap();
            assert_eq!(read, category);
            assert_eq!(read.to_string(), text);
            pairs += 1;
        }
    }
    assert_eq!(pairs, 6 + 9 + 39 + 3 + 4 + 32 + 5 + 22 + 10 + 9 + 6 + 9);
}

#[test]
fn subjects_of_another_archive_are_refused() {
    assert!(ArxivCategoryId::try_new(ArxivArchive::Cs, "HE").is_none());
    assert!(ArxivCategoryId::try_new(ArxivArchive::AstroPh, "LG").is_none());
    assert!(ArxivCategoryId::try_new(ArxivArchive::Math, "acc-ph").is_none());
    assert!(ArxivCategoryId::try_new(ArxivArchive::Physics, "AC").is_none());
    assert!(ArxivCategoryId::try_new(ArxivArchive::Cs, "").is_none());
    assert!(ArxivCategoryId::try_new(ArxivArchive::Cs, "lg").is_none());
    assert!(ArxivCategoryId::try_new(ArxivArchive::Cs, "LGX").is_none());
    assert!(ArxivCategoryId::try_new(ArxivArchive::Cs, "L").is_none());
    assert!(ArxivCategoryId::try_new(ArxivArchive::Physics, "ed-ph").is_none());
    assert!(ArxivCategoryId::try_new(ArxivArchive::Physics, "ed-pn").is_some());
}

#[test]
fn archives_without_subjects_take_the_empty_subject_only() {
    for (archive, name, _) in ARCHIVES {
        if subjects(archive) == vec![""] {
            assert!(ArxivCategoryId::try_new(archive, "").is_some());
            assert!(ArxivCategoryId::try_new(archive, "HE").is_none());
            assert!(ArxivCategoryId::try_new(archive, " ").is_none());
            let text = format!("{}.", name);
            assert_eq!(ArxivCategoryId::from_str(&text).unwrap().to_string(), text);
        } else {
            assert!(ArxivCategoryId::try_new(archive, "").is_none());
        }
    }
}

#[test]
fn category_text_needs_exactly_one_dot() {
    for text in ["", "cs", "csLG", ".", ".LG", "cs.LG.", "cs..LG", "cs.LG.AI", ".cs.LG", "gr-qc", "cs.XX", "xx.LG"] {
        assert_eq!(ArxivCategoryId::from_str(text), Err(()), "{}", text);
    }
    assert!(ArxivCategoryId::from_str("gr-qc.").is_ok());
    assert!(ArxivCategoryId::from_str("cond-mat.quant-gas").is_ok());
}

#[test]
fn clone_keeps_the_category() {
    let category = ArxivCategoryId::try_new(ArxivArchive::QBio, "CB").unwrap();
    assert_eq!(category.clone(), category);
}

#[test]
fn tables_are_sorted_and_searched() {
    let compsci = compsci_table();
    let math = math_table();
    let physics = physics_table();
    for table in [&compsci[..], &math[..], &physics[..]] {
        for pair in table.windows(2) {
            assert!(pair[0] < pair[1]);
            assert!(str_less(pair[0], &pair[1].chars().collect()));
            assert!(!str_less(pair[1], &pair[0].chars().collect()));
        }
        for code in table {
            assert!(table_contains(table, code));
            assert!(list_contains(table, code));
            assert!(!table_contains(table, &format!("{}x", code)));
            assert!(!table_contains(table, &code[..code.len() - 1]));
        }
        for other in ["", "A", "ZZ", "zz", "aa", "-"] {
            assert!(!table_contains(table, other));
            assert!(!list_contains(table, other));
        }
    }
    assert_eq!(compsci.len(), 39);
    assert_eq!(math.len(), 32);
    assert_eq!(physics.len(), 22);
    assert!(!table_contains(&[], "AI"));
}

#[test]
fn order_of_strings() {
    let key = |s: &str| s.chars().collect::<Vec<char>>();
    assert!(str_less("", &key("a")));
    assert!(!str_less("", &key("")));
    assert!(!str_less("a", &key("")));
    assert!(str_less("a", &key("ab")));
    assert!(!str_less("ab", &key("a")));
    assert!(str_less("ab", &key("b")));
    assert!(!str_less("ab", &key("ab")));
    assert!(str_less("a-b", &key("aab")));
}
