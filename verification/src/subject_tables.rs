//! Sorted tables of subject codes, and the binary search that looks a code up.
use vstd::prelude::*;
use crate::text::{chars_of, str_eq};

verus! {

/// Whether `c` is a letter or a hyphen, the characters that codes are made of.
pub open spec fn is_code_char(c: char) -> bool {
    'a' <= c <= 'z' || 'A' <= c <= 'Z' || c == '-'
}

/// Whether `s` is made of letters and hyphens.
pub open spec fn is_code(s: Seq<char>) -> bool {
    forall|k: int| 0 <= k < s.len() ==> is_code_char(#[trigger] s[k])
}

/// Lexicographic order on character sequences, from position `i` on:
/// the first position where `a` and `b` differ decides, and a proper prefix comes first.
pub open spec fn lex_less_from(a: Seq<char>, b: Seq<char>, i: int) -> bool
    decreases b.len() - i,
{
    if i >= b.len() {
        false
    } else if i >= a.len() {
        true
    } else if a[i] != b[i] {
        a[i] < b[i]
    } else {
        lex_less_from(a, b, i + 1)
    }
}

/// Strict lexicographic order on character sequences.
pub open spec fn lex_less(a: Seq<char>, b: Seq<char>) -> bool {
    lex_less_from(a, b, 0)
}

/// No sequence comes before itself.
pub proof fn lemma_lex_irreflexive(a: Seq<char>, i: int)
    requires
        0 <= i,
    ensures
        !lex_less_from(a, a, i),
    decreases a.len() - i,
{
    if i < a.len() {
        lemma_lex_irreflexive(a, i + 1);
    }
}

/// The order is transitive.
pub proof fn lemma_lex_transitive(a: Seq<char>, b: Seq<char>, c: Seq<char>, i: int)
    requires
        0 <= i,
        lex_less_from(a, b, i),
        lex_less_from(b, c, i),
    ensures
        lex_less_from(a, c, i),
    decreases c.len() - i,
{
    if i < a.len() && i < b.len() && i < c.len() && a[i] == b[i] && b[i] == c[i] {
        lemma_lex_transitive(a, b, c, i + 1);
    }
}

/// A table is sorted when each entry comes strictly before the next one.
pub open spec fn sorted(table: Seq<&'static str>) -> bool {
    forall|i: int| 0 <= i && i + 1 < table.len() ==> lex_less(#[trigger] table[i]@, table[i + 1]@)
}

/// The codes of a table, as character sequences.
pub open spec fn codes(table: Seq<&'static str>) -> Seq<Seq<char>> {
    Seq::new(table.len(), |i: int| table[i]@)
}

/// In a sorted table every entry comes strictly before every later one.
pub proof fn lemma_sorted_pairs(table: Seq<&'static str>, i: int, j: int)
    requires
        sorted(table),
        0 <= i < j < table.len(),
    ensures
        lex_less(table[i]@, table[j]@),
    decreases j - i,
{
    if i + 1 < j {
        lemma_sorted_pairs(table, i, j - 1);
        assert(lex_less(table[j - 1]@, table[j - 1 + 1]@));
        lemma_lex_transitive(table[i]@, table[j - 1]@, table[j]@, 0);
    }
}

/// Whether `a` comes strictly before `key` in lexicographic order.
pub fn str_less(a: &str, key: &Vec<char>) -> (r: bool)
    ensures
        r == lex_less(a@, key@),
{
    let mut i: usize = 0;
    for ch in iter: a.chars()
        invariant
            iter.seq() == a@,
            i == iter.index(),
            i <= key.len(),
            lex_less(a@, key@) == lex_less_from(a@, key@, i as int),
    {
        if i >= key.len() {
            return false;
        }
        assert(a@[i as int] == ch);
        if ch != key[i] {
            return ch < key[i];
        }
        i += 1;
    }
    i < key.len()
}

/// Looks `key` up in a sorted table by binary search.
pub fn table_contains(table: &[&'static str], key: &str) -> (r: bool)
    requires
        sorted(table@),
    ensures
        r == codes(table@).contains(key@),
{
    let k = chars_of(key);
    let mut lo: usize = 0;
    let mut hi: usize = table.len();
    while lo < hi
        invariant
            0 <= lo <= hi <= table.len(),
            sorted(table@),
            k@ == key@,
            forall|j: int| 0 <= j < lo ==> lex_less(#[trigger] table@[j]@, k@),
            forall|j: int| hi <= j < table.len() ==> !lex_less(#[trigger] table@[j]@, k@),
        decreases hi - lo,
    {
        let mid: usize = lo + (hi - lo) / 2;
        if str_less(table[mid], &k) {
            proof {
                assert forall|j: int| 0 <= j < mid + 1 implies lex_less(
                    #[trigger] table@[j]@,
                    k@,
                ) by {
                    if j < mid {
                        lemma_sorted_pairs(table@, j, mid as int);
                        lemma_lex_transitive(table@[j]@, table@[mid as int]@, k@, 0);
                    }
                }
            }
            lo = mid + 1;
        } else {
            proof {
                assert forall|j: int| mid <= j < table.len() implies !lex_less(
                    #[trigger] table@[j]@,
                    k@,
                ) by {
                    if mid < j && lex_less(table@[j]@, k@) {
                        lemma_sorted_pairs(table@, mid as int, j);
                        lemma_lex_transitive(table@[mid as int]@, table@[j]@, k@, 0);
                    }
                }
            }
            hi = mid;
        }
    }
    let found = lo < table.len() && str_eq(table[lo], key);
    proof {
        if found {
            assert(codes(table@)[lo as int] == key@);
        } else {
            assert forall|j: int| 0 <= j < table.len() implies codes(table@)[j] != key@ by {
                if table@[j]@ == key@ {
                    lemma_lex_irreflexive(k@, 0);
                    if lo < j {
                        lemma_sorted_pairs(table@, lo as int, j);
                    }
                }
            }
        }
    }
    found
}

/// Subject codes of the computer science archive, in lexicographic order.
pub open spec fn compsci_codes() -> Seq<&'static str> {
    seq![
        "AI", "AR", "CC", "CE", "CG", "CL", "CR", "CV",
        "CY", "DB", "DC", "DL", "DM", "DS", "ET", "FL",
        "GL", "GR", "GT", "HC", "IR", "IT", "LG", "LO",
        "MA", "MM", "MS", "NA", "NI", "OH", "OS", "PF",
        "PL", "RO", "SC", "SD", "SE", "SI", "SY",
    ]
}

/// The compsci table is sorted.
pub proof fn lemma_compsci_sorted()
    ensures
        sorted(compsci_codes()),
{
    reveal_with_fuel(lex_less_from, 6);
    reveal_strlit("AI");
    reveal_strlit("AR");
    reveal_strlit("CC");
    reveal_strlit("CE");
    reveal_strlit("CG");
    reveal_strlit("CL");
    reveal_strlit("CR");
    reveal_strlit("CV");
    reveal_strlit("CY");
    reveal_strlit("DB");
    reveal_strlit("DC");
    reveal_strlit("DL");
    reveal_strlit("DM");
    reveal_strlit("DS");
    reveal_strlit("ET");
    reveal_strlit("FL");
    reveal_strlit("GL");
    reveal_strlit("GR");
    reveal_strlit("GT");
    reveal_strlit("HC");
    reveal_strlit("IR");
    reveal_strlit("IT");
    reveal_strlit("LG");
    reveal_strlit("LO");
    reveal_strlit("MA");
    reveal_strlit("MM");
    reveal_strlit("MS");
    reveal_strlit("NA");
    reveal_strlit("NI");
    reveal_strlit("OH");
    reveal_strlit("OS");
    reveal_strlit("PF");
    reveal_strlit("PL");
    reveal_strlit("RO");
    reveal_strlit("SC");
    reveal_strlit("SD");
    reveal_strlit("SE");
    reveal_strlit("SI");
    reveal_strlit("SY");
}

/// Subject codes of the computer science archive, in lexicographic order.
pub fn compsci_table() -> (t: [&'static str; 39])
    ensures
        t@ == compsci_codes(),
{
    let t = [
        "AI", "AR", "CC", "CE", "CG", "CL", "CR", "CV",
        "CY", "DB", "DC", "DL", "DM", "DS", "ET", "FL",
        "GL", "GR", "GT", "HC", "IR", "IT", "LG", "LO",
        "MA", "MM", "MS", "NA", "NI", "OH", "OS", "PF",
        "PL", "RO", "SC", "SD", "SE", "SI", "SY",
    ];
    assert(t@ =~= compsci_codes());
    t
}

/// Subject codes of the mathematics archive, in lexicographic order.
pub open spec fn math_codes() -> Seq<&'static str> {
    seq![
        "AC", "AG", "AP", "AT", "CA", "CO", "CT", "CV",
        "DG", "DS", "FA", "GM", "GN", "GR", "GT", "HO",
        "IT", "KT", "LO", "MG", "MP", "NA", "NT", "OA",
        "OC", "PR", "QA", "RA", "RT", "SG", "SP", "ST",
    ]
}

/// The math table is sorted.
pub proof fn lemma_math_sorted()
    ensures
        sorted(math_codes()),
{
    reveal_with_fuel(lex_less_from, 6);
    reveal_strlit("AC");
    reveal_strlit("AG");
    reveal_strlit("AP");
    reveal_strlit("AT");
    reveal_strlit("CA");
    reveal_strlit("CO");
    reveal_strlit("CT");
    reveal_strlit("CV");
    reveal_strlit("DG");
    reveal_strlit("DS");
    reveal_strlit("FA");
    reveal_strlit("GM");
    reveal_strlit("GN");
    reveal_strlit("GR");
    reveal_strlit("GT");
    reveal_strlit("HO");
    reveal_strlit("IT");
    reveal_strlit("KT");
    reveal_strlit("LO");
    reveal_strlit("MG");
    reveal_strlit("MP");
    reveal_strlit("NA");
    reveal_strlit("NT");
    reveal_strlit("OA");
    reveal_strlit("OC");
    reveal_strlit("PR");
    reveal_strlit("QA");
    reveal_strlit("RA");
    reveal_strlit("RT");
    reveal_strlit("SG");
    reveal_strlit("SP");
    reveal_strlit("ST");
}

/// Subject codes of the mathematics archive, in lexicographic order.
pub fn math_table() -> (t: [&'static str; 32])
    ensures
        t@ == math_codes(),
{
    let t = [
        "AC", "AG", "AP", "AT", "CA", "CO", "CT", "CV",
        "DG", "DS", "FA", "GM", "GN", "GR", "GT", "HO",
        "IT", "KT", "LO", "MG", "MP", "NA", "NT", "OA",
        "OC", "PR", "QA", "RA", "RT", "SG", "SP", "ST",
    ];
    assert(t@ =~= math_codes());
    t
}

/// Subject codes of the physics archive, in lexicographic order.
pub open spec fn physics_codes() -> Seq<&'static str> {
    seq![
        "acc-ph", "ao-ph", "app-ph", "atm-clus", "atom-ph", "bio-ph", "chem-ph", "class-ph",
        "comp-ph", "data-an", "ed-pn", "flu-dyn", "gen-ph", "geo-ph", "hist-ph", "ins-det",
        "med-ph", "optics", "plasm-ph", "pop-ph", "soc-ph", "space-ph",
    ]
}

/// The physics table is sorted.
pub proof fn lemma_physics_sorted()
    ensures
        sorted(physics_codes()),
{
    reveal_with_fuel(lex_less_from, 6);
    reveal_strlit("acc-ph");
    reveal_strlit("ao-ph");
    reveal_strlit("app-ph");
    reveal_strlit("atm-clus");
    reveal_strlit("atom-ph");
    reveal_strlit("bio-ph");
    reveal_strlit("chem-ph");
    reveal_strlit("class-ph");
    reveal_strlit("comp-ph");
    reveal_strlit("data-an");
    reveal_strlit("ed-pn");
    reveal_strlit("flu-dyn");
    reveal_strlit("gen-ph");
    reveal_strlit("geo-ph");
    reveal_strlit("hist-ph");
    reveal_strlit("ins-det");
    reveal_strlit("med-ph");
    reveal_strlit("optics");
    reveal_strlit("plasm-ph");
    reveal_strlit("pop-ph");
    reveal_strlit("soc-ph");
    reveal_strlit("space-ph");
}

/// Subject codes of the physics archive, in lexicographic order.
pub fn physics_table() -> (t: [&'static str; 22])
    ensures
        t@ == physics_codes(),
{
    let t = [
        "acc-ph", "ao-ph", "app-ph", "atm-clus", "atom-ph", "bio-ph", "chem-ph", "class-ph",
        "comp-ph", "data-an", "ed-pn", "flu-dyn", "gen-ph", "geo-ph", "hist-ph", "ins-det",
        "med-ph", "optics", "plasm-ph", "pop-ph", "soc-ph", "space-ph",
    ];
    assert(t@ =~= physics_codes());
    t
}

/// Every code of the compsci table is made of letters and hyphens.
pub proof fn lemma_compsci_codes()
    ensures
        forall|i: int| 0 <= i < compsci_codes().len() ==> is_code(#[trigger] compsci_codes()[i]@),
{
    reveal_strlit("AI");
    reveal_strlit("AR");
    reveal_strlit("CC");
    reveal_strlit("CE");
    reveal_strlit("CG");
    reveal_strlit("CL");
    reveal_strlit("CR");
    reveal_strlit("CV");
    reveal_strlit("CY");
    reveal_strlit("DB");
    reveal_strlit("DC");
    reveal_strlit("DL");
    reveal_strlit("DM");
    reveal_strlit("DS");
    reveal_strlit("ET");
    reveal_strlit("FL");
    reveal_strlit("GL");
    reveal_strlit("GR");
    reveal_strlit("GT");
    reveal_strlit("HC");
    reveal_strlit("IR");
    reveal_strlit("IT");
    reveal_strlit("LG");
    reveal_strlit("LO");
    reveal_strlit("MA");
    reveal_strlit("MM");
    reveal_strlit("MS");
    reveal_strlit("NA");
    reveal_strlit("NI");
    reveal_strlit("OH");
    reveal_strlit("OS");
    reveal_strlit("PF");
    reveal_strlit("PL");
    reveal_strlit("RO");
    reveal_strlit("SC");
    reveal_strlit("SD");
    reveal_strlit("SE");
    reveal_strlit("SI");
    reveal_strlit("SY");
}

/// Every code of the math table is made of letters and hyphens.
pub proof fn lemma_math_codes()
    ensures
        forall|i: int| 0 <= i < math_codes().len() ==> is_code(#[trigger] math_codes()[i]@),
{
    reveal_strlit("AC");
    reveal_strlit("AG");
    reveal_strlit("AP");
    reveal_strlit("AT");
    reveal_strlit("CA");
    reveal_strlit("CO");
    reveal_strlit("CT");
    reveal_strlit("CV");
    reveal_strlit("DG");
    reveal_strlit("DS");
    reveal_strlit("FA");
    reveal_strlit("GM");
    reveal_strlit("GN");
    reveal_strlit("GR");
    reveal_strlit("GT");
    reveal_strlit("HO");
    reveal_strlit("IT");
    reveal_strlit("KT");
    reveal_strlit("LO");
    reveal_strlit("MG");
    reveal_strlit("MP");
    reveal_strlit("NA");
    reveal_strlit("NT");
    reveal_strlit("OA");
    reveal_strlit("OC");
    reveal_strlit("PR");
    reveal_strlit("QA");
    reveal_strlit("RA");
    reveal_strlit("RT");
    reveal_strlit("SG");
    reveal_strlit("SP");
    reveal_strlit("ST");
}

/// Every code of the physics table is made of letters and hyphens.
pub proof fn lemma_physics_codes()
    ensures
        forall|i: int| 0 <= i < physics_codes().len() ==> is_code(#[trigger] physics_codes()[i]@),
{
    reveal_strlit("acc-ph");
    reveal_strlit("ao-ph");
    reveal_strlit("app-ph");
    reveal_strlit("atm-clus");
    reveal_strlit("atom-ph");
    reveal_strlit("bio-ph");
    reveal_strlit("chem-ph");
    reveal_strlit("class-ph");
    reveal_strlit("comp-ph");
    reveal_strlit("data-an");
    reveal_strlit("ed-pn");
    reveal_strlit("flu-dyn");
    reveal_strlit("gen-ph");
    reveal_strlit("geo-ph");
    reveal_strlit("hist-ph");
    reveal_strlit("ins-det");
    reveal_strlit("med-ph");
    reveal_strlit("optics");
    reveal_strlit("plasm-ph");
    reveal_strlit("pop-ph");
    reveal_strlit("soc-ph");
    reveal_strlit("space-ph");
}

} // verus!
