//! Which printer a profile belongs to.
use vstd::prelude::*;
use crate::model::{ErrorV, LocalProfile, ProfileV, ReconcileError, StaticField, opt_str};

verus! {

/// Number of `@` characters in `s`.
pub open spec fn count_at(s: Seq<char>) -> nat
    decreases s.len(),
{
    if s.len() == 0 {
        0
    } else {
        count_at(s.drop_last()) + if s.last() == '@' { 1nat } else { 0nat }
    }
}

/// Position of the last `@` in `s`, or -1.
pub open spec fn last_at(s: Seq<char>) -> int
    decreases s.len(),
{
    if s.len() == 0 {
        -1
    } else if s.last() == '@' {
        s.len() - 1
    } else {
        last_at(s.drop_last())
    }
}

/// What the `@Printer` suffix of a name says.
pub ghost enum SuffixV {
    Absent,
    One(Seq<char>),
    Many,
}

pub open spec fn suffix_of(s: Seq<char>) -> SuffixV {
    if count_at(s) == 0 {
        SuffixV::Absent
    } else if count_at(s) >= 2 {
        SuffixV::Many
    } else if last_at(s) + 1 == s.len() {
        SuffixV::Absent
    } else {
        SuffixV::One(s.subrange(last_at(s) + 1, s.len() as int))
    }
}

pub open spec fn suffix_of_opt(s: Option<Seq<char>>) -> SuffixV {
    match s {
        Some(x) => suffix_of(x),
        None => SuffixV::Absent,
    }
}

/// Index of the last static field with key `k`, or -1.
pub open spec fn static_index(s: Seq<(Seq<char>, Seq<Seq<char>>)>, k: Seq<char>) -> int
    decreases s.len(),
{
    if s.len() == 0 {
        -1
    } else if s.last().0 == k {
        s.len() - 1
    } else {
        static_index(s.drop_last(), k)
    }
}

pub proof fn lemma_static_index_range(s: Seq<(Seq<char>, Seq<Seq<char>>)>, k: Seq<char>)
    ensures
        -1 <= static_index(s, k) < s.len(),
    decreases s.len(),
{
    if s.len() > 0 {
        lemma_static_index_range(s.drop_last(), k);
    }
}

pub open spec fn compatible_key() -> Seq<char> {
    "compatible_printers"@
}

/// The printer named by the `compatible_printers` static field.
pub open spec fn resolve_compatible(s: Seq<(Seq<char>, Seq<Seq<char>>)>) -> Result<Seq<char>, ErrorV> {
    let i = static_index(s, compatible_key());
    if i < 0 {
        Err(ErrorV::NoPrinter)
    } else if s[i].1.len() == 1 {
        Ok(s[i].1[0])
    } else if s[i].1.len() == 0 {
        Err(ErrorV::NoPrinter)
    } else {
        Err(ErrorV::AmbiguousPrinter)
    }
}

/// The printer a profile belongs to: the explicit id in its notes, else the
/// `@Printer` suffix of its name, else that of its id, else the single entry
/// of `compatible_printers`.
pub open spec fn resolve(p: ProfileV) -> Result<Seq<char>, ErrorV> {
    match p.notes.printer_id {
        Some(x) => Ok(x),
        None => match suffix_of_opt(p.name) {
            SuffixV::One(x) => Ok(x),
            SuffixV::Many => Err(ErrorV::AmbiguousPrinter),
            SuffixV::Absent => match suffix_of_opt(p.id) {
                SuffixV::One(x) => Ok(x),
                SuffixV::Many => Err(ErrorV::AmbiguousPrinter),
                SuffixV::Absent => resolve_compatible(p.static_fields),
            },
        },
    }
}

/// What the `@Printer` suffix of a name says.
pub enum Suffix {
    Absent,
    One(String),
    Many,
}

impl View for Suffix {
    type V = SuffixV;

    open spec fn view(&self) -> SuffixV {
        match self {
            Suffix::Absent => SuffixV::Absent,
            Suffix::One(s) => SuffixV::One(s@),
            Suffix::Many => SuffixV::Many,
        }
    }
}

/// Reads the `@Printer` suffix of a profile name.
pub fn printer_suffix(s: &str) -> (r: Suffix)
    ensures
        r@ == suffix_of(s@),
{
    let n = s.unicode_len();
    let mut count: usize = 0;
    let mut last: usize = 0;
    let mut i: usize = 0;
    while i < n
        invariant
            n == s@.len(),
            i <= n,
            count <= i,
            count as nat == count_at(s@.take(i as int)),
            count > 0 ==> last as int == last_at(s@.take(i as int)) && last < i,
            count == 0 ==> last_at(s@.take(i as int)) == -1,
        decreases n - i,
    {
        assert(s@.take(i + 1).drop_last() =~= s@.take(i as int));
        if s.get_char(i) == '@' {
            count = count + 1;
            last = i;
        }
        i = i + 1;
    }
    assert(s@.take(n as int) =~= s@);
    if count == 0 {
        Suffix::Absent
    } else if count >= 2 {
        Suffix::Many
    } else if last + 1 == n {
        Suffix::Absent
    } else {
        Suffix::One(String::from_str(s.substring_char(last + 1, n)))
    }
}

fn suffix_of_name(s: &Option<String>) -> (r: Suffix)
    ensures
        r@ == suffix_of_opt(opt_str(*s)),
{
    match s {
        Some(x) => printer_suffix(x.as_str()),
        None => Suffix::Absent,
    }
}

fn find_static(s: &Vec<StaticField>, k: &String) -> (r: Option<usize>)
    ensures
        match r {
            Some(i) => static_index(s@.map_values(|f: StaticField| f@), k@) == i as int && i < s.len(),
            None => static_index(s@.map_values(|f: StaticField| f@), k@) < 0,
        },
{
    let ghost v = s@.map_values(|f: StaticField| f@);
    let mut i: usize = s.len();
    assert(v.take(i as int) =~= v);
    while i > 0
        invariant
            i <= s.len(),
            v == s@.map_values(|f: StaticField| f@),
            static_index(v, k@) == static_index(v.take(i as int), k@),
        decreases i,
    {
        assert(v.take(i as int).drop_last() =~= v.take(i - 1));
        if s[i - 1].key == *k {
            return Some(i - 1);
        }
        i = i - 1;
    }
    None
}

/// Determines the printer a profile belongs to.
pub fn resolve_printer(p: &LocalProfile) -> (r: Result<String, ReconcileError>)
    ensures
        match r {
            Ok(s) => resolve(p@) == Ok::<Seq<char>, ErrorV>(s@),
            Err(e) => resolve(p@) == Err::<Seq<char>, ErrorV>(e@),
        },
{
    if let Some(x) = &p.notes.printer_id {
        return Ok(x.clone());
    }
    match suffix_of_name(&p.name) {
        Suffix::One(x) => return Ok(x),
        Suffix::Many => return Err(ReconcileError::AmbiguousPrinter),
        Suffix::Absent => {},
    }
    match suffix_of_name(&p.id) {
        Suffix::One(x) => return Ok(x),
        Suffix::Many => return Err(ReconcileError::AmbiguousPrinter),
        Suffix::Absent => {},
    }
    let key = String::from_str("compatible_printers");
    let ghost sv = p.static_fields@.map_values(|f: StaticField| f@);
    match find_static(&p.static_fields, &key) {
        None => Err(ReconcileError::NoPrinter),
        Some(i) => {
            proof {
                lemma_static_index_range(sv, key@);
            }
            let values = &p.static_fields[i].values;
            assert(sv[i as int].1 == values@.map_values(|s: String| s@));
            if values.len() == 1 {
                Ok(values[0].clone())
            } else if values.len() == 0 {
                Err(ReconcileError::NoPrinter)
            } else {
                Err(ReconcileError::AmbiguousPrinter)
            }
        },
    }
}

} // verus!
