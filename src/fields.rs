//! Field lists read as maps: the last entry of a key gives its value.
use vstd::prelude::*;
use crate::model::{Field, FieldV, FieldsV, fields_view, opt_str};

verus! {

/// Index of the last entry whose key is `k`, or -1 when there is none.
pub open spec fn field_index(s: FieldsV, k: Seq<char>) -> int
    decreases s.len(),
{
    if s.len() == 0 {
        -1
    } else if s.last().0 == k {
        s.len() - 1
    } else {
        field_index(s.drop_last(), k)
    }
}

/// The value of key `k`: unset when the key is absent. A later entry
/// shadows an earlier one of the same key.
pub open spec fn lookup(s: FieldsV, k: Seq<char>) -> Option<Seq<char>> {
    let i = field_index(s, k);
    if i < 0 {
        None
    } else {
        s[i].1
    }
}

pub proof fn lemma_field_index_range(s: FieldsV, k: Seq<char>)
    ensures
        -1 <= field_index(s, k) < s.len(),
        field_index(s, k) >= 0 ==> s[field_index(s, k)].0 == k,
        field_index(s, k) < 0 <==> (forall|j: int| 0 <= j < s.len() ==> s[j].0 != k),
    decreases s.len(),
{
    if s.len() > 0 {
        lemma_field_index_range(s.drop_last(), k);
        if s.last().0 != k {
            assert forall|j: int| 0 <= j < s.len() - 1 implies s[j] == s.drop_last()[j] by {}
        }
    }
}

pub fn clone_opt_str(o: &Option<String>) -> (r: Option<String>)
    ensures
        opt_str(r) == opt_str(*o),
{
    match o {
        Some(s) => Some(s.clone()),
        None => None,
    }
}

pub fn clone_field(f: &Field) -> (r: Field)
    ensures
        r@ == f@,
{
    Field { key: f.key.clone(), value: clone_opt_str(&f.value) }
}

/// Returns the index of the last entry with key `k`.
pub fn find_field(s: &Vec<Field>, k: &String) -> (r: Option<usize>)
    ensures
        match r {
            Some(i) => field_index(fields_view(s@), k@) == i as int,
            None => field_index(fields_view(s@), k@) < 0,
        },
{
    let ghost v = fields_view(s@);
    let mut i: usize = s.len();
    assert(v.take(i as int) =~= v);
    while i > 0
        invariant
            i <= s.len(),
            v == fields_view(s@),
            field_index(v, k@) == field_index(v.take(i as int), k@),
        decreases i,
    {
        let ghost t = v.take(i as int);
        assert(t.drop_last() =~= v.take(i - 1));
        if s[i - 1].key == *k {
            proof {
                lemma_field_index_range(t, k@);
            }
            return Some(i - 1);
        }
        i = i - 1;
    }
    assert(v.take(0).len() == 0);
    None
}

/// Returns the value stored under `k`, unset when the key is absent.
pub fn lookup_field(s: &Vec<Field>, k: &String) -> (r: Option<String>)
    ensures
        opt_str(r) == lookup(fields_view(s@), k@),
{
    match find_field(s, k) {
        Some(i) => {
            proof {
                lemma_field_index_range(fields_view(s@), k@);
            }
            clone_opt_str(&s[i].value)
        },
        None => None,
    }
}

pub fn opt_str_eq(a: &Option<String>, b: &Option<String>) -> (r: bool)
    ensures
        r == (opt_str(*a) == opt_str(*b)),
{
    match (a, b) {
        (Some(x), Some(y)) => *x == *y,
        (None, None) => true,
        _ => false,
    }
}

/// Entry-wise equality of two field lists.
pub fn fields_eq(a: &Vec<Field>, b: &Vec<Field>) -> (r: bool)
    ensures
        r == (fields_view(a@) == fields_view(b@)),
{
    if a.len() != b.len() {
        assert(fields_view(a@).len() != fields_view(b@).len());
        return false;
    }
    let mut i: usize = 0;
    while i < a.len()
        invariant
            a.len() == b.len(),
            i <= a.len(),
            forall|j: int| 0 <= j < i ==> a@[j]@ == b@[j]@,
        decreases a.len() - i,
    {
        if !(a[i].key == b[i].key && opt_str_eq(&a[i].value, &b[i].value)) {
            assert(fields_view(a@)[i as int] != fields_view(b@)[i as int]);
            return false;
        }
        i = i + 1;
    }
    assert(fields_view(a@) =~= fields_view(b@));
    true
}

pub fn clone_fields(v: &Vec<Field>) -> (r: Vec<Field>)
    ensures
        fields_view(r@) == fields_view(v@),
{
    let mut r: Vec<Field> = Vec::new();
    let mut i: usize = 0;
    while i < v.len()
        invariant
            i <= v.len(),
            fields_view(r@) == fields_view(v@).take(i as int),
        decreases v.len() - i,
    {
        let ghost prev = r@;
        let f = clone_field(&v[i]);
        r.push(f);
        assert(r@ =~= prev.push(f));
        assert(fields_view(r@) =~= fields_view(prev).push(f@));
        assert(fields_view(r@) =~= fields_view(v@).take(i + 1));
        i = i + 1;
    }
    assert(fields_view(v@).take(v.len() as int) =~= fields_view(v@));
    r
}

} // verus!
