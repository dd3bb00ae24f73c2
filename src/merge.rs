//! The per-field merge policy, and the merge of one side's field list.
use vstd::prelude::*;
use crate::model::{Field, FieldV, FieldsV, fields_view, opt_str};
use crate::fields::{field_index, lookup, find_field, lookup_field, clone_opt_str};

verus! {

/// The merge policy's verdict on one reconcilable field.
#[derive(PartialEq, Eq, Structural, Clone, Copy, Debug)]
pub enum Decision {
    /// Both unset, or both set to equal values.
    Noop,
    /// Only the remote side is set: the local side adopts it once.
    SeedLocal,
    /// Only the local side is set: the remote side adopts it once.
    SeedRemote,
    /// Both set and unequal, resolved for the remote side: the local side adopts
    /// its value and the remote side's timestamp advances.
    PullResolved,
    /// Both set and unequal, resolved for the local side.
    PushResolved,
    /// Equal timestamps, differing values and no force flag.
    Conflict,
}

/// The per-pass inputs of the merge policy.
#[derive(Clone, Copy)]
pub struct MergeContext {
    pub local_ts: Option<u64>,
    pub remote_ts: Option<u64>,
    pub force_push: bool,
    pub force_pull: bool,
}

/// An absent timestamp is older than any present one.
pub open spec fn ts_rank(t: Option<u64>) -> int {
    match t {
        Some(x) => x as int,
        None => -1,
    }
}

pub open spec fn decide(l: Option<Seq<char>>, r: Option<Seq<char>>, c: MergeContext) -> Decision {
    match (l, r) {
        (None, None) => Decision::Noop,
        (None, Some(_)) => Decision::SeedLocal,
        (Some(_), None) => Decision::SeedRemote,
        (Some(a), Some(b)) => if a == b {
            Decision::Noop
        } else if c.force_pull {
            Decision::PullResolved
        } else if c.force_push {
            Decision::PushResolved
        } else if ts_rank(c.remote_ts) > ts_rank(c.local_ts) {
            Decision::PullResolved
        } else if ts_rank(c.local_ts) > ts_rank(c.remote_ts) {
            Decision::PushResolved
        } else {
            Decision::Conflict
        },
    }
}

/// The decision for key `k`, given the local and the remote field lists. A
/// key that is static on either side (`fixed`) is never merged.
pub open spec fn decide_key(k: Seq<char>, local: FieldsV, remote: FieldsV, c: MergeContext, fixed: Seq<Seq<char>>) -> Decision {
    if fixed.contains(k) {
        Decision::Noop
    } else {
        decide(lookup(local, k), lookup(remote, k), c)
    }
}

/// Whether the side (local when `to_local`) takes over the other side's value.
pub open spec fn adopts(d: Decision, to_local: bool) -> bool {
    if to_local {
        d == Decision::SeedLocal || d == Decision::PullResolved
    } else {
        d == Decision::SeedRemote || d == Decision::PushResolved
    }
}

/// Whether the side is a destination of the decision (its value or its
/// timestamp changes).
pub open spec fn touches(d: Decision, to_local: bool) -> bool {
    adopts(d, to_local) || d == Decision::PullResolved || d == Decision::PushResolved
}

pub open spec fn side_decision(k: Seq<char>, mine: FieldsV, theirs: FieldsV, c: MergeContext, fixed: Seq<Seq<char>>, to_local: bool) -> Decision {
    if to_local {
        decide_key(k, mine, theirs, c, fixed)
    } else {
        decide_key(k, theirs, mine, c, fixed)
    }
}

/// One entry of this side after the merge: it keeps its value unless the side
/// adopts the other side's value.
pub open spec fn entry_after(e: FieldV, mine: FieldsV, theirs: FieldsV, c: MergeContext, fixed: Seq<Seq<char>>, to_local: bool) -> FieldV {
    if adopts(side_decision(e.0, mine, theirs, c, fixed, to_local), to_local) {
        (e.0, lookup(theirs, e.0))
    } else {
        e
    }
}

/// The entries of `part` (a prefix of `mine`) after the merge: a field keeps
/// its value unless the side adopts the other side's value.
pub open spec fn side_entries(part: FieldsV, mine: FieldsV, theirs: FieldsV, c: MergeContext, fixed: Seq<Seq<char>>, to_local: bool) -> FieldsV
    decreases part.len(),
{
    if part.len() == 0 {
        seq![]
    } else {
        side_entries(part.drop_last(), mine, theirs, c, fixed, to_local).push(
            entry_after(part.last(), mine, theirs, c, fixed, to_local),
        )
    }
}

/// The keys of `part` whose merge has this side as a destination.
pub open spec fn side_keys(part: FieldsV, mine: FieldsV, theirs: FieldsV, c: MergeContext, fixed: Seq<Seq<char>>, to_local: bool) -> Seq<Seq<char>>
    decreases part.len(),
{
    if part.len() == 0 {
        seq![]
    } else {
        let e = part.last();
        let rest = side_keys(part.drop_last(), mine, theirs, c, fixed, to_local);
        if touches(side_decision(e.0, mine, theirs, c, fixed, to_local), to_local) {
            rest.push(e.0)
        } else {
            rest
        }
    }
}

/// The entries of `part` (a prefix of `theirs`) that are seeded into `mine`:
/// set on the other side, not static, and with no entry of their key on this
/// side.
pub open spec fn seed_entries(part: FieldsV, theirs: FieldsV, mine: FieldsV, fixed: Seq<Seq<char>>) -> FieldsV
    decreases part.len(),
{
    if part.len() == 0 {
        seq![]
    } else {
        let k = part.last().0;
        let rest = seed_entries(part.drop_last(), theirs, mine, fixed);
        if field_index(mine, k) < 0 && lookup(theirs, k) is Some && !fixed.contains(k) {
            rest.push((k, lookup(theirs, k)))
        } else {
            rest
        }
    }
}

pub open spec fn keys_of(s: FieldsV) -> Seq<Seq<char>> {
    s.map_values(|e: FieldV| e.0)
}

/// This side's field list after the merge.
pub open spec fn merged_fields(mine: FieldsV, theirs: FieldsV, c: MergeContext, fixed: Seq<Seq<char>>, to_local: bool) -> FieldsV {
    side_entries(mine, mine, theirs, c, fixed, to_local) + seed_entries(theirs, theirs, mine, fixed)
}

/// The keys of the fields that the merge changes on this side, in order.
pub open spec fn merged_keys(mine: FieldsV, theirs: FieldsV, c: MergeContext, fixed: Seq<Seq<char>>, to_local: bool) -> Seq<Seq<char>> {
    side_keys(mine, mine, theirs, c, fixed, to_local) + keys_of(seed_entries(theirs, theirs, mine, fixed))
}

/// The merge policy for one field.
pub fn merge_decision(l: &Option<String>, r: &Option<String>, c: MergeContext) -> (d: Decision)
    ensures
        d == decide(opt_str(*l), opt_str(*r), c),
{
    match (l, r) {
        (None, None) => Decision::Noop,
        (None, Some(_)) => Decision::SeedLocal,
        (Some(_), None) => Decision::SeedRemote,
        (Some(a), Some(b)) => {
            if *a == *b {
                Decision::Noop
            } else if c.force_pull {
                Decision::PullResolved
            } else if c.force_push {
                Decision::PushResolved
            } else if newer(c.remote_ts, c.local_ts) {
                Decision::PullResolved
            } else if newer(c.local_ts, c.remote_ts) {
                Decision::PushResolved
            } else {
                Decision::Conflict
            }
        },
    }
}

/// Whether timestamp `a` is strictly newer than `b`.
pub fn newer(a: Option<u64>, b: Option<u64>) -> (r: bool)
    ensures
        r == (ts_rank(a) > ts_rank(b)),
{
    match (a, b) {
        (Some(x), Some(y)) => x > y,
        (Some(_), None) => true,
        (None, _) => false,
    }
}

fn adopts_exec(d: Decision, to_local: bool) -> (r: bool)
    ensures
        r == adopts(d, to_local),
{
    if to_local {
        d == Decision::SeedLocal || d == Decision::PullResolved
    } else {
        d == Decision::SeedRemote || d == Decision::PushResolved
    }
}

fn touches_exec(d: Decision, to_local: bool) -> (r: bool)
    ensures
        r == touches(d, to_local),
{
    adopts_exec(d, to_local) || d == Decision::PullResolved || d == Decision::PushResolved
}

pub open spec fn strs(v: Seq<String>) -> Seq<Seq<char>> {
    v.map_values(|s: String| s@)
}

/// Whether `k` is one of `keys`.
pub fn contains_key(keys: &Vec<String>, k: &String) -> (r: bool)
    ensures
        r == strs(keys@).contains(k@),
{
    let mut i: usize = 0;
    while i < keys.len()
        invariant
            i <= keys.len(),
            forall|j: int| 0 <= j < i ==> strs(keys@)[j] != k@,
        decreases keys.len() - i,
    {
        if keys[i] == *k {
            assert(strs(keys@)[i as int] == k@);
            return true;
        }
        i = i + 1;
    }
    false
}

/// Merges one side: returns its new field list and the keys of the fields
/// that changed on it. `to_local` says whether `mine` is the local side.
pub fn merge_side(
    mine: &Vec<Field>,
    theirs: &Vec<Field>,
    c: MergeContext,
    fixed: &Vec<String>,
    to_local: bool,
) -> (r: (Vec<Field>, Vec<String>))
    ensures
        fields_view(r.0@) == merged_fields(fields_view(mine@), fields_view(theirs@), c, strs(fixed@), to_local),
        r.1@.map_values(|s: String| s@) == merged_keys(fields_view(mine@), fields_view(theirs@), c, strs(fixed@), to_local),
{
    let ghost m = fields_view(mine@);
    let ghost t = fields_view(theirs@);
    let ghost fx = strs(fixed@);
    let mut out: Vec<Field> = Vec::new();
    let mut keys: Vec<String> = Vec::new();
    let mut i: usize = 0;
    while i < mine.len()
        invariant
            i <= mine.len(),
            m == fields_view(mine@),
            t == fields_view(theirs@),
            fx == strs(fixed@),
            fields_view(out@) == side_entries(m.take(i as int), m, t, c, fx, to_local),
            keys@.map_values(|s: String| s@) == side_keys(m.take(i as int), m, t, c, fx, to_local),
        decreases mine.len() - i,
    {
        let key = &mine[i].key;
        let mv = lookup_field(mine, key);
        let tv = lookup_field(theirs, key);
        let d = if contains_key(fixed, key) {
            Decision::Noop
        } else if to_local {
            merge_decision(&mv, &tv, c)
        } else {
            merge_decision(&tv, &mv, c)
        };
        let value = if adopts_exec(d, to_local) {
            tv
        } else {
            clone_opt_str(&mine[i].value)
        };
        assert(m.take(i + 1).drop_last() =~= m.take(i as int));
        let ghost prev_out = out@;
        let ghost prev_keys = keys@;
        let f = Field { key: key.clone(), value };
        out.push(f);
        assert(out@ =~= prev_out.push(f));
        assert(fields_view(out@) =~= fields_view(prev_out).push(f@));
        if touches_exec(d, to_local) {
            let k = key.clone();
            keys.push(k);
            assert(keys@ =~= prev_keys.push(k));
            assert(keys@.map_values(|s: String| s@) =~= prev_keys.map_values(|s: String| s@).push(k@));
        }
        i = i + 1;
    }
    assert(m.take(mine.len() as int) =~= m);
    let ghost side_out = fields_view(out@);
    let ghost side_k = keys@.map_values(|s: String| s@);
    let mut j: usize = 0;
    while j < theirs.len()
        invariant
            j <= theirs.len(),
            m == fields_view(mine@),
            t == fields_view(theirs@),
            fx == strs(fixed@),
            fields_view(out@) == side_out + seed_entries(t.take(j as int), t, m, fx),
            keys@.map_values(|s: String| s@) == side_k + keys_of(seed_entries(t.take(j as int), t, m, fx)),
        decreases theirs.len() - j,
    {
        let key = &theirs[j].key;
        assert(t.take(j + 1).drop_last() =~= t.take(j as int));
        let ghost seeds = seed_entries(t.take(j as int), t, m, fx);
        if find_field(mine, key).is_none() && !contains_key(fixed, key) {
            let tv = lookup_field(theirs, key);
            if tv.is_some() {
                let ghost prev_out = out@;
                let ghost prev_keys = keys@;
                let f = Field { key: key.clone(), value: tv };
                out.push(f);
                assert(out@ =~= prev_out.push(f));
                assert(fields_view(out@) =~= fields_view(prev_out).push(f@));
                assert(seed_entries(t.take(j + 1), t, m, fx) == seeds.push(f@));
                assert(fields_view(out@) =~= side_out + seeds.push(f@));
                let k = key.clone();
                keys.push(k);
                assert(keys@ =~= prev_keys.push(k));
                assert(keys@.map_values(|s: String| s@) =~= prev_keys.map_values(|s: String| s@).push(k@));
                assert(keys_of(seeds.push(f@)) =~= keys_of(seeds).push(k@));
            }
        }
        j = j + 1;
    }
    assert(t.take(theirs.len() as int) =~= t);
    (out, keys)
}

} // verus!
