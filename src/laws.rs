//! Properties that every reconciliation pass has.
use vstd::prelude::*;
use crate::model::{FieldsV, NotesV, OutcomeV, PoolV, ProfileV, RecordV, StatusV};
use crate::fields::{field_index, lookup, lemma_field_index_range};
use crate::merge::{
    Decision, MergeContext, ts_rank, adopts, merged_fields, merged_keys, keys_of, decide, decide_key, entry_after, seed_entries, side_decision,
    side_entries, side_keys, touches,
};
use crate::engine::{
    context, fixed_keys, force_set, stamp, status_of, conflict_index, flag, pool_put, printer_index, record_of, reconcile_spec,
    lemma_printer_index_range,
};
use crate::printer::resolve;

verus! {

// ---- lemmas on the merge's sequence functions ----

pub proof fn lemma_side_entries_index(part: FieldsV, mine: FieldsV, theirs: FieldsV, c: MergeContext, fx: Seq<Seq<char>>, tl: bool)
    ensures
        side_entries(part, mine, theirs, c, fx, tl).len() == part.len(),
        forall|i: int|
            0 <= i < part.len() ==> #[trigger] side_entries(part, mine, theirs, c, fx, tl)[i] == entry_after(
                part[i],
                mine,
                theirs,
                c,
                fx,
                tl,
            ),
    decreases part.len(),
{
    if part.len() > 0 {
        lemma_side_entries_index(part.drop_last(), mine, theirs, c, fx, tl);
        assert forall|i: int| 0 <= i < part.len() - 1 implies part.drop_last()[i] == part[i] by {}
    }
}

pub proof fn lemma_side_keys_empty(part: FieldsV, mine: FieldsV, theirs: FieldsV, c: MergeContext, fx: Seq<Seq<char>>, tl: bool)
    ensures
        side_keys(part, mine, theirs, c, fx, tl).len() == 0 <==> (forall|i: int|
            0 <= i < part.len() ==> !touches(side_decision(#[trigger] part[i].0, mine, theirs, c, fx, tl), tl)),
    decreases part.len(),
{
    if part.len() > 0 {
        lemma_side_keys_empty(part.drop_last(), mine, theirs, c, fx, tl);
        assert forall|i: int| 0 <= i < part.len() - 1 implies part.drop_last()[i] == part[i] by {}
        if side_keys(part, mine, theirs, c, fx, tl).len() == 0 {
            assert forall|i: int| 0 <= i < part.len() implies !touches(
                side_decision(#[trigger] part[i].0, mine, theirs, c, fx, tl),
                tl,
            ) by {
                if i < part.len() - 1 {
                    assert(part.drop_last()[i] == part[i]);
                }
            }
        }
    }
}

pub proof fn lemma_seed_empty(part: FieldsV, theirs: FieldsV, mine: FieldsV, fx: Seq<Seq<char>>)
    requires
        forall|i: int|
            0 <= i < part.len() ==> field_index(mine, #[trigger] part[i].0) < 0 && !fx.contains(part[i].0) ==> lookup(
                theirs,
                part[i].0,
            ) is None,
    ensures
        seed_entries(part, theirs, mine, fx).len() == 0,
    decreases part.len(),
{
    if part.len() > 0 {
        assert forall|i: int| 0 <= i < part.len() - 1 implies part.drop_last()[i] == part[i] by {}
        lemma_seed_empty(part.drop_last(), theirs, mine, fx);
        assert(part[part.len() - 1] == part.last());
    }
}

pub proof fn lemma_no_conflict(part: FieldsV, local: FieldsV, remote: FieldsV, c: MergeContext, fx: Seq<Seq<char>>)
    requires
        forall|i: int| 0 <= i < part.len() ==> decide_key(#[trigger] part[i].0, local, remote, c, fx) != Decision::Conflict,
    ensures
        conflict_index(part, local, remote, c, fx) == -1,
    decreases part.len(),
{
    if part.len() > 0 {
        assert forall|i: int| 0 <= i < part.len() - 1 implies part.drop_last()[i] == part[i] by {}
        lemma_no_conflict(part.drop_last(), local, remote, c, fx);
        assert(part[part.len() - 1] == part.last());
    }
}

pub proof fn lemma_put_then_lookup(pool: PoolV, s: Seq<(Seq<char>, RecordV)>, id: Seq<char>, rec: RecordV)
    ensures
        record_of(PoolV { printers: pool_put(s, id, rec), ..pool }, id) == rec,
{
    lemma_printer_index_range(s, id);
    let i = printer_index(s, id);
    if i >= 0 {
        lemma_index_after_update(s, id, i, rec);
    }
}

proof fn lemma_index_after_update(s: Seq<(Seq<char>, RecordV)>, id: Seq<char>, i: int, rec: RecordV)
    requires
        0 <= i < s.len(),
        printer_index(s, id) == i,
    ensures
        printer_index(s.update(i, (id, rec)), id) == i,
    decreases s.len(),
{
    let u = s.update(i, (id, rec));
    if i < s.len() - 1 {
        assert(u.drop_last() =~= s.drop_last().update(i, (id, rec)));
        lemma_index_after_update(s.drop_last(), id, i, rec);
    }
}

// ---- laws ----

/// A profile whose `errors` log is non-empty is sealed: a pass changes no
/// field of the profile or of the pool.
pub proof fn law_error_sealing(p: ProfileV, pool: PoolV, now: u64)
    requires
        p.notes.errors.len() > 0,
    ensures
        reconcile_spec(p, pool, now) == (p, pool, OutcomeV::Sealed),
{
}

/// Static fields and the pool's overrides are the same before and after any
/// pass, whatever the merge decides elsewhere.
pub proof fn law_static_fields_kept(p: ProfileV, pool: PoolV, now: u64)
    ensures
        reconcile_spec(p, pool, now).0.static_fields == p.static_fields,
        reconcile_spec(p, pool, now).1.overrides == pool.overrides,
{
}

/// A dry run leaves the reconcilable fields and the pool as they were; a
/// completed dry run changes only the previews and the status in the notes.
pub proof fn law_dry_run_pure(p: ProfileV, pool: PoolV, now: u64)
    requires
        flag(p.notes.dry_run),
    ensures
        reconcile_spec(p, pool, now).0.fields == p.fields,
        reconcile_spec(p, pool, now).1 == pool,
        reconcile_spec(p, pool, now).2 is Applied ==> ({
            let q = reconcile_spec(p, pool, now).0;
            ProfileV {
                notes: NotesV {
                    desired_local: p.notes.desired_local,
                    desired_remote: p.notes.desired_remote,
                    status: p.notes.status,
                    ..q.notes
                },
                ..q
            } == p
        }),
{
}

/// Both sides agree on every key that is not static: no such field is set
/// on one side only, and no two values differ.
pub open spec fn fields_agree(l: FieldsV, r: FieldsV, fx: Seq<Seq<char>>) -> bool {
    forall|k: Seq<char>| !fx.contains(k) ==> #[trigger] lookup(l, k) == lookup(r, k)
}

/// A merge of two agreeing field lists changes nothing, and reports `Noop`.
pub proof fn lemma_agreeing_merge(l: FieldsV, r: FieldsV, c: MergeContext, fx: Seq<Seq<char>>)
    requires
        fields_agree(l, r, fx),
    ensures
        conflict_index(l, l, r, c, fx) == -1,
        merged_fields(l, r, c, fx, true) == l,
        merged_fields(r, l, c, fx, false) == r,
        status_of(merged_keys(l, r, c, fx, true), merged_keys(r, l, c, fx, false)) == StatusV::Noop,
{
    assert forall|k: Seq<char>| #[trigger] decide_key(k, l, r, c, fx) == Decision::Noop by {
        if !fx.contains(k) {
            assert(lookup(l, k) == lookup(r, k));
        }
    }
    lemma_no_conflict(l, l, r, c, fx);
    lemma_side_keys_empty(l, l, r, c, fx, true);
    lemma_side_keys_empty(r, r, l, c, fx, false);
    lemma_side_entries_index(l, l, r, c, fx, true);
    lemma_side_entries_index(r, r, l, c, fx, false);
    assert forall|i: int| 0 <= i < l.len() && field_index(r, #[trigger] l[i].0) < 0 && !fx.contains(l[i].0) implies lookup(l, l[i].0) is None by {
        assert(lookup(l, l[i].0) == lookup(r, l[i].0));
    }
    assert forall|i: int| 0 <= i < r.len() && field_index(l, #[trigger] r[i].0) < 0 && !fx.contains(r[i].0) implies lookup(r, r[i].0) is None by {
        assert(lookup(l, r[i].0) == lookup(r, r[i].0));
    }
    lemma_seed_empty(l, l, r, fx);
    lemma_seed_empty(r, r, l, fx);
    assert(side_entries(l, l, r, c, fx, true) =~= l);
    assert(side_entries(r, r, l, c, fx, false) =~= r);
    assert(merged_fields(l, r, c, fx, true) =~= l);
    assert(merged_fields(r, l, c, fx, false) =~= r);
    assert(keys_of(seed_entries(r, r, l, fx)).len() == 0);
    assert(keys_of(seed_entries(l, l, r, fx)).len() == 0);
}

/// A converged (profile, pool) pair: the profile carries no error, resolves
/// to a printer, has not both force flags set, and agrees with that
/// printer's record on every field that is not static.
pub open spec fn converged(p: ProfileV, pool: PoolV) -> bool {
    &&& p.notes.errors.len() == 0
    &&& resolve(p) is Ok
    &&& !(flag(p.notes.force_push) && flag(p.notes.force_pull))
    &&& fields_agree(p.fields, record_of(pool, resolve(p)->Ok_0).fields, fixed_keys(p, pool))
}

/// Reconciling a converged pair reports `Noop` and leaves the pool as it was;
/// outside a dry run it writes the profile only to spend a force flag. A
/// second pass then changes nothing on either side and asks for no write.
pub proof fn law_idempotent(p: ProfileV, pool: PoolV, t1: u64, t2: u64)
    requires
        converged(p, pool),
    ensures
        ({
            let (p1, pool1, o1) = reconcile_spec(p, pool, t1);
            let (p2, pool2, o2) = reconcile_spec(p1, pool1, t2);
            &&& pool1 == pool
            &&& o1 is Applied && o1->status == StatusV::Noop
            &&& !flag(p.notes.dry_run) ==> o1 == OutcomeV::Applied {
                status: StatusV::Noop,
                write_local: force_set(p.notes),
                write_remote: false,
            }
            &&& !flag(p.notes.dry_run) && !force_set(p.notes) ==> p1 == p
            &&& p2 == p1
            &&& pool2 == pool1
            &&& o2 == OutcomeV::Applied { status: StatusV::Noop, write_local: false, write_remote: false }
        }),
{
    let id = resolve(p)->Ok_0;
    let rec = record_of(pool, id);
    lemma_agreeing_merge(p.fields, rec.fields, context(p.notes, rec), fixed_keys(p, pool));
    let p1 = reconcile_spec(p, pool, t1).0;
    assert(resolve(p1) == resolve(p));
    assert(fixed_keys(p1, pool) == fixed_keys(p, pool));
    lemma_agreeing_merge(p1.fields, rec.fields, context(p1.notes, rec), fixed_keys(p1, pool));
}

/// A pass over a converged pair with no force flag and no dry run changes
/// nothing and asks for no write.
pub proof fn lemma_quiet_pass(p: ProfileV, pool: PoolV, now: u64)
    requires
        converged(p, pool),
        !force_set(p.notes),
        !flag(p.notes.dry_run),
    ensures
        reconcile_spec(p, pool, now) == (
            p,
            pool,
            OutcomeV::Applied { status: StatusV::Noop, write_local: false, write_remote: false },
        ),
{
    let rec = record_of(pool, resolve(p)->Ok_0);
    lemma_agreeing_merge(p.fields, rec.fields, context(p.notes, rec), fixed_keys(p, pool));
}

proof fn lemma_field_index_concat(a: FieldsV, b: FieldsV, k: Seq<char>)
    ensures
        field_index(a + b, k) == if field_index(b, k) >= 0 {
            a.len() + field_index(b, k)
        } else {
            field_index(a, k)
        },
    decreases b.len(),
{
    if b.len() == 0 {
        assert(a + b =~= a);
    } else {
        assert((a + b).drop_last() =~= a + b.drop_last());
        lemma_field_index_concat(a, b.drop_last(), k);
    }
}

proof fn lemma_side_entries_key_index(part: FieldsV, mine: FieldsV, theirs: FieldsV, c: MergeContext, fx: Seq<Seq<char>>, tl: bool, k: Seq<char>)
    ensures
        field_index(side_entries(part, mine, theirs, c, fx, tl), k) == field_index(part, k),
    decreases part.len(),
{
    if part.len() > 0 {
        let s = side_entries(part, mine, theirs, c, fx, tl);
        assert(s.drop_last() =~= side_entries(part.drop_last(), mine, theirs, c, fx, tl));
        assert(s.last() == entry_after(part.last(), mine, theirs, c, fx, tl));
        lemma_side_entries_index(part, mine, theirs, c, fx, tl);
        assert(s.last().0 == part.last().0);
        lemma_side_entries_key_index(part.drop_last(), mine, theirs, c, fx, tl, k);
    }
}

/// The last seeded entry of key `k` carries the other side's value, and a key
/// is seeded exactly when it is set on the other side only and not static.
proof fn lemma_seed_index(part: FieldsV, theirs: FieldsV, mine: FieldsV, fx: Seq<Seq<char>>, k: Seq<char>)
    ensures
        ({
            let s = seed_entries(part, theirs, mine, fx);
            let i = field_index(s, k);
            &&& i >= 0 ==> s[i].1 == lookup(theirs, k) && field_index(mine, k) < 0 && lookup(theirs, k) is Some
                && !fx.contains(k)
            &&& field_index(part, k) >= 0 && field_index(mine, k) < 0 && lookup(theirs, k) is Some
                && !fx.contains(k) ==> i >= 0
        }),
    decreases part.len(),
{
    if part.len() > 0 {
        let rest = seed_entries(part.drop_last(), theirs, mine, fx);
        let kl = part.last().0;
        lemma_seed_index(part.drop_last(), theirs, mine, fx, k);
        lemma_field_index_range(rest, k);
        if field_index(mine, kl) < 0 && lookup(theirs, kl) is Some && !fx.contains(kl) {
            assert(rest.push((kl, lookup(theirs, kl))).drop_last() =~= rest);
        }
    }
}

/// The value of key `k` on one side after a merge: the other side's value
/// where this side adopts it, else this side's own.
pub open spec fn merged_value(k: Seq<char>, mine: FieldsV, theirs: FieldsV, c: MergeContext, fx: Seq<Seq<char>>, tl: bool) -> Option<Seq<char>> {
    if adopts(side_decision(k, mine, theirs, c, fx, tl), tl) {
        lookup(theirs, k)
    } else {
        lookup(mine, k)
    }
}

/// Read as a map, the merged field list of a side holds, for every key, the
/// value that the merge policy gives that key.
pub proof fn lemma_merged_lookup(mine: FieldsV, theirs: FieldsV, c: MergeContext, fx: Seq<Seq<char>>, tl: bool, k: Seq<char>)
    ensures
        lookup(merged_fields(mine, theirs, c, fx, tl), k) == merged_value(k, mine, theirs, c, fx, tl),
{
    let se = side_entries(mine, mine, theirs, c, fx, tl);
    let sd = seed_entries(theirs, theirs, mine, fx);
    lemma_field_index_concat(se, sd, k);
    lemma_side_entries_key_index(mine, mine, theirs, c, fx, tl, k);
    lemma_side_entries_index(mine, mine, theirs, c, fx, tl);
    lemma_seed_index(theirs, theirs, mine, fx, k);
    lemma_field_index_range(mine, k);
    lemma_field_index_range(theirs, k);
    lemma_field_index_range(sd, k);
    if field_index(sd, k) >= 0 {
        assert((se + sd)[se.len() + field_index(sd, k)] == sd[field_index(sd, k)]);
    } else if field_index(mine, k) >= 0 {
        assert((se + sd)[field_index(mine, k)] == se[field_index(mine, k)]);
    }
}

proof fn lemma_conflict_free(part: FieldsV, l: FieldsV, r: FieldsV, c: MergeContext, fx: Seq<Seq<char>>)
    requires
        conflict_index(part, l, r, c, fx) < 0,
    ensures
        forall|i: int| 0 <= i < part.len() ==> decide_key(#[trigger] part[i].0, l, r, c, fx) != Decision::Conflict,
    decreases part.len(),
{
    if part.len() > 0 {
        lemma_conflict_free(part.drop_last(), l, r, c, fx);
        assert forall|i: int| 0 <= i < part.len() - 1 implies part.drop_last()[i] == part[i] by {}
    }
}

/// A merge with no conflict leaves both sides agreeing on every key that is
/// not static.
proof fn lemma_merge_agrees(l: FieldsV, r: FieldsV, c: MergeContext, fx: Seq<Seq<char>>)
    requires
        conflict_index(l, l, r, c, fx) < 0,
    ensures
        fields_agree(merged_fields(l, r, c, fx, true), merged_fields(r, l, c, fx, false), fx),
{
    lemma_conflict_free(l, l, r, c, fx);
    assert forall|k: Seq<char>| !fx.contains(k) implies #[trigger] lookup(merged_fields(l, r, c, fx, true), k)
        == lookup(merged_fields(r, l, c, fx, false), k) by {
        lemma_merged_lookup(l, r, c, fx, true, k);
        lemma_merged_lookup(r, l, c, fx, false, k);
        lemma_field_index_range(l, k);
        if lookup(l, k) is Some {
            assert(decide_key(l[field_index(l, k)].0, l, r, c, fx) != Decision::Conflict);
        }
    }
}

/// A merge that changes nothing on either side, and has no conflict, was
/// over two sides that already agree on every key that is not static.
proof fn lemma_quiet_merge_agrees(l: FieldsV, r: FieldsV, c: MergeContext, fx: Seq<Seq<char>>)
    requires
        conflict_index(l, l, r, c, fx) < 0,
        merged_keys(l, r, c, fx, true).len() == 0,
        merged_keys(r, l, c, fx, false).len() == 0,
    ensures
        fields_agree(l, r, fx),
{
    lemma_conflict_free(l, l, r, c, fx);
    lemma_side_keys_empty(l, l, r, c, fx, true);
    lemma_side_keys_empty(r, r, l, c, fx, false);
    assert forall|k: Seq<char>| !fx.contains(k) implies #[trigger] lookup(l, k) == lookup(r, k) by {
        lemma_field_index_range(l, k);
        lemma_field_index_range(r, k);
        lemma_seed_index(r, r, l, fx, k);
        lemma_seed_index(l, l, r, fx, k);
        lemma_field_index_range(seed_entries(r, r, l, fx), k);
        lemma_field_index_range(seed_entries(l, l, r, fx), k);
        assert(keys_of(seed_entries(r, r, l, fx)).len() == seed_entries(r, r, l, fx).len());
        assert(keys_of(seed_entries(l, l, r, fx)).len() == seed_entries(l, l, r, fx).len());
        if field_index(l, k) >= 0 {
            let i = field_index(l, k);
            assert(!touches(side_decision(l[i].0, l, r, c, fx, true), true));
            assert(decide_key(l[i].0, l, r, c, fx) != Decision::Conflict);
            if field_index(r, k) >= 0 {
                let j = field_index(r, k);
                assert(!touches(side_decision(r[j].0, r, l, c, fx, false), false));
            }
        }
    }
}

/// A pass that completes leaves a pair on which the next pass, with no edit
/// in between, changes nothing and asks for no write: the engine's own write
/// is recognised as converged.
pub proof fn law_own_write_settles(p: ProfileV, pool: PoolV, now: u64, later: u64)
    requires
        !flag(p.notes.dry_run),
    ensures
        ({
            let (p1, pool1, o1) = reconcile_spec(p, pool, now);
            o1 is Applied ==> reconcile_spec(p1, pool1, later) == (
                p1,
                pool1,
                OutcomeV::Applied { status: StatusV::Noop, write_local: false, write_remote: false },
            )
        }),
{
    let (p1, pool1, o1) = reconcile_spec(p, pool, now);
    if o1 is Applied {
        let id = resolve(p)->Ok_0;
        let rec = record_of(pool, id);
        let c = context(p.notes, rec);
        let fx = fixed_keys(p, pool);
        let l = p.fields;
        let r = rec.fields;
        assert(resolve(p1) == resolve(p));
        assert(fixed_keys(p1, pool1) == fx);
        let st = status_of(merged_keys(l, r, c, fx, true), merged_keys(r, l, c, fx, false));
        if st == StatusV::Noop {
            lemma_quiet_merge_agrees(l, r, c, fx);
            lemma_quiet_pass(p1, pool1, later);
        } else {
            lemma_merge_agrees(l, r, c, fx);
            let rec2 = RecordV { fields: merged_fields(r, l, c, fx, false), last_modified: Some(stamp(now, c.local_ts, c.remote_ts)) };
            lemma_put_then_lookup(pool, pool.printers, id, rec2);
            lemma_quiet_pass(p1, pool1, later);
        }
    }
}

/// A pass that changes fields gives both sides a timestamp newer than both
/// stored ones (unless one is already the largest value): the pass time when
/// it is newer, else one past the newest stored stamp.
pub proof fn law_stamp_advances(now: u64, local_ts: Option<u64>, remote_ts: Option<u64>)
    requires
        local_ts != Some(u64::MAX),
        remote_ts != Some(u64::MAX),
    ensures
        stamp(now, local_ts, remote_ts) > ts_rank(local_ts),
        stamp(now, local_ts, remote_ts) > ts_rank(remote_ts),
        now > ts_rank(local_ts) && now > ts_rank(remote_ts) ==> stamp(now, local_ts, remote_ts) == now,
{
}

/// With `force_pull` set, a pass completes and spends the flag, records no
/// error, and every key that is not static and is set to different values
/// on the two sides ends with the pool's value on both, whatever the
/// timestamps.
pub proof fn law_force_pull(p: ProfileV, pool: PoolV, now: u64)
    requires
        p.notes.errors.len() == 0,
        resolve(p) is Ok,
        flag(p.notes.force_pull),
        !flag(p.notes.force_push),
        !flag(p.notes.dry_run),
    ensures
        ({
            let id = resolve(p)->Ok_0;
            let r = record_of(pool, id).fields;
            let (q, pool1, o) = reconcile_spec(p, pool, now);
            &&& o is Applied
            &&& q.notes.force_pull is None
            &&& q.notes.errors == p.notes.errors
            &&& forall|k: Seq<char>|
                !fixed_keys(p, pool).contains(k) && #[trigger] lookup(p.fields, k) is Some && lookup(r, k) is Some
                    && lookup(p.fields, k) != lookup(r, k) ==> lookup(q.fields, k) == lookup(r, k) && lookup(
                    record_of(pool1, id).fields,
                    k,
                ) == lookup(r, k)
        }),
{
    let id = resolve(p)->Ok_0;
    let rec = record_of(pool, id);
    let c = context(p.notes, rec);
    let fx = fixed_keys(p, pool);
    let l = p.fields;
    let r = rec.fields;
    lemma_no_conflict(l, l, r, c, fx);
    lemma_side_keys_empty(l, l, r, c, fx, true);
    let (q, pool1, o) = reconcile_spec(p, pool, now);
    assert forall|k: Seq<char>|
        !fx.contains(k) && #[trigger] lookup(l, k) is Some && lookup(r, k) is Some && lookup(l, k) != lookup(r, k)
            implies lookup(q.fields, k) == lookup(r, k) && lookup(record_of(pool1, id).fields, k) == lookup(r, k) by {
        lemma_field_index_range(l, k);
        let i = field_index(l, k);
        assert(touches(side_decision(l[i].0, l, r, c, fx, true), true));
        assert(merged_keys(l, r, c, fx, true).len() > 0);
        lemma_merged_lookup(l, r, c, fx, true, k);
        lemma_merged_lookup(r, l, c, fx, false, k);
        let rec2 = RecordV { fields: merged_fields(r, l, c, fx, false), last_modified: Some(stamp(now, c.local_ts, c.remote_ts)) };
        lemma_put_then_lookup(pool, pool.printers, id, rec2);
    }
}

/// With `force_push` set, a pass completes and spends the flag, records no
/// error, and every key that is not static and is set to different values
/// on the two sides ends with the local value on both, whatever the
/// timestamps.
pub proof fn law_force_push(p: ProfileV, pool: PoolV, now: u64)
    requires
        p.notes.errors.len() == 0,
        resolve(p) is Ok,
        flag(p.notes.force_push),
        !flag(p.notes.force_pull),
        !flag(p.notes.dry_run),
    ensures
        ({
            let id = resolve(p)->Ok_0;
            let r = record_of(pool, id).fields;
            let (q, pool1, o) = reconcile_spec(p, pool, now);
            &&& o is Applied
            &&& q.notes.force_push is None
            &&& q.notes.errors == p.notes.errors
            &&& forall|k: Seq<char>|
                !fixed_keys(p, pool).contains(k) && #[trigger] lookup(p.fields, k) is Some && lookup(r, k) is Some
                    && lookup(p.fields, k) != lookup(r, k) ==> lookup(q.fields, k) == lookup(p.fields, k) && lookup(
                    record_of(pool1, id).fields,
                    k,
                ) == lookup(p.fields, k)
        }),
{
    let id = resolve(p)->Ok_0;
    let rec = record_of(pool, id);
    let c = context(p.notes, rec);
    let fx = fixed_keys(p, pool);
    let l = p.fields;
    let r = rec.fields;
    assert forall|i: int| 0 <= i < l.len() implies decide_key(#[trigger] l[i].0, l, r, c, fx) != Decision::Conflict by {}
    lemma_no_conflict(l, l, r, c, fx);
    lemma_side_keys_empty(r, r, l, c, fx, false);
    let (q, pool1, o) = reconcile_spec(p, pool, now);
    assert forall|k: Seq<char>|
        !fx.contains(k) && #[trigger] lookup(l, k) is Some && lookup(r, k) is Some && lookup(l, k) != lookup(r, k)
            implies lookup(q.fields, k) == lookup(l, k) && lookup(record_of(pool1, id).fields, k) == lookup(l, k) by {
        lemma_field_index_range(r, k);
        let j = field_index(r, k);
        assert(touches(side_decision(r[j].0, r, l, c, fx, false), false));
        assert(merged_keys(r, l, c, fx, false).len() > 0);
        lemma_merged_lookup(l, r, c, fx, true, k);
        lemma_merged_lookup(r, l, c, fx, false, k);
        let rec2 = RecordV { fields: merged_fields(r, l, c, fx, false), last_modified: Some(stamp(now, c.local_ts, c.remote_ts)) };
        lemma_put_then_lookup(pool, pool.printers, id, rec2);
    }
}

} // verus!
