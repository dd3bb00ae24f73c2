//! One reconciliation pass over a profile and the pool.
use vstd::prelude::*;
use crate::model::{
    DebugEntry, ErrorV, Field, FieldsV, FilamentRecord, LocalProfile, NotesV, Outcome, OutcomeV,
    PoolRecord, PoolV, PrinterEntry, ProfileV, ReconcileError, RecordV, Status, StatusV,
    fields_view, opt_fields,
};
use crate::merge::{
    Decision, MergeContext, decide_key, merged_fields, merged_keys, merge_decision, merge_side,
    contains_key, strs, newer, ts_rank,
};
use crate::fields::{lookup_field, fields_eq, clone_fields};
use crate::printer::{resolve, resolve_printer};

verus! {

/// The text appended to a profile's `errors` log for an error.
pub open spec fn error_text(e: ErrorV) -> Seq<char> {
    match e {
        ErrorV::NoPrinter => "no printer could be determined for this profile"@,
        ErrorV::AmbiguousPrinter => "the printer of this profile is ambiguous"@,
        ErrorV::ForceFlagConflict => "force_push and force_pull are both set"@,
        ErrorV::ConflictUnresolvable(k) => "unresolvable conflict on field "@ + k,
    }
}

/// Keys joined with ", ".
pub open spec fn join(keys: Seq<Seq<char>>) -> Seq<char>
    decreases keys.len(),
{
    if keys.len() == 0 {
        Seq::empty()
    } else if keys.len() == 1 {
        keys[0]
    } else {
        join(keys.drop_last()) + ", "@ + keys.last()
    }
}

/// The status of a pass from the keys changed on each side.
pub open spec fn status_of(local_keys: Seq<Seq<char>>, remote_keys: Seq<Seq<char>>) -> StatusV {
    if local_keys.len() > 0 && remote_keys.len() > 0 {
        StatusV::UpdatedBoth(join(local_keys), join(remote_keys))
    } else if local_keys.len() > 0 {
        StatusV::UpdatedLocal(join(local_keys))
    } else if remote_keys.len() > 0 {
        StatusV::UpdateSpoolman(join(remote_keys))
    } else {
        StatusV::Noop
    }
}

/// The debug message that summarizes a status.
pub open spec fn summary(s: StatusV) -> Seq<char> {
    match s {
        StatusV::UpdateSpoolman(r) => "updated pool: "@ + r,
        StatusV::UpdatedLocal(r) => "updated local: "@ + r,
        StatusV::UpdatedBoth(a, b) => "updated local: "@ + a + "; updated pool: "@ + b,
        StatusV::Noop => "no changes"@,
    }
}

/// Index of the last pool entry of printer `id`, or -1.
pub open spec fn printer_index(s: Seq<(Seq<char>, RecordV)>, id: Seq<char>) -> int
    decreases s.len(),
{
    if s.len() == 0 {
        -1
    } else if s.last().0 == id {
        s.len() - 1
    } else {
        printer_index(s.drop_last(), id)
    }
}

pub proof fn lemma_printer_index_range(s: Seq<(Seq<char>, RecordV)>, id: Seq<char>)
    ensures
        -1 <= printer_index(s, id) < s.len(),
        printer_index(s, id) >= 0 ==> s[printer_index(s, id)].0 == id,
    decreases s.len(),
{
    if s.len() > 0 {
        lemma_printer_index_range(s.drop_last(), id);
    }
}

pub open spec fn empty_record() -> RecordV {
    RecordV { fields: Seq::empty(), last_modified: None }
}

/// The pool's record of printer `id`; empty when there is none yet.
pub open spec fn record_of(pool: PoolV, id: Seq<char>) -> RecordV {
    let i = printer_index(pool.printers, id);
    if i < 0 {
        empty_record()
    } else {
        pool.printers[i].1
    }
}

/// The printer list with the record of `id` replaced, or added when absent.
pub open spec fn pool_put(s: Seq<(Seq<char>, RecordV)>, id: Seq<char>, rec: RecordV) -> Seq<(Seq<char>, RecordV)> {
    let i = printer_index(s, id);
    if i < 0 {
        s.push((id, rec))
    } else {
        s.update(i, (id, rec))
    }
}

pub open spec fn flag(b: Option<bool>) -> bool {
    b == Some(true)
}

pub open spec fn context(n: NotesV, rec: RecordV) -> MergeContext {
    MergeContext {
        local_ts: n.last_modified,
        remote_ts: rec.last_modified,
        force_push: flag(n.force_push),
        force_pull: flag(n.force_pull),
    }
}

/// Index of the first entry of `part` whose merge is an unresolvable
/// conflict, or -1.
pub open spec fn conflict_index(part: FieldsV, local: FieldsV, remote: FieldsV, c: MergeContext, fixed: Seq<Seq<char>>) -> int
    decreases part.len(),
{
    if part.len() == 0 {
        -1
    } else {
        let r = conflict_index(part.drop_last(), local, remote, c, fixed);
        if r >= 0 {
            r
        } else if decide_key(part.last().0, local, remote, c, fixed) == Decision::Conflict {
            part.len() - 1
        } else {
            -1
        }
    }
}

/// The keys that are never merged: those of the profile's static fields and
/// of the pool's overrides.
pub open spec fn fixed_keys(p: ProfileV, pool: PoolV) -> Seq<Seq<char>> {
    p.static_fields.map_values(|f: (Seq<char>, Seq<Seq<char>>)| f.0) + pool.overrides.map_values(
        |o: (Seq<char>, Seq<char>)| o.0,
    )
}

/// The profile with an error appended; nothing else changes.
pub open spec fn rejected(p: ProfileV, e: ErrorV) -> ProfileV {
    ProfileV { notes: NotesV { errors: p.notes.errors.push(error_text(e)), ..p.notes }, ..p }
}

/// A dry run: only the previews and the status change.
pub open spec fn previewed(p: ProfileV, local: FieldsV, remote: FieldsV, st: StatusV) -> ProfileV {
    ProfileV {
        notes: NotesV { desired_local: Some(local), desired_remote: Some(remote), status: st, ..p.notes },
        ..p
    }
}

/// Whether a force flag is set, to be spent by a pass that completes.
pub open spec fn force_set(n: NotesV) -> bool {
    flag(n.force_push) || flag(n.force_pull)
}

/// A pass that merged nothing. The profile stays as it was, so that nothing
/// is written, unless a force flag is set: then the flags are spent, the
/// status is `Noop` and the debug log records the pass.
pub open spec fn settled(p: ProfileV, now: u64) -> ProfileV {
    if force_set(p.notes) {
        ProfileV {
            notes: NotesV {
                force_push: None,
                force_pull: None,
                status: StatusV::Noop,
                debug: p.notes.debug.push((now, summary(StatusV::Noop))),
                ..p.notes
            },
            ..p
        }
    } else {
        p
    }
}

/// The timestamp that a pass which changed fields gives both sides: the pass
/// time, or, where a stored stamp is not older than it, one past the newest
/// stored stamp (saturating at the largest value).
pub open spec fn stamp(now: u64, local_ts: Option<u64>, remote_ts: Option<u64>) -> u64 {
    let m = if ts_rank(local_ts) > ts_rank(remote_ts) {
        ts_rank(local_ts)
    } else {
        ts_rank(remote_ts)
    };
    if now > m {
        now
    } else if m < u64::MAX {
        (m + 1) as u64
    } else {
        u64::MAX
    }
}

/// A pass that changed fields: they are applied, the force flags are spent,
/// the timestamp becomes `t` and the debug log records the status at `now`.
pub open spec fn applied(p: ProfileV, local: FieldsV, st: StatusV, now: u64, t: u64) -> ProfileV {
    ProfileV {
        fields: local,
        notes: NotesV {
            force_push: None,
            force_pull: None,
            last_modified: Some(t),
            status: st,
            debug: p.notes.debug.push((now, summary(st))),
            ..p.notes
        },
        ..p
    }
}

/// One reconciliation pass of profile `p` against `pool` at time `now`:
/// the profile and pool afterwards, and the outcome.
pub open spec fn reconcile_spec(p: ProfileV, pool: PoolV, now: u64) -> (ProfileV, PoolV, OutcomeV) {
    if p.notes.errors.len() > 0 {
        (p, pool, OutcomeV::Sealed)
    } else {
        match resolve(p) {
            Err(e) => (rejected(p, e), pool, OutcomeV::Rejected(e)),
            Ok(id) => if flag(p.notes.force_push) && flag(p.notes.force_pull) {
                (rejected(p, ErrorV::ForceFlagConflict), pool, OutcomeV::Rejected(ErrorV::ForceFlagConflict))
            } else {
                let rec = record_of(pool, id);
                let c = context(p.notes, rec);
                let fx = fixed_keys(p, pool);
                let ci = conflict_index(p.fields, p.fields, rec.fields, c, fx);
                if ci >= 0 {
                    let e = ErrorV::ConflictUnresolvable(p.fields[ci].0);
                    (rejected(p, e), pool, OutcomeV::Rejected(e))
                } else {
                    let nl = merged_fields(p.fields, rec.fields, c, fx, true);
                    let nr = merged_fields(rec.fields, p.fields, c, fx, false);
                    let st = status_of(
                        merged_keys(p.fields, rec.fields, c, fx, true),
                        merged_keys(rec.fields, p.fields, c, fx, false),
                    );
                    if flag(p.notes.dry_run) {
                        let p2 = previewed(p, nl, nr, st);
                        (p2, pool, OutcomeV::Applied { status: st, write_local: p2 != p, write_remote: false })
                    } else if st == StatusV::Noop {
                        (
                            settled(p, now),
                            pool,
                            OutcomeV::Applied { status: st, write_local: force_set(p.notes), write_remote: false },
                        )
                    } else {
                        let t = stamp(now, c.local_ts, c.remote_ts);
                        let rec2 = RecordV { fields: nr, last_modified: Some(t) };
                        (
                            applied(p, nl, st, now, t),
                            PoolV { printers: pool_put(pool.printers, id, rec2), ..pool },
                            OutcomeV::Applied { status: st, write_local: true, write_remote: true },
                        )
                    }
                }
            },
        }
    }
}

impl ReconcileError {
    /// The text appended to the `errors` log for this error.
    pub fn message(&self) -> (r: String)
        ensures
            r@ == error_text(self@),
    {
        match self {
            ReconcileError::NoPrinter => String::from_str("no printer could be determined for this profile"),
            ReconcileError::AmbiguousPrinter => String::from_str("the printer of this profile is ambiguous"),
            ReconcileError::ForceFlagConflict => String::from_str("force_push and force_pull are both set"),
            ReconcileError::ConflictUnresolvable(k) => String::from_str("unresolvable conflict on field ").concat(k.as_str()),
        }
    }
}

impl Status {
    /// The debug message that summarizes this status.
    pub fn summary(&self) -> (r: String)
        ensures
            r@ == summary(self@),
    {
        match self {
            Status::UpdateSpoolman(r) => String::from_str("updated pool: ").concat(r.as_str()),
            Status::UpdatedLocal(r) => String::from_str("updated local: ").concat(r.as_str()),
            Status::UpdatedBoth(a, b) => String::from_str("updated local: ").concat(a.as_str()).concat(
                "; updated pool: ",
            ).concat(b.as_str()),
            Status::Noop => String::from_str("no changes"),
        }
    }

    pub fn is_noop(&self) -> (r: bool)
        ensures
            r == (self@ == StatusV::Noop),
    {
        match self {
            Status::Noop => true,
            _ => false,
        }
    }
}

/// Joins keys with ", ".
pub fn join_keys(keys: &Vec<String>) -> (r: String)
    ensures
        r@ == join(keys@.map_values(|s: String| s@)),
{
    let ghost v = keys@.map_values(|s: String| s@);
    let mut out = String::new();
    let mut i: usize = 0;
    while i < keys.len()
        invariant
            i <= keys.len(),
            v == keys@.map_values(|s: String| s@),
            out@ == join(v.take(i as int)),
        decreases keys.len() - i,
    {
        assert(v.take(i + 1).drop_last() =~= v.take(i as int));
        if i == 0 {
            out = keys[0].clone();
        } else {
            out = out.concat(", ").concat(keys[i].as_str());
        }
        i = i + 1;
    }
    assert(v.take(keys.len() as int) =~= v);
    out
}

/// Builds the status of a pass from the keys changed on each side.
pub fn make_status(local_keys: &Vec<String>, remote_keys: &Vec<String>) -> (r: Status)
    ensures
        r@ == status_of(local_keys@.map_values(|s: String| s@), remote_keys@.map_values(|s: String| s@)),
{
    if local_keys.len() > 0 && remote_keys.len() > 0 {
        Status::UpdatedBoth(join_keys(local_keys), join_keys(remote_keys))
    } else if local_keys.len() > 0 {
        Status::UpdatedLocal(join_keys(local_keys))
    } else if remote_keys.len() > 0 {
        Status::UpdateSpoolman(join_keys(remote_keys))
    } else {
        Status::Noop
    }
}

pub fn status_eq(a: &Status, b: &Status) -> (r: bool)
    ensures
        r == (a@ == b@),
{
    match (a, b) {
        (Status::UpdateSpoolman(x), Status::UpdateSpoolman(y)) => *x == *y,
        (Status::UpdatedLocal(x), Status::UpdatedLocal(y)) => *x == *y,
        (Status::UpdatedBoth(x1, x2), Status::UpdatedBoth(y1, y2)) => *x1 == *y1 && *x2 == *y2,
        (Status::Noop, Status::Noop) => true,
        _ => false,
    }
}

fn opt_fields_eq(a: &Option<Vec<Field>>, b: &Option<Vec<Field>>) -> (r: bool)
    ensures
        r == (opt_fields(*a) == opt_fields(*b)),
{
    match (a, b) {
        (Some(x), Some(y)) => fields_eq(x, y),
        (None, None) => true,
        _ => false,
    }
}

/// Returns the index of the last pool entry of printer `id`.
pub fn find_printer(s: &Vec<PrinterEntry>, id: &String) -> (r: Option<usize>)
    ensures
        match r {
            Some(i) => printer_index(s@.map_values(|p: PrinterEntry| p@), id@) == i as int && i < s.len(),
            None => printer_index(s@.map_values(|p: PrinterEntry| p@), id@) < 0,
        },
{
    let ghost v = s@.map_values(|p: PrinterEntry| p@);
    let mut i: usize = s.len();
    assert(v.take(i as int) =~= v);
    while i > 0
        invariant
            i <= s.len(),
            v == s@.map_values(|p: PrinterEntry| p@),
            printer_index(v, id@) == printer_index(v.take(i as int), id@),
        decreases i,
    {
        assert(v.take(i as int).drop_last() =~= v.take(i - 1));
        if s[i - 1].printer_id == *id {
            return Some(i - 1);
        }
        i = i - 1;
    }
    None
}

/// Returns the index of the first local field whose merge is an
/// unresolvable conflict.
pub fn first_conflict(local: &Vec<Field>, remote: &Vec<Field>, c: MergeContext, fixed: &Vec<String>) -> (r: Option<usize>)
    ensures
        match r {
            Some(i) => conflict_index(fields_view(local@), fields_view(local@), fields_view(remote@), c, strs(fixed@))
                == i as int && i < local.len(),
            None => conflict_index(fields_view(local@), fields_view(local@), fields_view(remote@), c, strs(fixed@)) < 0,
        },
{
    let ghost l = fields_view(local@);
    let ghost rm = fields_view(remote@);
    let mut found: Option<usize> = None;
    let mut i: usize = 0;
    while i < local.len()
        invariant
            i <= local.len(),
            l == fields_view(local@),
            rm == fields_view(remote@),
            match found {
                Some(j) => conflict_index(l.take(i as int), l, rm, c, strs(fixed@)) == j as int && j < i,
                None => conflict_index(l.take(i as int), l, rm, c, strs(fixed@)) < 0,
            },
        decreases local.len() - i,
    {
        assert(l.take(i + 1).drop_last() =~= l.take(i as int));
        if found.is_none() {
            let key = &local[i].key;
            let lv = lookup_field(local, key);
            let rv = lookup_field(remote, key);
            if !contains_key(fixed, key) && merge_decision(&lv, &rv, c) == Decision::Conflict {
                found = Some(i);
            }
        }
        i = i + 1;
    }
    assert(l.take(local.len() as int) =~= l);
    found
}

/// Lists the keys that are never merged.
pub fn fixed_key_list(profile: &LocalProfile, pool: &PoolRecord) -> (r: Vec<String>)
    ensures
        strs(r@) == fixed_keys(profile@, pool@),
{
    let ghost sk = profile@.static_fields.map_values(|f: (Seq<char>, Seq<Seq<char>>)| f.0);
    let ghost ok = pool@.overrides.map_values(|o: (Seq<char>, Seq<char>)| o.0);
    let mut r: Vec<String> = Vec::new();
    let mut i: usize = 0;
    while i < profile.static_fields.len()
        invariant
            i <= profile.static_fields.len(),
            sk == profile@.static_fields.map_values(|f: (Seq<char>, Seq<Seq<char>>)| f.0),
            strs(r@) == sk.take(i as int),
        decreases profile.static_fields.len() - i,
    {
        let ghost prev = r@;
        let k = profile.static_fields[i].key.clone();
        r.push(k);
        assert(r@ =~= prev.push(k));
        assert(strs(r@) =~= strs(prev).push(k@));
        assert(sk[i as int] == profile.static_fields@[i as int]@.0);
        assert(strs(r@) =~= sk.take(i + 1));
        i = i + 1;
    }
    assert(sk.take(i as int) =~= sk);
    let mut j: usize = 0;
    while j < pool.overrides.len()
        invariant
            j <= pool.overrides.len(),
            sk.len() == profile.static_fields.len(),
            ok == pool@.overrides.map_values(|o: (Seq<char>, Seq<char>)| o.0),
            strs(r@) == sk + ok.take(j as int),
        decreases pool.overrides.len() - j,
    {
        let ghost prev = r@;
        let k = pool.overrides[j].key.clone();
        r.push(k);
        assert(r@ =~= prev.push(k));
        assert(strs(r@) =~= strs(prev).push(k@));
        assert(ok[j as int] == pool.overrides@[j as int]@.0);
        assert(strs(r@) =~= sk + ok.take(j + 1));
        j = j + 1;
    }
    assert(ok.take(j as int) =~= ok);
    r
}

/// The timestamp that a pass which changed fields gives both sides.
pub fn pass_stamp(now: u64, local_ts: Option<u64>, remote_ts: Option<u64>) -> (r: u64)
    ensures
        r == stamp(now, local_ts, remote_ts),
{
    let newest = if newer(local_ts, remote_ts) {
        local_ts
    } else {
        remote_ts
    };
    match newest {
        None => now,
        Some(x) => if now > x {
            now
        } else if x < u64::MAX {
            x + 1
        } else {
            u64::MAX
        },
    }
}

fn is_set(b: Option<bool>) -> (r: bool)
    ensures
        r == flag(b),
{
    match b {
        Some(x) => x,
        None => false,
    }
}

/// Runs one reconciliation pass of `profile` against `pool` at time `now`.
///
/// A profile with errors is left alone. Otherwise its printer is resolved,
/// the force flags are checked, every reconcilable field is merged, and the
/// result is applied to both sides, or only previewed in the notes on a dry
/// run. Any error is appended to the profile's `errors` log and nothing else
/// changes.
pub fn reconcile(profile: &mut LocalProfile, pool: &mut PoolRecord, now: u64) -> (r: Outcome)
    ensures
        (final(profile)@, final(pool)@, r@) == reconcile_spec(old(profile)@, old(pool)@, now),
{
    if profile.notes.errors.len() > 0 {
        return Outcome::Sealed;
    }
    let printer = match resolve_printer(profile) {
        Ok(id) => id,
        Err(e) => {
            let m = e.message();
            profile.notes.errors.push(m);
            proof {
                assert(final(profile)@.notes.errors =~= old(profile)@.notes.errors.push(m@));
            }
            return Outcome::Rejected(e);
        },
    };
    let push = is_set(profile.notes.force_push);
    let pull = is_set(profile.notes.force_pull);
    if push && pull {
        let e = ReconcileError::ForceFlagConflict;
        let m = e.message();
        profile.notes.errors.push(m);
        proof {
            assert(final(profile)@.notes.errors =~= old(profile)@.notes.errors.push(m@));
        }
        return Outcome::Rejected(e);
    }
    let ghost pv = pool@;
    let found = find_printer(&pool.printers, &printer);
    let empty: Vec<Field> = Vec::new();
    proof {
        lemma_printer_index_range(pv.printers, printer@);
        assert(fields_view(empty@) =~= Seq::<(Seq<char>, Option<Seq<char>>)>::empty());
    }
    let (remote_fields, remote_ts): (&Vec<Field>, Option<u64>) = match found {
        Some(i) => (&pool.printers[i].record.fields, pool.printers[i].record.last_modified),
        None => (&empty, None),
    };
    let ghost rec = record_of(pv, printer@);
    assert(fields_view(remote_fields@) == rec.fields && remote_ts == rec.last_modified);
    let c = MergeContext {
        local_ts: profile.notes.last_modified,
        remote_ts,
        force_push: push,
        force_pull: pull,
    };
    let fixed = fixed_key_list(profile, pool);
    if let Some(ci) = first_conflict(&profile.reconcilable_fields, remote_fields, c, &fixed) {
        let e = ReconcileError::ConflictUnresolvable(profile.reconcilable_fields[ci].key.clone());
        let m = e.message();
        profile.notes.errors.push(m);
        proof {
            assert(final(profile)@.notes.errors =~= old(profile)@.notes.errors.push(m@));
        }
        return Outcome::Rejected(e);
    }
    let (new_local, local_keys) = merge_side(&profile.reconcilable_fields, remote_fields, c, &fixed, true);
    let (new_remote, remote_keys) = merge_side(remote_fields, &profile.reconcilable_fields, c, &fixed, false);
    let status = make_status(&local_keys, &remote_keys);
    if is_set(profile.notes.dry_run) {
        let unchanged = opt_fields_eq(&profile.notes.desired_local, &Some(clone_fields(&new_local)))
            && opt_fields_eq(&profile.notes.desired_remote, &Some(clone_fields(&new_remote)))
            && status_eq(&profile.notes.status, &status);
        let st = make_status(&local_keys, &remote_keys);
        profile.notes.desired_local = Some(new_local);
        profile.notes.desired_remote = Some(new_remote);
        profile.notes.status = status;
        return Outcome::Applied { status: st, write_local: !unchanged, write_remote: false };
    }
    if status.is_noop() {
        if push || pull {
            profile.notes.force_push = None;
            profile.notes.force_pull = None;
            profile.notes.status = Status::Noop;
            let ghost dbg = profile.notes@.debug;
            let d = DebugEntry { timestamp: now, message: status.summary() };
            profile.notes.debug.push(d);
            assert(profile.notes@.debug =~= dbg.push(d@));
        }
        return Outcome::Applied { status, write_local: push || pull, write_remote: false };
    }
    let t = pass_stamp(now, c.local_ts, c.remote_ts);
    let entry = PrinterEntry {
        printer_id: printer,
        record: FilamentRecord { fields: new_remote, last_modified: Some(t) },
    };
    let ghost ev = entry@;
    match found {
        Some(i) => {
            pool.printers.set(i, entry);
            assert(pool@.printers =~= pv.printers.update(i as int, ev));
        },
        None => {
            pool.printers.push(entry);
            assert(pool@.printers =~= pv.printers.push(ev));
        },
    }
    assert(pool@ == PoolV { printers: pool_put(pv.printers, printer@, ev.1), ..pv });
    let message = status.summary();
    let st = make_status(&local_keys, &remote_keys);
    profile.reconcilable_fields = new_local;
    profile.notes.force_push = None;
    profile.notes.force_pull = None;
    profile.notes.last_modified = Some(t);
    profile.notes.status = status;
    let ghost dbg = profile.notes@.debug;
    let d = DebugEntry { timestamp: now, message };
    profile.notes.debug.push(d);
    assert(profile.notes@.debug =~= dbg.push(d@));
    Outcome::Applied { status: st, write_local: true, write_remote: true }
}

} // verus!
