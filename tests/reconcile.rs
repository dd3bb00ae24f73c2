use orca_poolman::engine::reconcile;
use orca_poolman::model::{
    Field, FilamentRecord, LocalProfile, Notes, Outcome, PoolRecord, PrinterEntry, ReconcileError,
    StaticField, Status, Override,
};

fn field(k: &str, v: Option<&str>) -> Field {
    Field { key: k.to_string(), value: v.map(|s| s.to_string()) }
}

fn profile(name: &str, fields: Vec<Field>) -> LocalProfile {
    LocalProfile {
        id: None,
        name: Some(name.to_string()),
        static_fields: vec![StaticField {
            key: "filament_vendor".to_string(),
            values: vec!["Acme".to_string()],
        }],
        reconcilable_fields: fields,
        inherits: None,
        notes: Notes::empty(),
    }
}

fn pool_with(printer: &str, fields: Vec<Field>, ts: Option<u64>) -> PoolRecord {
    PoolRecord {
        printers: vec![PrinterEntry {
            printer_id: printer.to_string(),
            record: FilamentRecord { fields, last_modified: ts },
        }],
        overrides: vec![Override { key: "nozzle_temperature_range_high".to_string(), value: "240".to_string() }],
    }
}

fn value_of(fields: &[Field], key: &str) -> Option<String> {
    fields.iter().rev().find(|f| f.key == key).and_then(|f| f.value.clone())
}

fn status_text(s: &Status) -> String {
    match s {
        Status::UpdateSpoolman(r) => format!("UpdateSpoolman({})", r),
        Status::UpdatedLocal(r) => format!("UpdatedLocal({})", r),
        Status::UpdatedBoth(a, b) => format!("UpdatedBoth({}, {})", a, b),
        Status::Noop => "Noop".to_string(),
    }
}

fn fields_text(fields: &[Field]) -> Vec<(String, Option<String>)> {
    fields.iter().map(|f| (f.key.clone(), f.value.clone())).collect()
}

fn pool_text(pool: &PoolRecord) -> Vec<(String, Vec<(String, Option<String>)>, Option<u64>)> {
    pool.printers
        .iter()
        .map(|p| (p.printer_id.clone(), fields_text(&p.record.fields), p.record.last_modified))
        .collect()
}

fn profile_text(p: &LocalProfile) -> String {
    format!(
        "{:?} {:?} {:?} {:?} {:?} {:?} {:?} {} {:?} {:?} {:?} {:?}",
        p.name,
        fields_text(&p.reconcilable_fields),
        p.notes.force_push,
        p.notes.force_pull,
        p.notes.dry_run,
        p.notes.last_modified,
        p.notes.printer_id,
        status_text(&p.notes.status),
        p.notes.debug.iter().map(|d| (d.timestamp, d.message.clone())).collect::<Vec<_>>(),
        p.notes.errors,
        p.notes.desired_local.as_ref().map(|v| fields_text(v)),
        p.notes.desired_remote.as_ref().map(|v| fields_text(v)),
    )
}

#[test]
fn newer_remote_wins_and_both_sides_advance() {
    let mut p = profile("PLA Red @Voron", vec![field("nozzle_temperature", Some("200"))]);
    p.notes.last_modified = Some(5);
    let mut pool = pool_with("Voron", vec![field("nozzle_temperature", Some("210"))], Some(9));
    let out = reconcile(&mut p, &mut pool, 20);
    assert_eq!(value_of(&p.reconcilable_fields, "nozzle_temperature"), Some("210".to_string()));
    assert_eq!(value_of(&pool.printers[0].record.fields, "nozzle_temperature"), Some("210".to_string()));
    assert_eq!(p.notes.last_modified, Some(20));
    assert_eq!(pool.printers[0].record.last_modified, Some(20));
    match out {
        Outcome::Applied { status, write_local, write_remote } => {
            assert_eq!(status_text(&status), "UpdatedBoth(nozzle_temperature, nozzle_temperature)");
            assert!(write_local && write_remote);
        }
        _ => panic!("expected an applied pass"),
    }
    assert_eq!(status_text(&p.notes.status), "UpdatedBoth(nozzle_temperature, nozzle_temperature)");
    assert_eq!(p.notes.debug.len(), 1);
    assert_eq!(p.notes.debug[0].timestamp, 20);
    assert_eq!(
        p.notes.debug[0].message,
        "updated local: nozzle_temperature; updated pool: nozzle_temperature"
    );
}

#[test]
fn newer_local_wins() {
    let mut p = profile("PLA Red @Voron", vec![field("nozzle_temperature", Some("215"))]);
    p.notes.last_modified = Some(12);
    let mut pool = pool_with("Voron", vec![field("nozzle_temperature", Some("210"))], Some(9));
    reconcile(&mut p, &mut pool, 30);
    assert_eq!(value_of(&p.reconcilable_fields, "nozzle_temperature"), Some("215".to_string()));
    assert_eq!(value_of(&pool.printers[0].record.fields, "nozzle_temperature"), Some("215".to_string()));
}

#[test]
fn seeding_from_remote_is_one_directional() {
    let mut p = profile("PLA Red @Voron", vec![field("nozzle_temperature", None)]);
    let mut pool = pool_with("Voron", vec![field("nozzle_temperature", Some("220"))], Some(3));
    let out = reconcile(&mut p, &mut pool, 10);
    assert_eq!(value_of(&p.reconcilable_fields, "nozzle_temperature"), Some("220".to_string()));
    assert_eq!(status_text(&p.notes.status), "UpdatedLocal(nozzle_temperature)");
    assert!(p.notes.errors.is_empty());
    assert!(matches!(out, Outcome::Applied { status: Status::UpdatedLocal(_), .. }));
}

#[test]
fn seeding_a_key_absent_locally() {
    let mut p = profile("PLA Red @Voron", vec![]);
    let mut pool = pool_with("Voron", vec![field("bed_temperature", Some("60"))], None);
    reconcile(&mut p, &mut pool, 10);
    assert_eq!(fields_text(&p.reconcilable_fields), vec![("bed_temperature".to_string(), Some("60".to_string()))]);
    assert_eq!(status_text(&p.notes.status), "UpdatedLocal(bed_temperature)");
}

#[test]
fn seeding_the_pool_creates_the_printer_record() {
    let mut p = profile("PLA Red @Prusa", vec![field("nozzle_temperature", Some("205"))]);
    let mut pool = pool_with("Voron", vec![], None);
    reconcile(&mut p, &mut pool, 7);
    assert_eq!(pool.printers.len(), 2);
    assert_eq!(pool.printers[1].printer_id, "Prusa");
    assert_eq!(value_of(&pool.printers[1].record.fields, "nozzle_temperature"), Some("205".to_string()));
    assert_eq!(status_text(&p.notes.status), "UpdateSpoolman(nozzle_temperature)");
}

#[test]
fn converged_pair_is_idempotent() {
    let mut p = profile("PLA Red @Voron", vec![field("nozzle_temperature", Some("210"))]);
    p.notes.last_modified = Some(4);
    let mut pool = pool_with("Voron", vec![field("nozzle_temperature", Some("210"))], Some(4));
    let first = reconcile(&mut p, &mut pool, 50);
    assert!(matches!(first, Outcome::Applied { status: Status::Noop, write_remote: false, .. }));
    let (p1, pool1) = (profile_text(&p), pool_text(&pool));
    let second = reconcile(&mut p, &mut pool, 60);
    assert!(matches!(second, Outcome::Applied { status: Status::Noop, write_local: false, write_remote: false }));
    assert_eq!(profile_text(&p), p1);
    assert_eq!(pool_text(&pool), pool1);
    assert_eq!(status_text(&p.notes.status), "Noop");
}

#[test]
fn applied_pass_converges() {
    let mut p = profile("PLA Red @Voron", vec![field("nozzle_temperature", Some("200"))]);
    p.notes.last_modified = Some(5);
    let mut pool = pool_with("Voron", vec![field("nozzle_temperature", Some("210"))], Some(9));
    reconcile(&mut p, &mut pool, 20);
    let (p1, pool1) = (profile_text(&p), pool_text(&pool));
    let second = reconcile(&mut p, &mut pool, 21);
    assert!(matches!(second, Outcome::Applied { status: Status::Noop, write_local: false, write_remote: false }));
    assert_eq!(profile_text(&p), p1);
    assert_eq!(pool_text(&pool), pool1);
    assert_eq!(status_text(&p.notes.status), "UpdatedBoth(nozzle_temperature, nozzle_temperature)");
}

#[test]
fn converged_pair_with_stored_status_is_not_rewritten() {
    let mut p = profile("PLA Red @Voron", vec![field("nozzle_temperature", Some("210"))]);
    p.notes.status = Status::UpdatedLocal("nozzle_temperature".to_string());
    p.notes.force_push = Some(false);
    let mut pool = pool_with("Voron", vec![field("nozzle_temperature", Some("210"))], Some(4));
    let (p0, pool0) = (profile_text(&p), pool_text(&pool));
    let out = reconcile(&mut p, &mut pool, 50);
    assert!(matches!(out, Outcome::Applied { status: Status::Noop, write_local: false, write_remote: false }));
    assert_eq!(profile_text(&p), p0);
    assert_eq!(pool_text(&pool), pool0);
}

#[test]
fn spent_force_flag_is_written_once_with_a_debug_entry() {
    let mut p = profile("PLA Red @Voron", vec![field("nozzle_temperature", Some("210"))]);
    p.notes.force_pull = Some(true);
    p.notes.status = Status::UpdatedLocal("nozzle_temperature".to_string());
    let mut pool = pool_with("Voron", vec![field("nozzle_temperature", Some("210"))], Some(4));
    let out = reconcile(&mut p, &mut pool, 50);
    assert!(matches!(out, Outcome::Applied { status: Status::Noop, write_local: true, write_remote: false }));
    assert_eq!(p.notes.force_pull, None);
    assert_eq!(status_text(&p.notes.status), "Noop");
    assert_eq!(p.notes.debug.len(), 1);
    assert_eq!(p.notes.debug[0].timestamp, 50);
    assert_eq!(p.notes.debug[0].message, "no changes");
    let again = reconcile(&mut p, &mut pool, 51);
    assert!(matches!(again, Outcome::Applied { write_local: false, write_remote: false, .. }));
    assert_eq!(p.notes.debug.len(), 1);
}

#[test]
fn stamps_advance_past_a_lagging_clock() {
    let mut p = profile("PLA Red @Voron", vec![field("nozzle_temperature", Some("200"))]);
    p.notes.last_modified = Some(5);
    let mut pool = pool_with("Voron", vec![field("nozzle_temperature", Some("210"))], Some(9));
    reconcile(&mut p, &mut pool, 3);
    assert_eq!(p.notes.last_modified, Some(10));
    assert_eq!(pool.printers[0].record.last_modified, Some(10));
    assert_eq!(p.notes.debug[0].timestamp, 3);
}

#[test]
fn stamps_saturate_at_the_largest_value() {
    let mut p = profile("PLA Red @Voron", vec![field("nozzle_temperature", Some("200"))]);
    p.notes.last_modified = Some(u64::MAX);
    let mut pool = pool_with("Voron", vec![field("nozzle_temperature", Some("210"))], Some(1));
    reconcile(&mut p, &mut pool, 7);
    assert_eq!(p.notes.last_modified, Some(u64::MAX));
    assert_eq!(value_of(&pool.printers[0].record.fields, "nozzle_temperature"), Some("200".to_string()));
}

#[test]
fn errors_seal_the_profile() {
    let mut p = profile("PLA Red @Voron", vec![field("nozzle_temperature", Some("200"))]);
    p.notes.errors.push("earlier failure".to_string());
    p.notes.force_pull = Some(true);
    let mut pool = pool_with("Voron", vec![field("nozzle_temperature", Some("210"))], Some(9));
    let (p0, pool0) = (profile_text(&p), pool_text(&pool));
    let out = reconcile(&mut p, &mut pool, 20);
    assert!(matches!(out, Outcome::Sealed));
    assert_eq!(profile_text(&p), p0);
    assert_eq!(pool_text(&pool), pool0);
}

#[test]
fn force_pull_ignores_timestamps() {
    let mut p = profile("PLA Red @Voron", vec![field("nozzle_temperature", Some("200"))]);
    p.notes.last_modified = Some(100);
    p.notes.force_pull = Some(true);
    let mut pool = pool_with("Voron", vec![field("nozzle_temperature", Some("210"))], Some(1));
    reconcile(&mut p, &mut pool, 200);
    assert_eq!(value_of(&p.reconcilable_fields, "nozzle_temperature"), Some("210".to_string()));
    assert_eq!(value_of(&pool.printers[0].record.fields, "nozzle_temperature"), Some("210".to_string()));
    assert_eq!(p.notes.force_pull, None);
}

#[test]
fn force_push_ignores_timestamps() {
    let mut p = profile("PLA Red @Voron", vec![field("nozzle_temperature", Some("200"))]);
    p.notes.last_modified = Some(1);
    p.notes.force_push = Some(true);
    let mut pool = pool_with("Voron", vec![field("nozzle_temperature", Some("210"))], Some(100));
    reconcile(&mut p, &mut pool, 200);
    assert_eq!(value_of(&p.reconcilable_fields, "nozzle_temperature"), Some("200".to_string()));
    assert_eq!(value_of(&pool.printers[0].record.fields, "nozzle_temperature"), Some("200".to_string()));
    assert_eq!(p.notes.force_push, None);
}

#[test]
fn both_force_flags_are_an_error() {
    let mut p = profile("PLA Red @Voron", vec![field("nozzle_temperature", Some("200"))]);
    p.notes.force_push = Some(true);
    p.notes.force_pull = Some(true);
    let mut pool = pool_with("Voron", vec![field("nozzle_temperature", Some("210"))], Some(9));
    let pool0 = pool_text(&pool);
    let out = reconcile(&mut p, &mut pool, 20);
    assert!(matches!(out, Outcome::Rejected(ReconcileError::ForceFlagConflict)));
    assert_eq!(p.notes.errors, vec!["force_push and force_pull are both set".to_string()]);
    assert_eq!(value_of(&p.reconcilable_fields, "nozzle_temperature"), Some("200".to_string()));
    assert_eq!(pool_text(&pool), pool0);
}

#[test]
fn equal_timestamps_with_differing_values_conflict() {
    let mut p = profile(
        "PLA Red @Voron",
        vec![field("bed_temperature", Some("60")), field("nozzle_temperature", Some("200"))],
    );
    p.notes.last_modified = Some(9);
    let mut pool = pool_with(
        "Voron",
        vec![field("bed_temperature", Some("65")), field("nozzle_temperature", Some("210"))],
        Some(9),
    );
    let pool0 = pool_text(&pool);
    let out = reconcile(&mut p, &mut pool, 20);
    match out {
        Outcome::Rejected(ReconcileError::ConflictUnresolvable(k)) => assert_eq!(k, "bed_temperature"),
        _ => panic!("expected a conflict"),
    }
    assert_eq!(p.notes.errors, vec!["unresolvable conflict on field bed_temperature".to_string()]);
    assert_eq!(value_of(&p.reconcilable_fields, "nozzle_temperature"), Some("200".to_string()));
    assert_eq!(pool_text(&pool), pool0);
}

#[test]
fn missing_timestamps_on_both_sides_conflict() {
    let mut p = profile("PLA Red @Voron", vec![field("nozzle_temperature", Some("200"))]);
    let mut pool = pool_with("Voron", vec![field("nozzle_temperature", Some("210"))], None);
    let out = reconcile(&mut p, &mut pool, 20);
    assert!(matches!(out, Outcome::Rejected(ReconcileError::ConflictUnresolvable(_))));
}

#[test]
fn dry_run_only_previews() {
    let mut p = profile("PLA Red @Voron", vec![field("nozzle_temperature", Some("200"))]);
    p.notes.last_modified = Some(5);
    p.notes.dry_run = Some(true);
    let mut pool = pool_with("Voron", vec![field("nozzle_temperature", Some("210"))], Some(9));
    let pool0 = pool_text(&pool);
    let out = reconcile(&mut p, &mut pool, 20);
    assert!(matches!(out, Outcome::Applied { write_local: true, write_remote: false, .. }));
    assert_eq!(value_of(&p.reconcilable_fields, "nozzle_temperature"), Some("200".to_string()));
    assert_eq!(pool_text(&pool), pool0);
    assert_eq!(p.notes.last_modified, Some(5));
    assert_eq!(p.notes.dry_run, Some(true));
    assert!(p.notes.debug.is_empty());
    let desired_local = p.notes.desired_local.as_ref().unwrap();
    let desired_remote = p.notes.desired_remote.as_ref().unwrap();
    assert_eq!(value_of(desired_local, "nozzle_temperature"), Some("210".to_string()));
    assert_eq!(value_of(desired_remote, "nozzle_temperature"), Some("210".to_string()));
    assert_eq!(status_text(&p.notes.status), "UpdatedBoth(nozzle_temperature, nozzle_temperature)");
    let again = reconcile(&mut p, &mut pool, 21);
    assert!(matches!(again, Outcome::Applied { write_local: false, write_remote: false, .. }));
}

#[test]
fn static_fields_and_overrides_survive_every_pass() {
    let mut p = profile("PLA Red @Voron", vec![field("nozzle_temperature", Some("200"))]);
    p.notes.last_modified = Some(5);
    let mut pool = pool_with("Voron", vec![field("nozzle_temperature", Some("210"))], Some(9));
    reconcile(&mut p, &mut pool, 20);
    assert_eq!(p.static_fields.len(), 1);
    assert_eq!(p.static_fields[0].key, "filament_vendor");
    assert_eq!(p.static_fields[0].values, vec!["Acme".to_string()]);
    assert_eq!(pool.overrides.len(), 1);
    assert_eq!(pool.overrides[0].key, "nozzle_temperature_range_high");
    assert_eq!(pool.overrides[0].value, "240");
}

#[test]
fn unresolvable_printer_is_recorded() {
    let mut p = profile("PLA Red", vec![field("nozzle_temperature", Some("200"))]);
    let mut pool = pool_with("Voron", vec![], None);
    let out = reconcile(&mut p, &mut pool, 20);
    assert!(matches!(out, Outcome::Rejected(ReconcileError::NoPrinter)));
    assert_eq!(p.notes.errors, vec!["no printer could be determined for this profile".to_string()]);
    assert_eq!(pool.printers.len(), 1);
    let again = reconcile(&mut p, &mut pool, 21);
    assert!(matches!(again, Outcome::Sealed));
    assert_eq!(p.notes.errors.len(), 1);
}

#[test]
fn ambiguous_printer_is_recorded() {
    let mut p = profile("PLA Red", vec![]);
    p.static_fields.push(StaticField {
        key: "compatible_printers".to_string(),
        values: vec!["Voron".to_string(), "Prusa".to_string()],
    });
    let mut pool = pool_with("Voron", vec![], None);
    let out = reconcile(&mut p, &mut pool, 20);
    assert!(matches!(out, Outcome::Rejected(ReconcileError::AmbiguousPrinter)));
    assert_eq!(p.notes.errors, vec!["the printer of this profile is ambiguous".to_string()]);
}

#[test]
fn overridden_keys_are_not_merged() {
    let mut p = profile("PLA Red @Voron", vec![field("nozzle_temperature", Some("200"))]);
    p.notes.last_modified = Some(9);
    let mut pool = pool_with("Voron", vec![field("nozzle_temperature", Some("210"))], Some(9));
    pool.overrides.push(Override { key: "nozzle_temperature".to_string(), value: "205".to_string() });
    let pool0 = pool_text(&pool);
    let out = reconcile(&mut p, &mut pool, 20);
    assert!(matches!(out, Outcome::Applied { status: Status::Noop, write_remote: false, .. }));
    assert!(p.notes.errors.is_empty());
    assert_eq!(value_of(&p.reconcilable_fields, "nozzle_temperature"), Some("200".to_string()));
    assert_eq!(pool_text(&pool), pool0);
}

#[test]
fn static_keys_are_not_seeded() {
    let mut p = profile("PLA Red @Voron", vec![]);
    p.static_fields.push(StaticField { key: "hot_plate_temp".to_string(), values: vec!["55".to_string()] });
    let mut pool = pool_with("Voron", vec![field("hot_plate_temp", Some("60"))], Some(2));
    let out = reconcile(&mut p, &mut pool, 20);
    assert!(matches!(out, Outcome::Applied { status: Status::Noop, .. }));
    assert!(p.reconcilable_fields.is_empty());
}
