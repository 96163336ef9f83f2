use watering::error::{ConfigurationError, MigrationError};
use watering::migration::{MigrationAction, MigrationUnit, Migrator, ScriptOutcome};

fn unit(name: &str) -> MigrationUnit {
    MigrationUnit { name: String::from(name), script: format!("-- script of {}", name) }
}

fn units(names: &[&str]) -> Vec<MigrationUnit> {
    names.iter().map(|name| unit(name)).collect()
}

fn names(list: &[&str]) -> Vec<String> {
    list.iter().map(|name| String::from(*name)).collect()
}

/// Follows the engine to its end against a store that fails the scripts
/// named in `failing`; returns the names of the scripts run and the last
/// action.
fn drive(migrator: &mut Migrator, failing: &[&str]) -> (Vec<String>, MigrationAction) {
    let mut ran = Vec::new();
    let mut action = migrator.next_action();
    while let MigrationAction::Execute { index } = action {
        let name = migrator.unit(index).unwrap().name.clone();
        let outcome = if failing.contains(&name.as_str()) {
            ScriptOutcome::Failed
        } else {
            ScriptOutcome::Committed
        };
        ran.push(name);
        action = migrator.record(outcome);
    }
    (ran, action)
}

#[test]
fn fresh_store_runs_every_unit_in_order() {
    let mut migrator = Migrator::new(units(&["a", "b", "c"]), vec![]).unwrap();
    let (ran, last) = drive(&mut migrator, &[]);
    assert_eq!(ran, names(&["a", "b", "c"]));
    assert_eq!(last, MigrationAction::Complete);
    assert_eq!(migrator.applied(), &names(&["a", "b", "c"]));
}

#[test]
fn rerun_applies_only_the_unapplied_suffix() {
    for done in 0..=4 {
        let list = ["m1", "m2", "m3", "m4"];
        let before = names(&list[..done]);
        let mut migrator = Migrator::new(units(&list), before.clone()).unwrap();
        let (ran, last) = drive(&mut migrator, &[]);
        assert_eq!(ran, names(&list[done..]));
        assert_eq!(last, MigrationAction::Complete);
        assert_eq!(&migrator.applied()[..done], &before[..]);
        assert_eq!(migrator.applied(), &names(&list));
    }
}

#[test]
fn second_run_is_a_no_op() {
    let mut first = Migrator::new(units(&["a", "b"]), vec![]).unwrap();
    drive(&mut first, &[]);
    let bookkeeping = first.applied().clone();
    let mut second = Migrator::new(units(&["a", "b"]), bookkeeping.clone()).unwrap();
    assert_eq!(second.next_action(), MigrationAction::Complete);
    let (ran, last) = drive(&mut second, &["a", "b"]);
    assert_eq!(ran, Vec::<String>::new());
    assert_eq!(last, MigrationAction::Complete);
    assert_eq!(second.applied(), &bookkeeping);
}

#[test]
fn empty_unit_list_is_a_no_op_success() {
    let mut migrator = Migrator::new(vec![], names(&["left", "over"])).unwrap();
    assert_eq!(migrator.len(), 0);
    assert_eq!(migrator.next_action(), MigrationAction::Complete);
    assert_eq!(migrator.record(ScriptOutcome::Committed), MigrationAction::Complete);
    assert_eq!(migrator.record(ScriptOutcome::Failed), MigrationAction::Complete);
    assert_eq!(migrator.applied(), &names(&["left", "over"]));
}

#[test]
fn failing_script_stops_the_run() {
    let mut migrator = Migrator::new(units(&["a", "b", "c", "d"]), names(&["a"])).unwrap();
    let (ran, last) = drive(&mut migrator, &["c"]);
    assert_eq!(ran, names(&["b", "c"]));
    assert_eq!(last, MigrationAction::Abort { error: MigrationError { index: 2 } });
    assert_eq!(migrator.applied(), &names(&["a", "b"]));
    assert!(!migrator.applied().contains(&String::from("c")));
    assert!(!migrator.applied().contains(&String::from("d")));
}

#[test]
fn after_a_failure_nothing_more_is_asked_or_recorded() {
    let mut migrator = Migrator::new(units(&["a", "b"]), vec![]).unwrap();
    assert_eq!(migrator.next_action(), MigrationAction::Execute { index: 0 });
    let abort = MigrationAction::Abort { error: MigrationError { index: 0 } };
    assert_eq!(migrator.record(ScriptOutcome::Failed), abort);
    assert_eq!(migrator.next_action(), abort);
    assert_eq!(migrator.record(ScriptOutcome::Committed), abort);
    assert_eq!(migrator.record(ScriptOutcome::Failed), abort);
    assert_eq!(migrator.applied(), &Vec::<String>::new());
}

#[test]
fn restart_after_a_failure_resumes_at_the_failed_unit() {
    let mut first = Migrator::new(units(&["a", "b", "c"]), vec![]).unwrap();
    let (_, last) = drive(&mut first, &["b"]);
    assert_eq!(last, MigrationAction::Abort { error: MigrationError { index: 1 } });
    let mut second = Migrator::new(units(&["a", "b", "c"]), first.applied().clone()).unwrap();
    let (ran, last) = drive(&mut second, &[]);
    assert_eq!(ran, names(&["b", "c"]));
    assert_eq!(last, MigrationAction::Complete);
}

#[test]
fn markers_out_of_list_order_still_leave_the_rest_in_list_order() {
    let mut migrator =
        Migrator::new(units(&["a", "b", "c", "d"]), names(&["c", "gone", "a"])).unwrap();
    let (ran, last) = drive(&mut migrator, &[]);
    assert_eq!(ran, names(&["b", "d"]));
    assert_eq!(last, MigrationAction::Complete);
    assert_eq!(migrator.applied(), &names(&["c", "gone", "a", "b", "d"]));
}

#[test]
fn duplicate_name_is_refused_before_any_script() {
    let result = Migrator::new(units(&["a", "b", "a", "b"]), vec![]);
    assert_eq!(result.err(), Some(ConfigurationError::DuplicateMigrationName { index: 2 }));
    let result = Migrator::new(units(&["x", "x"]), names(&["x"]));
    assert_eq!(result.err(), Some(ConfigurationError::DuplicateMigrationName { index: 1 }));
}

#[test]
fn unit_lookup_gives_name_and_script() {
    let migrator = Migrator::new(units(&["a", "b"]), vec![]).unwrap();
    assert_eq!(migrator.len(), 2);
    assert_eq!(migrator.unit(1), Some(&unit("b")));
    assert_eq!(migrator.unit(1).unwrap().script, "-- script of b");
    assert_eq!(migrator.unit(2), None);
}

#[test]
fn run_without_failures_applies_everything_pending() {
    let mut migrator = Migrator::new(units(&["a", "b", "c"]), names(&["a"])).unwrap();
    assert_eq!(migrator.run(&vec![]), MigrationAction::Complete);
    assert_eq!(migrator.applied(), &names(&["a", "b", "c"]));
    assert_eq!(migrator.run(&vec![0, 1, 2]), MigrationAction::Complete);
    assert_eq!(migrator.applied(), &names(&["a", "b", "c"]));
}

#[test]
fn run_stops_at_the_first_failing_unit_that_is_pending() {
    let mut migrator = Migrator::new(units(&["a", "b", "c", "d"]), names(&["a"])).unwrap();
    let last = migrator.run(&vec![3, 0, 2]);
    assert_eq!(last, MigrationAction::Abort { error: MigrationError { index: 2 } });
    assert_eq!(migrator.applied(), &names(&["a", "b"]));
    assert_eq!(migrator.run(&vec![]), last);
    assert_eq!(migrator.applied(), &names(&["a", "b"]));
}

#[test]
fn run_agrees_with_the_engine_followed_by_hand() {
    let list = ["a", "b", "c", "d", "e"];
    for failing_at in 0..=5usize {
        let failing_names: Vec<&str> = list.iter().skip(failing_at).take(1).copied().collect();
        let mut by_hand = Migrator::new(units(&list), names(&["b"])).unwrap();
        let (_, expected) = drive(&mut by_hand, &failing_names);
        let mut at_once = Migrator::new(units(&list), names(&["b"])).unwrap();
        assert_eq!(at_once.run(&vec![failing_at]), expected);
        assert_eq!(at_once.applied(), by_hand.applied());
    }
}
