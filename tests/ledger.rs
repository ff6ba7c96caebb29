use bo_autosplitter::ledger::CompletionLedger;
use bo_autosplitter::settings::{Category, Settings};

fn s(x: &str) -> String {
    x.to_string()
}

fn settings_with(keys: &[&str]) -> Settings {
    let mut settings = Settings::new(Category::AnyPercent);
    for k in keys {
        settings.set_enabled(s(k), true);
    }
    settings
}

#[test]
fn absent_or_false_entry_may_fire() {
    let mut ledger = CompletionLedger::new();
    assert!(ledger.should_fire(&s("can_dash")));
    ledger.insert(s("can_dash"), false);
    assert!(ledger.should_fire(&s("can_dash")));
    ledger.record_fired(s("can_dash"));
    assert!(!ledger.should_fire(&s("can_dash")));
}

#[test]
fn insert_then_load_round_trips() {
    let mut ledger = CompletionLedger::new();
    ledger.insert(s("a"), true);
    ledger.insert(s("b"), false);
    assert_eq!(ledger.load(&s("a")), Some(true));
    assert_eq!(ledger.load(&s("b")), Some(false));
    assert_eq!(ledger.load(&s("c")), None);
    ledger.insert(s("a"), false);
    assert_eq!(ledger.load(&s("a")), Some(false));
    assert_eq!(ledger.len(), 2);
    assert_eq!(ledger.keys(), vec![s("a"), s("b")]);
}

#[test]
fn dispatch_fires_enabled_unfired_once() {
    let settings = settings_with(&["defeat_gash_boss", "can_dash"]);
    let mut ledger = CompletionLedger::new();
    let fired = ledger.dispatch(&settings, &vec![s("defeat_gash_boss"), s("can_bat"), s("defeat_gash_boss")]);
    assert_eq!(fired, vec![s("defeat_gash_boss")]);
    assert_eq!(ledger.load(&s("defeat_gash_boss")), Some(true));
    assert_eq!(ledger.load(&s("can_bat")), None);
}

#[test]
fn oscillating_flag_fires_once_per_epoch() {
    let settings = settings_with(&["can_dash"]);
    let mut ledger = CompletionLedger::new();
    let mut total = 0;
    for _ in 0..5 {
        total += ledger.dispatch(&settings, &vec![s("can_dash")]).len();
    }
    assert_eq!(total, 1);
}

#[test]
fn epoch_reset_rearms_fired_keys() {
    let settings = settings_with(&["can_dash"]);
    let mut ledger = CompletionLedger::new();
    assert_eq!(ledger.dispatch(&settings, &vec![s("can_dash")]).len(), 1);
    ledger.on_epoch_reset();
    assert_eq!(ledger.load(&s("can_dash")), Some(false));
    assert_eq!(ledger.dispatch(&settings, &vec![s("can_dash")]), vec![s("can_dash")]);
    assert_eq!(ledger.dispatch(&settings, &vec![s("can_dash")]), Vec::<String>::new());
}

#[test]
fn reconcile_adds_missing_keys_only() {
    let mut ledger = CompletionLedger::new();
    ledger.record_fired(s("old_key"));
    ledger.reconcile(&vec![s("old_key"), s("new_key"), s("other")]);
    assert_eq!(ledger.load(&s("old_key")), Some(true));
    assert_eq!(ledger.load(&s("new_key")), Some(false));
    assert_eq!(ledger.len(), 3);
    // equal counts: nothing to reconcile
    let mut same = CompletionLedger::new();
    same.record_fired(s("x"));
    same.reconcile(&vec![s("y")]);
    assert_eq!(same.load(&s("y")), None);
}

#[test]
fn settings_flags_default_to_disabled() {
    let mut settings = Settings::new(Category::HundredPercent);
    assert!(!settings.is_enabled(&s("can_bat")));
    settings.set_enabled(s("can_bat"), true);
    assert!(settings.is_enabled(&s("can_bat")));
    settings.set_enabled(s("can_bat"), false);
    assert!(!settings.is_enabled(&s("can_bat")));
    assert_eq!(settings.category(), Category::HundredPercent);
    assert_eq!(Category::default(), Category::AnyPercent);
    settings.set_splits_file(s("run.lss"));
    assert_eq!(settings.splits_file(), "run.lss");
}
