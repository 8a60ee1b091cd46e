use siphon_store::migrate::{migration_plan, MigrationStep, Operation};
use siphon_store::models::Category;
use siphon_store::store::Store;
use siphon_store::StoreError;

fn ts() -> String {
    "2024-01-01T00:00:00Z".to_string()
}

fn later_ts() -> String {
    "2024-06-15T12:30:00Z".to_string()
}

#[test]
fn plan_is_two_ascending_steps() {
    let plan = migration_plan();
    assert_eq!(plan.len(), 2);
    assert_eq!(plan[0].version, 1);
    assert_eq!(plan[0].description, "create_tables");
    assert!(matches!(plan[0].operation, Operation::CreateSchema));
    assert_eq!(plan[1].version, 2);
    assert_eq!(plan[1].description, "seed_default_data");
    assert!(matches!(plan[1].operation, Operation::SeedDefaults));
}

#[test]
fn migrate_empty_store_succeeds() {
    let mut s = Store::new();
    assert!(s.migrate(&migration_plan(), &ts()).is_ok());
    assert!(s.schema_ready);
    assert_eq!(s.user_version, 2);
    assert_eq!(s.categories.len(), 9);
    assert_eq!(s.services.len(), 15);
    assert_eq!(s.subscriptions.len(), 0);
}

#[test]
fn migrate_twice_equals_once() {
    let mut once = Store::new();
    once.migrate(&migration_plan(), &ts()).unwrap();

    let mut twice = Store::new();
    twice.migrate(&migration_plan(), &ts()).unwrap();
    twice.migrate(&migration_plan(), &later_ts()).unwrap();

    assert_eq!(once.user_version, twice.user_version);
    assert_eq!(once.schema_ready, twice.schema_ready);
    assert_eq!(once.categories.len(), twice.categories.len());
    assert_eq!(once.services.len(), twice.services.len());
    assert_eq!(once.subscriptions.len(), twice.subscriptions.len());
    for i in 0..once.categories.len() {
        assert_eq!(once.categories[i].id, twice.categories[i].id);
        assert_eq!(once.categories[i].name, twice.categories[i].name);
        assert_eq!(once.categories[i].created_at, twice.categories[i].created_at);
    }
    for i in 0..once.services.len() {
        assert_eq!(once.services[i].id, twice.services[i].id);
        assert_eq!(once.services[i].name, twice.services[i].name);
        assert_eq!(once.services[i].created_at, twice.services[i].created_at);
    }
}

#[test]
fn seeding_before_schema_is_fatal() {
    let mut s = Store::new();
    let steps = vec![MigrationStep {
        version: 1,
        description: "seed_default_data".to_string(),
        operation: Operation::SeedDefaults,
    }];
    assert!(matches!(s.migrate(&steps, &ts()), Err(StoreError::MigrationFailure)));
    assert_eq!(s.user_version, 0);
    assert!(!s.schema_ready);
    assert_eq!(s.categories.len(), 0);
}

#[test]
fn failed_step_halts_and_keeps_last_version() {
    // A user row takes a seed category's name under another id, so the
    // seed row keeps its id out of the table and the seeded service that
    // references that id cannot satisfy its foreign key: the seeding
    // step fails as a whole and the store stays at the last recorded
    // version with no partial seed data.
    let mut s = Store::new();
    s.apply_operation(&Operation::CreateSchema, &ts()).unwrap();
    s.insert_category(Category {
        id: "custom-music".to_string(),
        name: "Music".to_string(),
        color: None,
        is_default: false,
        created_at: ts(),
        updated_at: ts(),
    })
    .unwrap();
    assert!(matches!(
        s.migrate(&migration_plan(), &ts()),
        Err(StoreError::MigrationFailure)
    ));
    assert_eq!(s.user_version, 1);
    assert_eq!(s.categories.len(), 1);
    assert_eq!(s.categories[0].id, "custom-music");
    assert_eq!(s.services.len(), 0);
}

#[test]
fn skipped_steps_are_not_rerun() {
    let mut s = Store::new();
    s.migrate(&migration_plan(), &ts()).unwrap();
    let visible = s.categories[0].created_at.clone();
    s.migrate(&migration_plan(), &later_ts()).unwrap();
    assert_eq!(s.categories[0].created_at, visible);
    assert_eq!(s.user_version, 2);
}

#[test]
fn reseeding_is_a_no_op() {
    let mut s = Store::new();
    s.migrate(&migration_plan(), &ts()).unwrap();
    assert!(s.apply_seed(&later_ts()).is_ok());
    assert_eq!(s.categories.len(), 9);
    assert_eq!(s.services.len(), 15);
    for c in &s.categories {
        assert_eq!(c.created_at, ts());
    }
}

#[test]
fn seed_skips_row_whose_id_is_taken() {
    let mut s = Store::new();
    s.apply_operation(&Operation::CreateSchema, &ts()).unwrap();
    s.insert_category(Category {
        id: "cat-music".to_string(),
        name: "My Music".to_string(),
        color: None,
        is_default: false,
        created_at: ts(),
        updated_at: ts(),
    })
    .unwrap();
    assert!(s.apply_seed(&ts()).is_ok());
    // The user's row is kept untouched; the seed row under the same id
    // is not resurrected, so there are 8 seeded rows plus the user's.
    assert_eq!(s.categories.len(), 9);
    let kept = s.categories.iter().find(|c| c.id == "cat-music").unwrap();
    assert_eq!(kept.name, "My Music");
    assert!(!kept.is_default);
}
