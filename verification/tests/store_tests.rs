use siphon_store::migrate::migration_plan;
use siphon_store::models::{BillingCycle, Category, Service, Subscription};
use siphon_store::store::Store;
use siphon_store::StoreError;

fn ts() -> String {
    "2024-01-01T00:00:00Z".to_string()
}

fn migrated() -> Store {
    let mut s = Store::new();
    s.migrate(&migration_plan(), &ts()).unwrap();
    s
}

fn sample_subscription(id: &str, service_id: Option<&str>, category_id: Option<&str>) -> Subscription {
    Subscription {
        id: id.to_string(),
        service_id: service_id.map(|x| x.to_string()),
        category_id: category_id.map(|x| x.to_string()),
        custom_name: "My subscription".to_string(),
        amount_cents: 1299,
        currency: "EUR".to_string(),
        billing_cycle: BillingCycle::Monthly,
        start_date: "2024-01-01".to_string(),
        next_billing_date: None,
        payment_method: None,
        reminder_days: Some(0),
        note: None,
        is_active: true,
        cancelled_at: None,
        created_at: ts(),
        updated_at: ts(),
    }
}

#[test]
fn seeded_categories_are_exactly_the_catalog() {
    let mut s = migrated();
    let expected = [
        "cat-entertainment",
        "cat-productivity",
        "cat-cloud",
        "cat-music",
        "cat-gaming",
        "cat-news",
        "cat-health",
        "cat-education",
        "cat-other",
    ];
    assert_eq!(s.categories.len(), 9);
    for (row, want) in s.categories.iter().zip(expected.iter()) {
        assert_eq!(row.id, *want);
        assert!(row.is_default);
    }
    // Running the loader again leaves exactly the same nine rows.
    s.apply_seed(&"2025-02-02T00:00:00Z".to_string()).unwrap();
    assert_eq!(s.categories.len(), 9);
    for (row, want) in s.categories.iter().zip(expected.iter()) {
        assert_eq!(row.id, *want);
        assert!(row.is_default);
        assert_eq!(row.created_at, ts());
    }
}

#[test]
fn invalid_billing_cycle_text_is_rejected_and_valid_text_accepted() {
    let mut s = migrated();
    assert!(matches!(
        BillingCycle::parse("biweekly"),
        Err(StoreError::ConstraintViolation)
    ));
    let cycle = BillingCycle::parse("yearly").unwrap();
    let mut sub = sample_subscription("sub-1", None, None);
    sub.billing_cycle = cycle;
    assert!(s.insert_subscription(sub).is_ok());
    assert_eq!(s.subscriptions.len(), 1);
}

#[test]
fn duplicate_category_id_is_a_constraint_violation() {
    let mut s = migrated();
    let row = Category {
        id: "cat-entertainment".to_string(),
        name: "Something else".to_string(),
        color: None,
        is_default: false,
        created_at: ts(),
        updated_at: ts(),
    };
    assert!(matches!(
        s.insert_category(row),
        Err(StoreError::ConstraintViolation)
    ));
    assert_eq!(s.categories.len(), 9);
}

#[test]
fn duplicate_service_name_is_a_constraint_violation() {
    let mut s = migrated();
    let row = Service {
        id: "svc-other-netflix".to_string(),
        name: "Netflix".to_string(),
        icon_url: None,
        url: None,
        default_category_id: None,
        is_default: false,
        created_at: ts(),
        updated_at: ts(),
    };
    assert!(matches!(
        s.insert_service(row),
        Err(StoreError::ConstraintViolation)
    ));
}

#[test]
fn dangling_reference_is_a_constraint_violation() {
    let mut s = migrated();
    let sub = sample_subscription("sub-1", Some("svc-nowhere"), None);
    assert!(matches!(
        s.insert_subscription(sub),
        Err(StoreError::ConstraintViolation)
    ));
    let svc = Service {
        id: "svc-new".to_string(),
        name: "Brand new".to_string(),
        icon_url: None,
        url: None,
        default_category_id: Some("cat-nowhere".to_string()),
        is_default: false,
        created_at: ts(),
        updated_at: ts(),
    };
    assert!(matches!(
        s.insert_service(svc),
        Err(StoreError::ConstraintViolation)
    ));
}

#[test]
fn deleting_category_clears_service_reference_and_keeps_service() {
    let mut s = migrated();
    assert!(s.delete_category(&"cat-music".to_string()));
    assert_eq!(s.categories.len(), 8);
    assert!(!s.categories.iter().any(|c| c.id == "cat-music"));
    let spotify = s.services.iter().find(|v| v.id == "svc-spotify").unwrap();
    assert_eq!(spotify.default_category_id, None);
    assert_eq!(spotify.name, "Spotify");
    // Services pointing at other categories are untouched.
    let netflix = s.services.iter().find(|v| v.id == "svc-netflix").unwrap();
    assert_eq!(netflix.default_category_id, Some("cat-entertainment".to_string()));
}

#[test]
fn deleting_service_clears_subscription_reference_and_keeps_subscription() {
    let mut s = migrated();
    s.insert_subscription(sample_subscription(
        "sub-1",
        Some("svc-netflix"),
        Some("cat-entertainment"),
    ))
    .unwrap();
    assert!(s.delete_service(&"svc-netflix".to_string()));
    assert_eq!(s.services.len(), 14);
    assert_eq!(s.subscriptions.len(), 1);
    assert_eq!(s.subscriptions[0].service_id, None);
    assert_eq!(s.subscriptions[0].category_id, Some("cat-entertainment".to_string()));
}

#[test]
fn deleting_absent_rows_reports_false() {
    let mut s = migrated();
    assert!(!s.delete_category(&"cat-nowhere".to_string()));
    assert!(!s.delete_service(&"svc-nowhere".to_string()));
    assert_eq!(s.categories.len(), 9);
    assert_eq!(s.services.len(), 15);
}

#[test]
fn view_join_without_service_has_null_service_fields() {
    let mut s = migrated();
    s.insert_subscription(sample_subscription("sub-1", None, Some("cat-other")))
        .unwrap();
    let views = s.subscription_views();
    assert_eq!(views.len(), 1);
    let v = &views[0];
    assert_eq!(v.service_name, None);
    assert_eq!(v.service_icon_url, None);
    assert_eq!(v.service_url, None);
    assert_eq!(v.custom_name, "My subscription");
    assert_eq!(v.amount_cents, 1299);
    assert_eq!(v.currency, "EUR");
    assert_eq!(v.category_name, Some("Other".to_string()));
    assert!(v.is_active);
}

#[test]
fn view_join_with_service_carries_service_fields() {
    let mut s = migrated();
    s.insert_subscription(sample_subscription(
        "sub-1",
        Some("svc-netflix"),
        Some("cat-entertainment"),
    ))
    .unwrap();
    let views = s.subscription_views();
    assert_eq!(views.len(), 1);
    let v = &views[0];
    assert_eq!(v.service_name, Some("Netflix".to_string()));
    assert_eq!(v.service_url, Some("https://netflix.com".to_string()));
    assert_eq!(v.category_name, Some("Entertainment".to_string()));
    assert_eq!(v.category_color, Some("#E74C3C".to_string()));
}
