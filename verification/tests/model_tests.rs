use siphon_store::models::{
    BillingCycle, Category, CreateCategoryPayload, CreateServicePayload,
    CreateSubscriptionPayload, Service, Subscription,
};
use siphon_store::StoreError;

fn ts() -> String {
    "2024-01-01T00:00:00Z".to_string()
}

#[test]
fn billing_cycle_codes_are_the_five_storage_texts() {
    assert_eq!(BillingCycle::Weekly.code(), "weekly");
    assert_eq!(BillingCycle::Monthly.code(), "monthly");
    assert_eq!(BillingCycle::Quarterly.code(), "quarterly");
    assert_eq!(BillingCycle::SemiAnnually.code(), "semi_annually");
    assert_eq!(BillingCycle::Yearly.code(), "yearly");
}

#[test]
fn billing_cycle_parse_round_trips() {
    let all = [
        BillingCycle::Weekly,
        BillingCycle::Monthly,
        BillingCycle::Quarterly,
        BillingCycle::SemiAnnually,
        BillingCycle::Yearly,
    ];
    for c in all {
        assert_eq!(BillingCycle::parse(c.code()).unwrap(), c);
    }
}

#[test]
fn billing_cycle_rejects_everything_else() {
    for bad in ["", "biweekly", "Monthly", "MONTHLY", "monthly ", "daily"] {
        assert!(matches!(
            BillingCycle::parse(bad),
            Err(StoreError::ConstraintViolation)
        ));
    }
}

#[test]
fn billing_cycle_default_is_monthly() {
    assert_eq!(BillingCycle::default(), BillingCycle::Monthly);
}

#[test]
fn category_from_payload_fills_defaults() {
    let c = Category::from_payload(
        "cat-1".to_string(),
        CreateCategoryPayload {
            name: "Books".to_string(),
            color: Some("#112233".to_string()),
        },
        ts(),
    );
    assert_eq!(c.id, "cat-1");
    assert_eq!(c.name, "Books");
    assert_eq!(c.color, Some("#112233".to_string()));
    assert!(!c.is_default);
    assert_eq!(c.created_at, ts());
    assert_eq!(c.updated_at, ts());
}

#[test]
fn service_from_payload_fills_defaults() {
    let s = Service::from_payload(
        "svc-1".to_string(),
        CreateServicePayload {
            name: "Paper".to_string(),
            icon_url: None,
            url: Some("https://paper.example".to_string()),
            default_category_id: Some("cat-1".to_string()),
        },
        ts(),
    );
    assert_eq!(s.id, "svc-1");
    assert_eq!(s.name, "Paper");
    assert_eq!(s.icon_url, None);
    assert_eq!(s.url, Some("https://paper.example".to_string()));
    assert_eq!(s.default_category_id, Some("cat-1".to_string()));
    assert!(!s.is_default);
}

#[test]
fn subscription_from_payload_applies_storage_defaults() {
    let s = Subscription::from_payload(
        "sub-1".to_string(),
        CreateSubscriptionPayload {
            service_id: None,
            category_id: None,
            custom_name: "Gym".to_string(),
            amount_cents: 2990,
            currency: None,
            billing_cycle: None,
            start_date: "2024-03-01".to_string(),
            next_billing_date: None,
            payment_method: None,
            reminder_days: None,
            note: None,
        },
        ts(),
    );
    assert_eq!(s.currency, "EUR");
    assert_eq!(s.billing_cycle, BillingCycle::Monthly);
    assert_eq!(s.reminder_days, Some(0));
    assert!(s.is_active);
    assert_eq!(s.cancelled_at, None);
    assert_eq!(s.amount_cents, 2990);
    assert_eq!(s.created_at, ts());
}

#[test]
fn subscription_from_payload_keeps_given_values() {
    let s = Subscription::from_payload(
        "sub-2".to_string(),
        CreateSubscriptionPayload {
            service_id: Some("svc-netflix".to_string()),
            category_id: Some("cat-entertainment".to_string()),
            custom_name: "Family plan".to_string(),
            amount_cents: 1999,
            currency: Some("USD".to_string()),
            billing_cycle: Some(BillingCycle::Yearly),
            start_date: "2024-03-01".to_string(),
            next_billing_date: Some("2025-03-01".to_string()),
            payment_method: Some("card".to_string()),
            reminder_days: Some(7),
            note: Some("shared".to_string()),
        },
        ts(),
    );
    assert_eq!(s.currency, "USD");
    assert_eq!(s.billing_cycle, BillingCycle::Yearly);
    assert_eq!(s.reminder_days, Some(7));
    assert_eq!(s.service_id, Some("svc-netflix".to_string()));
    assert_eq!(s.next_billing_date, Some("2025-03-01".to_string()));
    assert_eq!(s.note, Some("shared".to_string()));
}
