//! Row and payload types of the three tables, together with their
//! mathematical models: each executable struct views to a ghost struct
//! whose text fields are character sequences.

use vstd::prelude::*;
use vstd::string::StringExecFns;

use crate::StoreError;

verus! {

/// How often a subscription bills. The set is closed: the storage layer
/// accepts exactly the five codes returned by [`BillingCycle::code`].
#[derive(Clone, Copy, PartialEq, Eq, Structural, Debug)]
pub enum BillingCycle {
    Weekly,
    Monthly,
    Quarterly,
    SemiAnnually,
    Yearly,
}

impl BillingCycle {
    /// The text under which this cycle is stored.
    pub open spec fn code_spec(self) -> Seq<char> {
        match self {
            BillingCycle::Weekly => "weekly"@,
            BillingCycle::Monthly => "monthly"@,
            BillingCycle::Quarterly => "quarterly"@,
            BillingCycle::SemiAnnually => "semi_annually"@,
            BillingCycle::Yearly => "yearly"@,
        }
    }

    /// Storage text of the cycle.
    pub fn code(&self) -> (s: &'static str)
        ensures
            s@ == self.code_spec(),
    {
        match self {
            BillingCycle::Weekly => "weekly",
            BillingCycle::Monthly => "monthly",
            BillingCycle::Quarterly => "quarterly",
            BillingCycle::SemiAnnually => "semi_annually",
            BillingCycle::Yearly => "yearly",
        }
    }

    /// The check constraint on the `billing_cycle` column: a write is
    /// accepted exactly when its text is one of the five codes; any other
    /// text is a constraint violation.
    pub fn parse(text: &str) -> (r: Result<BillingCycle, StoreError>)
        ensures
            match r {
                Ok(c) => c.code_spec() == text@,
                Err(e) => e == StoreError::ConstraintViolation
                    && forall|c: BillingCycle| c.code_spec() != text@,
            },
    {
        let t: String = text.to_owned();
        if t == String::from_str("weekly") {
            Ok(BillingCycle::Weekly)
        } else if t == String::from_str("monthly") {
            Ok(BillingCycle::Monthly)
        } else if t == String::from_str("quarterly") {
            Ok(BillingCycle::Quarterly)
        } else if t == String::from_str("semi_annually") {
            Ok(BillingCycle::SemiAnnually)
        } else if t == String::from_str("yearly") {
            Ok(BillingCycle::Yearly)
        } else {
            Err(StoreError::ConstraintViolation)
        }
    }
}

impl Default for BillingCycle {
    /// The storage default for the `billing_cycle` column is `monthly`.
    fn default() -> (c: BillingCycle)
        ensures
            c == BillingCycle::Monthly,
    {
        BillingCycle::Monthly
    }
}

/// Model of a category row.
#[verifier::ext_equal]
pub ghost struct CategoryModel {
    pub id: Seq<char>,
    pub name: Seq<char>,
    pub color: Option<Seq<char>>,
    pub is_default: bool,
    pub created_at: Seq<char>,
    pub updated_at: Seq<char>,
}

/// A category row: a user-defined or seeded grouping for subscriptions.
#[derive(Debug)]
pub struct Category {
    pub id: String,
    pub name: String,
    pub color: Option<String>,
    pub is_default: bool,
    pub created_at: String,
    pub updated_at: String,
}

impl View for Category {
    type V = CategoryModel;

    open spec fn view(&self) -> CategoryModel {
        CategoryModel {
            id: self.id@,
            name: self.name@,
            color: self.color.deep_view(),
            is_default: self.is_default,
            created_at: self.created_at@,
            updated_at: self.updated_at@,
        }
    }
}

impl DeepView for Category {
    type V = CategoryModel;

    open spec fn deep_view(&self) -> CategoryModel {
        self.view()
    }
}

impl Clone for Category {
    fn clone(&self) -> (r: Self)
        ensures
            r@ == self@,
    {
        Category {
            id: self.id.clone(),
            name: self.name.clone(),
            color: clone_opt_string(&self.color),
            is_default: self.is_default,
            created_at: self.created_at.clone(),
            updated_at: self.updated_at.clone(),
        }
    }
}

/// Fields a caller supplies when creating a category; the id and the
/// timestamps are assigned by the writer.
#[derive(Debug)]
pub struct CreateCategoryPayload {
    pub name: String,
    pub color: Option<String>,
}

impl Category {
    /// Builds a category row from a creation payload: the caller
    /// assigns the id, both timestamps take the creation time, and only
    /// seed rows carry the default flag.
    pub fn from_payload(id: String, p: CreateCategoryPayload, now: String) -> (c: Category)
        ensures
            c@ == (CategoryModel {
                id: id@,
                name: p.name@,
                color: p.color.deep_view(),
                is_default: false,
                created_at: now@,
                updated_at: now@,
            }),
    {
        Category {
            id,
            name: p.name,
            color: p.color,
            is_default: false,
            created_at: now.clone(),
            updated_at: now,
        }
    }
}

/// Model of a service row.
#[verifier::ext_equal]
pub ghost struct ServiceModel {
    pub id: Seq<char>,
    pub name: Seq<char>,
    pub icon_url: Option<Seq<char>>,
    pub url: Option<Seq<char>>,
    pub default_category_id: Option<Seq<char>>,
    pub is_default: bool,
    pub created_at: Seq<char>,
    pub updated_at: Seq<char>,
}

/// A service row: a known provider a subscription can link to.
/// `default_category_id`, when present, references an existing category
/// and is cleared (not cascaded) when that category is deleted.
#[derive(Debug)]
pub struct Service {
    pub id: String,
    pub name: String,
    pub icon_url: Option<String>,
    pub url: Option<String>,
    pub default_category_id: Option<String>,
    pub is_default: bool,
    pub created_at: String,
    pub updated_at: String,
}

impl View for Service {
    type V = ServiceModel;

    open spec fn view(&self) -> ServiceModel {
        ServiceModel {
            id: self.id@,
            name: self.name@,
            icon_url: self.icon_url.deep_view(),
            url: self.url.deep_view(),
            default_category_id: self.default_category_id.deep_view(),
            is_default: self.is_default,
            created_at: self.created_at@,
            updated_at: self.updated_at@,
        }
    }
}

impl DeepView for Service {
    type V = ServiceModel;

    open spec fn deep_view(&self) -> ServiceModel {
        self.view()
    }
}

impl Clone for Service {
    fn clone(&self) -> (r: Self)
        ensures
            r@ == self@,
    {
        Service {
            id: self.id.clone(),
            name: self.name.clone(),
            icon_url: clone_opt_string(&self.icon_url),
            url: clone_opt_string(&self.url),
            default_category_id: clone_opt_string(&self.default_category_id),
            is_default: self.is_default,
            created_at: self.created_at.clone(),
            updated_at: self.updated_at.clone(),
        }
    }
}

/// Fields a caller supplies when creating a service.
#[derive(Debug)]
pub struct CreateServicePayload {
    pub name: String,
    pub icon_url: Option<String>,
    pub url: Option<String>,
    pub default_category_id: Option<String>,
}

impl Service {
    /// Builds a service row from a creation payload: the caller assigns
    /// the id, both timestamps take the creation time, and only seed
    /// rows carry the default flag.
    pub fn from_payload(id: String, p: CreateServicePayload, now: String) -> (s: Service)
        ensures
            s@ == (ServiceModel {
                id: id@,
                name: p.name@,
                icon_url: p.icon_url.deep_view(),
                url: p.url.deep_view(),
                default_category_id: p.default_category_id.deep_view(),
                is_default: false,
                created_at: now@,
                updated_at: now@,
            }),
    {
        Service {
            id,
            name: p.name,
            icon_url: p.icon_url,
            url: p.url,
            default_category_id: p.default_category_id,
            is_default: false,
            created_at: now.clone(),
            updated_at: now,
        }
    }
}

/// Model of a subscription row.
#[verifier::ext_equal]
pub ghost struct SubscriptionModel {
    pub id: Seq<char>,
    pub service_id: Option<Seq<char>>,
    pub category_id: Option<Seq<char>>,
    pub custom_name: Seq<char>,
    pub amount_cents: int,
    pub currency: Seq<char>,
    pub billing_cycle: BillingCycle,
    pub start_date: Seq<char>,
    pub next_billing_date: Option<Seq<char>>,
    pub payment_method: Option<Seq<char>>,
    pub reminder_days: Option<int>,
    pub note: Option<Seq<char>>,
    pub is_active: bool,
    pub cancelled_at: Option<Seq<char>>,
    pub created_at: Seq<char>,
    pub updated_at: Seq<char>,
}

/// A subscription row. Amounts are integer minor currency units, never
/// floating point. The schema leaves negative amounts open (a refund can
/// be recorded that way), so no sign constraint is imposed here.
/// `service_id` and `category_id`, when present, reference existing rows
/// and are cleared (not cascaded) when the referenced row is deleted.
#[derive(Debug)]
pub struct Subscription {
    pub id: String,
    pub service_id: Option<String>,
    pub category_id: Option<String>,
    pub custom_name: String,
    pub amount_cents: i64,
    pub currency: String,
    pub billing_cycle: BillingCycle,
    pub start_date: String,
    pub next_billing_date: Option<String>,
    pub payment_method: Option<String>,
    pub reminder_days: Option<i64>,
    pub note: Option<String>,
    pub is_active: bool,
    pub cancelled_at: Option<String>,
    pub created_at: String,
    pub updated_at: String,
}

impl View for Subscription {
    type V = SubscriptionModel;

    open spec fn view(&self) -> SubscriptionModel {
        SubscriptionModel {
            id: self.id@,
            service_id: self.service_id.deep_view(),
            category_id: self.category_id.deep_view(),
            custom_name: self.custom_name@,
            amount_cents: self.amount_cents as int,
            currency: self.currency@,
            billing_cycle: self.billing_cycle,
            start_date: self.start_date@,
            next_billing_date: self.next_billing_date.deep_view(),
            payment_method: self.payment_method.deep_view(),
            reminder_days: opt_int(self.reminder_days),
            note: self.note.deep_view(),
            is_active: self.is_active,
            cancelled_at: self.cancelled_at.deep_view(),
            created_at: self.created_at@,
            updated_at: self.updated_at@,
        }
    }
}

impl DeepView for Subscription {
    type V = SubscriptionModel;

    open spec fn deep_view(&self) -> SubscriptionModel {
        self.view()
    }
}

impl Clone for Subscription {
    fn clone(&self) -> (r: Self)
        ensures
            r@ == self@,
    {
        Subscription {
            id: self.id.clone(),
            service_id: clone_opt_string(&self.service_id),
            category_id: clone_opt_string(&self.category_id),
            custom_name: self.custom_name.clone(),
            amount_cents: self.amount_cents,
            currency: self.currency.clone(),
            billing_cycle: self.billing_cycle,
            start_date: self.start_date.clone(),
            next_billing_date: clone_opt_string(&self.next_billing_date),
            payment_method: clone_opt_string(&self.payment_method),
            reminder_days: self.reminder_days,
            note: clone_opt_string(&self.note),
            is_active: self.is_active,
            cancelled_at: clone_opt_string(&self.cancelled_at),
            created_at: self.created_at.clone(),
            updated_at: self.updated_at.clone(),
        }
    }
}

/// Widens an optional machine integer to its model.
pub open spec fn opt_int(o: Option<i64>) -> Option<int> {
    match o {
        Some(n) => Some(n as int),
        None => None,
    }
}

/// Fields a caller supplies when creating a subscription. Omitted
/// optional fields take the storage defaults: currency `EUR`, a monthly
/// billing cycle, and zero reminder days.
#[derive(Debug)]
pub struct CreateSubscriptionPayload {
    pub service_id: Option<String>,
    pub category_id: Option<String>,
    pub custom_name: String,
    pub amount_cents: i64,
    pub currency: Option<String>,
    pub billing_cycle: Option<BillingCycle>,
    pub start_date: String,
    pub next_billing_date: Option<String>,
    pub payment_method: Option<String>,
    pub reminder_days: Option<i64>,
    pub note: Option<String>,
}

impl Subscription {
    /// Builds a subscription row from a creation payload, applying the
    /// storage defaults for omitted fields: currency `EUR`, a monthly
    /// billing cycle, zero reminder days, active, not cancelled; both
    /// timestamps take the creation time.
    pub fn from_payload(id: String, p: CreateSubscriptionPayload, now: String) -> (s: Subscription)
        ensures
            s@ == (SubscriptionModel {
                id: id@,
                service_id: p.service_id.deep_view(),
                category_id: p.category_id.deep_view(),
                custom_name: p.custom_name@,
                amount_cents: p.amount_cents as int,
                currency: match p.currency {
                    Some(c) => c@,
                    None => "EUR"@,
                },
                billing_cycle: match p.billing_cycle {
                    Some(b) => b,
                    None => BillingCycle::Monthly,
                },
                start_date: p.start_date@,
                next_billing_date: p.next_billing_date.deep_view(),
                payment_method: p.payment_method.deep_view(),
                reminder_days: Some(
                    match p.reminder_days {
                        Some(n) => n as int,
                        None => 0,
                    },
                ),
                note: p.note.deep_view(),
                is_active: true,
                cancelled_at: None::<Seq<char>>,
                created_at: now@,
                updated_at: now@,
            }),
    {
        let currency = match p.currency {
            Some(c) => c,
            None => String::from_str("EUR"),
        };
        let billing_cycle = match p.billing_cycle {
            Some(b) => b,
            None => BillingCycle::Monthly,
        };
        let reminder_days = match p.reminder_days {
            Some(n) => n,
            None => 0i64,
        };
        Subscription {
            id,
            service_id: p.service_id,
            category_id: p.category_id,
            custom_name: p.custom_name,
            amount_cents: p.amount_cents,
            currency,
            billing_cycle,
            start_date: p.start_date,
            next_billing_date: p.next_billing_date,
            payment_method: p.payment_method,
            reminder_days: Some(reminder_days),
            note: p.note,
            is_active: true,
            cancelled_at: None,
            created_at: now.clone(),
            updated_at: now,
        }
    }
}

/// Model of a denormalized subscription listing row.
#[verifier::ext_equal]
pub ghost struct SubscriptionViewModel {
    pub id: Seq<char>,
    pub custom_name: Seq<char>,
    pub service_name: Option<Seq<char>>,
    pub service_icon_url: Option<Seq<char>>,
    pub service_url: Option<Seq<char>>,
    pub category_name: Option<Seq<char>>,
    pub category_color: Option<Seq<char>>,
    pub amount_cents: int,
    pub currency: Seq<char>,
    pub billing_cycle: BillingCycle,
    pub start_date: Seq<char>,
    pub next_billing_date: Option<Seq<char>>,
    pub payment_method: Option<Seq<char>>,
    pub reminder_days: Option<int>,
    pub note: Option<Seq<char>>,
    pub is_active: bool,
    pub cancelled_at: Option<Seq<char>>,
    pub created_at: Seq<char>,
    pub updated_at: Seq<char>,
}

/// Flattened read-only projection of a subscription joined with its
/// service and category; derived on read, never stored.
#[derive(Debug)]
pub struct SubscriptionView {
    pub id: String,
    pub custom_name: String,
    pub service_name: Option<String>,
    pub service_icon_url: Option<String>,
    pub service_url: Option<String>,
    pub category_name: Option<String>,
    pub category_color: Option<String>,
    pub amount_cents: i64,
    pub currency: String,
    pub billing_cycle: BillingCycle,
    pub start_date: String,
    pub next_billing_date: Option<String>,
    pub payment_method: Option<String>,
    pub reminder_days: Option<i64>,
    pub note: Option<String>,
    pub is_active: bool,
    pub cancelled_at: Option<String>,
    pub created_at: String,
    pub updated_at: String,
}

impl View for SubscriptionView {
    type V = SubscriptionViewModel;

    open spec fn view(&self) -> SubscriptionViewModel {
        SubscriptionViewModel {
            id: self.id@,
            custom_name: self.custom_name@,
            service_name: self.service_name.deep_view(),
            service_icon_url: self.service_icon_url.deep_view(),
            service_url: self.service_url.deep_view(),
            category_name: self.category_name.deep_view(),
            category_color: self.category_color.deep_view(),
            amount_cents: self.amount_cents as int,
            currency: self.currency@,
            billing_cycle: self.billing_cycle,
            start_date: self.start_date@,
            next_billing_date: self.next_billing_date.deep_view(),
            payment_method: self.payment_method.deep_view(),
            reminder_days: opt_int(self.reminder_days),
            note: self.note.deep_view(),
            is_active: self.is_active,
            cancelled_at: self.cancelled_at.deep_view(),
            created_at: self.created_at@,
            updated_at: self.updated_at@,
        }
    }
}

impl DeepView for SubscriptionView {
    type V = SubscriptionViewModel;

    open spec fn deep_view(&self) -> SubscriptionViewModel {
        self.view()
    }
}

/// Clones an optional string, keeping its content.
pub(crate) fn clone_opt_string(o: &Option<String>) -> (r: Option<String>)
    ensures
        r.deep_view() == o.deep_view(),
{
    match o {
        Some(s) => Some(s.clone()),
        None => None,
    }
}

} // verus!
