//! The relational store: three tables plus the recorded schema version,
//! with the uniqueness and referential rules the schema enforces.

use vstd::prelude::*;

use crate::StoreError;
use crate::models::{
    clone_opt_string, Category, CategoryModel, Service, ServiceModel, Subscription,
    SubscriptionModel, SubscriptionView, SubscriptionViewModel,
};

verus! {

/// Model of the whole store: the table contents and the bookkeeping that
/// the migrator maintains.
#[verifier::ext_equal]
pub ghost struct StoreModel {
    /// Whether the schema objects (tables and indexes) exist.
    pub schema_ready: bool,
    /// The version of the last migration step recorded as applied; 0 for
    /// a store no migration has touched.
    pub user_version: int,
    pub categories: Seq<CategoryModel>,
    pub services: Seq<ServiceModel>,
    pub subscriptions: Seq<SubscriptionModel>,
}

/// Some category row carries this id.
pub open spec fn has_category_id(cats: Seq<CategoryModel>, id: Seq<char>) -> bool {
    exists|i: int| 0 <= i < cats.len() && (#[trigger] cats[i]).id == id
}

/// Some category row carries this name.
pub open spec fn has_category_name(cats: Seq<CategoryModel>, name: Seq<char>) -> bool {
    exists|i: int| 0 <= i < cats.len() && (#[trigger] cats[i]).name == name
}

/// Some service row carries this id.
pub open spec fn has_service_id(svcs: Seq<ServiceModel>, id: Seq<char>) -> bool {
    exists|i: int| 0 <= i < svcs.len() && (#[trigger] svcs[i]).id == id
}

/// Some service row carries this name.
pub open spec fn has_service_name(svcs: Seq<ServiceModel>, name: Seq<char>) -> bool {
    exists|i: int| 0 <= i < svcs.len() && (#[trigger] svcs[i]).name == name
}

/// Some subscription row carries this id.
pub open spec fn has_subscription_id(subs: Seq<SubscriptionModel>, id: Seq<char>) -> bool {
    exists|i: int| 0 <= i < subs.len() && (#[trigger] subs[i]).id == id
}

/// A nullable reference into the categories table is absent or names an
/// existing row.
pub open spec fn category_ref_ok(r: Option<Seq<char>>, cats: Seq<CategoryModel>) -> bool {
    match r {
        None => true,
        Some(id) => has_category_id(cats, id),
    }
}

/// A nullable reference into the services table is absent or names an
/// existing row.
pub open spec fn service_ref_ok(r: Option<Seq<char>>, svcs: Seq<ServiceModel>) -> bool {
    match r {
        None => true,
        Some(id) => has_service_id(svcs, id),
    }
}

/// No two category rows share an id or a name.
pub open spec fn unique_category_keys(cats: Seq<CategoryModel>) -> bool {
    forall|i: int, j: int|
        0 <= i < j < cats.len() ==> (#[trigger] cats[i]).id != (#[trigger] cats[j]).id
            && cats[i].name != cats[j].name
}

/// No two service rows share an id or a name.
pub open spec fn unique_service_keys(svcs: Seq<ServiceModel>) -> bool {
    forall|i: int, j: int|
        0 <= i < j < svcs.len() ==> (#[trigger] svcs[i]).id != (#[trigger] svcs[j]).id
            && svcs[i].name != svcs[j].name
}

/// No two subscription rows share an id.
pub open spec fn unique_subscription_ids(subs: Seq<SubscriptionModel>) -> bool {
    forall|i: int, j: int|
        0 <= i < j < subs.len() ==> (#[trigger] subs[i]).id != (#[trigger] subs[j]).id
}

/// The first category row carrying this id, if any.
pub open spec fn category_with_id(cats: Seq<CategoryModel>, id: Seq<char>) -> Option<
    CategoryModel,
>
    decreases cats.len(),
{
    if cats.len() == 0 {
        None
    } else if cats[0].id == id {
        Some(cats[0])
    } else {
        category_with_id(cats.drop_first(), id)
    }
}

/// The first service row carrying this id, if any.
pub open spec fn service_with_id(svcs: Seq<ServiceModel>, id: Seq<char>) -> Option<ServiceModel>
    decreases svcs.len(),
{
    if svcs.len() == 0 {
        None
    } else if svcs[0].id == id {
        Some(svcs[0])
    } else {
        service_with_id(svcs.drop_first(), id)
    }
}

impl StoreModel {
    /// The rules every reachable store state obeys: ids and names are
    /// unique where the schema says so, every present reference names an
    /// existing row, and a store without schema objects holds no rows.
    pub open spec fn wf(self) -> bool {
        &&& unique_category_keys(self.categories)
        &&& unique_service_keys(self.services)
        &&& unique_subscription_ids(self.subscriptions)
        &&& forall|i: int|
            0 <= i < self.services.len() ==> category_ref_ok(
                (#[trigger] self.services[i]).default_category_id,
                self.categories,
            )
        &&& forall|i: int|
            0 <= i < self.subscriptions.len() ==> category_ref_ok(
                (#[trigger] self.subscriptions[i]).category_id,
                self.categories,
            ) && service_ref_ok(self.subscriptions[i].service_id, self.services)
        &&& self.user_version >= 0
        &&& !self.schema_ready ==> self.categories.len() == 0 && self.services.len() == 0
            && self.subscriptions.len() == 0
    }
}

/// The state of a store no migration has touched.
pub open spec fn empty_store() -> StoreModel {
    StoreModel {
        schema_ready: false,
        user_version: 0,
        categories: Seq::empty(),
        services: Seq::empty(),
        subscriptions: Seq::empty(),
    }
}

/// The persistent store, modeled in memory: the three tables and the
/// migrator's bookkeeping.
#[derive(Debug)]
pub struct Store {
    pub schema_ready: bool,
    pub user_version: u64,
    pub categories: Vec<Category>,
    pub services: Vec<Service>,
    pub subscriptions: Vec<Subscription>,
}

impl View for Store {
    type V = StoreModel;

    open spec fn view(&self) -> StoreModel {
        StoreModel {
            schema_ready: self.schema_ready,
            user_version: self.user_version as int,
            categories: self.categories.deep_view(),
            services: self.services.deep_view(),
            subscriptions: self.subscriptions.deep_view(),
        }
    }
}

impl Store {
    /// A new store: no schema objects, version 0, no rows.
    pub fn new() -> (s: Store)
        ensures
            s@ == empty_store(),
            s@.wf(),
    {
        let s = Store {
            schema_ready: false,
            user_version: 0,
            categories: Vec::new(),
            services: Vec::new(),
            subscriptions: Vec::new(),
        };
        proof {
            assert(s@ =~= empty_store());
        }
        s
    }
}

/// Whether a category row with this id exists.
pub fn category_id_taken(cats: &Vec<Category>, id: &String) -> (b: bool)
    ensures
        b == has_category_id(cats.deep_view(), id@),
{
    let mut i: usize = 0;
    while i < cats.len()
        invariant
            i <= cats.len(),
            forall|k: int| 0 <= k < i ==> (#[trigger] cats.deep_view()[k]).id != id@,
        decreases cats.len() - i,
    {
        if cats[i].id == *id {
            assert(cats.deep_view()[i as int].id == id@);
            return true;
        }
        i += 1;
    }
    false
}

/// Whether a category row with this name exists.
pub fn category_name_taken(cats: &Vec<Category>, name: &String) -> (b: bool)
    ensures
        b == has_category_name(cats.deep_view(), name@),
{
    let mut i: usize = 0;
    while i < cats.len()
        invariant
            i <= cats.len(),
            forall|k: int| 0 <= k < i ==> (#[trigger] cats.deep_view()[k]).name != name@,
        decreases cats.len() - i,
    {
        if cats[i].name == *name {
            assert(cats.deep_view()[i as int].name == name@);
            return true;
        }
        i += 1;
    }
    false
}

/// Whether a service row with this id exists.
pub fn service_id_taken(svcs: &Vec<Service>, id: &String) -> (b: bool)
    ensures
        b == has_service_id(svcs.deep_view(), id@),
{
    let mut i: usize = 0;
    while i < svcs.len()
        invariant
            i <= svcs.len(),
            forall|k: int| 0 <= k < i ==> (#[trigger] svcs.deep_view()[k]).id != id@,
        decreases svcs.len() - i,
    {
        if svcs[i].id == *id {
            assert(svcs.deep_view()[i as int].id == id@);
            return true;
        }
        i += 1;
    }
    false
}

/// Whether a service row with this name exists.
pub fn service_name_taken(svcs: &Vec<Service>, name: &String) -> (b: bool)
    ensures
        b == has_service_name(svcs.deep_view(), name@),
{
    let mut i: usize = 0;
    while i < svcs.len()
        invariant
            i <= svcs.len(),
            forall|k: int| 0 <= k < i ==> (#[trigger] svcs.deep_view()[k]).name != name@,
        decreases svcs.len() - i,
    {
        if svcs[i].name == *name {
            assert(svcs.deep_view()[i as int].name == name@);
            return true;
        }
        i += 1;
    }
    false
}

/// Whether a subscription row with this id exists.
pub fn subscription_id_taken(subs: &Vec<Subscription>, id: &String) -> (b: bool)
    ensures
        b == has_subscription_id(subs.deep_view(), id@),
{
    let mut i: usize = 0;
    while i < subs.len()
        invariant
            i <= subs.len(),
            forall|k: int| 0 <= k < i ==> (#[trigger] subs.deep_view()[k]).id != id@,
        decreases subs.len() - i,
    {
        if subs[i].id == *id {
            assert(subs.deep_view()[i as int].id == id@);
            return true;
        }
        i += 1;
    }
    false
}

impl Store {
    /// Writes a category row. The write is accepted exactly when no row
    /// carries the same id or name; otherwise it is a constraint
    /// violation and the store is unchanged.
    pub fn insert_category(&mut self, c: Category) -> (r: Result<(), StoreError>)
        requires
            old(self)@.wf(),
            old(self)@.schema_ready,
        ensures
            final(self)@.wf(),
            match r {
                Ok(()) => !has_category_id(old(self)@.categories, c@.id)
                    && !has_category_name(old(self)@.categories, c@.name) && final(self)@
                    == (StoreModel { categories: old(self)@.categories.push(c@), ..old(self)@ }),
                Err(e) => e == StoreError::ConstraintViolation && (has_category_id(
                    old(self)@.categories,
                    c@.id,
                ) || has_category_name(old(self)@.categories, c@.name)) && final(self)@ == old(
                    self,
                )@,
            },
    {
        let id_taken = category_id_taken(&self.categories, &c.id);
        let name_taken = category_name_taken(&self.categories, &c.name);
        if id_taken || name_taken {
            return Err(StoreError::ConstraintViolation);
        }
        let ghost prev = self@;
        let ghost cm = c@;
        self.categories.push(c);
        proof {
            assert(self.categories.deep_view() =~= prev.categories.push(cm));
            assert(self@ =~= (StoreModel { categories: prev.categories.push(cm), ..prev }));
            lemma_push_category_wf(prev, cm);
        }
        Ok(())
    }

    /// Writes a service row. The write is accepted exactly when no row
    /// carries the same id or name and the default category reference,
    /// if present, names an existing category; otherwise it is a
    /// constraint violation and the store is unchanged.
    pub fn insert_service(&mut self, s: Service) -> (r: Result<(), StoreError>)
        requires
            old(self)@.wf(),
            old(self)@.schema_ready,
        ensures
            final(self)@.wf(),
            match r {
                Ok(()) => !has_service_id(old(self)@.services, s@.id) && !has_service_name(
                    old(self)@.services,
                    s@.name,
                ) && category_ref_ok(s@.default_category_id, old(self)@.categories) && final(self)@
                    == (StoreModel { services: old(self)@.services.push(s@), ..old(self)@ }),
                Err(e) => e == StoreError::ConstraintViolation && (has_service_id(
                    old(self)@.services,
                    s@.id,
                ) || has_service_name(old(self)@.services, s@.name) || !category_ref_ok(
                    s@.default_category_id,
                    old(self)@.categories,
                )) && final(self)@ == old(self)@,
            },
    {
        let id_taken = service_id_taken(&self.services, &s.id);
        let name_taken = service_name_taken(&self.services, &s.name);
        let ref_ok = match &s.default_category_id {
            Some(cid) => category_id_taken(&self.categories, cid),
            None => true,
        };
        if id_taken || name_taken || !ref_ok {
            return Err(StoreError::ConstraintViolation);
        }
        let ghost prev = self@;
        let ghost sm = s@;
        self.services.push(s);
        proof {
            assert(self.services.deep_view() =~= prev.services.push(sm));
            assert(self@ =~= (StoreModel { services: prev.services.push(sm), ..prev }));
            lemma_push_service_wf(prev, sm);
        }
        Ok(())
    }

    /// Writes a subscription row. The write is accepted exactly when no
    /// row carries the same id and both nullable references, where
    /// present, name existing rows; otherwise it is a constraint
    /// violation and the store is unchanged. The billing cycle is typed,
    /// so only the five enumerated values can reach storage.
    pub fn insert_subscription(&mut self, s: Subscription) -> (r: Result<(), StoreError>)
        requires
            old(self)@.wf(),
            old(self)@.schema_ready,
        ensures
            final(self)@.wf(),
            match r {
                Ok(()) => !has_subscription_id(old(self)@.subscriptions, s@.id) && service_ref_ok(
                    s@.service_id,
                    old(self)@.services,
                ) && category_ref_ok(s@.category_id, old(self)@.categories) && final(self)@ == (
                StoreModel { subscriptions: old(self)@.subscriptions.push(s@), ..old(self)@ }),
                Err(e) => e == StoreError::ConstraintViolation && (has_subscription_id(
                    old(self)@.subscriptions,
                    s@.id,
                ) || !service_ref_ok(s@.service_id, old(self)@.services) || !category_ref_ok(
                    s@.category_id,
                    old(self)@.categories,
                )) && final(self)@ == old(self)@,
            },
    {
        let id_taken = subscription_id_taken(&self.subscriptions, &s.id);
        let svc_ok = match &s.service_id {
            Some(sid) => service_id_taken(&self.services, sid),
            None => true,
        };
        let cat_ok = match &s.category_id {
            Some(cid) => category_id_taken(&self.categories, cid),
            None => true,
        };
        if id_taken || !svc_ok || !cat_ok {
            return Err(StoreError::ConstraintViolation);
        }
        let ghost prev = self@;
        let ghost sm = s@;
        self.subscriptions.push(s);
        proof {
            assert(self.subscriptions.deep_view() =~= prev.subscriptions.push(sm));
            assert(self@ =~= (StoreModel { subscriptions: prev.subscriptions.push(sm), ..prev }));
            lemma_push_subscription_wf(prev, sm);
        }
        Ok(())
    }
}

/// Adding a category with a fresh id and name keeps the store rules.
pub(crate) proof fn lemma_push_category_wf(s: StoreModel, c: CategoryModel)
    requires
        s.wf(),
        s.schema_ready,
        !has_category_id(s.categories, c.id),
        !has_category_name(s.categories, c.name),
    ensures
        (StoreModel { categories: s.categories.push(c), ..s }).wf(),
{
    let cats = s.categories.push(c);
    assert forall|i: int, j: int| 0 <= i < j < cats.len() implies (#[trigger] cats[i]).id != (
    #[trigger] cats[j]).id && cats[i].name != cats[j].name by {
        if j < s.categories.len() {
            assert(cats[i] == s.categories[i] && cats[j] == s.categories[j]);
        } else {
            assert(cats[i] == s.categories[i] && cats[j] == c);
        }
    }
    assert forall|x: Seq<char>| has_category_id(s.categories, x) implies has_category_id(
        cats,
        x,
    ) by {
        let i = choose|i: int| 0 <= i < s.categories.len() && (#[trigger] s.categories[i]).id == x;
        assert(cats[i].id == x);
    }
}

/// Adding a service with a fresh id and name and a valid category
/// reference keeps the store rules.
pub(crate) proof fn lemma_push_service_wf(s: StoreModel, v: ServiceModel)
    requires
        s.wf(),
        s.schema_ready,
        !has_service_id(s.services, v.id),
        !has_service_name(s.services, v.name),
        category_ref_ok(v.default_category_id, s.categories),
    ensures
        (StoreModel { services: s.services.push(v), ..s }).wf(),
{
    let svcs = s.services.push(v);
    assert forall|i: int, j: int| 0 <= i < j < svcs.len() implies (#[trigger] svcs[i]).id != (
    #[trigger] svcs[j]).id && svcs[i].name != svcs[j].name by {
        if j < s.services.len() {
            assert(svcs[i] == s.services[i] && svcs[j] == s.services[j]);
        } else {
            assert(svcs[i] == s.services[i] && svcs[j] == v);
        }
    }
    assert forall|i: int| 0 <= i < svcs.len() implies category_ref_ok(
        (#[trigger] svcs[i]).default_category_id,
        s.categories,
    ) by {
        if i < s.services.len() {
            assert(svcs[i] == s.services[i]);
        } else {
            assert(svcs[i] == v);
        }
    }
    assert forall|x: Seq<char>| has_service_id(s.services, x) implies has_service_id(svcs, x) by {
        let i = choose|i: int| 0 <= i < s.services.len() && (#[trigger] s.services[i]).id == x;
        assert(svcs[i].id == x);
    }
}

/// Adding a subscription with a fresh id and valid references keeps the
/// store rules.
proof fn lemma_push_subscription_wf(s: StoreModel, b: SubscriptionModel)
    requires
        s.wf(),
        s.schema_ready,
        !has_subscription_id(s.subscriptions, b.id),
        service_ref_ok(b.service_id, s.services),
        category_ref_ok(b.category_id, s.categories),
    ensures
        (StoreModel { subscriptions: s.subscriptions.push(b), ..s }).wf(),
{
    let subs = s.subscriptions.push(b);
    assert forall|i: int, j: int| 0 <= i < j < subs.len() implies (#[trigger] subs[i]).id != (
    #[trigger] subs[j]).id by {
        if j < s.subscriptions.len() {
            assert(subs[i] == s.subscriptions[i] && subs[j] == s.subscriptions[j]);
        } else {
            assert(subs[i] == s.subscriptions[i] && subs[j] == b);
        }
    }
    assert forall|i: int| 0 <= i < subs.len() implies category_ref_ok(
        (#[trigger] subs[i]).category_id,
        s.categories,
    ) && service_ref_ok(subs[i].service_id, s.services) by {
        if i < s.subscriptions.len() {
            assert(subs[i] == s.subscriptions[i]);
        } else {
            assert(subs[i] == b);
        }
    }
}

/// The table without the first category row carrying this id; the table
/// itself when no row does.
pub open spec fn remove_category(cats: Seq<CategoryModel>, id: Seq<char>) -> Seq<CategoryModel>
    decreases cats.len(),
{
    if cats.len() == 0 {
        cats
    } else if cats[0].id == id {
        cats.drop_first()
    } else {
        seq![cats[0]] + remove_category(cats.drop_first(), id)
    }
}

/// The table without the first service row carrying this id; the table
/// itself when no row does.
pub open spec fn remove_service(svcs: Seq<ServiceModel>, id: Seq<char>) -> Seq<ServiceModel>
    decreases svcs.len(),
{
    if svcs.len() == 0 {
        svcs
    } else if svcs[0].id == id {
        svcs.drop_first()
    } else {
        seq![svcs[0]] + remove_service(svcs.drop_first(), id)
    }
}

/// The service row with its default category reference nulled when it
/// names this category, unchanged otherwise.
pub open spec fn service_with_category_cleared(v: ServiceModel, id: Seq<char>) -> ServiceModel {
    if v.default_category_id == Some(id) {
        ServiceModel { default_category_id: None, ..v }
    } else {
        v
    }
}

/// The subscription row with its category reference nulled when it names
/// this category, unchanged otherwise.
pub open spec fn subscription_with_category_cleared(
    b: SubscriptionModel,
    id: Seq<char>,
) -> SubscriptionModel {
    if b.category_id == Some(id) {
        SubscriptionModel { category_id: None, ..b }
    } else {
        b
    }
}

/// The subscription row with its service reference nulled when it names
/// this service, unchanged otherwise.
pub open spec fn subscription_with_service_cleared(
    b: SubscriptionModel,
    id: Seq<char>,
) -> SubscriptionModel {
    if b.service_id == Some(id) {
        SubscriptionModel { service_id: None, ..b }
    } else {
        b
    }
}

/// The services table with every reference to this category nulled.
pub open spec fn services_with_category_cleared(
    svcs: Seq<ServiceModel>,
    id: Seq<char>,
) -> Seq<ServiceModel> {
    svcs.map_values(|v: ServiceModel| service_with_category_cleared(v, id))
}

/// The subscriptions table with every reference to this category nulled.
pub open spec fn subscriptions_with_category_cleared(
    subs: Seq<SubscriptionModel>,
    id: Seq<char>,
) -> Seq<SubscriptionModel> {
    subs.map_values(|b: SubscriptionModel| subscription_with_category_cleared(b, id))
}

/// The subscriptions table with every reference to this service nulled.
pub open spec fn subscriptions_with_service_cleared(
    subs: Seq<SubscriptionModel>,
    id: Seq<char>,
) -> Seq<SubscriptionModel> {
    subs.map_values(|b: SubscriptionModel| subscription_with_service_cleared(b, id))
}

/// A first match at index `i` is what `category_with_id` returns.
proof fn lemma_category_with_id_at(cats: Seq<CategoryModel>, id: Seq<char>, i: int)
    requires
        0 <= i < cats.len(),
        forall|k: int| 0 <= k < i ==> (#[trigger] cats[k]).id != id,
        cats[i].id == id,
    ensures
        category_with_id(cats, id) == Some(cats[i]),
    decreases i,
{
    if i == 0 {
    } else {
        assert(cats[0].id != id);
        lemma_category_with_id_at(cats.drop_first(), id, i - 1);
    }
}

/// With no match anywhere, `category_with_id` returns nothing.
proof fn lemma_category_with_id_none(cats: Seq<CategoryModel>, id: Seq<char>)
    requires
        forall|k: int| 0 <= k < cats.len() ==> (#[trigger] cats[k]).id != id,
    ensures
        category_with_id(cats, id) is None,
    decreases cats.len(),
{
    if cats.len() > 0 {
        lemma_category_with_id_none(cats.drop_first(), id);
    }
}

/// A first match at index `i` is what `service_with_id` returns.
proof fn lemma_service_with_id_at(svcs: Seq<ServiceModel>, id: Seq<char>, i: int)
    requires
        0 <= i < svcs.len(),
        forall|k: int| 0 <= k < i ==> (#[trigger] svcs[k]).id != id,
        svcs[i].id == id,
    ensures
        service_with_id(svcs, id) == Some(svcs[i]),
    decreases i,
{
    if i == 0 {
    } else {
        assert(svcs[0].id != id);
        lemma_service_with_id_at(svcs.drop_first(), id, i - 1);
    }
}

/// With no match anywhere, `service_with_id` returns nothing.
proof fn lemma_service_with_id_none(svcs: Seq<ServiceModel>, id: Seq<char>)
    requires
        forall|k: int| 0 <= k < svcs.len() ==> (#[trigger] svcs[k]).id != id,
    ensures
        service_with_id(svcs, id) is None,
    decreases svcs.len(),
{
    if svcs.len() > 0 {
        lemma_service_with_id_none(svcs.drop_first(), id);
    }
}

/// A first match at index `i` makes `remove_category` drop exactly that row.
proof fn lemma_remove_category_at(cats: Seq<CategoryModel>, id: Seq<char>, i: int)
    requires
        0 <= i < cats.len(),
        forall|k: int| 0 <= k < i ==> (#[trigger] cats[k]).id != id,
        cats[i].id == id,
    ensures
        remove_category(cats, id) == cats.remove(i),
    decreases i,
{
    if i == 0 {
        assert(cats.drop_first() =~= cats.remove(0));
    } else {
        assert(cats[0].id != id);
        assert forall|k: int| 0 <= k < i - 1 implies (#[trigger] cats.drop_first()[k]).id != id by {
            assert(cats.drop_first()[k] == cats[k + 1]);
        }
        lemma_remove_category_at(cats.drop_first(), id, i - 1);
        assert(seq![cats[0]] + cats.drop_first().remove(i - 1) =~= cats.remove(i));
    }
}

/// With no match anywhere, `remove_category` leaves the table unchanged.
proof fn lemma_remove_category_absent(cats: Seq<CategoryModel>, id: Seq<char>)
    requires
        forall|k: int| 0 <= k < cats.len() ==> (#[trigger] cats[k]).id != id,
    ensures
        remove_category(cats, id) == cats,
    decreases cats.len(),
{
    if cats.len() > 0 {
        assert forall|k: int|
            0 <= k < cats.drop_first().len() implies (#[trigger] cats.drop_first()[k]).id != id by {
            assert(cats.drop_first()[k] == cats[k + 1]);
        }
        lemma_remove_category_absent(cats.drop_first(), id);
        assert(seq![cats[0]] + cats.drop_first() =~= cats);
    }
}

/// A first match at index `i` makes `remove_service` drop exactly that row.
proof fn lemma_remove_service_at(svcs: Seq<ServiceModel>, id: Seq<char>, i: int)
    requires
        0 <= i < svcs.len(),
        forall|k: int| 0 <= k < i ==> (#[trigger] svcs[k]).id != id,
        svcs[i].id == id,
    ensures
        remove_service(svcs, id) == svcs.remove(i),
    decreases i,
{
    if i == 0 {
        assert(svcs.drop_first() =~= svcs.remove(0));
    } else {
        assert(svcs[0].id != id);
        assert forall|k: int| 0 <= k < i - 1 implies (#[trigger] svcs.drop_first()[k]).id != id by {
            assert(svcs.drop_first()[k] == svcs[k + 1]);
        }
        lemma_remove_service_at(svcs.drop_first(), id, i - 1);
        assert(seq![svcs[0]] + svcs.drop_first().remove(i - 1) =~= svcs.remove(i));
    }
}

/// With no match anywhere, `remove_service` leaves the table unchanged.
proof fn lemma_remove_service_absent(svcs: Seq<ServiceModel>, id: Seq<char>)
    requires
        forall|k: int| 0 <= k < svcs.len() ==> (#[trigger] svcs[k]).id != id,
    ensures
        remove_service(svcs, id) == svcs,
    decreases svcs.len(),
{
    if svcs.len() > 0 {
        assert forall|k: int|
            0 <= k < svcs.drop_first().len() implies (#[trigger] svcs.drop_first()[k]).id != id by {
            assert(svcs.drop_first()[k] == svcs[k + 1]);
        }
        lemma_remove_service_absent(svcs.drop_first(), id);
        assert(seq![svcs[0]] + svcs.drop_first() =~= svcs);
    }
}

/// Index of the first category row with this id, if any.
fn category_index(cats: &Vec<Category>, id: &String) -> (r: Option<usize>)
    ensures
        match r {
            Some(i) => i < cats.len() && cats.deep_view()[i as int].id == id@ && forall|k: int|
                0 <= k < i ==> (#[trigger] cats.deep_view()[k]).id != id@,
            None => !has_category_id(cats.deep_view(), id@),
        },
{
    let mut i: usize = 0;
    while i < cats.len()
        invariant
            i <= cats.len(),
            forall|k: int| 0 <= k < i ==> (#[trigger] cats.deep_view()[k]).id != id@,
        decreases cats.len() - i,
    {
        if cats[i].id == *id {
            return Some(i);
        }
        i += 1;
    }
    None
}

/// Index of the first service row with this id, if any.
fn service_index(svcs: &Vec<Service>, id: &String) -> (r: Option<usize>)
    ensures
        match r {
            Some(i) => i < svcs.len() && svcs.deep_view()[i as int].id == id@ && forall|k: int|
                0 <= k < i ==> (#[trigger] svcs.deep_view()[k]).id != id@,
            None => !has_service_id(svcs.deep_view(), id@),
        },
{
    let mut i: usize = 0;
    while i < svcs.len()
        invariant
            i <= svcs.len(),
            forall|k: int| 0 <= k < i ==> (#[trigger] svcs.deep_view()[k]).id != id@,
        decreases svcs.len() - i,
    {
        if svcs[i].id == *id {
            return Some(i);
        }
        i += 1;
    }
    None
}

/// Copy of the services table with every reference to this category nulled.
fn services_with_category_ref_cleared(svcs: &Vec<Service>, id: &String) -> (out: Vec<Service>)
    ensures
        out.deep_view() == services_with_category_cleared(svcs.deep_view(), id@),
{
    let mut out: Vec<Service> = Vec::new();
    let mut i: usize = 0;
    while i < svcs.len()
        invariant
            i <= svcs.len(),
            out.deep_view() == services_with_category_cleared(
                svcs.deep_view().take(i as int),
                id@,
            ),
        decreases svcs.len() - i,
    {
        let s = (&svcs[i]).clone();
        let hit = match &s.default_category_id {
            Some(c) => *c == *id,
            None => false,
        };
        let s2 = if hit {
            Service {
                id: s.id,
                name: s.name,
                icon_url: s.icon_url,
                url: s.url,
                default_category_id: None,
                is_default: s.is_default,
                created_at: s.created_at,
                updated_at: s.updated_at,
            }
        } else {
            s
        };
        proof {
            assert(s2@ =~= service_with_category_cleared(svcs.deep_view()[i as int], id@));
        }
        out.push(s2);
        proof {
            let sv = svcs.deep_view();
            assert(sv.take(i as int + 1) =~= sv.take(i as int).push(sv[i as int]));
            assert(services_with_category_cleared(sv.take(i as int + 1), id@)
                =~= services_with_category_cleared(sv.take(i as int), id@).push(
                service_with_category_cleared(sv[i as int], id@),
            ));
        }
        i += 1;
    }
    proof {
        assert(svcs.deep_view().take(svcs.len() as int) =~= svcs.deep_view());
    }
    out
}

/// Copy of the subscriptions table with every reference to this category nulled.
fn subscriptions_with_category_ref_cleared(subs: &Vec<Subscription>, id: &String) -> (out: Vec<
    Subscription,
>)
    ensures
        out.deep_view() == subscriptions_with_category_cleared(subs.deep_view(), id@),
{
    let mut out: Vec<Subscription> = Vec::new();
    let mut i: usize = 0;
    while i < subs.len()
        invariant
            i <= subs.len(),
            out.deep_view() == subscriptions_with_category_cleared(
                subs.deep_view().take(i as int),
                id@,
            ),
        decreases subs.len() - i,
    {
        let mut s = (&subs[i]).clone();
        let hit = match &s.category_id {
            Some(c) => *c == *id,
            None => false,
        };
        if hit {
            s.category_id = None;
        }
        proof {
            assert(s@ =~= subscription_with_category_cleared(subs.deep_view()[i as int], id@));
        }
        out.push(s);
        proof {
            let sv = subs.deep_view();
            assert(sv.take(i as int + 1) =~= sv.take(i as int).push(sv[i as int]));
            assert(subscriptions_with_category_cleared(sv.take(i as int + 1), id@)
                =~= subscriptions_with_category_cleared(sv.take(i as int), id@).push(
                subscription_with_category_cleared(sv[i as int], id@),
            ));
        }
        i += 1;
    }
    proof {
        assert(subs.deep_view().take(subs.len() as int) =~= subs.deep_view());
    }
    out
}

/// Copy of the subscriptions table with every reference to this service nulled.
fn subscriptions_with_service_ref_cleared(subs: &Vec<Subscription>, id: &String) -> (out: Vec<
    Subscription,
>)
    ensures
        out.deep_view() == subscriptions_with_service_cleared(subs.deep_view(), id@),
{
    let mut out: Vec<Subscription> = Vec::new();
    let mut i: usize = 0;
    while i < subs.len()
        invariant
            i <= subs.len(),
            out.deep_view() == subscriptions_with_service_cleared(
                subs.deep_view().take(i as int),
                id@,
            ),
        decreases subs.len() - i,
    {
        let mut s = (&subs[i]).clone();
        let hit = match &s.service_id {
            Some(c) => *c == *id,
            None => false,
        };
        if hit {
            s.service_id = None;
        }
        proof {
            assert(s@ =~= subscription_with_service_cleared(subs.deep_view()[i as int], id@));
        }
        out.push(s);
        proof {
            let sv = subs.deep_view();
            assert(sv.take(i as int + 1) =~= sv.take(i as int).push(sv[i as int]));
            assert(subscriptions_with_service_cleared(sv.take(i as int + 1), id@)
                =~= subscriptions_with_service_cleared(sv.take(i as int), id@).push(
                subscription_with_service_cleared(sv[i as int], id@),
            ));
        }
        i += 1;
    }
    proof {
        assert(subs.deep_view().take(subs.len() as int) =~= subs.deep_view());
    }
    out
}

impl Store {
    /// Deletes the category row with this id, if one exists, and nulls
    /// every reference to it: the deletion is permanent for the row, and
    /// dependent services and subscriptions are kept with their
    /// reference cleared, never deleted or blocked. Returns whether a
    /// row was deleted.
    pub fn delete_category(&mut self, id: &String) -> (r: bool)
        requires
            old(self)@.wf(),
            old(self)@.schema_ready,
        ensures
            final(self)@.wf(),
            r == has_category_id(old(self)@.categories, id@),
            final(self)@ == (StoreModel {
                categories: remove_category(old(self)@.categories, id@),
                services: services_with_category_cleared(old(self)@.services, id@),
                subscriptions: subscriptions_with_category_cleared(
                    old(self)@.subscriptions,
                    id@,
                ),
                ..old(self)@
            }),
    {
        let ghost prev = self@;
        let idx = category_index(&self.categories, id);
        let new_svcs = services_with_category_ref_cleared(&self.services, id);
        let new_subs = subscriptions_with_category_ref_cleared(&self.subscriptions, id);
        self.services = new_svcs;
        self.subscriptions = new_subs;
        let r = match idx {
            Some(i) => {
                self.categories.remove(i);
                proof {
                    lemma_remove_category_at(prev.categories, id@, i as int);
                    assert(self.categories.deep_view() =~= prev.categories.remove(i as int));
                    assert(has_category_id(prev.categories, id@));
                }
                true
            },
            None => {
                proof {
                    lemma_remove_category_absent(prev.categories, id@);
                }
                false
            },
        };
        proof {
            assert(self@ =~= (StoreModel {
                categories: remove_category(prev.categories, id@),
                services: services_with_category_cleared(prev.services, id@),
                subscriptions: subscriptions_with_category_cleared(prev.subscriptions, id@),
                ..prev
            }));
            lemma_delete_category_wf(prev, id@);
        }
        r
    }

    /// Deletes the service row with this id, if one exists, and nulls
    /// every subscription reference to it; the referencing subscriptions
    /// are kept. Returns whether a row was deleted.
    pub fn delete_service(&mut self, id: &String) -> (r: bool)
        requires
            old(self)@.wf(),
            old(self)@.schema_ready,
        ensures
            final(self)@.wf(),
            r == has_service_id(old(self)@.services, id@),
            final(self)@ == (StoreModel {
                services: remove_service(old(self)@.services, id@),
                subscriptions: subscriptions_with_service_cleared(old(self)@.subscriptions, id@),
                ..old(self)@
            }),
    {
        let ghost prev = self@;
        let idx = service_index(&self.services, id);
        let new_subs = subscriptions_with_service_ref_cleared(&self.subscriptions, id);
        self.subscriptions = new_subs;
        let r = match idx {
            Some(i) => {
                self.services.remove(i);
                proof {
                    lemma_remove_service_at(prev.services, id@, i as int);
                    assert(self.services.deep_view() =~= prev.services.remove(i as int));
                    assert(has_service_id(prev.services, id@));
                }
                true
            },
            None => {
                proof {
                    lemma_remove_service_absent(prev.services, id@);
                }
                false
            },
        };
        proof {
            assert(self@ =~= (StoreModel {
                services: remove_service(prev.services, id@),
                subscriptions: subscriptions_with_service_cleared(prev.subscriptions, id@),
                ..prev
            }));
            lemma_delete_service_wf(prev, id@);
        }
        r
    }
}

/// Deleting a category and clearing the references to it keeps the
/// store rules.
proof fn lemma_delete_category_wf(s: StoreModel, id: Seq<char>)
    requires
        s.wf(),
        s.schema_ready,
    ensures
        (StoreModel {
            categories: remove_category(s.categories, id),
            services: services_with_category_cleared(s.services, id),
            subscriptions: subscriptions_with_category_cleared(s.subscriptions, id),
            ..s
        }).wf(),
{
    let cats2 = remove_category(s.categories, id);
    let svcs2 = services_with_category_cleared(s.services, id);
    let subs2 = subscriptions_with_category_cleared(s.subscriptions, id);
    if has_category_id(s.categories, id) {
        let i = choose|i: int| 0 <= i < s.categories.len() && (#[trigger] s.categories[i]).id
            == id;
        assert forall|k: int| 0 <= k < i implies (#[trigger] s.categories[k]).id != id by {
            assert(s.categories[k].id != s.categories[i].id);
        }
        lemma_remove_category_at(s.categories, id, i);
        s.categories.remove_ensures(i);
        assert forall|p: int, q: int| 0 <= p < q < cats2.len() implies (#[trigger] cats2[p]).id != (
        #[trigger] cats2[q]).id && cats2[p].name != cats2[q].name by {
            let p0 = if p < i { p } else { p + 1 };
            let q0 = if q < i { q } else { q + 1 };
            assert(cats2[p] == s.categories[p0]);
            assert(cats2[q] == s.categories[q0]);
        }
        assert forall|x: Seq<char>|
            has_category_id(s.categories, x) && x != id implies has_category_id(cats2, x) by {
            let j = choose|j: int| 0 <= j < s.categories.len() && (#[trigger] s.categories[j]).id
                == x;
            if j < i {
                assert(cats2[j].id == x);
            } else {
                assert(j != i);
                assert(cats2[j - 1].id == x);
            }
        }
    } else {
        lemma_remove_category_absent(s.categories, id);
        assert forall|x: Seq<char>|
            has_category_id(s.categories, x) && x != id implies has_category_id(cats2, x) by {}
    }
    assert forall|p: int, q: int| 0 <= p < q < svcs2.len() implies (#[trigger] svcs2[p]).id != (
    #[trigger] svcs2[q]).id && svcs2[p].name != svcs2[q].name by {
        assert(svcs2[p] == service_with_category_cleared(s.services[p], id));
        assert(svcs2[q] == service_with_category_cleared(s.services[q], id));
    }
    assert forall|p: int, q: int| 0 <= p < q < subs2.len() implies (#[trigger] subs2[p]).id != (
    #[trigger] subs2[q]).id by {
        assert(subs2[p] == subscription_with_category_cleared(s.subscriptions[p], id));
        assert(subs2[q] == subscription_with_category_cleared(s.subscriptions[q], id));
    }
    assert forall|k: int| 0 <= k < svcs2.len() implies category_ref_ok(
        (#[trigger] svcs2[k]).default_category_id,
        cats2,
    ) by {
        let v = s.services[k];
        assert(svcs2[k] == service_with_category_cleared(v, id));
        assert(category_ref_ok(v.default_category_id, s.categories));
        match v.default_category_id {
            Some(x) => {
                if x != id {
                    assert(has_category_id(cats2, x));
                }
            },
            None => {},
        }
    }
    assert forall|x: Seq<char>| has_service_id(s.services, x) implies has_service_id(svcs2, x) by {
        let j = choose|j: int| 0 <= j < s.services.len() && (#[trigger] s.services[j]).id == x;
        assert(svcs2[j] == service_with_category_cleared(s.services[j], id));
        assert(svcs2[j].id == x);
    }
    assert forall|k: int| 0 <= k < subs2.len() implies category_ref_ok(
        (#[trigger] subs2[k]).category_id,
        cats2,
    ) && service_ref_ok(subs2[k].service_id, svcs2) by {
        let b = s.subscriptions[k];
        assert(subs2[k] == subscription_with_category_cleared(b, id));
        assert(category_ref_ok(b.category_id, s.categories));
        assert(service_ref_ok(b.service_id, s.services));
        match b.category_id {
            Some(x) => {
                if x != id {
                    assert(has_category_id(cats2, x));
                }
            },
            None => {},
        }
        match b.service_id {
            Some(x) => {
                assert(has_service_id(svcs2, x));
            },
            None => {},
        }
    }
}

/// Deleting a service and clearing the references to it keeps the store
/// rules.
proof fn lemma_delete_service_wf(s: StoreModel, id: Seq<char>)
    requires
        s.wf(),
        s.schema_ready,
    ensures
        (StoreModel {
            services: remove_service(s.services, id),
            subscriptions: subscriptions_with_service_cleared(s.subscriptions, id),
            ..s
        }).wf(),
{
    let svcs2 = remove_service(s.services, id);
    let subs2 = subscriptions_with_service_cleared(s.subscriptions, id);
    if has_service_id(s.services, id) {
        let i = choose|i: int| 0 <= i < s.services.len() && (#[trigger] s.services[i]).id == id;
        assert forall|k: int| 0 <= k < i implies (#[trigger] s.services[k]).id != id by {
            assert(s.services[k].id != s.services[i].id);
        }
        lemma_remove_service_at(s.services, id, i);
        s.services.remove_ensures(i);
        assert forall|p: int, q: int| 0 <= p < q < svcs2.len() implies (#[trigger] svcs2[p]).id != (
        #[trigger] svcs2[q]).id && svcs2[p].name != svcs2[q].name by {
            let p0 = if p < i { p } else { p + 1 };
            let q0 = if q < i { q } else { q + 1 };
            assert(svcs2[p] == s.services[p0]);
            assert(svcs2[q] == s.services[q0]);
        }
        assert forall|k: int| 0 <= k < svcs2.len() implies category_ref_ok(
            (#[trigger] svcs2[k]).default_category_id,
            s.categories,
        ) by {
            let k0 = if k < i { k } else { k + 1 };
            assert(svcs2[k] == s.services[k0]);
        }
        assert forall|x: Seq<char>|
            has_service_id(s.services, x) && x != id implies has_service_id(svcs2, x) by {
            let j = choose|j: int| 0 <= j < s.services.len() && (#[trigger] s.services[j]).id == x;
            if j < i {
                assert(svcs2[j].id == x);
            } else {
                assert(j != i);
                assert(svcs2[j - 1].id == x);
            }
        }
    } else {
        lemma_remove_service_absent(s.services, id);
        assert forall|x: Seq<char>|
            has_service_id(s.services, x) && x != id implies has_service_id(svcs2, x) by {}
    }
    assert forall|p: int, q: int| 0 <= p < q < subs2.len() implies (#[trigger] subs2[p]).id != (
    #[trigger] subs2[q]).id by {
        assert(subs2[p] == subscription_with_service_cleared(s.subscriptions[p], id));
        assert(subs2[q] == subscription_with_service_cleared(s.subscriptions[q], id));
    }
    assert forall|k: int| 0 <= k < subs2.len() implies category_ref_ok(
        (#[trigger] subs2[k]).category_id,
        s.categories,
    ) && service_ref_ok(subs2[k].service_id, svcs2) by {
        let b = s.subscriptions[k];
        assert(subs2[k] == subscription_with_service_cleared(b, id));
        assert(category_ref_ok(b.category_id, s.categories));
        assert(service_ref_ok(b.service_id, s.services));
        match b.service_id {
            Some(x) => {
                if x != id {
                    assert(has_service_id(svcs2, x));
                }
            },
            None => {},
        }
    }
}

/// The first category row with this id, if any.
pub fn find_category<'a>(cats: &'a Vec<Category>, id: &String) -> (r: Option<&'a Category>)
    ensures
        match r {
            Some(c) => category_with_id(cats.deep_view(), id@) == Some(c@),
            None => category_with_id(cats.deep_view(), id@) is None,
        },
{
    let mut i: usize = 0;
    while i < cats.len()
        invariant
            i <= cats.len(),
            forall|k: int| 0 <= k < i ==> (#[trigger] cats.deep_view()[k]).id != id@,
        decreases cats.len() - i,
    {
        if cats[i].id == *id {
            proof {
                lemma_category_with_id_at(cats.deep_view(), id@, i as int);
            }
            return Some(&cats[i]);
        }
        i += 1;
    }
    proof {
        lemma_category_with_id_none(cats.deep_view(), id@);
    }
    None
}

/// The first service row with this id, if any.
pub fn find_service<'a>(svcs: &'a Vec<Service>, id: &String) -> (r: Option<&'a Service>)
    ensures
        match r {
            Some(s) => service_with_id(svcs.deep_view(), id@) == Some(s@),
            None => service_with_id(svcs.deep_view(), id@) is None,
        },
{
    let mut i: usize = 0;
    while i < svcs.len()
        invariant
            i <= svcs.len(),
            forall|k: int| 0 <= k < i ==> (#[trigger] svcs.deep_view()[k]).id != id@,
        decreases svcs.len() - i,
    {
        if svcs[i].id == *id {
            proof {
                lemma_service_with_id_at(svcs.deep_view(), id@, i as int);
            }
            return Some(&svcs[i]);
        }
        i += 1;
    }
    proof {
        lemma_service_with_id_none(svcs.deep_view(), id@);
    }
    None
}

/// The flattened listing row of one subscription: its own columns plus
/// the name and display fields of the service and category it links to,
/// absent where the link is null.
pub open spec fn join_subscription(
    b: SubscriptionModel,
    svcs: Seq<ServiceModel>,
    cats: Seq<CategoryModel>,
) -> SubscriptionViewModel {
    let svc = match b.service_id {
        None => None,
        Some(sid) => service_with_id(svcs, sid),
    };
    let cat = match b.category_id {
        None => None,
        Some(cid) => category_with_id(cats, cid),
    };
    SubscriptionViewModel {
        id: b.id,
        custom_name: b.custom_name,
        service_name: match svc {
            Some(v) => Some(v.name),
            None => None,
        },
        service_icon_url: match svc {
            Some(v) => v.icon_url,
            None => None,
        },
        service_url: match svc {
            Some(v) => v.url,
            None => None,
        },
        category_name: match cat {
            Some(c) => Some(c.name),
            None => None,
        },
        category_color: match cat {
            Some(c) => c.color,
            None => None,
        },
        amount_cents: b.amount_cents,
        currency: b.currency,
        billing_cycle: b.billing_cycle,
        start_date: b.start_date,
        next_billing_date: b.next_billing_date,
        payment_method: b.payment_method,
        reminder_days: b.reminder_days,
        note: b.note,
        is_active: b.is_active,
        cancelled_at: b.cancelled_at,
        created_at: b.created_at,
        updated_at: b.updated_at,
    }
}

/// The whole listing: one joined row per subscription, in table order.
pub open spec fn joined_subscriptions(s: StoreModel) -> Seq<SubscriptionViewModel> {
    s.subscriptions.map_values(|b: SubscriptionModel| join_subscription(b, s.services, s.categories))
}

/// A listing row for a subscription without a linked service reports no
/// service fields, while the subscription's own columns are carried
/// over unchanged.
pub proof fn lemma_join_without_service(
    b: SubscriptionModel,
    svcs: Seq<ServiceModel>,
    cats: Seq<CategoryModel>,
)
    requires
        b.service_id is None,
    ensures
        ({
            let v = join_subscription(b, svcs, cats);
            v.service_name is None && v.service_icon_url is None && v.service_url is None && v.id
                == b.id && v.custom_name == b.custom_name && v.amount_cents == b.amount_cents
                && v.currency == b.currency && v.billing_cycle == b.billing_cycle && v.start_date
                == b.start_date && v.is_active == b.is_active
        }),
{
}

impl Store {
    /// Builds the flattened listing row of one subscription, joining it
    /// with the service and category it references.
    pub fn subscription_view_row(&self, b: &Subscription) -> (v: SubscriptionView)
        ensures
            v@ == join_subscription(b@, self@.services, self@.categories),
    {
        let svc: Option<&Service> = match &b.service_id {
            Some(sid) => find_service(&self.services, sid),
            None => None,
        };
        let cat: Option<&Category> = match &b.category_id {
            Some(cid) => find_category(&self.categories, cid),
            None => None,
        };
        SubscriptionView {
            id: b.id.clone(),
            custom_name: b.custom_name.clone(),
            service_name: match svc {
                Some(v) => Some(v.name.clone()),
                None => None,
            },
            service_icon_url: match svc {
                Some(v) => clone_opt_string(&v.icon_url),
                None => None,
            },
            service_url: match svc {
                Some(v) => clone_opt_string(&v.url),
                None => None,
            },
            category_name: match cat {
                Some(c) => Some(c.name.clone()),
                None => None,
            },
            category_color: match cat {
                Some(c) => clone_opt_string(&c.color),
                None => None,
            },
            amount_cents: b.amount_cents,
            currency: b.currency.clone(),
            billing_cycle: b.billing_cycle,
            start_date: b.start_date.clone(),
            next_billing_date: clone_opt_string(&b.next_billing_date),
            payment_method: clone_opt_string(&b.payment_method),
            reminder_days: b.reminder_days,
            note: clone_opt_string(&b.note),
            is_active: b.is_active,
            cancelled_at: clone_opt_string(&b.cancelled_at),
            created_at: b.created_at.clone(),
            updated_at: b.updated_at.clone(),
        }
    }

    /// The denormalized listing of all subscriptions, one joined row per
    /// stored subscription, in table order. Derived on read; nothing is
    /// stored.
    pub fn subscription_views(&self) -> (out: Vec<SubscriptionView>)
        ensures
            out.deep_view() == joined_subscriptions(self@),
    {
        let mut out: Vec<SubscriptionView> = Vec::new();
        let mut i: usize = 0;
        while i < self.subscriptions.len()
            invariant
                i <= self.subscriptions.len(),
                out.deep_view() == self@.subscriptions.take(i as int).map_values(
                    |b: SubscriptionModel| join_subscription(b, self@.services, self@.categories),
                ),
            decreases self.subscriptions.len() - i,
        {
            let row = self.subscription_view_row(&self.subscriptions[i]);
            out.push(row);
            proof {
                let sv = self@.subscriptions;
                let cl = |b: SubscriptionModel|
                    join_subscription(b, self@.services, self@.categories);
                assert(sv.take(i as int + 1) =~= sv.take(i as int).push(sv[i as int]));
                assert(sv.take(i as int + 1).map_values(cl) =~= sv.take(i as int).map_values(
                    cl,
                ).push(cl(sv[i as int])));
            }
            i += 1;
        }
        proof {
            assert(self@.subscriptions.take(self.subscriptions.len() as int)
                =~= self@.subscriptions);
        }
        out
    }
}

} // verus!
