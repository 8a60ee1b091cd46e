//! The seed loader: a fixed catalog of default categories and services,
//! inserted idempotently. A catalog row whose id or name is already
//! taken is skipped silently; nothing is ever overwritten, and a row the
//! user deleted is re-created only if its id is still free.

use vstd::prelude::*;
use vstd::string::StringExecFns;

use crate::StoreError;
use crate::models::{Category, CategoryModel, Service, ServiceModel};
use crate::store::{
    category_id_taken, category_name_taken, category_ref_ok, has_category_id, has_category_name,
    has_service_id, has_service_name, lemma_push_category_wf, lemma_push_service_wf,
    service_id_taken, service_name_taken, Store, StoreModel,
};

verus! {

/// A catalog category row: seed-provided, timestamped at load time.
pub open spec fn seeded_category(
    id: Seq<char>,
    name: Seq<char>,
    color: Seq<char>,
    now: Seq<char>,
) -> CategoryModel {
    CategoryModel {
        id: id,
        name: name,
        color: Some(color),
        is_default: true,
        created_at: now,
        updated_at: now,
    }
}

/// A catalog service row: seed-provided, timestamped at load time.
pub open spec fn seeded_service(
    id: Seq<char>,
    name: Seq<char>,
    icon_url: Seq<char>,
    url: Seq<char>,
    category_id: Seq<char>,
    now: Seq<char>,
) -> ServiceModel {
    ServiceModel {
        id: id,
        name: name,
        icon_url: Some(icon_url),
        url: Some(url),
        default_category_id: Some(category_id),
        is_default: true,
        created_at: now,
        updated_at: now,
    }
}

/// The nine default categories, in catalog order.
pub open spec fn category_catalog(now: Seq<char>) -> Seq<CategoryModel> {
    seq![
        seeded_category("cat-entertainment"@, "Entertainment"@, "#E74C3C"@, now),
        seeded_category("cat-productivity"@, "Productivity"@, "#3498DB"@, now),
        seeded_category("cat-cloud"@, "Cloud Services"@, "#9B59B6"@, now),
        seeded_category("cat-music"@, "Music"@, "#E67E22"@, now),
        seeded_category("cat-gaming"@, "Gaming"@, "#2ECC71"@, now),
        seeded_category("cat-news"@, "News & Media"@, "#1ABC9C"@, now),
        seeded_category("cat-health"@, "Health & Fitness"@, "#F39C12"@, now),
        seeded_category("cat-education"@, "Education"@, "#34495E"@, now),
        seeded_category("cat-other"@, "Other"@, "#95A5A6"@, now),
    ]
}

/// The fifteen default services, in catalog order; every one references
/// a catalog category.
pub open spec fn service_catalog(now: Seq<char>) -> Seq<ServiceModel> {
    seq![
        seeded_service("svc-netflix"@, "Netflix"@, "https://logo.clearbit.com/netflix.com"@, "https://netflix.com"@, "cat-entertainment"@, now),
        seeded_service("svc-spotify"@, "Spotify"@, "https://logo.clearbit.com/spotify.com"@, "https://spotify.com"@, "cat-music"@, now),
        seeded_service("svc-disney"@, "Disney+"@, "https://logo.clearbit.com/disneyplus.com"@, "https://disneyplus.com"@, "cat-entertainment"@, now),
        seeded_service("svc-youtube"@, "YouTube Premium"@, "https://logo.clearbit.com/youtube.com"@, "https://youtube.com"@, "cat-entertainment"@, now),
        seeded_service("svc-apple-music"@, "Apple Music"@, "https://logo.clearbit.com/apple.com"@, "https://music.apple.com"@, "cat-music"@, now),
        seeded_service("svc-github"@, "GitHub Pro"@, "https://logo.clearbit.com/github.com"@, "https://github.com"@, "cat-cloud"@, now),
        seeded_service("svc-icloud"@, "iCloud+"@, "https://logo.clearbit.com/icloud.com"@, "https://icloud.com"@, "cat-cloud"@, now),
        seeded_service("svc-dropbox"@, "Dropbox"@, "https://logo.clearbit.com/dropbox.com"@, "https://dropbox.com"@, "cat-cloud"@, now),
        seeded_service("svc-adobe"@, "Adobe CC"@, "https://logo.clearbit.com/adobe.com"@, "https://adobe.com"@, "cat-productivity"@, now),
        seeded_service("svc-chatgpt"@, "ChatGPT Plus"@, "https://logo.clearbit.com/openai.com"@, "https://chat.openai.com"@, "cat-productivity"@, now),
        seeded_service("svc-xbox"@, "Xbox Game Pass"@, "https://logo.clearbit.com/xbox.com"@, "https://xbox.com"@, "cat-gaming"@, now),
        seeded_service("svc-playstation"@, "PlayStation Plus"@, "https://logo.clearbit.com/playstation.com"@, "https://playstation.com"@, "cat-gaming"@, now),
        seeded_service("svc-notion"@, "Notion"@, "https://logo.clearbit.com/notion.so"@, "https://notion.so"@, "cat-productivity"@, now),
        seeded_service("svc-1password"@, "1Password"@, "https://logo.clearbit.com/1password.com"@, "https://1password.com"@, "cat-productivity"@, now),
        seeded_service("svc-todoist"@, "Todoist"@, "https://logo.clearbit.com/todoist.com"@, "https://todoist.com"@, "cat-productivity"@, now),
    ]
}

/// Builds one catalog category row.
fn make_seed_category(id: &str, name: &str, color: &str, now: &String) -> (c: Category)
    ensures
        c@ == seeded_category(id@, name@, color@, now@),
{
    Category {
        id: String::from_str(id),
        name: String::from_str(name),
        color: Some(String::from_str(color)),
        is_default: true,
        created_at: now.clone(),
        updated_at: now.clone(),
    }
}

/// Builds one catalog service row.
fn make_seed_service(
    id: &str,
    name: &str,
    icon_url: &str,
    url: &str,
    category_id: &str,
    now: &String,
) -> (s: Service)
    ensures
        s@ == seeded_service(id@, name@, icon_url@, url@, category_id@, now@),
{
    Service {
        id: String::from_str(id),
        name: String::from_str(name),
        icon_url: Some(String::from_str(icon_url)),
        url: Some(String::from_str(url)),
        default_category_id: Some(String::from_str(category_id)),
        is_default: true,
        created_at: now.clone(),
        updated_at: now.clone(),
    }
}

/// The catalog categories as rows, timestamped with the load time.
pub fn category_catalog_rows(now: &String) -> (v: Vec<Category>)
    ensures
        v.deep_view() == category_catalog(now@),
{
    let mut v: Vec<Category> = Vec::new();
    v.push(make_seed_category("cat-entertainment", "Entertainment", "#E74C3C", now));
    v.push(make_seed_category("cat-productivity", "Productivity", "#3498DB", now));
    v.push(make_seed_category("cat-cloud", "Cloud Services", "#9B59B6", now));
    v.push(make_seed_category("cat-music", "Music", "#E67E22", now));
    v.push(make_seed_category("cat-gaming", "Gaming", "#2ECC71", now));
    v.push(make_seed_category("cat-news", "News & Media", "#1ABC9C", now));
    v.push(make_seed_category("cat-health", "Health & Fitness", "#F39C12", now));
    v.push(make_seed_category("cat-education", "Education", "#34495E", now));
    v.push(make_seed_category("cat-other", "Other", "#95A5A6", now));
    proof {
        assert(v.deep_view() =~= category_catalog(now@));
    }
    v
}

/// The catalog services as rows, timestamped with the load time.
pub fn service_catalog_rows(now: &String) -> (v: Vec<Service>)
    ensures
        v.deep_view() == service_catalog(now@),
{
    let mut v: Vec<Service> = Vec::new();
    v.push(
        make_seed_service(
            "svc-netflix",
            "Netflix",
            "https://logo.clearbit.com/netflix.com",
            "https://netflix.com",
            "cat-entertainment",
            now,
        ),
    );
    v.push(
        make_seed_service(
            "svc-spotify",
            "Spotify",
            "https://logo.clearbit.com/spotify.com",
            "https://spotify.com",
            "cat-music",
            now,
        ),
    );
    v.push(
        make_seed_service(
            "svc-disney",
            "Disney+",
            "https://logo.clearbit.com/disneyplus.com",
            "https://disneyplus.com",
            "cat-entertainment",
            now,
        ),
    );
    v.push(
        make_seed_service(
            "svc-youtube",
            "YouTube Premium",
            "https://logo.clearbit.com/youtube.com",
            "https://youtube.com",
            "cat-entertainment",
            now,
        ),
    );
    v.push(
        make_seed_service(
            "svc-apple-music",
            "Apple Music",
            "https://logo.clearbit.com/apple.com",
            "https://music.apple.com",
            "cat-music",
            now,
        ),
    );
    v.push(
        make_seed_service(
            "svc-github",
            "GitHub Pro",
            "https://logo.clearbit.com/github.com",
            "https://github.com",
            "cat-cloud",
            now,
        ),
    );
    v.push(
        make_seed_service(
            "svc-icloud",
            "iCloud+",
            "https://logo.clearbit.com/icloud.com",
            "https://icloud.com",
            "cat-cloud",
            now,
        ),
    );
    v.push(
        make_seed_service(
            "svc-dropbox",
            "Dropbox",
            "https://logo.clearbit.com/dropbox.com",
            "https://dropbox.com",
            "cat-cloud",
            now,
        ),
    );
    v.push(
        make_seed_service(
            "svc-adobe",
            "Adobe CC",
            "https://logo.clearbit.com/adobe.com",
            "https://adobe.com",
            "cat-productivity",
            now,
        ),
    );
    v.push(
        make_seed_service(
            "svc-chatgpt",
            "ChatGPT Plus",
            "https://logo.clearbit.com/openai.com",
            "https://chat.openai.com",
            "cat-productivity",
            now,
        ),
    );
    v.push(
        make_seed_service(
            "svc-xbox",
            "Xbox Game Pass",
            "https://logo.clearbit.com/xbox.com",
            "https://xbox.com",
            "cat-gaming",
            now,
        ),
    );
    v.push(
        make_seed_service(
            "svc-playstation",
            "PlayStation Plus",
            "https://logo.clearbit.com/playstation.com",
            "https://playstation.com",
            "cat-gaming",
            now,
        ),
    );
    v.push(
        make_seed_service(
            "svc-notion",
            "Notion",
            "https://logo.clearbit.com/notion.so",
            "https://notion.so",
            "cat-productivity",
            now,
        ),
    );
    v.push(
        make_seed_service(
            "svc-1password",
            "1Password",
            "https://logo.clearbit.com/1password.com",
            "https://1password.com",
            "cat-productivity",
            now,
        ),
    );
    v.push(
        make_seed_service(
            "svc-todoist",
            "Todoist",
            "https://logo.clearbit.com/todoist.com",
            "https://todoist.com",
            "cat-productivity",
            now,
        ),
    );
    proof {
        assert(v.deep_view() =~= service_catalog(now@));
    }
    v
}

/// One idempotent category insertion: the row is appended unless its id
/// or its name is already taken, in which case the table is unchanged.
pub open spec fn seed_one_category(
    cats: Seq<CategoryModel>,
    c: CategoryModel,
) -> Seq<CategoryModel> {
    if has_category_id(cats, c.id) || has_category_name(cats, c.name) {
        cats
    } else {
        cats.push(c)
    }
}

/// Idempotent insertion of a sequence of category rows, first to last.
pub open spec fn seed_categories_into(
    cats: Seq<CategoryModel>,
    rows: Seq<CategoryModel>,
) -> Seq<CategoryModel>
    decreases rows.len(),
{
    if rows.len() == 0 {
        cats
    } else {
        seed_categories_into(seed_one_category(cats, rows[0]), rows.drop_first())
    }
}

/// One idempotent service insertion: skipped when its id or name is
/// taken; fatal when its category reference names no existing row (the
/// store enforces the foreign key even during seeding); appended
/// otherwise.
pub open spec fn seed_one_service(
    svcs: Seq<ServiceModel>,
    cats: Seq<CategoryModel>,
    r: ServiceModel,
) -> Result<Seq<ServiceModel>, StoreError> {
    if has_service_id(svcs, r.id) || has_service_name(svcs, r.name) {
        Ok(svcs)
    } else if !category_ref_ok(r.default_category_id, cats) {
        Err(StoreError::MigrationFailure)
    } else {
        Ok(svcs.push(r))
    }
}

/// Idempotent insertion of a sequence of service rows, first to last,
/// halting at the first fatal row.
pub open spec fn seed_services_into(
    svcs: Seq<ServiceModel>,
    cats: Seq<CategoryModel>,
    rows: Seq<ServiceModel>,
) -> Result<Seq<ServiceModel>, StoreError>
    decreases rows.len(),
{
    if rows.len() == 0 {
        Ok(svcs)
    } else {
        match seed_one_service(svcs, cats, rows[0]) {
            Ok(s2) => seed_services_into(s2, cats, rows.drop_first()),
            Err(e) => Err(e),
        }
    }
}

/// What loading the whole catalog does to a store: all categories first,
/// then all services against the already-seeded categories.
pub open spec fn seed_store(s: StoreModel, now: Seq<char>) -> Result<StoreModel, StoreError> {
    let cats2 = seed_categories_into(s.categories, category_catalog(now));
    match seed_services_into(s.services, cats2, service_catalog(now)) {
        Ok(svcs2) => Ok(StoreModel { categories: cats2, services: svcs2, ..s }),
        Err(e) => Err(e),
    }
}

/// Seeding a row sequence extended by one more row seeds the sequence,
/// then the row.
proof fn lemma_seed_categories_into_snoc(
    cats: Seq<CategoryModel>,
    rows: Seq<CategoryModel>,
    x: CategoryModel,
)
    ensures
        seed_categories_into(cats, rows.push(x)) == seed_one_category(
            seed_categories_into(cats, rows),
            x,
        ),
    decreases rows.len(),
{
    if rows.len() == 0 {
        assert(rows.push(x)[0] == x);
        assert(rows.push(x).drop_first() =~= rows);
        assert(seed_categories_into(cats, rows.push(x)) == seed_categories_into(
            seed_one_category(cats, x),
            rows,
        ));
        assert(seed_categories_into(seed_one_category(cats, x), rows) == seed_one_category(
            cats,
            x,
        ));
        assert(seed_categories_into(cats, rows) == cats);
    } else {
        assert(rows.push(x)[0] == rows[0]);
        assert(rows.push(x).drop_first() =~= rows.drop_first().push(x));
        assert(seed_categories_into(cats, rows.push(x)) == seed_categories_into(
            seed_one_category(cats, rows[0]),
            rows.drop_first().push(x),
        ));
        lemma_seed_categories_into_snoc(seed_one_category(cats, rows[0]), rows.drop_first(), x);
        assert(seed_categories_into(cats, rows) == seed_categories_into(
            seed_one_category(cats, rows[0]),
            rows.drop_first(),
        ));
    }
}

/// Seeding a service row sequence extended by one more row seeds the
/// sequence, then the row.
proof fn lemma_seed_services_into_snoc(
    svcs: Seq<ServiceModel>,
    cats: Seq<CategoryModel>,
    rows: Seq<ServiceModel>,
    x: ServiceModel,
)
    ensures
        seed_services_into(svcs, cats, rows.push(x)) == (match seed_services_into(
            svcs,
            cats,
            rows,
        ) {
            Ok(cur) => seed_one_service(cur, cats, x),
            Err(e) => Err(e),
        }),
    decreases rows.len(),
{
    if rows.len() == 0 {
        assert(rows.push(x)[0] == x);
        assert(rows.push(x).drop_first() =~= rows);
        assert(seed_services_into(svcs, cats, rows) == Ok::<Seq<ServiceModel>, StoreError>(svcs));
        match seed_one_service(svcs, cats, x) {
            Ok(s2) => {
                assert(seed_services_into(svcs, cats, rows.push(x)) == seed_services_into(
                    s2,
                    cats,
                    rows,
                ));
                assert(seed_services_into(s2, cats, rows) == Ok::<Seq<ServiceModel>, StoreError>(
                    s2,
                ));
            },
            Err(_) => {},
        }
    } else {
        assert(rows.push(x)[0] == rows[0]);
        assert(rows.push(x).drop_first() =~= rows.drop_first().push(x));
        match seed_one_service(svcs, cats, rows[0]) {
            Ok(s2) => {
                assert(seed_services_into(svcs, cats, rows.push(x)) == seed_services_into(
                    s2,
                    cats,
                    rows.drop_first().push(x),
                ));
                lemma_seed_services_into_snoc(s2, cats, rows.drop_first(), x);
                assert(seed_services_into(svcs, cats, rows) == seed_services_into(
                    s2,
                    cats,
                    rows.drop_first(),
                ));
            },
            Err(_) => {},
        }
    }
}

/// Copies a category table.
fn clone_category_rows(v: &Vec<Category>) -> (out: Vec<Category>)
    ensures
        out.deep_view() == v.deep_view(),
{
    let mut out: Vec<Category> = Vec::new();
    let mut i: usize = 0;
    while i < v.len()
        invariant
            i <= v.len(),
            out.deep_view() == v.deep_view().take(i as int),
        decreases v.len() - i,
    {
        out.push((&v[i]).clone());
        proof {
            assert(v.deep_view().take(i as int + 1) =~= v.deep_view().take(i as int).push(
                v.deep_view()[i as int],
            ));
        }
        i += 1;
    }
    proof {
        assert(v.deep_view().take(v.len() as int) =~= v.deep_view());
    }
    out
}

/// Copies a service table.
fn clone_service_rows(v: &Vec<Service>) -> (out: Vec<Service>)
    ensures
        out.deep_view() == v.deep_view(),
{
    let mut out: Vec<Service> = Vec::new();
    let mut i: usize = 0;
    while i < v.len()
        invariant
            i <= v.len(),
            out.deep_view() == v.deep_view().take(i as int),
        decreases v.len() - i,
    {
        out.push((&v[i]).clone());
        proof {
            assert(v.deep_view().take(i as int + 1) =~= v.deep_view().take(i as int).push(
                v.deep_view()[i as int],
            ));
        }
        i += 1;
    }
    proof {
        assert(v.deep_view().take(v.len() as int) =~= v.deep_view());
    }
    out
}

impl Store {
    /// Loads the seed catalog: every catalog row whose id and name are
    /// still free is inserted with load-time timestamps; rows already
    /// present are skipped silently, so the loader is safe to run on
    /// every startup. Against a store whose schema objects are missing,
    /// or when an inserted service's category reference cannot be
    /// satisfied, the load fails fatally and the store is unchanged.
    pub fn apply_seed(&mut self, now: &String) -> (r: Result<(), StoreError>)
        requires
            old(self)@.wf(),
        ensures
            final(self)@.wf(),
            match r {
                Ok(()) => old(self)@.schema_ready && seed_store(old(self)@, now@) == Ok::<
                    StoreModel,
                    StoreError,
                >(final(self)@),
                Err(e) => final(self)@ == old(self)@ && e == StoreError::MigrationFailure && (!old(
                    self,
                )@.schema_ready || seed_store(old(self)@, now@) == Err::<
                    StoreModel,
                    StoreError,
                >(e)),
            },
    {
        if !self.schema_ready {
            return Err(StoreError::MigrationFailure);
        }
        let ghost prev = self@;
        let cat_rows = category_catalog_rows(now);
        let mut cats = clone_category_rows(&self.categories);
        let mut i: usize = 0;
        while i < cat_rows.len()
            invariant
                i <= cat_rows.len(),
                self@ == prev,
                prev.schema_ready,
                prev.wf(),
                cat_rows.deep_view() == category_catalog(now@),
                cats.deep_view() == seed_categories_into(
                    prev.categories,
                    category_catalog(now@).take(i as int),
                ),
                (StoreModel { categories: cats.deep_view(), ..prev }).wf(),
            decreases cat_rows.len() - i,
        {
            let c = (&cat_rows[i]).clone();
            let ghost cur = cats.deep_view();
            let id_taken = category_id_taken(&cats, &c.id);
            let name_taken = category_name_taken(&cats, &c.name);
            if !id_taken && !name_taken {
                proof {
                    lemma_push_category_wf((StoreModel { categories: cur, ..prev }), c@);
                }
                cats.push(c);
                proof {
                    assert(cats.deep_view() =~= cur.push(category_catalog(now@)[i as int]));
                }
            }
            proof {
                let rows = category_catalog(now@);
                assert(rows.take(i as int + 1) =~= rows.take(i as int).push(rows[i as int]));
                lemma_seed_categories_into_snoc(prev.categories, rows.take(i as int), rows[i as int]);
            }
            i += 1;
        }
        proof {
            assert(category_catalog(now@).take(cat_rows.len() as int) =~= category_catalog(now@));
        }
        let ghost catsm = cats.deep_view();
        let svc_rows = service_catalog_rows(now);
        let mut svcs = clone_service_rows(&self.services);
        let mut j: usize = 0;
        while j < svc_rows.len()
            invariant
                j <= svc_rows.len(),
                self@ == prev,
                prev.schema_ready,
                prev.wf(),
                svc_rows.deep_view() == service_catalog(now@),
                catsm == seed_categories_into(prev.categories, category_catalog(now@)),
                cats.deep_view() == catsm,
                seed_services_into(prev.services, catsm, service_catalog(now@).take(j as int))
                    == Ok::<Seq<ServiceModel>, StoreError>(svcs.deep_view()),
                (StoreModel { categories: catsm, services: svcs.deep_view(), ..prev }).wf(),
            decreases svc_rows.len() - j,
        {
            let s = (&svc_rows[j]).clone();
            let ghost cur = svcs.deep_view();
            let id_taken = service_id_taken(&svcs, &s.id);
            let name_taken = service_name_taken(&svcs, &s.name);
            if !id_taken && !name_taken {
                let ref_ok = match &s.default_category_id {
                    Some(cid) => category_id_taken(&cats, cid),
                    None => true,
                };
                if !ref_ok {
                    proof {
                        let rows = service_catalog(now@);
                        assert(s@ == rows[j as int]);
                        assert(seed_one_service(cur, catsm, rows[j as int]) == Err::<
                            Seq<ServiceModel>,
                            StoreError,
                        >(StoreError::MigrationFailure));
                        assert(rows.take(j as int + 1) =~= rows.take(j as int).push(
                            rows[j as int],
                        ));
                        lemma_seed_services_into_snoc(
                            prev.services,
                            catsm,
                            rows.take(j as int),
                            rows[j as int],
                        );
                        assert(seed_services_into(prev.services, catsm, rows.take(j as int + 1))
                            == Err::<Seq<ServiceModel>, StoreError>(StoreError::MigrationFailure));
                        lemma_seed_services_err_extends(prev.services, catsm, rows, j as int + 1);
                        assert(seed_store(prev, now@) == Err::<StoreModel, StoreError>(
                            StoreError::MigrationFailure,
                        ));
                    }
                    return Err(StoreError::MigrationFailure);
                }
                proof {
                    lemma_push_service_wf(
                        (StoreModel { categories: catsm, services: cur, ..prev }),
                        s@,
                    );
                }
                svcs.push(s);
                proof {
                    assert(svcs.deep_view() =~= cur.push(service_catalog(now@)[j as int]));
                }
            }
            proof {
                let rows = service_catalog(now@);
                assert(rows.take(j as int + 1) =~= rows.take(j as int).push(rows[j as int]));
                lemma_seed_services_into_snoc(prev.services, catsm, rows.take(j as int), rows[j as int]);
            }
            j += 1;
        }
        proof {
            assert(service_catalog(now@).take(svc_rows.len() as int) =~= service_catalog(now@));
        }
        self.categories = cats;
        self.services = svcs;
        proof {
            assert(self@ =~= (StoreModel {
                categories: catsm,
                services: svcs.deep_view(),
                ..prev
            }));
        }
        Ok(())
    }
}

/// Seeding never removes category rows: ids and names present before
/// the load are present after it.
proof fn lemma_seed_categories_monotone(cats: Seq<CategoryModel>, rows: Seq<CategoryModel>)
    ensures
        forall|x: Seq<char>|
            has_category_id(cats, x) ==> has_category_id(seed_categories_into(cats, rows), x),
        forall|x: Seq<char>|
            has_category_name(cats, x) ==> has_category_name(seed_categories_into(cats, rows), x),
    decreases rows.len(),
{
    if rows.len() > 0 {
        let c2 = seed_one_category(cats, rows[0]);
        assert forall|x: Seq<char>| has_category_id(cats, x) implies has_category_id(c2, x) by {
            let i = choose|i: int| 0 <= i < cats.len() && (#[trigger] cats[i]).id == x;
            assert(c2[i].id == x);
        }
        assert forall|x: Seq<char>| has_category_name(cats, x) implies has_category_name(c2, x) by {
            let i = choose|i: int| 0 <= i < cats.len() && (#[trigger] cats[i]).name == x;
            assert(c2[i].name == x);
        }
        lemma_seed_categories_monotone(c2, rows.drop_first());
    }
}

/// After a load, every catalog row's id or name is present in the table.
proof fn lemma_seed_categories_covered(cats: Seq<CategoryModel>, rows: Seq<CategoryModel>)
    ensures
        forall|k: int|
            0 <= k < rows.len() ==> has_category_id(
                seed_categories_into(cats, rows),
                (#[trigger] rows[k]).id,
            ) || has_category_name(seed_categories_into(cats, rows), rows[k].name),
    decreases rows.len(),
{
    if rows.len() > 0 {
        let c2 = seed_one_category(cats, rows[0]);
        lemma_seed_categories_covered(c2, rows.drop_first());
        lemma_seed_categories_monotone(c2, rows.drop_first());
        assert forall|k: int|
            0 <= k < rows.len() implies has_category_id(
            seed_categories_into(cats, rows),
            (#[trigger] rows[k]).id,
        ) || has_category_name(seed_categories_into(cats, rows), rows[k].name) by {
            if k > 0 {
                assert(rows.drop_first()[k - 1] == rows[k]);
            } else {
                if !has_category_id(cats, rows[0].id) && !has_category_name(cats, rows[0].name) {
                    assert(c2[cats.len() as int].id == rows[0].id);
                    assert(has_category_id(c2, rows[0].id));
                } else {
                    assert(has_category_id(c2, rows[0].id) || has_category_name(
                        c2,
                        rows[0].name,
                    ));
                }
                assert(has_category_id(seed_categories_into(c2, rows.drop_first()), rows[0].id)
                    || has_category_name(
                    seed_categories_into(c2, rows.drop_first()),
                    rows[0].name,
                ));
                assert(seed_categories_into(cats, rows) == seed_categories_into(
                    c2,
                    rows.drop_first(),
                ));
            }
        }
    }
}

/// Loading rows whose ids or names are all already taken changes nothing.
proof fn lemma_seed_categories_noop(cats: Seq<CategoryModel>, rows: Seq<CategoryModel>)
    requires
        forall|k: int|
            0 <= k < rows.len() ==> has_category_id(cats, (#[trigger] rows[k]).id)
                || has_category_name(cats, rows[k].name),
    ensures
        seed_categories_into(cats, rows) == cats,
    decreases rows.len(),
{
    if rows.len() > 0 {
        assert(has_category_id(cats, rows[0].id) || has_category_name(cats, rows[0].name));
        assert(seed_one_category(cats, rows[0]) == cats);
        assert forall|k: int|
            0 <= k < rows.drop_first().len() implies has_category_id(
            cats,
            (#[trigger] rows.drop_first()[k]).id,
        ) || has_category_name(cats, rows.drop_first()[k].name) by {
            assert(rows.drop_first()[k] == rows[k + 1]);
        }
        lemma_seed_categories_noop(cats, rows.drop_first());
    }
}

/// A successful service load never removes rows: ids and names present
/// before it are present after it.
proof fn lemma_seed_services_monotone(
    svcs: Seq<ServiceModel>,
    cats: Seq<CategoryModel>,
    rows: Seq<ServiceModel>,
)
    requires
        seed_services_into(svcs, cats, rows) is Ok,
    ensures
        forall|x: Seq<char>|
            has_service_id(svcs, x) ==> has_service_id(
                seed_services_into(svcs, cats, rows)->Ok_0,
                x,
            ),
        forall|x: Seq<char>|
            has_service_name(svcs, x) ==> has_service_name(
                seed_services_into(svcs, cats, rows)->Ok_0,
                x,
            ),
    decreases rows.len(),
{
    if rows.len() > 0 {
        match seed_one_service(svcs, cats, rows[0]) {
            Ok(s2) => {
                assert forall|x: Seq<char>| has_service_id(svcs, x) implies has_service_id(
                    s2,
                    x,
                ) by {
                    let i = choose|i: int| 0 <= i < svcs.len() && (#[trigger] svcs[i]).id == x;
                    assert(s2[i].id == x);
                }
                assert forall|x: Seq<char>| has_service_name(svcs, x) implies has_service_name(
                    s2,
                    x,
                ) by {
                    let i = choose|i: int| 0 <= i < svcs.len() && (#[trigger] svcs[i]).name == x;
                    assert(s2[i].name == x);
                }
                lemma_seed_services_monotone(s2, cats, rows.drop_first());
            },
            Err(_) => {},
        }
    }
}

/// After a successful load, every catalog row's id or name is present.
proof fn lemma_seed_services_covered(
    svcs: Seq<ServiceModel>,
    cats: Seq<CategoryModel>,
    rows: Seq<ServiceModel>,
)
    requires
        seed_services_into(svcs, cats, rows) is Ok,
    ensures
        forall|k: int|
            0 <= k < rows.len() ==> has_service_id(
                seed_services_into(svcs, cats, rows)->Ok_0,
                (#[trigger] rows[k]).id,
            ) || has_service_name(seed_services_into(svcs, cats, rows)->Ok_0, rows[k].name),
    decreases rows.len(),
{
    if rows.len() > 0 {
        match seed_one_service(svcs, cats, rows[0]) {
            Ok(s2) => {
                lemma_seed_services_covered(s2, cats, rows.drop_first());
                lemma_seed_services_monotone(s2, cats, rows.drop_first());
                assert forall|k: int|
                    0 <= k < rows.len() implies has_service_id(
                    seed_services_into(svcs, cats, rows)->Ok_0,
                    (#[trigger] rows[k]).id,
                ) || has_service_name(
                    seed_services_into(svcs, cats, rows)->Ok_0,
                    rows[k].name,
                ) by {
                    if k > 0 {
                        assert(rows.drop_first()[k - 1] == rows[k]);
                    } else {
                        if !has_service_id(svcs, rows[0].id) && !has_service_name(
                            svcs,
                            rows[0].name,
                        ) {
                            assert(s2[svcs.len() as int].id == rows[0].id);
                            assert(has_service_id(s2, rows[0].id));
                        } else {
                            assert(has_service_id(s2, rows[0].id) || has_service_name(
                                s2,
                                rows[0].name,
                            ));
                        }
                        assert(has_service_id(
                            seed_services_into(s2, cats, rows.drop_first())->Ok_0,
                            rows[0].id,
                        ) || has_service_name(
                            seed_services_into(s2, cats, rows.drop_first())->Ok_0,
                            rows[0].name,
                        ));
                        assert(seed_services_into(svcs, cats, rows) == seed_services_into(
                            s2,
                            cats,
                            rows.drop_first(),
                        ));
                    }
                }
            },
            Err(_) => {},
        }
    }
}

/// Loading service rows whose ids or names are all already taken
/// changes nothing and cannot fail, whatever the categories table.
proof fn lemma_seed_services_noop(
    svcs: Seq<ServiceModel>,
    cats: Seq<CategoryModel>,
    rows: Seq<ServiceModel>,
)
    requires
        forall|k: int|
            0 <= k < rows.len() ==> has_service_id(svcs, (#[trigger] rows[k]).id)
                || has_service_name(svcs, rows[k].name),
    ensures
        seed_services_into(svcs, cats, rows) == Ok::<Seq<ServiceModel>, StoreError>(svcs),
    decreases rows.len(),
{
    if rows.len() > 0 {
        assert(has_service_id(svcs, rows[0].id) || has_service_name(svcs, rows[0].name));
        assert(seed_one_service(svcs, cats, rows[0]) == Ok::<Seq<ServiceModel>, StoreError>(svcs));
        assert forall|k: int|
            0 <= k < rows.drop_first().len() implies has_service_id(
            svcs,
            (#[trigger] rows.drop_first()[k]).id,
        ) || has_service_name(svcs, rows.drop_first()[k].name) by {
            assert(rows.drop_first()[k] == rows[k + 1]);
        }
        lemma_seed_services_noop(svcs, cats, rows.drop_first());
    }
}

/// Catalog ids and names do not depend on the load time; only the
/// timestamps of freshly inserted rows do.
proof fn lemma_catalog_keys_timestamp_free(now: Seq<char>, now2: Seq<char>)
    ensures
        category_catalog(now).len() == category_catalog(now2).len(),
        forall|k: int|
            0 <= k < category_catalog(now).len() ==> (#[trigger] category_catalog(now)[k]).id
                == category_catalog(now2)[k].id && category_catalog(now)[k].name
                == category_catalog(now2)[k].name,
        service_catalog(now).len() == service_catalog(now2).len(),
        forall|k: int|
            0 <= k < service_catalog(now).len() ==> (#[trigger] service_catalog(now)[k]).id
                == service_catalog(now2)[k].id && service_catalog(now)[k].name
                == service_catalog(now2)[k].name,
{
}

/// Loading the seed catalog into a store it was already loaded into is
/// a no-op, whatever the new load time: every catalog row's id or name
/// is already taken, so every insertion is skipped and row count and
/// content are unchanged.
pub proof fn lemma_seed_rerun(s: StoreModel, now: Seq<char>, now2: Seq<char>)
    requires
        seed_store(s, now) is Ok,
    ensures
        seed_store(seed_store(s, now)->Ok_0, now2) == seed_store(s, now),
{
    let cats2 = seed_categories_into(s.categories, category_catalog(now));
    let svcs2 = seed_services_into(s.services, cats2, service_catalog(now))->Ok_0;
    let s1 = seed_store(s, now)->Ok_0;
    assert(s1 == StoreModel { categories: cats2, services: svcs2, ..s });
    lemma_seed_categories_covered(s.categories, category_catalog(now));
    lemma_seed_services_covered(s.services, cats2, service_catalog(now));
    lemma_catalog_keys_timestamp_free(now, now2);
    assert forall|k: int|
        0 <= k < category_catalog(now2).len() implies has_category_id(
        cats2,
        (#[trigger] category_catalog(now2)[k]).id,
    ) || has_category_name(cats2, category_catalog(now2)[k].name) by {
        assert(has_category_id(cats2, category_catalog(now)[k].id) || has_category_name(
            cats2,
            category_catalog(now)[k].name,
        ));
    }
    lemma_seed_categories_noop(cats2, category_catalog(now2));
    assert forall|k: int|
        0 <= k < service_catalog(now2).len() implies has_service_id(
        svcs2,
        (#[trigger] service_catalog(now2)[k]).id,
    ) || has_service_name(svcs2, service_catalog(now2)[k].name) by {
        assert(has_service_id(svcs2, service_catalog(now)[k].id) || has_service_name(
            svcs2,
            service_catalog(now)[k].name,
        ));
    }
    lemma_seed_services_noop(svcs2, cats2, service_catalog(now2));
    assert(seed_store(s1, now2) == Ok::<StoreModel, StoreError>(StoreModel {
        categories: cats2,
        services: svcs2,
        ..s1
    }));
    assert(StoreModel { categories: cats2, services: svcs2, ..s1 } == s1);
}

/// A seeding prefix that already failed makes the whole sequence fail.
proof fn lemma_seed_services_err_extends(
    svcs: Seq<ServiceModel>,
    cats: Seq<CategoryModel>,
    rows: Seq<ServiceModel>,
    n: int,
)
    requires
        0 <= n <= rows.len(),
        seed_services_into(svcs, cats, rows.take(n)) == Err::<Seq<ServiceModel>, StoreError>(
            StoreError::MigrationFailure,
        ),
    ensures
        seed_services_into(svcs, cats, rows) == Err::<Seq<ServiceModel>, StoreError>(
            StoreError::MigrationFailure,
        ),
    decreases rows.len(),
{
    assert(n > 0) by {
        if n == 0 {
            assert(rows.take(0).len() == 0);
        }
    }
    assert(rows.take(n)[0] == rows[0]);
    assert(rows.take(n).drop_first() =~= rows.drop_first().take(n - 1));
    match seed_one_service(svcs, cats, rows[0]) {
        Ok(s2) => {
            lemma_seed_services_err_extends(s2, cats, rows.drop_first(), n - 1);
        },
        Err(_) => {},
    }
}

} // verus!
