//! Refreshing the catalog: the order of the loads of a pass, when a pass is
//! due, and what each load makes of the rows that it is given.

use crate::data::{
    Auth, AuthView, Bg, BgView, Identity, Labels, Locks, LocksView, Measures, Product, Products,
    Store, StoreView, Target, Targets, World, Country, next_version,
};
use crate::decimal::Decimal;
use crate::sweep::staying;
use vstd::prelude::*;
use vstd::std_specs::hash::*;
use vstd::string::*;

verus! {

broadcast use vstd::std_specs::hash::group_hash_axioms;

/// The seconds between two passes.
pub const M30: i64 = 300;

// ------------------------------------------------------------ the course of a pass

/// The loads of a pass.
#[derive(Debug, Clone, Copy, PartialEq, Eq, Structural)]
pub enum Load {
    Auth,
    Currency,
    Country,
    Target,
    Lock,
    Product,
    Stock,
    Bg,
}

/// The place of a load in a pass.
pub open spec fn load_rank(l: Load) -> nat {
    match l {
        Load::Auth => 0,
        Load::Currency => 1,
        Load::Country => 2,
        Load::Target => 3,
        Load::Lock => 4,
        Load::Product => 5,
        Load::Stock => 6,
        Load::Bg => 7,
    }
}

/// The load that follows `l`, or `None` after the last.
pub open spec fn load_after(l: Load) -> Option<Load> {
    match l {
        Load::Auth => Some(Load::Currency),
        Load::Currency => Some(Load::Country),
        Load::Country => Some(Load::Target),
        Load::Target => Some(Load::Lock),
        Load::Lock => Some(Load::Product),
        Load::Product => Some(Load::Stock),
        Load::Stock => Some(Load::Bg),
        Load::Bg => None,
    }
}

/// Each load is followed by the next in rank, and the stock, which needs the
/// index of product codes, comes after the products.
pub proof fn lemma_load_order(l: Load)
    ensures
        match load_after(l) {
            Some(n) => load_rank(n) == load_rank(l) + 1,
            None => load_rank(l) == 7,
        },
        load_rank(Load::Product) < load_rank(Load::Stock),
{
}

/// What the loader does next.
#[derive(Debug, Clone, Copy, PartialEq, Eq, Structural)]
pub enum Tick {
    /// Run a pass.
    Pass,
    /// Wait a second.
    Wait,
}

/// The loader of the catalog.
#[derive(Debug, Clone, Copy)]
pub struct Cache {
    /// The first pass has been completed.
    pub load: bool,
    /// The moment at which the last pass ended, in seconds.
    pub last: Option<i64>,
}

impl Cache {
    /// A loader that has not run yet.
    pub fn new() -> (c: Cache)
        ensures
            !c.load,
            c.last.is_none(),
    {
        Cache { load: false, last: None }
    }

    /// A pass is due where none has run yet or the last one ended at least
    /// five minutes ago.
    pub open spec fn due(&self, now: i64) -> bool {
        match self.last {
            None => true,
            Some(t) => now - t >= M30,
        }
    }

    /// What to do at the moment `now`.
    pub fn start(&self, now: i64) -> (t: Tick)
        ensures
            t == if self.due(now) {
                Tick::Pass
            } else {
                Tick::Wait
            },
    {
        match self.last {
            None => Tick::Pass,
            Some(t) => if (now as i128) - (t as i128) >= 300 {
                Tick::Pass
            } else {
                Tick::Wait
            },
        }
    }

    /// Records that a pass ended at the moment `now`; after the first pass
    /// the service may take requests.
    pub fn finish_pass(&mut self, now: i64)
        ensures
            final(self).load,
            final(self).last == Some(now),
    {
        self.load = true;
        self.last = Some(now);
    }

    /// The first load of a pass.
    pub fn first() -> (l: Load)
        ensures
            l == Load::Auth,
    {
        Load::Auth
    }

    /// The load that follows `l`.
    pub fn next(l: Load) -> (n: Option<Load>)
        ensures
            n == load_after(l),
    {
        match l {
            Load::Auth => Some(Load::Currency),
            Load::Currency => Some(Load::Country),
            Load::Country => Some(Load::Target),
            Load::Target => Some(Load::Lock),
            Load::Lock => Some(Load::Product),
            Load::Product => Some(Load::Stock),
            Load::Stock => Some(Load::Bg),
            Load::Bg => None,
        }
    }
}

// ------------------------------------------------------------ users

/// A user as the store of companies gives it.
#[derive(Debug, Clone, Copy)]
pub struct AuthRow {
    pub company_id: u32,
    pub user_id: u32,
    pub profiles_id: u32,
    pub corp: bool,
    pub rozn: bool,
    pub r3: bool,
}

/// The container after the rows, in their order.
pub open spec fn auth_applied(v: AuthView, rows: Seq<AuthRow>) -> AuthView
    decreases rows.len(),
{
    if rows.len() == 0 {
        v
    } else {
        let r = rows.last();
        auth_applied(v, rows.drop_last()).updated(
            r.company_id,
            r.user_id,
            r.profiles_id,
            r.corp,
            r.rozn,
            r.r3,
        )
    }
}

impl Cache {
    /// One pass over the users: what the rows do not name is gone.
    pub fn load_auth(auth: &mut Auth, rows: &Vec<AuthRow>)
        ensures
            final(auth)@ == auth_applied(old(auth)@.bumped(), rows@).swept(),
            final(auth)@.all_current(),
    {
        auth.add_version();
        let mut i: usize = 0;
        assert(rows@.take(0) =~= Seq::<AuthRow>::empty());
        while i < rows.len()
            invariant
                i <= rows@.len(),
                auth@ == auth_applied(old(auth)@.bumped(), rows@.take(i as int)),
            decreases rows@.len() - i,
        {
            proof {
                assert(rows@.take(i + 1).drop_last() =~= rows@.take(i as int));
                assert(rows@.take(i + 1).last() == rows@[i as int]);
            }
            let r = rows[i];
            auth.update(r.company_id, r.user_id, r.profiles_id, r.corp, r.rozn, r.r3);
            i += 1;
        }
        assert(rows@.take(rows@.len() as int) =~= rows@);
        auth.clear_old();
    }

    /// Takes the rate of the last row, where there is a row.
    pub fn load_currency(kurs: &mut Decimal, rows: &Vec<Decimal>)
        ensures
            *final(kurs) == if rows@.len() > 0 {
                rows@.last()
            } else {
                *old(kurs)
            },
    {
        if rows.len() > 0 {
            *kurs = rows[rows.len() - 1];
        }
    }
}

// ------------------------------------------------------------ countries

/// A country as the store gives it.
pub struct CountryRow {
    pub country_id: u32,
    pub ua: String,
    pub ru: String,
}

pub open spec fn countries_applied(m: Map<u32, Country>, rows: Seq<CountryRow>) -> Map<
    u32,
    Country,
>
    decreases rows.len(),
{
    if rows.len() == 0 {
        m
    } else {
        let r = rows.last();
        countries_applied(m, rows.drop_last()).insert(
            r.country_id,
            Country { ua: r.ua, ru: r.ru },
        )
    }
}

impl Cache {
    /// Sets the names of the countries that the rows name.
    pub fn load_country(world: &mut World, rows: &Vec<CountryRow>)
        ensures
            final(world).countries@ == countries_applied(old(world).countries@, rows@),
    {
        let mut i: usize = 0;
        assert(rows@.take(0) =~= Seq::<CountryRow>::empty());
        while i < rows.len()
            invariant
                i <= rows@.len(),
                world.countries@ == countries_applied(old(world).countries@, rows@.take(i as int)),
            decreases rows@.len() - i,
        {
            proof {
                assert(rows@.take(i + 1).drop_last() =~= rows@.take(i as int));
                assert(rows@.take(i + 1).last() == rows@[i as int]);
            }
            world.update(rows[i].country_id, rows[i].ua.clone(), rows[i].ru.clone());
            i += 1;
        }
        assert(rows@.take(rows@.len() as int) =~= rows@);
    }
}

// ------------------------------------------------------------ targets

/// A delivery target as the store gives it.
#[derive(Debug, Clone, Copy)]
pub struct TargetRow {
    pub target_id: u32,
    pub region_stock: bool,
    pub stock_id: u32,
    pub postage_compact: Decimal,
    pub postage_middle: Decimal,
    pub postage_big: Decimal,
    pub postage_large: Decimal,
}

pub open spec fn targets_applied(m: Map<u32, Target>, version: u32, rows: Seq<TargetRow>) -> Map<
    u32,
    Target,
>
    decreases rows.len(),
{
    if rows.len() == 0 {
        m
    } else {
        let r = rows.last();
        targets_applied(m, version, rows.drop_last()).insert(
            r.target_id,
            Target {
                version,
                region_stock: r.region_stock,
                stock_id: r.stock_id,
                postage_compact: r.postage_compact,
                postage_middle: r.postage_middle,
                postage_big: r.postage_big,
                postage_large: r.postage_large,
            },
        )
    }
}

impl Cache {
    /// One pass over the targets: what the rows do not name is gone.
    pub fn load_target(targets: &mut Targets, rows: &Vec<TargetRow>)
        ensures
            final(targets).version == next_version(old(targets).version),
            final(targets).target@ == staying(
                targets_applied(old(targets).target@, final(targets).version, rows@),
                final(targets).version,
            ),
            forall|k: u32| #[trigger]
                final(targets).target@.contains_key(k) ==> final(targets).target@[k].version
                    == final(targets).version,
    {
        targets.add_version();
        let ghost version = targets.version;
        let mut i: usize = 0;
        assert(rows@.take(0) =~= Seq::<TargetRow>::empty());
        while i < rows.len()
            invariant
                i <= rows@.len(),
                targets.version == version,
                targets.target@ == targets_applied(
                    old(targets).target@,
                    version,
                    rows@.take(i as int),
                ),
            decreases rows@.len() - i,
        {
            proof {
                assert(rows@.take(i + 1).drop_last() =~= rows@.take(i as int));
                assert(rows@.take(i + 1).last() == rows@[i as int]);
            }
            let r = rows[i];
            targets.update(
                r.target_id,
                r.region_stock,
                r.stock_id,
                r.postage_compact,
                r.postage_middle,
                r.postage_big,
                r.postage_large,
            );
            i += 1;
        }
        assert(rows@.take(rows@.len() as int) =~= rows@);
        targets.clear_old();
    }
}

// ------------------------------------------------------------ locks

/// A lock as the store gives it.
#[derive(Debug, Clone, Copy)]
pub struct LockRow {
    pub company_id: u32,
    pub vendor_id: u32,
    pub group_id: u32,
    pub class_id: u32,
    pub product_id: u32,
}

pub open spec fn locks_applied(v: LocksView, rows: Seq<LockRow>) -> LocksView
    decreases rows.len(),
{
    if rows.len() == 0 {
        v
    } else {
        let r = rows.last();
        locks_applied(v, rows.drop_last()).updated(
            r.company_id,
            r.vendor_id,
            r.group_id,
            r.class_id,
            r.product_id,
        )
    }
}

impl Cache {
    /// One pass over the locks: what the rows do not name is gone.
    pub fn load_lock(locks: &mut Locks, rows: &Vec<LockRow>)
        ensures
            final(locks)@ == locks_applied(old(locks)@.bumped(), rows@).swept(),
            final(locks)@.all_current(),
    {
        locks.add_version();
        let mut i: usize = 0;
        assert(rows@.take(0) =~= Seq::<LockRow>::empty());
        while i < rows.len()
            invariant
                i <= rows@.len(),
                locks@ == locks_applied(old(locks)@.bumped(), rows@.take(i as int)),
            decreases rows@.len() - i,
        {
            proof {
                assert(rows@.take(i + 1).drop_last() =~= rows@.take(i as int));
                assert(rows@.take(i + 1).last() == rows@[i as int]);
            }
            let r = rows[i];
            locks.update(r.company_id, r.vendor_id, r.group_id, r.class_id, r.product_id);
            i += 1;
        }
        assert(rows@.take(rows@.len() as int) =~= rows@);
        locks.clear_old();
    }
}

// ------------------------------------------------------------ bonus groups

/// A bonus group of a company as the store gives it.
pub struct BgRow {
    pub company_id: u32,
    pub group: String,
}

pub open spec fn bg_applied(v: BgView, rows: Seq<BgRow>) -> BgView
    decreases rows.len(),
{
    if rows.len() == 0 {
        v
    } else {
        let r = rows.last();
        bg_applied(v, rows.drop_last()).updated(r.company_id, r.group@)
    }
}

impl Cache {
    /// One pass over the bonus groups: what the rows do not name is gone.
    pub fn load_bg(bg: &mut Bg, rows: &Vec<BgRow>)
        ensures
            final(bg)@ == bg_applied(old(bg)@.bumped(), rows@).swept(),
            final(bg)@.all_current(),
    {
        bg.add_version();
        let mut i: usize = 0;
        assert(rows@.take(0) =~= Seq::<BgRow>::empty());
        while i < rows.len()
            invariant
                i <= rows@.len(),
                bg@ == bg_applied(old(bg)@.bumped(), rows@.take(i as int)),
            decreases rows@.len() - i,
        {
            proof {
                assert(rows@.take(i + 1).drop_last() =~= rows@.take(i as int));
                assert(rows@.take(i + 1).last() == rows@[i as int]);
            }
            bg.update(rows[i].company_id, rows[i].group.clone());
            i += 1;
        }
        assert(rows@.take(rows@.len() as int) =~= rows@);
        bg.clear_old();
    }
}

// ------------------------------------------------------------ stock

/// An amount for a product code in a warehouse, as the store gives it:
/// pieces at hand or days until arrival.
pub struct StockRow {
    pub stock_id: u32,
    pub code: String,
    pub amount: u32,
}

/// The container after rows of pieces at hand; a row whose code the index
/// does not hold is passed over.
pub open spec fn available_applied(v: StoreView, codes: Map<Seq<char>, u32>, rows: Seq<StockRow>)
    -> StoreView
    decreases rows.len(),
{
    if rows.len() == 0 {
        v
    } else {
        let r = rows.last();
        let before = available_applied(v, codes, rows.drop_last());
        if codes.contains_key(r.code@) {
            before.with_available(r.stock_id, codes[r.code@], r.amount)
        } else {
            before
        }
    }
}

/// The container after rows of days until arrival; a row whose code the
/// index does not hold is passed over.
pub open spec fn day_applied(v: StoreView, codes: Map<Seq<char>, u32>, rows: Seq<StockRow>)
    -> StoreView
    decreases rows.len(),
{
    if rows.len() == 0 {
        v
    } else {
        let r = rows.last();
        let before = day_applied(v, codes, rows.drop_last());
        if codes.contains_key(r.code@) {
            before.with_day(r.stock_id, codes[r.code@], r.amount)
        } else {
            before
        }
    }
}

impl Cache {
    /// One pass over the stock: first the pieces at hand, then the days
    /// until arrival; what neither names is gone, and so is what holds
    /// nothing and expects nothing.
    pub fn load_stock(
        store: &mut Store,
        products: &Products,
        available: &Vec<StockRow>,
        days: &Vec<StockRow>,
    )
        ensures
            final(store)@ == day_applied(
                available_applied(old(store)@.bumped(), products.code@, available@),
                products.code@,
                days@,
            ).swept(),
            final(store)@.all_current(),
    {
        store.add_version();
        let mut i: usize = 0;
        assert(available@.take(0) =~= Seq::<StockRow>::empty());
        while i < available.len()
            invariant
                i <= available@.len(),
                store@ == available_applied(
                    old(store)@.bumped(),
                    products.code@,
                    available@.take(i as int),
                ),
            decreases available@.len() - i,
        {
            proof {
                assert(available@.take(i + 1).drop_last() =~= available@.take(i as int));
                assert(available@.take(i + 1).last() == available@[i as int]);
            }
            match products.get_product_id(available[i].code.clone()) {
                Some(product_id) => {
                    store.update_available(available[i].stock_id, product_id, available[i].amount);
                },
                None => {},
            }
            i += 1;
        }
        assert(available@.take(available@.len() as int) =~= available@);
        let ghost mid = store@;
        let mut j: usize = 0;
        assert(days@.take(0) =~= Seq::<StockRow>::empty());
        while j < days.len()
            invariant
                j <= days@.len(),
                store@ == day_applied(mid, products.code@, days@.take(j as int)),
            decreases days@.len() - j,
        {
            proof {
                assert(days@.take(j + 1).drop_last() =~= days@.take(j as int));
                assert(days@.take(j + 1).last() == days@[j as int]);
            }
            match products.get_product_id(days[j].code.clone()) {
                Some(product_id) => {
                    store.update_day(days[j].stock_id, product_id, days[j].amount);
                },
                None => {},
            }
            j += 1;
        }
        assert(days@.take(days@.len() as int) =~= days@);
        store.clear_old();
    }
}

// ------------------------------------------------------------ products

#[derive(Debug, Clone, Copy)]
/// The numeric projection of a product as the store gives it.
pub struct MeasuresRow {
    pub product_id: u32,
    pub bonus: Decimal,
    pub vendor_id: u32,
    pub group_id: u32,
    pub class_id: u32,
    pub weight: Decimal,
    pub volume: Decimal,
    pub overall: i32,
    pub category_id: u32,
    pub warranty: u32,
    pub ddp: bool,
    pub country_id: u32,
}

/// The localized projection of a product as the store gives it.
pub struct LabelsRow {
    pub product_id: u32,
    pub group_ua: String,
    pub group_ru: String,
    pub desc_ua: String,
    pub desc_ru: String,
    pub category_ua: String,
    pub category_ru: String,
    pub url_ua: String,
    pub url_ru: String,
    pub class_ua: String,
    pub class_ru: String,
}

/// The identifying projection of a product as the store gives it.
pub struct IdentityRow {
    pub product_id: u32,
    pub code: String,
    pub bg: String,
    pub ean: String,
    pub seller: String,
    pub article: String,
    pub vendor: String,
    pub model: String,
    pub ua: String,
    pub ru: String,
    pub uktved: String,
    pub exclusive: String,
}

/// The last of the rows that names the product `k`.
pub open spec fn last_measures(rows: Seq<MeasuresRow>, k: u32) -> Option<MeasuresRow>
    decreases rows.len(),
{
    if rows.len() == 0 {
        None
    } else if rows.last().product_id == k {
        Some(rows.last())
    } else {
        last_measures(rows.drop_last(), k)
    }
}

/// The last of the rows that names the product `k`.
pub open spec fn last_labels(rows: Seq<LabelsRow>, k: u32) -> Option<LabelsRow>
    decreases rows.len(),
{
    if rows.len() == 0 {
        None
    } else if rows.last().product_id == k {
        Some(rows.last())
    } else {
        last_labels(rows.drop_last(), k)
    }
}

/// The last of the rows that names the product `k`.
pub open spec fn last_identity(rows: Seq<IdentityRow>, k: u32) -> Option<IdentityRow>
    decreases rows.len(),
{
    if rows.len() == 0 {
        None
    } else if rows.last().product_id == k {
        Some(rows.last())
    } else {
        last_identity(rows.drop_last(), k)
    }
}

/// The projection that a row gives, stamped with `version`.
pub open spec fn measures_of(r: MeasuresRow, version: u32) -> Measures {
    Measures {
        version,
        bonus: r.bonus,
        vendor_id: r.vendor_id,
        group_id: r.group_id,
        class_id: r.class_id,
        weight: r.weight,
        volume: r.volume,
        overall: r.overall,
        category_id: r.category_id,
        warranty: r.warranty,
        ddp: r.ddp,
        country_id: r.country_id,
    }
}

/// The projection that a row gives, stamped with `version`.
pub open spec fn labels_of(r: LabelsRow, version: u32) -> Labels {
    Labels {
        version,
        group_ua: r.group_ua,
        group_ru: r.group_ru,
        desc_ua: r.desc_ua,
        desc_ru: r.desc_ru,
        category_ua: r.category_ua,
        category_ru: r.category_ru,
        url_ua: r.url_ua,
        url_ru: r.url_ru,
        class_ua: r.class_ua,
        class_ru: r.class_ru,
    }
}

/// The projection that a row gives, stamped with `version`.
pub open spec fn identity_of(r: IdentityRow, version: u32) -> Identity {
    Identity {
        version,
        code: r.code,
        bg: r.bg,
        ean: r.ean,
        seller: r.seller,
        article: r.article,
        vendor: r.vendor,
        model: r.model,
        ua: r.ua,
        ru: r.ru,
        uktved: r.uktved,
        exclusive: r.exclusive,
    }
}

/// The index of codes after the rows: a code that the index does not hold
/// yet is entered for the product of its row.
pub open spec fn codes_applied(codes: Map<Seq<char>, u32>, rows: Seq<IdentityRow>) -> Map<
    Seq<char>,
    u32,
>
    decreases rows.len(),
{
    if rows.len() == 0 {
        codes
    } else {
        let before = codes_applied(codes, rows.drop_last());
        if before.contains_key(rows.last().code@) {
            before
        } else {
            before.insert(rows.last().code@, rows.last().product_id)
        }
    }
}

/// Some row names the product `k`.
pub open spec fn named(
    measures: Seq<MeasuresRow>,
    labels: Seq<LabelsRow>,
    identities: Seq<IdentityRow>,
    k: u32,
) -> bool {
    last_measures(measures, k).is_some() || last_labels(labels, k).is_some() || last_identity(
        identities,
        k,
    ).is_some()
}

/// The measures of `p` are what the rows make of those that the product `k`
/// had before: those of the last row that names it, else those that it had,
/// else blank ones.
pub open spec fn measures_made(
    before: Map<u32, Product>,
    rows: Seq<MeasuresRow>,
    version: u32,
    k: u32,
    p: Product,
) -> bool {
    match last_measures(rows, k) {
        Some(r) => p.measures == measures_of(r, version),
        None => if before.contains_key(k) {
            p.measures == before[k].measures
        } else {
            p.measures.is_blank()
        },
    }
}

/// The same of the localized projection.
pub open spec fn labels_made(
    before: Map<u32, Product>,
    rows: Seq<LabelsRow>,
    version: u32,
    k: u32,
    p: Product,
) -> bool {
    match last_labels(rows, k) {
        Some(r) => p.labels == labels_of(r, version),
        None => if before.contains_key(k) {
            p.labels == before[k].labels
        } else {
            p.labels.is_blank()
        },
    }
}

/// The same of the identifying projection.
pub open spec fn identity_made(
    before: Map<u32, Product>,
    rows: Seq<IdentityRow>,
    version: u32,
    k: u32,
    p: Product,
) -> bool {
    match last_identity(rows, k) {
        Some(r) => p.identity == identity_of(r, version),
        None => if before.contains_key(k) {
            p.identity == before[k].identity
        } else {
            p.identity.is_blank()
        },
    }
}

/// `m` is what the rows make of the products `before`: it holds the
/// products that were there and those that a row names, each with its
/// three projections as the rows make them.
pub open spec fn products_made(
    before: Map<u32, Product>,
    measures: Seq<MeasuresRow>,
    labels: Seq<LabelsRow>,
    identities: Seq<IdentityRow>,
    version: u32,
    m: Map<u32, Product>,
) -> bool {
    forall|k: u32|
        {
            &&& #[trigger] m.contains_key(k) <==> before.contains_key(k) || named(
                measures,
                labels,
                identities,
                k,
            )
            &&& m.contains_key(k) ==> {
                &&& measures_made(before, measures, version, k, m[k])
                &&& labels_made(before, labels, version, k, m[k])
                &&& identity_made(before, identities, version, k, m[k])
            }
        }
}

impl Cache {
    /// One pass over the products: the three projections in turn, then the
    /// sweep. What is left are the products that were there or that a row
    /// names, with their projections as the rows make them, of which all
    /// three projections carry the version of the pass.
    pub fn load_product(
        products: &mut Products,
        measures: &Vec<MeasuresRow>,
        labels: &Vec<LabelsRow>,
        identities: &Vec<IdentityRow>,
    )
        ensures
            final(products).version == next_version(old(products).version),
            final(products).code@ == codes_applied(old(products).code@, identities@),
            forall|k: u32| #[trigger]
                final(products).product@.contains_key(k) ==> final(products).product@[k].current(
                    final(products).version,
                ),
            exists|made: Map<u32, Product>|
                {
                    &&& products_made(
                        old(products).product@,
                        measures@,
                        labels@,
                        identities@,
                        final(products).version,
                        made,
                    )
                    &&& final(products).product@ == staying(made, final(products).version)
                },
            forall|k: u32|
                last_measures(measures@, k).is_some() && last_labels(labels@, k).is_some()
                    && last_identity(identities@, k).is_some() ==> #[trigger] final(
                    products).product@.contains_key(k),
    {
        let ghost before = old(products).product@;
        products.add_version();
        let ghost version = products.version;
        let ghost none_l = Seq::<LabelsRow>::empty();
        let ghost none_i = Seq::<IdentityRow>::empty();
        let mut i: usize = 0;
        assert(measures@.take(0) =~= Seq::<MeasuresRow>::empty());
        while i < measures.len()
            invariant
                i <= measures@.len(),
                products.version == version,
                products.code@ == old(products).code@,
                none_l == Seq::<LabelsRow>::empty(),
                none_i == Seq::<IdentityRow>::empty(),
                products_made(
                    before,
                    measures@.take(i as int),
                    none_l,
                    none_i,
                    version,
                    products.product@,
                ),
            decreases measures@.len() - i,
        {
            proof {
                assert(measures@.take(i + 1).drop_last() =~= measures@.take(i as int));
                assert(measures@.take(i + 1).last() == measures@[i as int]);
            }
            let r = measures[i];
            let ghost prev = products.product@;
            products.update(
                r.product_id,
                r.bonus,
                r.vendor_id,
                r.group_id,
                r.class_id,
                r.weight,
                r.volume,
                r.overall,
                r.category_id,
                r.warranty,
                r.ddp,
                r.country_id,
            );
            proof {
                let now = products.product@;
                let rows = measures@.take(i + 1);
                assert forall|k: u32|
                    {
                        &&& #[trigger] now.contains_key(k) <==> before.contains_key(k) || named(
                            rows,
                            none_l,
                            none_i,
                            k,
                        )
                        &&& now.contains_key(k) ==> {
                            &&& measures_made(before, rows, version, k, now[k])
                            &&& labels_made(before, none_l, version, k, now[k])
                            &&& identity_made(before, none_i, version, k, now[k])
                        }
                    } by {
                    assert(prev.contains_key(k) <==> before.contains_key(k) || named(
                        measures@.take(i as int),
                        none_l,
                        none_i,
                        k,
                    ));
                    if k != r.product_id {
                        assert(last_measures(rows, k) == last_measures(measures@.take(i as int), k));
                        assert(now.contains_key(k) <==> prev.contains_key(k));
                        if now.contains_key(k) {
                            assert(now[k] == prev[k]);
                        }
                    } else {
                        assert(last_measures(rows, k) == Some(r));
                        assert(now.contains_key(k));
                    }
                }
            }
            i += 1;
        }
        assert(measures@.take(measures@.len() as int) =~= measures@);
        let mut j: usize = 0;
        assert(labels@.take(0) =~= Seq::<LabelsRow>::empty());
        while j < labels.len()
            invariant
                j <= labels@.len(),
                products.version == version,
                products.code@ == old(products).code@,
                none_i == Seq::<IdentityRow>::empty(),
                products_made(
                    before,
                    measures@,
                    labels@.take(j as int),
                    none_i,
                    version,
                    products.product@,
                ),
            decreases labels@.len() - j,
        {
            proof {
                assert(labels@.take(j + 1).drop_last() =~= labels@.take(j as int));
                assert(labels@.take(j + 1).last() == labels@[j as int]);
            }
            let r = &labels[j];
            let ghost prev = products.product@;
            products.update_lang(
                r.product_id,
                r.group_ua.clone(),
                r.group_ru.clone(),
                r.desc_ua.clone(),
                r.desc_ru.clone(),
                r.category_ua.clone(),
                r.category_ru.clone(),
                r.url_ua.clone(),
                r.url_ru.clone(),
                r.class_ua.clone(),
                r.class_ru.clone(),
            );
            proof {
                let now = products.product@;
                let rows = labels@.take(j + 1);
                assert forall|k: u32|
                    {
                        &&& #[trigger] now.contains_key(k) <==> before.contains_key(k) || named(
                            measures@,
                            rows,
                            none_i,
                            k,
                        )
                        &&& now.contains_key(k) ==> {
                            &&& measures_made(before, measures@, version, k, now[k])
                            &&& labels_made(before, rows, version, k, now[k])
                            &&& identity_made(before, none_i, version, k, now[k])
                        }
                    } by {
                    assert(prev.contains_key(k) <==> before.contains_key(k) || named(
                        measures@,
                        labels@.take(j as int),
                        none_i,
                        k,
                    ));
                    if k != r.product_id {
                        assert(last_labels(rows, k) == last_labels(labels@.take(j as int), k));
                        assert(now.contains_key(k) <==> prev.contains_key(k));
                        if now.contains_key(k) {
                            assert(now[k] == prev[k]);
                        }
                    } else {
                        assert(last_labels(rows, k) == Some(*r));
                        assert(now.contains_key(k));
                    }
                }
            }
            j += 1;
        }
        assert(labels@.take(labels@.len() as int) =~= labels@);
        let mut n: usize = 0;
        assert(identities@.take(0) =~= Seq::<IdentityRow>::empty());
        while n < identities.len()
            invariant
                n <= identities@.len(),
                products.version == version,
                products.code@ == codes_applied(old(products).code@, identities@.take(n as int)),
                products_made(
                    before,
                    measures@,
                    labels@,
                    identities@.take(n as int),
                    version,
                    products.product@,
                ),
            decreases identities@.len() - n,
        {
            proof {
                assert(identities@.take(n + 1).drop_last() =~= identities@.take(n as int));
                assert(identities@.take(n + 1).last() == identities@[n as int]);
            }
            let r = &identities[n];
            let ghost prev = products.product@;
            products.update_str(
                r.product_id,
                r.code.clone(),
                r.bg.clone(),
                r.ean.clone(),
                r.seller.clone(),
                r.article.clone(),
                r.vendor.clone(),
                r.model.clone(),
                r.ua.clone(),
                r.ru.clone(),
                r.uktved.clone(),
                r.exclusive.clone(),
            );
            proof {
                let now = products.product@;
                let rows = identities@.take(n + 1);
                assert forall|k: u32|
                    {
                        &&& #[trigger] now.contains_key(k) <==> before.contains_key(k) || named(
                            measures@,
                            labels@,
                            rows,
                            k,
                        )
                        &&& now.contains_key(k) ==> {
                            &&& measures_made(before, measures@, version, k, now[k])
                            &&& labels_made(before, labels@, version, k, now[k])
                            &&& identity_made(before, rows, version, k, now[k])
                        }
                    } by {
                    assert(prev.contains_key(k) <==> before.contains_key(k) || named(
                        measures@,
                        labels@,
                        identities@.take(n as int),
                        k,
                    ));
                    if k != r.product_id {
                        assert(last_identity(rows, k) == last_identity(
                            identities@.take(n as int),
                            k,
                        ));
                        assert(now.contains_key(k) <==> prev.contains_key(k));
                        if now.contains_key(k) {
                            assert(now[k] == prev[k]);
                        }
                    } else {
                        assert(last_identity(rows, k) == Some(*r));
                        assert(now.contains_key(k));
                    }
                }
            }
            n += 1;
        }
        assert(identities@.take(identities@.len() as int) =~= identities@);
        let ghost made = products.product@;
        products.clear_old();
        proof {
            assert(products_made(before, measures@, labels@, identities@, version, made));
            assert(products.product@ == staying(made, version));
            assert forall|k: u32|
                last_measures(measures@, k).is_some() && last_labels(labels@, k).is_some()
                    && last_identity(identities@, k).is_some() implies #[trigger]
                products.product@.contains_key(k) by {
                assert(made.contains_key(k));
                assert(made[k].current(version));
            }
        }
    }
}

} // verus!
