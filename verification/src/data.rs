//! The in-memory catalog: users by company, countries, delivery targets,
//! product locks, products in three projections, stock by warehouse and bonus
//! groups. Each container that can lose entries upstream follows the versioned
//! sweep: a pass raises the version, stamps what it touches and then drops
//! what it did not touch.

use crate::decimal::Decimal;
use crate::sweep::{staying, sweep_map, Stamped};
use std::collections::HashMap;
use vstd::hash_map::StringHashMap;
use vstd::prelude::*;
use vstd::std_specs::hash::*;

verus! {

broadcast use vstd::std_specs::hash::group_hash_axioms;

/// The version that follows `v`; the counter wraps.
pub open spec fn next_version(v: u32) -> u32 {
    if v == u32::MAX {
        0
    } else {
        (v + 1) as u32
    }
}

fn bump(v: u32) -> (n: u32)
    ensures
        n == next_version(v),
{
    if v == u32::MAX {
        0
    } else {
        v + 1
    }
}

// ---------------------------------------------------------------- users

/// A user of a company, with the capabilities that the company grants.
#[derive(Debug, Clone, Copy)]
pub struct User {
    pub version: u32,
    pub profiles_id: u32,
    pub corp: bool,
    pub rozn: bool,
    pub r3: bool,
}

impl User {
    pub fn new(version: u32, profiles_id: u32, corp: bool, rozn: bool, r3: bool) -> (u: User)
        ensures
            u == (User { version, profiles_id, corp, rozn, r3 }),
    {
        User { version, profiles_id, corp, rozn, r3 }
    }

    pub fn update(&mut self, version: u32, profiles_id: u32, corp: bool, rozn: bool, r3: bool)
        ensures
            *final(self) == (User { version, profiles_id, corp, rozn, r3 }),
    {
        self.version = version;
        self.profiles_id = profiles_id;
        self.corp = corp;
        self.rozn = rozn;
        self.r3 = r3;
    }
}

impl Stamped for User {
    open spec fn stays(&self, version: u32) -> bool {
        self.version == version
    }

    open spec fn swept_from(&self, before: &Self, version: u32) -> bool {
        *self == *before
    }

    fn check_stays(&self, version: u32) -> (b: bool) {
        self.version == version
    }

    fn sweep(&mut self, version: u32) {
    }
}

/// The users of one company.
#[derive(Debug)]
pub struct Company {
    pub users: HashMap<u32, User>,
    pub version: u32,
}

/// What a company holds: its stamp and its users by id.
pub struct CompanyView {
    pub version: u32,
    pub users: Map<u32, User>,
}

impl CompanyView {
    pub open spec fn empty() -> CompanyView {
        CompanyView { version: 0, users: Map::empty() }
    }

    pub open spec fn updated(
        self,
        version: u32,
        user_id: u32,
        profiles_id: u32,
        corp: bool,
        rozn: bool,
        r3: bool,
    ) -> CompanyView {
        CompanyView {
            version,
            users: self.users.insert(user_id, User { version, profiles_id, corp, rozn, r3 }),
        }
    }

    /// The company without the users that its own stamp does not cover.
    pub open spec fn swept(self) -> CompanyView {
        CompanyView {
            version: self.version,
            users: Map::new(
                |k: u32| self.users.contains_key(k) && self.users[k].version == self.version,
                |k: u32| self.users[k],
            ),
        }
    }
}

impl View for Company {
    type V = CompanyView;

    open spec fn view(&self) -> CompanyView {
        CompanyView { version: self.version, users: self.users@ }
    }
}

impl Company {
    pub fn new(cap: usize) -> (c: Company)
        ensures
            c@ == CompanyView::empty(),
    {
        Company { users: HashMap::with_capacity(cap), version: 0 }
    }

    /// Stamps the company and sets the user's record.
    pub fn update(
        &mut self,
        version: u32,
        user_id: u32,
        profiles_id: u32,
        corp: bool,
        rozn: bool,
        r3: bool,
    )
        ensures
            final(self)@ == old(self)@.updated(version, user_id, profiles_id, corp, rozn, r3),
    {
        self.version = version;
        self.users.insert(user_id, User::new(version, profiles_id, corp, rozn, r3));
    }

    /// Drops the users whose stamp is not the company's.
    pub fn clear_old(&mut self)
        ensures
            final(self)@ == old(self)@.swept(),
            forall|k: u32| #[trigger]
                final(self)@.users.contains_key(k) ==> final(self)@.users[k].version
                    == final(self)@.version,
    {
        sweep_map(&mut self.users, self.version);
        assert(self@.users =~= old(self)@.swept().users);
    }
}

impl Stamped for Company {
    open spec fn stays(&self, version: u32) -> bool {
        self.version == version
    }

    open spec fn swept_from(&self, before: &Self, version: u32) -> bool {
        self@ == before@.swept()
    }

    fn check_stays(&self, version: u32) -> (b: bool) {
        self.version == version
    }

    fn sweep(&mut self, version: u32) {
        self.clear_old();
    }
}

/// All companies that may ask for a price list.
#[derive(Debug)]
pub struct Auth {
    pub company: HashMap<u32, Company>,
    pub capacity: usize,
    pub version: u32,
}

/// What the container holds: its version and each company's content.
pub struct AuthView {
    pub version: u32,
    pub company: Map<u32, CompanyView>,
}

impl AuthView {
    pub open spec fn bumped(self) -> AuthView {
        AuthView { version: next_version(self.version), company: self.company }
    }

    pub open spec fn company_or_empty(self, company_id: u32) -> CompanyView {
        if self.company.contains_key(company_id) {
            self.company[company_id]
        } else {
            CompanyView::empty()
        }
    }

    pub open spec fn updated(
        self,
        company_id: u32,
        user_id: u32,
        profiles_id: u32,
        corp: bool,
        rozn: bool,
        r3: bool,
    ) -> AuthView {
        AuthView {
            version: self.version,
            company: self.company.insert(
                company_id,
                self.company_or_empty(company_id).updated(
                    self.version,
                    user_id,
                    profiles_id,
                    corp,
                    rozn,
                    r3,
                ),
            ),
        }
    }

    /// The container without what the current pass did not touch.
    pub open spec fn swept(self) -> AuthView {
        AuthView {
            version: self.version,
            company: Map::new(
                |k: u32| self.company.contains_key(k) && self.company[k].version == self.version,
                |k: u32| self.company[k].swept(),
            ),
        }
    }

    /// Every company and every user carries the container's version.
    pub open spec fn all_current(self) -> bool {
        forall|c: u32| #[trigger]
            self.company.contains_key(c) ==> {
                &&& self.company[c].version == self.version
                &&& forall|u: u32| #[trigger]
                    self.company[c].users.contains_key(u) ==> self.company[c].users[u].version
                        == self.version
            }
    }
}

impl View for Auth {
    type V = AuthView;

    open spec fn view(&self) -> AuthView {
        AuthView {
            version: self.version,
            company: Map::new(
                |k: u32| self.company@.contains_key(k),
                |k: u32| self.company@[k]@,
            ),
        }
    }
}

/// After a sweep every surviving company and user carries the container's
/// version.
pub proof fn lemma_auth_swept_current(a: AuthView)
    ensures
        a.swept().all_current(),
{
}

impl Auth {
    pub fn new(cap: usize, capacity: usize) -> (a: Auth)
        ensures
            a@ == (AuthView { version: 0, company: Map::empty() }),
    {
        let a = Auth { company: HashMap::with_capacity(cap), capacity, version: 0 };
        assert(a@.company =~= Map::empty());
        a
    }

    /// Sets the user's record under its company, stamping both with the
    /// current version.
    pub fn update(
        &mut self,
        company_id: u32,
        user_id: u32,
        profiles_id: u32,
        corp: bool,
        rozn: bool,
        r3: bool,
    )
        ensures
            final(self)@ == old(self)@.updated(company_id, user_id, profiles_id, corp, rozn, r3),
    {
        let mut c = match self.company.remove(&company_id) {
            Some(c) => c,
            None => Company::new(self.capacity),
        };
        c.update(self.version, user_id, profiles_id, corp, rozn, r3);
        self.company.insert(company_id, c);
        assert(self@.company =~= old(self)@.updated(
            company_id,
            user_id,
            profiles_id,
            corp,
            rozn,
            r3,
        ).company);
    }

    /// Starts a pass.
    pub fn add_version(&mut self)
        ensures
            final(self)@ == old(self)@.bumped(),
    {
        self.version = bump(self.version);
        assert(self@.company =~= old(self)@.company);
    }

    /// Ends a pass: drops the companies and users that it did not touch.
    pub fn clear_old(&mut self)
        ensures
            final(self)@ == old(self)@.swept(),
            final(self)@.all_current(),
    {
        sweep_map(&mut self.company, self.version);
        assert(self@.company =~= old(self)@.swept().company);
    }
}

// ---------------------------------------------------------------- countries

/// A country's name in both languages.
#[derive(Debug, Clone)]
pub struct Country {
    pub ua: String,
    pub ru: String,
}

impl Country {
    pub fn new(ua: String, ru: String) -> (c: Country)
        ensures
            c == (Country { ua, ru }),
    {
        Country { ua, ru }
    }
}

/// The countries by id. Countries are never removed.
#[derive(Debug)]
pub struct World {
    pub countries: HashMap<u32, Country>,
}

impl World {
    pub fn new(cap: usize) -> (w: World)
        ensures
            w.countries@ == Map::<u32, Country>::empty(),
    {
        World { countries: HashMap::with_capacity(cap) }
    }

    /// Sets the names of the country `country_id`.
    pub fn update(&mut self, country_id: u32, ua: String, ru: String)
        ensures
            final(self).countries@ == old(self).countries@.insert(country_id, Country { ua, ru }),
    {
        self.countries.insert(country_id, Country::new(ua, ru));
    }
}

// ---------------------------------------------------------------- targets

/// A delivery target: the warehouse that serves it and the postage rate of
/// each size bucket.
#[derive(Debug, Clone, Copy)]
pub struct Target {
    pub version: u32,
    pub region_stock: bool,
    pub stock_id: u32,
    pub postage_compact: Decimal,
    pub postage_middle: Decimal,
    pub postage_big: Decimal,
    pub postage_large: Decimal,
}

impl Target {
    pub fn new(
        version: u32,
        region_stock: bool,
        stock_id: u32,
        postage_compact: Decimal,
        postage_middle: Decimal,
        postage_big: Decimal,
        postage_large: Decimal,
    ) -> (t: Target)
        ensures
            t == (Target {
                version,
                region_stock,
                stock_id,
                postage_compact,
                postage_middle,
                postage_big,
                postage_large,
            }),
    {
        Target {
            version,
            region_stock,
            stock_id,
            postage_compact,
            postage_middle,
            postage_big,
            postage_large,
        }
    }
}

impl Stamped for Target {
    open spec fn stays(&self, version: u32) -> bool {
        self.version == version
    }

    open spec fn swept_from(&self, before: &Self, version: u32) -> bool {
        *self == *before
    }

    fn check_stays(&self, version: u32) -> (b: bool) {
        self.version == version
    }

    fn sweep(&mut self, version: u32) {
    }
}

/// The delivery targets by id.
#[derive(Debug)]
pub struct Targets {
    pub target: HashMap<u32, Target>,
    pub version: u32,
}

impl Targets {
    pub fn new(cap: usize) -> (t: Targets)
        ensures
            t.version == 0,
            t.target@ == Map::<u32, Target>::empty(),
    {
        Targets { target: HashMap::with_capacity(cap), version: 0 }
    }

    /// Starts a pass.
    pub fn add_version(&mut self)
        ensures
            final(self).version == next_version(old(self).version),
            final(self).target@ == old(self).target@,
    {
        self.version = bump(self.version);
    }

    /// Sets the target's record, stamped with the current version.
    pub fn update(
        &mut self,
        target_id: u32,
        region_stock: bool,
        stock_id: u32,
        postage_compact: Decimal,
        postage_middle: Decimal,
        postage_big: Decimal,
        postage_large: Decimal,
    )
        ensures
            final(self).version == old(self).version,
            final(self).target@ == old(self).target@.insert(
                target_id,
                Target {
                    version: old(self).version,
                    region_stock,
                    stock_id,
                    postage_compact,
                    postage_middle,
                    postage_big,
                    postage_large,
                },
            ),
    {
        let t = Target::new(
            self.version,
            region_stock,
            stock_id,
            postage_compact,
            postage_middle,
            postage_big,
            postage_large,
        );
        self.target.insert(target_id, t);
    }

    /// Ends a pass: drops the targets that it did not touch.
    pub fn clear_old(&mut self)
        ensures
            final(self).version == old(self).version,
            final(self).target@ == staying(old(self).target@, old(self).version),
            forall|k: u32| #[trigger]
                final(self).target@.contains_key(k) ==> final(self).target@[k].version
                    == final(self).version,
    {
        sweep_map(&mut self.target, self.version);
        assert(self.target@ =~= staying(old(self).target@, old(self).version));
    }
}

// ---------------------------------------------------------------- locks

/// The four identifiers of a lock as one key.
pub open spec fn lock_key(vendor_id: u32, group_id: u32, class_id: u32, product_id: u32) -> u128 {
    (((vendor_id as int * 0x1_0000_0000 + group_id as int) * 0x1_0000_0000 + class_id as int)
        * 0x1_0000_0000 + product_id as int) as u128
}

/// Different identifiers give different keys.
pub proof fn lemma_lock_key_injective(a: (u32, u32, u32, u32), b: (u32, u32, u32, u32))
    requires
        lock_key(a.0, a.1, a.2, a.3) == lock_key(b.0, b.1, b.2, b.3),
    ensures
        a == b,
{
}

/// Computes the key of a lock.
pub fn make_lock_key(vendor_id: u32, group_id: u32, class_id: u32, product_id: u32) -> (k: u128)
    ensures
        k == lock_key(vendor_id, group_id, class_id, product_id),
{
    let a: u128 = (vendor_id as u128) * 0x1_0000_0000 + (group_id as u128);
    let b: u128 = a * 0x1_0000_0000 + (class_id as u128);
    b * 0x1_0000_0000 + (product_id as u128)
}

/// A lock: the product, or the vendor, group and class, that a company may
/// not buy.
#[derive(Debug, Clone, Copy)]
pub struct Lock {
    pub version: u32,
    pub vendor_id: u32,
    pub group_id: u32,
    pub class_id: u32,
    pub product_id: u32,
}

impl Lock {
    pub fn new(version: u32, vendor_id: u32, group_id: u32, class_id: u32, product_id: u32) -> (l:
        Lock)
        ensures
            l == (Lock { version, vendor_id, group_id, class_id, product_id }),
    {
        Lock { version, vendor_id, group_id, class_id, product_id }
    }
}

impl Stamped for Lock {
    open spec fn stays(&self, version: u32) -> bool {
        self.version == version
    }

    open spec fn swept_from(&self, before: &Self, version: u32) -> bool {
        *self == *before
    }

    fn check_stays(&self, version: u32) -> (b: bool) {
        self.version == version
    }

    fn sweep(&mut self, version: u32) {
    }
}

/// The locks of one company, by key.
#[derive(Debug)]
pub struct LockList {
    pub list: HashMap<u128, Lock>,
    pub version: u32,
}

/// What a lock list holds.
pub struct LockListView {
    pub version: u32,
    pub list: Map<u128, Lock>,
}

impl LockListView {
    pub open spec fn empty() -> LockListView {
        LockListView { version: 0, list: Map::empty() }
    }

    pub open spec fn updated(
        self,
        version: u32,
        vendor_id: u32,
        group_id: u32,
        class_id: u32,
        product_id: u32,
    ) -> LockListView {
        LockListView {
            version,
            list: self.list.insert(
                lock_key(vendor_id, group_id, class_id, product_id),
                Lock { version, vendor_id, group_id, class_id, product_id },
            ),
        }
    }

    pub open spec fn swept(self) -> LockListView {
        LockListView { version: self.version, list: staying(self.list, self.version) }
    }
}

impl View for LockList {
    type V = LockListView;

    open spec fn view(&self) -> LockListView {
        LockListView { version: self.version, list: self.list@ }
    }
}

impl LockList {
    pub fn new(cap: usize) -> (l: LockList)
        ensures
            l@ == LockListView::empty(),
    {
        LockList { list: HashMap::with_capacity(cap), version: 0 }
    }

    /// Stamps the list and sets the lock under its key.
    pub fn update(
        &mut self,
        version: u32,
        vendor_id: u32,
        group_id: u32,
        class_id: u32,
        product_id: u32,
    )
        ensures
            final(self)@ == old(self)@.updated(version, vendor_id, group_id, class_id, product_id),
    {
        self.version = version;
        let key = make_lock_key(vendor_id, group_id, class_id, product_id);
        self.list.insert(key, Lock::new(version, vendor_id, group_id, class_id, product_id));
    }

    /// Drops the locks whose stamp is not the list's.
    pub fn clear_old(&mut self)
        ensures
            final(self)@ == old(self)@.swept(),
    {
        sweep_map(&mut self.list, self.version);
        assert(self@.list =~= old(self)@.swept().list);
    }
}

impl Stamped for LockList {
    open spec fn stays(&self, version: u32) -> bool {
        self.version == version
    }

    open spec fn swept_from(&self, before: &Self, version: u32) -> bool {
        self@ == before@.swept()
    }

    fn check_stays(&self, version: u32) -> (b: bool) {
        self.version == version
    }

    fn sweep(&mut self, version: u32) {
        self.clear_old();
    }
}

/// The lock lists by company.
#[derive(Debug)]
pub struct Locks {
    pub lock: HashMap<u32, LockList>,
    pub capacity: usize,
    pub version: u32,
}

/// What the container holds.
pub struct LocksView {
    pub version: u32,
    pub lock: Map<u32, LockListView>,
}

impl LocksView {
    pub open spec fn bumped(self) -> LocksView {
        LocksView { version: next_version(self.version), lock: self.lock }
    }

    pub open spec fn list_or_empty(self, company_id: u32) -> LockListView {
        if self.lock.contains_key(company_id) {
            self.lock[company_id]
        } else {
            LockListView::empty()
        }
    }

    pub open spec fn updated(
        self,
        company_id: u32,
        vendor_id: u32,
        group_id: u32,
        class_id: u32,
        product_id: u32,
    ) -> LocksView {
        LocksView {
            version: self.version,
            lock: self.lock.insert(
                company_id,
                self.list_or_empty(company_id).updated(
                    self.version,
                    vendor_id,
                    group_id,
                    class_id,
                    product_id,
                ),
            ),
        }
    }

    pub open spec fn swept(self) -> LocksView {
        LocksView {
            version: self.version,
            lock: Map::new(
                |k: u32| self.lock.contains_key(k) && self.lock[k].version == self.version,
                |k: u32| self.lock[k].swept(),
            ),
        }
    }

    /// Every list and every lock carries the container's version.
    pub open spec fn all_current(self) -> bool {
        forall|c: u32| #[trigger]
            self.lock.contains_key(c) ==> {
                &&& self.lock[c].version == self.version
                &&& forall|k: u128| #[trigger]
                    self.lock[c].list.contains_key(k) ==> self.lock[c].list[k].version
                        == self.version
            }
    }
}

impl View for Locks {
    type V = LocksView;

    open spec fn view(&self) -> LocksView {
        LocksView {
            version: self.version,
            lock: Map::new(|k: u32| self.lock@.contains_key(k), |k: u32| self.lock@[k]@),
        }
    }
}

/// After a sweep every surviving list and lock carries the container's
/// version.
pub proof fn lemma_locks_swept_current(l: LocksView)
    ensures
        l.swept().all_current(),
{
}

impl Locks {
    pub fn new(cap: usize, capacity: usize) -> (l: Locks)
        ensures
            l@ == (LocksView { version: 0, lock: Map::empty() }),
    {
        let l = Locks { lock: HashMap::with_capacity(cap), capacity, version: 0 };
        assert(l@.lock =~= Map::empty());
        l
    }

    /// Starts a pass.
    pub fn add_version(&mut self)
        ensures
            final(self)@ == old(self)@.bumped(),
    {
        self.version = bump(self.version);
        assert(self@.lock =~= old(self)@.lock);
    }

    /// Sets a lock of the company, stamping list and lock with the current
    /// version.
    pub fn update(
        &mut self,
        company_id: u32,
        vendor_id: u32,
        group_id: u32,
        class_id: u32,
        product_id: u32,
    )
        ensures
            final(self)@ == old(self)@.updated(
                company_id,
                vendor_id,
                group_id,
                class_id,
                product_id,
            ),
    {
        let mut l = match self.lock.remove(&company_id) {
            Some(l) => l,
            None => LockList::new(self.capacity),
        };
        l.update(self.version, vendor_id, group_id, class_id, product_id);
        self.lock.insert(company_id, l);
        assert(self@.lock =~= old(self)@.updated(
            company_id,
            vendor_id,
            group_id,
            class_id,
            product_id,
        ).lock);
    }

    /// Ends a pass: drops the lists and locks that it did not touch.
    pub fn clear_old(&mut self)
        ensures
            final(self)@ == old(self)@.swept(),
            final(self)@.all_current(),
    {
        sweep_map(&mut self.lock, self.version);
        assert(self@.lock =~= old(self)@.swept().lock);
    }
}

// ---------------------------------------------------------------- stock

/// What one warehouse holds of one product: the pieces at hand and the days
/// until more arrive.
#[derive(Debug, Clone, Copy)]
pub struct Stock {
    pub version: u32,
    pub available: u32,
    pub day: u32,
}

impl Stock {
    pub fn new(version: u32, available: u32, day: u32) -> (s: Stock)
        ensures
            s == (Stock { version, available, day }),
    {
        Stock { version, available, day }
    }
}

impl Stamped for Stock {
    open spec fn stays(&self, version: u32) -> bool {
        !(self.day == 0 && self.available == 0) && self.version == version
    }

    open spec fn swept_from(&self, before: &Self, version: u32) -> bool {
        *self == *before
    }

    fn check_stays(&self, version: u32) -> (b: bool) {
        !(self.day == 0 && self.available == 0) && self.version == version
    }

    fn sweep(&mut self, version: u32) {
    }
}

/// The stock of one warehouse, by product.
#[derive(Debug)]
pub struct ProductStock {
    pub version: u32,
    pub product: HashMap<u32, Stock>,
}

/// What a warehouse holds.
pub struct ProductStockView {
    pub version: u32,
    pub product: Map<u32, Stock>,
}

impl ProductStockView {
    pub open spec fn empty() -> ProductStockView {
        ProductStockView { version: 0, product: Map::empty() }
    }

    pub open spec fn day_of(self, product_id: u32) -> u32 {
        if self.product.contains_key(product_id) {
            self.product[product_id].day
        } else {
            0
        }
    }

    pub open spec fn available_of(self, product_id: u32) -> u32 {
        if self.product.contains_key(product_id) {
            self.product[product_id].available
        } else {
            0
        }
    }

    pub open spec fn with_available(self, version: u32, product_id: u32, available: u32)
        -> ProductStockView {
        ProductStockView {
            version,
            product: self.product.insert(
                product_id,
                Stock { version, available, day: self.day_of(product_id) },
            ),
        }
    }

    pub open spec fn with_day(self, version: u32, product_id: u32, day: u32) -> ProductStockView {
        ProductStockView {
            version,
            product: self.product.insert(
                product_id,
                Stock { version, available: self.available_of(product_id), day },
            ),
        }
    }

    /// The warehouse without the entries that its stamp does not cover and
    /// without those that hold nothing and expect nothing.
    pub open spec fn swept(self) -> ProductStockView {
        ProductStockView { version: self.version, product: staying(self.product, self.version) }
    }
}

impl View for ProductStock {
    type V = ProductStockView;

    open spec fn view(&self) -> ProductStockView {
        ProductStockView { version: self.version, product: self.product@ }
    }
}

impl ProductStock {
    pub fn new(cap: usize) -> (p: ProductStock)
        ensures
            p@ == ProductStockView::empty(),
    {
        ProductStock { version: 0, product: HashMap::with_capacity(cap) }
    }

    /// Stamps the warehouse and sets the pieces at hand of a product; the
    /// days of a product not yet known are zero.
    pub fn update_available(&mut self, version: u32, product_id: u32, available: u32)
        ensures
            final(self)@ == old(self)@.with_available(version, product_id, available),
    {
        self.version = version;
        let day = match self.product.get(&product_id) {
            Some(s) => s.day,
            None => 0,
        };
        self.product.insert(product_id, Stock::new(version, available, day));
    }

    /// Stamps the warehouse and sets the days of a product; the pieces of a
    /// product not yet known are zero.
    pub fn update_day(&mut self, version: u32, product_id: u32, day: u32)
        ensures
            final(self)@ == old(self)@.with_day(version, product_id, day),
    {
        self.version = version;
        let available = match self.product.get(&product_id) {
            Some(s) => s.available,
            None => 0,
        };
        self.product.insert(product_id, Stock::new(version, available, day));
    }

    /// Drops the entries that hold nothing and expect nothing, and those
    /// whose stamp is not the warehouse's.
    pub fn clear_old(&mut self)
        ensures
            final(self)@ == old(self)@.swept(),
    {
        sweep_map(&mut self.product, self.version);
        assert(self@.product =~= old(self)@.swept().product);
    }
}

impl Stamped for ProductStock {
    open spec fn stays(&self, version: u32) -> bool {
        self.version == version
    }

    open spec fn swept_from(&self, before: &Self, version: u32) -> bool {
        self@ == before@.swept()
    }

    fn check_stays(&self, version: u32) -> (b: bool) {
        self.version == version
    }

    fn sweep(&mut self, version: u32) {
        self.clear_old();
    }
}

/// The stock of all warehouses.
#[derive(Debug)]
pub struct Store {
    pub version: u32,
    pub capacity: usize,
    pub stock: HashMap<u32, ProductStock>,
}

/// What the container holds.
pub struct StoreView {
    pub version: u32,
    pub stock: Map<u32, ProductStockView>,
}

impl StoreView {
    pub open spec fn bumped(self) -> StoreView {
        StoreView { version: next_version(self.version), stock: self.stock }
    }

    pub open spec fn stock_or_empty(self, stock_id: u32) -> ProductStockView {
        if self.stock.contains_key(stock_id) {
            self.stock[stock_id]
        } else {
            ProductStockView::empty()
        }
    }

    pub open spec fn with_available(self, stock_id: u32, product_id: u32, available: u32)
        -> StoreView {
        StoreView {
            version: self.version,
            stock: self.stock.insert(
                stock_id,
                self.stock_or_empty(stock_id).with_available(self.version, product_id, available),
            ),
        }
    }

    pub open spec fn with_day(self, stock_id: u32, product_id: u32, day: u32) -> StoreView {
        StoreView {
            version: self.version,
            stock: self.stock.insert(
                stock_id,
                self.stock_or_empty(stock_id).with_day(self.version, product_id, day),
            ),
        }
    }

    pub open spec fn swept(self) -> StoreView {
        StoreView {
            version: self.version,
            stock: Map::new(
                |k: u32| self.stock.contains_key(k) && self.stock[k].version == self.version,
                |k: u32| self.stock[k].swept(),
            ),
        }
    }

    /// Every warehouse and every entry carries the container's version, and
    /// no entry is empty.
    pub open spec fn all_current(self) -> bool {
        forall|s: u32| #[trigger]
            self.stock.contains_key(s) ==> {
                &&& self.stock[s].version == self.version
                &&& forall|p: u32| #[trigger]
                    self.stock[s].product.contains_key(p) ==> {
                        &&& self.stock[s].product[p].version == self.version
                        &&& !(self.stock[s].product[p].available == 0
                            && self.stock[s].product[p].day == 0)
                    }
            }
    }
}

impl View for Store {
    type V = StoreView;

    open spec fn view(&self) -> StoreView {
        StoreView {
            version: self.version,
            stock: Map::new(|k: u32| self.stock@.contains_key(k), |k: u32| self.stock@[k]@),
        }
    }
}

/// After a sweep every surviving warehouse and entry carries the container's
/// version, and no entry is empty.
pub proof fn lemma_store_swept_current(s: StoreView)
    ensures
        s.swept().all_current(),
{
}

impl Store {
    pub fn new(cap: usize, capacity: usize) -> (s: Store)
        ensures
            s@ == (StoreView { version: 0, stock: Map::empty() }),
    {
        let s = Store { version: 0, stock: HashMap::with_capacity(cap), capacity };
        assert(s@.stock =~= Map::empty());
        s
    }

    /// Starts a pass.
    pub fn add_version(&mut self)
        ensures
            final(self)@ == old(self)@.bumped(),
    {
        self.version = bump(self.version);
        assert(self@.stock =~= old(self)@.stock);
    }

    /// Sets the pieces at hand of a product in a warehouse.
    pub fn update_available(&mut self, stock_id: u32, product_id: u32, available: u32)
        ensures
            final(self)@ == old(self)@.with_available(stock_id, product_id, available),
    {
        let mut p = match self.stock.remove(&stock_id) {
            Some(p) => p,
            None => ProductStock::new(self.capacity),
        };
        p.update_available(self.version, product_id, available);
        self.stock.insert(stock_id, p);
        assert(self@.stock =~= old(self)@.with_available(stock_id, product_id, available).stock);
    }

    /// Sets the days until a product arrives in a warehouse.
    pub fn update_day(&mut self, stock_id: u32, product_id: u32, day: u32)
        ensures
            final(self)@ == old(self)@.with_day(stock_id, product_id, day),
    {
        let mut p = match self.stock.remove(&stock_id) {
            Some(p) => p,
            None => ProductStock::new(self.capacity),
        };
        p.update_day(self.version, product_id, day);
        self.stock.insert(stock_id, p);
        assert(self@.stock =~= old(self)@.with_day(stock_id, product_id, day).stock);
    }

    /// Ends a pass: drops the warehouses and entries that it did not touch,
    /// and the empty entries.
    pub fn clear_old(&mut self)
        ensures
            final(self)@ == old(self)@.swept(),
            final(self)@.all_current(),
    {
        sweep_map(&mut self.stock, self.version);
        assert(self@.stock =~= old(self)@.swept().stock);
    }
}

// ---------------------------------------------------------------- bonus groups

/// A bonus-group code with the version of the pass that named it last.
#[derive(Debug, Clone)]
pub struct Group {
    pub code: String,
    pub version: u32,
}

/// The stamp of each code that the entries name; where a code is named more
/// than once, the last entry counts.
pub open spec fn stamps(entries: Seq<Group>) -> Map<Seq<char>, u32>
    decreases entries.len(),
{
    if entries.len() == 0 {
        Map::empty()
    } else {
        stamps(entries.drop_last()).insert(entries.last().code@, entries.last().version)
    }
}

/// The codes of `m` whose stamp is `version`.
pub open spec fn stamped_at(m: Map<Seq<char>, u32>, version: u32) -> Map<Seq<char>, u32> {
    Map::new(|code: Seq<char>| m.contains_key(code) && m[code] == version, |code: Seq<char>| m[code])
}

/// The bonus-group codes that grant one company a bonus, each with the
/// version of the pass that named it. The codes are kept as a list of
/// entries, of which the last one of a code counts.
#[derive(Debug)]
pub struct BonusGroup {
    pub version: u32,
    pub groups: Vec<Group>,
}

/// What a company's bonus groups hold: the stamp of the whole and the stamp
/// of each code.
pub struct BonusGroupView {
    pub version: u32,
    pub groups: Map<Seq<char>, u32>,
}

impl BonusGroupView {
    pub open spec fn empty() -> BonusGroupView {
        BonusGroupView { version: 0, groups: Map::empty() }
    }

    /// The whole and the code carry `version`; the other codes keep their
    /// stamps.
    pub open spec fn updated(self, version: u32, code: Seq<char>) -> BonusGroupView {
        BonusGroupView { version, groups: self.groups.insert(code, version) }
    }

    /// The codes whose stamp is that of the whole.
    pub open spec fn swept(self) -> BonusGroupView {
        BonusGroupView { version: self.version, groups: stamped_at(self.groups, self.version) }
    }
}

impl View for BonusGroup {
    type V = BonusGroupView;

    open spec fn view(&self) -> BonusGroupView {
        BonusGroupView { version: self.version, groups: stamps(self.groups@) }
    }
}

/// The entries without those of `code`, in their order.
fn without(entries: &Vec<Group>, code: &String) -> (r: Vec<Group>)
    ensures
        stamps(r@) == stamps(entries@).remove(code@),
{
    let mut out: Vec<Group> = Vec::new();
    let mut i: usize = 0;
    assert(entries@.take(0) =~= Seq::<Group>::empty());
    assert(stamps(out@) =~= stamps(entries@.take(0)).remove(code@));
    while i < entries.len()
        invariant
            i <= entries@.len(),
            stamps(out@) == stamps(entries@.take(i as int)).remove(code@),
        decreases entries@.len() - i,
    {
        proof {
            assert(entries@.take(i + 1).drop_last() =~= entries@.take(i as int));
            assert(entries@.take(i + 1).last() == entries@[i as int]);
        }
        if entries[i].code != *code {
            let ghost before = out@;
            out.push(Group { code: entries[i].code.clone(), version: entries[i].version });
            proof {
                assert(out@.drop_last() =~= before);
                assert(stamps(out@) =~= stamps(entries@.take(i + 1)).remove(code@));
            }
        } else {
            assert(stamps(out@) =~= stamps(entries@.take(i + 1)).remove(code@));
        }
        i += 1;
    }
    assert(entries@.take(entries@.len() as int) =~= entries@);
    out
}

impl BonusGroup {
    pub fn new(cap: usize) -> (b: BonusGroup)
        ensures
            b@ == BonusGroupView::empty(),
    {
        BonusGroup { version: 0, groups: Vec::with_capacity(cap) }
    }

    /// Names `group` in the pass `version`: the whole and the code get that
    /// stamp, the other codes keep theirs.
    pub fn update(&mut self, version: u32, group: String)
        ensures
            final(self)@ == old(self)@.updated(version, group@),
    {
        self.version = version;
        self.groups.push(Group { code: group, version });
        assert(self.groups@.drop_last() =~= old(self).groups@);
    }

    /// Whether the set holds `code`, whatever its stamp.
    pub fn contains(&self, code: &str) -> (b: bool)
        ensures
            b == self@.groups.contains_key(code@),
    {
        let wanted = code.to_owned();
        let mut found = false;
        let mut i: usize = 0;
        assert(self.groups@.take(0) =~= Seq::<Group>::empty());
        while i < self.groups.len()
            invariant
                i <= self.groups@.len(),
                wanted@ == code@,
                found == stamps(self.groups@.take(i as int)).contains_key(code@),
            decreases self.groups@.len() - i,
        {
            proof {
                assert(self.groups@.take(i + 1).drop_last() =~= self.groups@.take(i as int));
                assert(self.groups@.take(i + 1).last() == self.groups@[i as int]);
            }
            if self.groups[i].code == wanted {
                found = true;
            }
            i += 1;
        }
        assert(self.groups@.take(self.groups@.len() as int) =~= self.groups@);
        found
    }

    /// Drops the codes whose stamp is not that of the whole; of each code
    /// that stays one entry is left.
    pub fn clear_old(&mut self)
        ensures
            final(self)@ == old(self)@.swept(),
            forall|code: Seq<char>| #[trigger]
                final(self)@.groups.contains_key(code) ==> final(self)@.groups[code]
                    == final(self)@.version,
    {
        let mut out: Vec<Group> = Vec::new();
        let mut i: usize = 0;
        assert(self.groups@.take(0) =~= Seq::<Group>::empty());
        assert(stamps(out@) =~= stamped_at(stamps(self.groups@.take(0)), self.version));
        while i < self.groups.len()
            invariant
                i <= self.groups@.len(),
                *self == *old(self),
                stamps(out@) == stamped_at(stamps(self.groups@.take(i as int)), self.version),
            decreases self.groups@.len() - i,
        {
            proof {
                assert(self.groups@.take(i + 1).drop_last() =~= self.groups@.take(i as int));
                assert(self.groups@.take(i + 1).last() == self.groups@[i as int]);
            }
            let mut next = without(&out, &self.groups[i].code);
            if self.groups[i].version == self.version {
                let ghost before = next@;
                next.push(Group { code: self.groups[i].code.clone(), version: self.version });
                proof {
                    assert(next@.drop_last() =~= before);
                }
            }
            assert(stamps(next@) =~= stamped_at(
                stamps(self.groups@.take(i + 1)),
                self.version,
            ));
            out = next;
            i += 1;
        }
        assert(self.groups@.take(self.groups@.len() as int) =~= self.groups@);
        self.groups = out;
    }
}

impl Stamped for BonusGroup {
    open spec fn stays(&self, version: u32) -> bool {
        self.version == version
    }

    open spec fn swept_from(&self, before: &Self, version: u32) -> bool {
        self@ == before@.swept()
    }

    fn check_stays(&self, version: u32) -> (b: bool) {
        self.version == version
    }

    fn sweep(&mut self, version: u32) {
        self.clear_old();
    }
}

/// The bonus groups by company.
#[derive(Debug)]
pub struct Bg {
    pub bg: HashMap<u32, BonusGroup>,
    pub capacity: usize,
    pub version: u32,
}

/// What the container holds.
pub struct BgView {
    pub version: u32,
    pub bg: Map<u32, BonusGroupView>,
}

impl BgView {
    pub open spec fn bumped(self) -> BgView {
        BgView { version: next_version(self.version), bg: self.bg }
    }

    pub open spec fn group_or_empty(self, company_id: u32) -> BonusGroupView {
        if self.bg.contains_key(company_id) {
            self.bg[company_id]
        } else {
            BonusGroupView::empty()
        }
    }

    pub open spec fn updated(self, company_id: u32, code: Seq<char>) -> BgView {
        BgView {
            version: self.version,
            bg: self.bg.insert(
                company_id,
                self.group_or_empty(company_id).updated(self.version, code),
            ),
        }
    }

    /// The container without the companies that the current pass did not
    /// touch and, in the others, without the codes that it did not name.
    pub open spec fn swept(self) -> BgView {
        BgView {
            version: self.version,
            bg: Map::new(
                |k: u32| self.bg.contains_key(k) && self.bg[k].version == self.version,
                |k: u32| self.bg[k].swept(),
            ),
        }
    }

    /// Every company's groups and every code carry the container's version.
    pub open spec fn all_current(self) -> bool {
        forall|c: u32| #[trigger]
            self.bg.contains_key(c) ==> {
                &&& self.bg[c].version == self.version
                &&& forall|code: Seq<char>| #[trigger]
                    self.bg[c].groups.contains_key(code) ==> self.bg[c].groups[code]
                        == self.version
            }
    }
}

impl View for Bg {
    type V = BgView;

    open spec fn view(&self) -> BgView {
        BgView {
            version: self.version,
            bg: Map::new(|k: u32| self.bg@.contains_key(k), |k: u32| self.bg@[k]@),
        }
    }
}

/// After a sweep every surviving company's groups and every code carry the
/// container's version.
pub proof fn lemma_bg_swept_current(b: BgView)
    ensures
        b.swept().all_current(),
{
}

impl Bg {
    pub fn new(cap: usize, capacity: usize) -> (b: Bg)
        ensures
            b@ == (BgView { version: 0, bg: Map::empty() }),
    {
        let b = Bg { bg: HashMap::with_capacity(cap), capacity, version: 0 };
        assert(b@.bg =~= Map::empty());
        b
    }

    /// Starts a pass.
    pub fn add_version(&mut self)
        ensures
            final(self)@ == old(self)@.bumped(),
    {
        self.version = bump(self.version);
        assert(self@.bg =~= old(self)@.bg);
    }

    /// Names `group` for the company in the current pass: the company and
    /// the code get the container's version, the other codes of the company
    /// and the other companies keep their stamps.
    pub fn update(&mut self, company_id: u32, group: String)
        ensures
            final(self)@ == old(self)@.updated(company_id, group@),
    {
        let mut g = match self.bg.remove(&company_id) {
            Some(g) => g,
            None => BonusGroup::new(self.capacity),
        };
        g.update(self.version, group);
        self.bg.insert(company_id, g);
        assert(self@.bg =~= old(self)@.updated(company_id, group@).bg);
    }

    /// Ends a pass: drops the companies that it did not touch and, in the
    /// others, the codes that it did not name.
    pub fn clear_old(&mut self)
        ensures
            final(self)@ == old(self)@.swept(),
            final(self)@.all_current(),
    {
        sweep_map(&mut self.bg, self.version);
        assert(self@.bg =~= old(self)@.swept().bg);
    }
}

// ---------------------------------------------------------------- products

/// The numeric projection of a product.
#[derive(Debug, Clone, Copy)]
pub struct Measures {
    pub version: u32,
    pub bonus: Decimal,
    pub vendor_id: u32,
    pub group_id: u32,
    pub class_id: u32,
    pub weight: Decimal,
    pub volume: Decimal,
    pub overall: i32,
    pub category_id: u32,
    pub warranty: u32,
    pub ddp: bool,
    pub country_id: u32,
}

impl Measures {
    pub open spec fn is_blank(self) -> bool {
        self == (Measures {
            version: 0,
            bonus: Decimal { units: 0 },
            vendor_id: 0,
            group_id: 0,
            class_id: 0,
            weight: Decimal { units: 0 },
            volume: Decimal { units: 0 },
            overall: 0,
            category_id: 0,
            warranty: 0,
            ddp: false,
            country_id: 0,
        })
    }

    /// The projection of a product that no numeric row has named yet.
    pub fn blank() -> (m: Measures)
        ensures
            m.is_blank(),
    {
        Measures {
            version: 0,
            bonus: Decimal::zero(),
            vendor_id: 0,
            group_id: 0,
            class_id: 0,
            weight: Decimal::zero(),
            volume: Decimal::zero(),
            overall: 0,
            category_id: 0,
            warranty: 0,
            ddp: false,
            country_id: 0,
        }
    }
}

/// The localized projection of a product.
#[derive(Debug, Clone)]
pub struct Labels {
    pub version: u32,
    pub group_ua: String,
    pub group_ru: String,
    pub desc_ua: String,
    pub desc_ru: String,
    pub category_ua: String,
    pub category_ru: String,
    pub url_ua: String,
    pub url_ru: String,
    pub class_ua: String,
    pub class_ru: String,
}

impl Labels {
    pub open spec fn is_blank(self) -> bool {
        &&& self.version == 0
        &&& self.group_ua@.len() == 0
        &&& self.group_ru@.len() == 0
        &&& self.desc_ua@.len() == 0
        &&& self.desc_ru@.len() == 0
        &&& self.category_ua@.len() == 0
        &&& self.category_ru@.len() == 0
        &&& self.url_ua@.len() == 0
        &&& self.url_ru@.len() == 0
        &&& self.class_ua@.len() == 0
        &&& self.class_ru@.len() == 0
    }

    /// The projection of a product that no localized row has named yet.
    pub fn blank() -> (l: Labels)
        ensures
            l.is_blank(),
    {
        Labels {
            version: 0,
            group_ua: String::new(),
            group_ru: String::new(),
            desc_ua: String::new(),
            desc_ru: String::new(),
            category_ua: String::new(),
            category_ru: String::new(),
            url_ua: String::new(),
            url_ru: String::new(),
            class_ua: String::new(),
            class_ru: String::new(),
        }
    }
}

/// The identifying projection of a product.
#[derive(Debug, Clone)]
pub struct Identity {
    pub version: u32,
    pub code: String,
    pub bg: String,
    pub ean: String,
    pub seller: String,
    pub article: String,
    pub vendor: String,
    pub model: String,
    pub ua: String,
    pub ru: String,
    pub uktved: String,
    pub exclusive: String,
}

impl Identity {
    pub open spec fn is_blank(self) -> bool {
        &&& self.version == 0
        &&& self.code@.len() == 0
        &&& self.bg@.len() == 0
        &&& self.ean@.len() == 0
        &&& self.seller@.len() == 0
        &&& self.article@.len() == 0
        &&& self.vendor@.len() == 0
        &&& self.model@.len() == 0
        &&& self.ua@.len() == 0
        &&& self.ru@.len() == 0
        &&& self.uktved@.len() == 0
        &&& self.exclusive@ == "0"@
    }

    /// The projection of a product that no identifying row has named yet.
    pub fn blank() -> (i: Identity)
        ensures
            i.is_blank(),
    {
        Identity {
            version: 0,
            code: String::new(),
            bg: String::new(),
            ean: String::new(),
            seller: String::new(),
            article: String::new(),
            vendor: String::new(),
            model: String::new(),
            ua: String::new(),
            ru: String::new(),
            uktved: String::new(),
            exclusive: "0".to_owned(),
        }
    }
}

/// A product: its three projections, each stamped by the query that loads it.
#[derive(Debug, Clone)]
pub struct Product {
    pub measures: Measures,
    pub labels: Labels,
    pub identity: Identity,
}

impl Product {
    pub fn new(
        version_1: u32,
        version_2: u32,
        version_3: u32,
        code: String,
        ua: String,
        ru: String,
        group_ua: String,
        group_ru: String,
        desc_ua: String,
        desc_ru: String,
        category_ua: String,
        category_ru: String,
        url_ua: String,
        url_ru: String,
        class_ua: String,
        class_ru: String,
        bg: String,
        ean: String,
        seller: String,
        article: String,
        vendor: String,
        model: String,
        uktved: String,
        warranty: u32,
        bonus: Decimal,
        vendor_id: u32,
        group_id: u32,
        class_id: u32,
        weight: Decimal,
        volume: Decimal,
        overall: i32,
        category_id: u32,
        ddp: bool,
        country_id: u32,
        exclusive: String,
    ) -> (p: Product)
        ensures
            p.measures == (Measures {
                version: version_1,
                bonus,
                vendor_id,
                group_id,
                class_id,
                weight,
                volume,
                overall,
                category_id,
                warranty,
                ddp,
                country_id,
            }),
            p.labels == (Labels {
                version: version_2,
                group_ua,
                group_ru,
                desc_ua,
                desc_ru,
                category_ua,
                category_ru,
                url_ua,
                url_ru,
                class_ua,
                class_ru,
            }),
            p.identity == (Identity {
                version: version_3,
                code,
                bg,
                ean,
                seller,
                article,
                vendor,
                model,
                ua,
                ru,
                uktved,
                exclusive,
            }),
    {
        Product {
            measures: Measures {
                version: version_1,
                bonus,
                vendor_id,
                group_id,
                class_id,
                weight,
                volume,
                overall,
                category_id,
                warranty,
                ddp,
                country_id,
            },
            labels: Labels {
                version: version_2,
                group_ua,
                group_ru,
                desc_ua,
                desc_ru,
                category_ua,
                category_ru,
                url_ua,
                url_ru,
                class_ua,
                class_ru,
            },
            identity: Identity {
                version: version_3,
                code,
                bg,
                ean,
                seller,
                article,
                vendor,
                model,
                ua,
                ru,
                uktved,
                exclusive,
            },
        }
    }

    /// All three projections carry `version`.
    pub open spec fn current(self, version: u32) -> bool {
        self.measures.version == version && self.labels.version == version
            && self.identity.version == version
    }
}

impl Stamped for Product {
    open spec fn stays(&self, version: u32) -> bool {
        self.current(version)
    }

    open spec fn swept_from(&self, before: &Self, version: u32) -> bool {
        *self == *before
    }

    fn check_stays(&self, version: u32) -> (b: bool) {
        self.measures.version == version && self.labels.version == version
            && self.identity.version == version
    }

    fn sweep(&mut self, version: u32) {
    }
}

/// `after` is `before` with the entry `id` set anew and nothing else changed.
pub open spec fn entry_set<V>(before: Map<u32, V>, after: Map<u32, V>, id: u32) -> bool {
    &&& after.contains_key(id)
    &&& forall|k: u32| k != id ==> (#[trigger] after.contains_key(k) <==> before.contains_key(k))
    &&& forall|k: u32| k != id && #[trigger] after.contains_key(k) ==> after[k] == before[k]
}

/// The products by id, and the index from product code to id.
pub struct Products {
    pub version: u32,
    pub product: HashMap<u32, Product>,
    pub code: StringHashMap<u32>,
}

impl Products {
    pub fn new(cap: usize) -> (p: Products)
        ensures
            p.version == 0,
            p.product@ == Map::<u32, Product>::empty(),
            p.code@ == Map::<Seq<char>, u32>::empty(),
    {
        Products {
            version: 0,
            product: HashMap::with_capacity(cap),
            code: StringHashMap::with_capacity(cap),
        }
    }

    /// Starts a pass.
    pub fn add_version(&mut self)
        ensures
            final(self).version == next_version(old(self).version),
            final(self).product@ == old(self).product@,
            final(self).code@ == old(self).code@,
    {
        self.version = bump(self.version);
    }

    /// The id of the product that the index holds for `code`.
    pub fn get_product_id(&self, code: String) -> (id: Option<u32>)
        ensures
            id == if self.code@.contains_key(code@) {
                Some(self.code@[code@])
            } else {
                None
            },
    {
        match self.code.get(code.as_str()) {
            Some(product_id) => Some(*product_id),
            None => None,
        }
    }

    /// Sets the numeric projection of a product and stamps it; the other
    /// projections of a product not yet known are blank.
    pub fn update(
        &mut self,
        product_id: u32,
        bonus: Decimal,
        vendor_id: u32,
        group_id: u32,
        class_id: u32,
        weight: Decimal,
        volume: Decimal,
        overall: i32,
        category_id: u32,
        warranty: u32,
        ddp: bool,
        country_id: u32,
    )
        ensures
            final(self).version == old(self).version,
            final(self).code@ == old(self).code@,
            entry_set(old(self).product@, final(self).product@, product_id),
            final(self).product@[product_id].measures == (Measures {
                version: old(self).version,
                bonus,
                vendor_id,
                group_id,
                class_id,
                weight,
                volume,
                overall,
                category_id,
                warranty,
                ddp,
                country_id,
            }),
            old(self).product@.contains_key(product_id) ==> {
                &&& final(self).product@[product_id].labels == old(self).product@[product_id].labels
                &&& final(self).product@[product_id].identity
                    == old(self).product@[product_id].identity
            },
            !old(self).product@.contains_key(product_id) ==> {
                &&& final(self).product@[product_id].labels.is_blank()
                &&& final(self).product@[product_id].identity.is_blank()
            },
    {
        let measures = Measures {
            version: self.version,
            bonus,
            vendor_id,
            group_id,
            class_id,
            weight,
            volume,
            overall,
            category_id,
            warranty,
            ddp,
            country_id,
        };
        let p = match self.product.remove(&product_id) {
            Some(p) => Product { measures, labels: p.labels, identity: p.identity },
            None => Product { measures, labels: Labels::blank(), identity: Identity::blank() },
        };
        self.product.insert(product_id, p);
    }

    /// Sets the localized projection of a product and stamps it; the other
    /// projections of a product not yet known are blank.
    pub fn update_lang(
        &mut self,
        product_id: u32,
        group_ua: String,
        group_ru: String,
        desc_ua: String,
        desc_ru: String,
        category_ua: String,
        category_ru: String,
        url_ua: String,
        url_ru: String,
        class_ua: String,
        class_ru: String,
    )
        ensures
            final(self).version == old(self).version,
            final(self).code@ == old(self).code@,
            entry_set(old(self).product@, final(self).product@, product_id),
            final(self).product@[product_id].labels == (Labels {
                version: old(self).version,
                group_ua,
                group_ru,
                desc_ua,
                desc_ru,
                category_ua,
                category_ru,
                url_ua,
                url_ru,
                class_ua,
                class_ru,
            }),
            old(self).product@.contains_key(product_id) ==> {
                &&& final(self).product@[product_id].measures
                    == old(self).product@[product_id].measures
                &&& final(self).product@[product_id].identity
                    == old(self).product@[product_id].identity
            },
            !old(self).product@.contains_key(product_id) ==> {
                &&& final(self).product@[product_id].measures.is_blank()
                &&& final(self).product@[product_id].identity.is_blank()
            },
    {
        let labels = Labels {
            version: self.version,
            group_ua,
            group_ru,
            desc_ua,
            desc_ru,
            category_ua,
            category_ru,
            url_ua,
            url_ru,
            class_ua,
            class_ru,
        };
        let p = match self.product.remove(&product_id) {
            Some(p) => Product { measures: p.measures, labels, identity: p.identity },
            None => Product { measures: Measures::blank(), labels, identity: Identity::blank() },
        };
        self.product.insert(product_id, p);
    }

    /// Sets the identifying projection of a product and stamps it; the other
    /// projections of a product not yet known are blank. A code that the
    /// index does not hold yet is entered for this product.
    pub fn update_str(
        &mut self,
        product_id: u32,
        code: String,
        bg: String,
        ean: String,
        seller: String,
        article: String,
        vendor: String,
        model: String,
        ua: String,
        ru: String,
        uktved: String,
        exclusive: String,
    )
        ensures
            final(self).version == old(self).version,
            final(self).code@ == if old(self).code@.contains_key(code@) {
                old(self).code@
            } else {
                old(self).code@.insert(code@, product_id)
            },
            entry_set(old(self).product@, final(self).product@, product_id),
            final(self).product@[product_id].identity == (Identity {
                version: old(self).version,
                code,
                bg,
                ean,
                seller,
                article,
                vendor,
                model,
                ua,
                ru,
                uktved,
                exclusive,
            }),
            old(self).product@.contains_key(product_id) ==> {
                &&& final(self).product@[product_id].measures
                    == old(self).product@[product_id].measures
                &&& final(self).product@[product_id].labels == old(self).product@[product_id].labels
            },
            !old(self).product@.contains_key(product_id) ==> {
                &&& final(self).product@[product_id].measures.is_blank()
                &&& final(self).product@[product_id].labels.is_blank()
            },
    {
        if !self.code.contains_key(code.as_str()) {
            self.code.insert(code.clone(), product_id);
        }
        let identity = Identity {
            version: self.version,
            code,
            bg,
            ean,
            seller,
            article,
            vendor,
            model,
            ua,
            ru,
            uktved,
            exclusive,
        };
        let p = match self.product.remove(&product_id) {
            Some(p) => Product { measures: p.measures, labels: p.labels, identity },
            None => Product { measures: Measures::blank(), labels: Labels::blank(), identity },
        };
        self.product.insert(product_id, p);
    }

    /// Ends a pass: drops every product of which a projection was not
    /// touched.
    pub fn clear_old(&mut self)
        ensures
            final(self).version == old(self).version,
            final(self).code@ == old(self).code@,
            final(self).product@ == staying(old(self).product@, old(self).version),
            forall|k: u32| #[trigger]
                final(self).product@.contains_key(k) ==> final(self).product@[k].current(
                    final(self).version,
                ),
    {
        sweep_map(&mut self.product, self.version);
        assert(self.product@ =~= staying(old(self).product@, old(self).version));
    }
}

} // verus!
