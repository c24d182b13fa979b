//! Deriving the items of a price list: lock resolution, availability, the
//! rules for single merchants, bonus, delivery cost and the choice of
//! language.

use crate::data::{
    lock_key, make_lock_key, Auth, Bg, BonusGroup, Country, LockList, Locks, Product,
    ProductStock, Products, Stock, Store, Target, Targets, World,
};
use crate::sweep::{keys_of, seen};
use crate::decimal::Decimal;
use crate::param::{Lang, Param, PriceVolume};
use crate::text::{decimal_chars, decimal_text};
use std::collections::HashMap;
use vstd::prelude::*;
use vstd::std_specs::hash::*;
use vstd::string::*;

verus! {

broadcast use vstd::std_specs::hash::group_hash_axioms;

// ------------------------------------------------------------ locks

/// One of the eight keys by which a product can be locked is in the list.
/// An empty list locks nothing.
pub open spec fn locked(
    list: Map<u128, crate::data::Lock>,
    product_id: u32,
    vendor_id: u32,
    group_id: u32,
    class_id: u32,
) -> bool {
    ||| list.contains_key(lock_key(0, 0, 0, product_id))
    ||| list.contains_key(lock_key(vendor_id, 0, 0, 0))
    ||| list.contains_key(lock_key(0, group_id, 0, 0))
    ||| list.contains_key(lock_key(0, 0, class_id, 0))
    ||| list.contains_key(lock_key(vendor_id, group_id, 0, 0))
    ||| list.contains_key(lock_key(vendor_id, 0, class_id, 0))
    ||| list.contains_key(lock_key(0, group_id, class_id, 0))
    ||| list.contains_key(lock_key(vendor_id, group_id, class_id, 0))
}

fn has_lock(l: &LockList, vendor_id: u32, group_id: u32, class_id: u32, product_id: u32) -> (b:
    bool)
    ensures
        b == l.list@.contains_key(lock_key(vendor_id, group_id, class_id, product_id)),
{
    let key = make_lock_key(vendor_id, group_id, class_id, product_id);
    l.list.contains_key(&key)
}

/// Whether the list locks the product; the keys are tried from the product
/// itself to the most specific combination of vendor, group and class.
pub fn is_locked(l: &LockList, product_id: u32, vendor_id: u32, group_id: u32, class_id: u32) -> (b:
    bool)
    ensures
        b == locked(l.list@, product_id, vendor_id, group_id, class_id),
{
    if l.list.len() == 0 {
        assert(l.list@.dom() =~= Set::empty());
        false
    } else if has_lock(l, 0, 0, 0, product_id) {
        true
    } else if has_lock(l, vendor_id, 0, 0, 0) {
        true
    } else if has_lock(l, 0, group_id, 0, 0) {
        true
    } else if has_lock(l, 0, 0, class_id, 0) {
        true
    } else if has_lock(l, vendor_id, group_id, 0, 0) {
        true
    } else if has_lock(l, vendor_id, 0, class_id, 0) {
        true
    } else if has_lock(l, 0, group_id, class_id, 0) {
        true
    } else {
        has_lock(l, vendor_id, group_id, class_id, 0)
    }
}

// ------------------------------------------------------------ availability

/// Whether an item is in stock, how many pieces are at hand and in how many
/// days it arrives.
#[derive(Debug, Clone, Copy, PartialEq, Eq, Structural)]
pub struct Availability {
    pub stock: bool,
    pub available: u32,
    pub day: u32,
}

/// What the warehouse says of a product, before the merchant rules.
pub open spec fn warehouse_state(lock: bool, entry: Option<Stock>) -> Availability {
    if lock {
        Availability { stock: false, available: 0, day: 0 }
    } else {
        match entry {
            Some(st) => if st.available > 0 {
                Availability { stock: true, available: st.available, day: 0 }
            } else {
                Availability { stock: false, available: 0, day: st.day }
            },
            None => Availability { stock: false, available: 0, day: 0 },
        }
    }
}

/// The merchants for which a personal computer of the house brands that is
/// on its way counts as in stock.
pub open spec fn house_brand_merchant(company_id: u32, target_id: u32) -> bool {
    company_id == 12377 || company_id == 16304 || (company_id == 16813 && target_id == 29)
}

/// What is in stock by rule: three pieces at hand.
pub open spec fn forced() -> Availability {
    Availability { stock: true, available: 3, day: 0 }
}

/// The state of an item after the merchant rules, or `None` where a rule
/// drops the item. `fop` says that a seller of record is named; `house`
/// that the vendor is one of the house brands.
pub open spec fn ruled_state(
    company_id: u32,
    target_id: u32,
    pc_vinga: bool,
    volume: PriceVolume,
    category_id: u32,
    house: bool,
    fop: bool,
    lock: bool,
    start: Availability,
) -> Option<Availability> {
    if company_id == 13983 && fop {
        None
    } else {
        let a = if house_brand_merchant(company_id, target_id) && category_id == 1053 && house
            && !start.stock && start.day != 0 {
            forced()
        } else {
            start
        };
        if pc_vinga && !(category_id == 1053 && house) {
            None
        } else {
            let b = if pc_vinga {
                forced()
            } else {
                a
            };
            if company_id == 16304 && (fop || !b.stock) {
                None
            } else if !b.stock && (volume == PriceVolume::Local || volume == PriceVolume::FullUAH) {
                None
            } else if !b.stock && b.day == 0 && !lock {
                None
            } else {
                Some(b)
            }
        }
    }
}

/// Applies the merchant rules and the rules of the price-list variant.
pub fn rule_state(
    company_id: u32,
    target_id: u32,
    pc_vinga: bool,
    volume: PriceVolume,
    category_id: u32,
    house: bool,
    fop: bool,
    lock: bool,
    start: Availability,
) -> (r: Option<Availability>)
    ensures
        r == ruled_state(
            company_id,
            target_id,
            pc_vinga,
            volume,
            category_id,
            house,
            fop,
            lock,
            start,
        ),
{
    if company_id == 13983 && fop {
        return None;
    }
    let mut a = start;
    if company_id == 12377 || company_id == 16304 || (company_id == 16813 && target_id == 29) {
        if category_id == 1053 && house && !a.stock && a.day != 0 {
            a = Availability { stock: true, available: 3, day: 0 };
        }
    }
    if pc_vinga {
        if category_id != 1053 || !house {
            return None;
        }
        a = Availability { stock: true, available: 3, day: 0 };
    }
    if company_id == 16304 && (fop || !a.stock) {
        return None;
    }
    if !a.stock && (volume == PriceVolume::Local || volume == PriceVolume::FullUAH) {
        return None;
    }
    if !a.stock && a.day == 0 && !lock {
        return None;
    }
    Some(a)
}

/// Reads the state of a product from the warehouse.
pub fn warehouse(lock: bool, s: &ProductStock, product_id: u32) -> (a: Availability)
    ensures
        a == warehouse_state(
            lock,
            if s.product@.contains_key(product_id) {
                Some(s.product@[product_id])
            } else {
                None
            },
        ),
{
    if lock {
        return Availability { stock: false, available: 0, day: 0 };
    }
    match s.product.get(&product_id) {
        Some(st) => {
            if st.available > 0 {
                Availability { stock: true, available: st.available, day: 0 }
            } else {
                Availability { stock: false, available: 0, day: st.day }
            }
        },
        None => Availability { stock: false, available: 0, day: 0 },
    }
}

// ------------------------------------------------------------ delivery

/// The size bucket of a product: `overall` held to the range from zero to
/// three, so that what lies below is zero and what lies above is three.
pub open spec fn bucket(overall: i32) -> u32 {
    if overall < 0 {
        0
    } else if overall > 3 {
        3
    } else {
        overall as u32
    }
}

/// The postage rate of a bucket.
pub open spec fn postage(t: Target, bucket: u32) -> Decimal {
    if bucket == 0 {
        t.postage_compact
    } else if bucket == 1 {
        t.postage_middle
    } else if bucket == 2 {
        t.postage_big
    } else {
        t.postage_large
    }
}

/// The cost of delivering a product: the larger of its weight and of 250
/// times its volume, times the postage rate of its size bucket.
pub open spec fn delivery_cost(weight: Decimal, volume: Decimal, overall: i32, t: Target)
    -> Decimal {
    weight.spec_larger(Decimal { units: 2_500_000 }.spec_times(volume)).spec_times(
        postage(t, bucket(overall)),
    )
}

/// Computes the cost of delivering a product to a target.
pub fn cost_of_delivery(weight: Decimal, volume: Decimal, overall: i32, t: &Target) -> (c: Decimal)
    ensures
        c == delivery_cost(weight, volume, overall, *t),
{
    let b: u32 = if overall < 0 {
        0
    } else if overall > 3 {
        3
    } else {
        overall as u32
    };
    let rate = if b == 0 {
        t.postage_compact
    } else if b == 1 {
        t.postage_middle
    } else if b == 2 {
        t.postage_big
    } else {
        t.postage_large
    };
    let by_volume = Decimal::from_whole(250).times(volume);
    weight.larger(by_volume).times(rate)
}

// ------------------------------------------------------------ items

/// One line of a price list.
#[derive(Debug, Clone)]
pub struct PriceItem {
    pub id: u32,
    pub code: String,
    pub stock: String,
    pub available: String,
    pub day_delivery: String,
    pub bonus: Decimal,
    pub price_usd: Decimal,
    pub price_ind: u32,
    pub recommended_price: Decimal,
    pub retail_price: Decimal,
    pub internet_price: Decimal,
    pub cost_delivery: Decimal,
    pub category_id: u32,
    pub group: String,
    pub articul: String,
    pub vendor: String,
    pub model: String,
    pub name: String,
    pub description: String,
    pub category_name: String,
    pub ddp: String,
    pub warranty: u32,
    pub note: String,
    pub url: String,
    pub uktved: String,
    pub group_id: u32,
    pub class_id: u32,
    pub class_name: String,
    pub country: String,
    pub exclusive: String,
    pub lock: bool,
    pub ean: String,
    pub fop: String,
    pub price_uah: Decimal,
}

/// The text of a flag.
pub open spec fn flag(b: bool) -> Seq<char> {
    if b {
        "1"@
    } else {
        "0"@
    }
}

fn flag_string(b: bool) -> (s: String)
    ensures
        s@ == flag(b),
{
    if b {
        "1".to_owned()
    } else {
        "0".to_owned()
    }
}

/// The vendor is one of the house brands.
pub open spec fn house_brand(vendor: Seq<char>) -> bool {
    vendor == "Vinga"@ || vendor == "BRAIN"@
}

/// The address of a product's page.
pub open spec fn page_url(host: Seq<char>, slug: Seq<char>) -> Seq<char> {
    "https://"@ + host + "/"@ + slug + ".html"@
}

/// The name of the country `country_id` in a language, or nothing where the
/// country is not known.
pub open spec fn country_name(c: Map<u32, Country>, country_id: u32, lang: Lang) -> Seq<char> {
    if c.contains_key(country_id) {
        match lang {
            Lang::UA => c[country_id].ua@,
            Lang::RU => c[country_id].ru@,
        }
    } else {
        Seq::empty()
    }
}

/// The bonus of an item: that of the product where the company's bonus
/// groups name the product's group and the product is not locked.
pub open spec fn bonus_of(lock: bool, groups: Map<Seq<char>, u32>, p: Product) -> Decimal {
    if !lock && groups.contains_key(p.identity.bg@) {
        p.measures.bonus
    } else {
        Decimal { units: 0 }
    }
}

/// The texts of `item` are those of the product in the language `lang`.
pub open spec fn texts_match(
    item: PriceItem,
    p: Product,
    lang: Lang,
    host: Seq<char>,
    countries: Map<u32, Country>,
) -> bool {
    &&& item.code@ == p.identity.code@
    &&& item.articul@ == p.identity.article@
    &&& item.vendor@ == p.identity.vendor@
    &&& item.model@ == p.identity.model@
    &&& item.uktved@ == p.identity.uktved@
    &&& item.exclusive@ == p.identity.exclusive@
    &&& item.ean@ == p.identity.ean@
    &&& item.note@ == Seq::<char>::empty()
    &&& item.country@ == country_name(countries, p.measures.country_id, lang)
    &&& match lang {
        Lang::UA => {
            &&& item.group@ == p.labels.group_ua@
            &&& item.name@ == p.identity.ua@
            &&& item.description@ == p.labels.desc_ua@
            &&& item.category_name@ == p.labels.category_ua@
            &&& item.url@ == page_url(host, p.labels.url_ua@)
            &&& item.class_name@ == p.labels.class_ua@
        },
        Lang::RU => {
            &&& item.group@ == p.labels.group_ru@
            &&& item.name@ == p.identity.ru@
            &&& item.description@ == p.labels.desc_ru@
            &&& item.category_name@ == p.labels.category_ru@
            &&& item.url@ == page_url(host, p.labels.url_ru@)
            &&& item.class_name@ == p.labels.class_ru@
        },
    }
}

/// The numbers and flags of `item` are those derived from the product, the
/// lock, the state of the stock, the bonus groups and the target.
pub open spec fn numbers_match(
    item: PriceItem,
    product_id: u32,
    p: Product,
    lock: bool,
    state: Availability,
    groups: Map<Seq<char>, u32>,
    t: Target,
) -> bool {
    &&& item.id == product_id
    &&& item.lock == lock
    &&& item.stock@ == flag(state.stock)
    &&& item.available@ == decimal_chars(state.available as nat)
    &&& item.day_delivery@ == decimal_chars(state.day as nat)
    &&& item.bonus == bonus_of(lock, groups, p)
    &&& item.cost_delivery == delivery_cost(
        p.measures.weight,
        p.measures.volume,
        p.measures.overall,
        t,
    )
    &&& item.price_usd.units == 0
    &&& item.price_uah.units == 0
    &&& item.price_ind == 0
    &&& item.recommended_price.units == 0
    &&& item.retail_price.units == 0
    &&& item.internet_price.units == 0
    &&& item.category_id == p.measures.category_id
    &&& item.warranty == p.measures.warranty
    &&& item.group_id == p.measures.group_id
    &&& item.class_id == p.measures.class_id
    &&& item.ddp@ == flag(p.measures.ddp)
    &&& item.fop@ == flag(p.identity.seller@.len() > 0)
}

/// The entry of a product in a warehouse.
pub open spec fn stock_entry(s: Map<u32, Stock>, product_id: u32) -> Option<Stock> {
    if s.contains_key(product_id) {
        Some(s[product_id])
    } else {
        None
    }
}

/// The state in which a product is listed for a request, or `None` where it
/// is not listed.
pub open spec fn listed_state(
    product_id: u32,
    company_id: u32,
    pc_vinga: bool,
    volume: PriceVolume,
    p: Product,
    locks: Map<u128, crate::data::Lock>,
    stock: Map<u32, Stock>,
    target_id: u32,
) -> Option<Availability> {
    let lock = locked(
        locks,
        product_id,
        p.measures.vendor_id,
        p.measures.group_id,
        p.measures.class_id,
    );
    ruled_state(
        company_id,
        target_id,
        pc_vinga,
        volume,
        p.measures.category_id,
        house_brand(p.identity.vendor@),
        p.identity.seller@.len() > 0,
        lock,
        warehouse_state(lock, stock_entry(stock, product_id)),
    )
}

fn localized_country(c: &HashMap<u32, Country>, country_id: u32, lang: Lang) -> (s: String)
    ensures
        s@ == country_name(c@, country_id, lang),
{
    match c.get(&country_id) {
        Some(country) => match lang {
            Lang::UA => country.ua.clone(),
            Lang::RU => country.ru.clone(),
        },
        None => String::new(),
    }
}

fn make_url(host: &str, slug: &str) -> (s: String)
    ensures
        s@ == page_url(host@, slug@),
{
    let mut url = "https://".to_owned();
    url.append(host);
    url.append("/");
    url.append(slug);
    url.append(".html");
    url
}

impl PriceItem {
    /// Derives the line of a product for a request, or `None` where the
    /// product is not listed. `h` is the host of the product pages,
    /// `target_id` the target that serves the request.
    pub fn new(
        product_id: u32,
        param: &Param,
        p: &Product,
        l: &LockList,
        s: &ProductStock,
        b: &BonusGroup,
        t: &Target,
        h: &str,
        c: &HashMap<u32, Country>,
        target_id: u32,
    ) -> (r: Option<PriceItem>)
        ensures
            ({
                let state = listed_state(
                    product_id,
                    param.company_id,
                    param.pc_vinga,
                    param.volume,
                    *p,
                    l.list@,
                    s.product@,
                    target_id,
                );
                match r {
                    None => state.is_none(),
                    Some(item) => {
                        &&& state.is_some()
                        &&& numbers_match(
                            item,
                            product_id,
                            *p,
                            locked(
                                l.list@,
                                product_id,
                                p.measures.vendor_id,
                                p.measures.group_id,
                                p.measures.class_id,
                            ),
                            state.unwrap(),
                            b@.groups,
                            *t,
                        )
                        &&& texts_match(item, *p, param.lang, h@, c@)
                    },
                }
            }),
    {
        let fop = !p.identity.seller.as_str().is_empty();
        let lock = is_locked(
            l,
            product_id,
            p.measures.vendor_id,
            p.measures.group_id,
            p.measures.class_id,
        );
        let start = warehouse(lock, s, product_id);
        let vinga = "Vinga".to_owned();
        let brain = "BRAIN".to_owned();
        let house = p.identity.vendor == vinga || p.identity.vendor == brain;
        let state = match rule_state(
            param.company_id,
            target_id,
            param.pc_vinga,
            param.volume,
            p.measures.category_id,
            house,
            fop,
            lock,
            start,
        ) {
            Some(state) => state,
            None => return None,
        };
        let bonus = if !lock && b.contains(p.identity.bg.as_str()) {
            p.measures.bonus
        } else {
            Decimal::zero()
        };
        let cost_delivery = cost_of_delivery(
            p.measures.weight,
            p.measures.volume,
            p.measures.overall,
            t,
        );
        let country = localized_country(c, p.measures.country_id, param.lang);
        let labels = &p.labels;
        let identity = &p.identity;
        let (group, name, description, category_name, url, class_name) = match param.lang {
            Lang::UA => (
                labels.group_ua.clone(),
                identity.ua.clone(),
                labels.desc_ua.clone(),
                labels.category_ua.clone(),
                make_url(h, labels.url_ua.as_str()),
                labels.class_ua.clone(),
            ),
            Lang::RU => (
                labels.group_ru.clone(),
                identity.ru.clone(),
                labels.desc_ru.clone(),
                labels.category_ru.clone(),
                make_url(h, labels.url_ru.as_str()),
                labels.class_ru.clone(),
            ),
        };
        Some(
            PriceItem {
                id: product_id,
                code: identity.code.clone(),
                stock: flag_string(state.stock),
                available: decimal_text(state.available),
                day_delivery: decimal_text(state.day),
                bonus,
                price_usd: Decimal::zero(),
                price_ind: 0,
                recommended_price: Decimal::zero(),
                retail_price: Decimal::zero(),
                internet_price: Decimal::zero(),
                cost_delivery,
                category_id: p.measures.category_id,
                group,
                articul: identity.article.clone(),
                vendor: identity.vendor.clone(),
                model: identity.model.clone(),
                name,
                description,
                category_name,
                ddp: flag_string(p.measures.ddp),
                warranty: p.measures.warranty,
                note: String::new(),
                url,
                uktved: identity.uktved.clone(),
                group_id: p.measures.group_id,
                class_id: p.measures.class_id,
                class_name,
                country,
                exclusive: identity.exclusive.clone(),
                lock,
                ean: identity.ean.clone(),
                fop: flag_string(fop),
                price_uah: Decimal::zero(),
            },
        )
    }
}

// ------------------------------------------------------------ authorization

/// What a request may see: whether the user is of the corporate kind, its
/// retail and internet capabilities, and the price profile of its company.
#[derive(Debug, Clone, Copy, PartialEq, Eq, Structural)]
pub struct Access {
    pub corp: bool,
    pub rozn: bool,
    pub r3: bool,
    pub profile_id: u32,
}

/// The access of a user, or the code of the reason why it has none: 17 for
/// an unknown company, 18 for an unknown user, 19 for a company without a
/// price profile. A request marked `api` sees retail and internet prices.
pub open spec fn access_of(
    company: Map<u32, crate::data::CompanyView>,
    company_id: u32,
    user_id: u32,
    api: bool,
) -> Result<Access, u32> {
    if !company.contains_key(company_id) {
        Err(17)
    } else if !company[company_id].users.contains_key(user_id) {
        Err(18)
    } else {
        let u = company[company_id].users[user_id];
        if u.profiles_id == 0 {
            Err(19)
        } else {
            Ok(
                Access {
                    corp: u.corp,
                    rozn: u.rozn || api,
                    r3: u.r3 || api,
                    profile_id: u.profiles_id,
                },
            )
        }
    }
}

/// The target that serves a request: the list in hryvnias is always served
/// by target 29; no request may name target 0 (code 23).
pub open spec fn serving_target(target_id: u32, volume: PriceVolume) -> Result<u32, u32> {
    if target_id == 0 {
        Err(23)
    } else if volume == PriceVolume::FullUAH {
        Ok(29)
    } else {
        Ok(target_id)
    }
}

/// The host of the product pages for a user.
pub open spec fn host_of(corp: bool) -> Seq<char> {
    if corp {
        "corp.brain.com.ua"@
    } else {
        "opt.brain.com.ua"@
    }
}

/// The prices of one product as the price store gives them.
#[derive(Debug, Clone, Copy)]
pub struct PriceRow {
    pub product_id: u32,
    pub price_usd: Decimal,
    pub price_ind: u32,
    pub recommended_price: Decimal,
    pub retail_price: Decimal,
    pub internet_price: Decimal,
}

/// An item with the prices of a row. A locked item gets the recommended
/// price only. `nds_orig` rounds the price in dollars to six hundredths,
/// `nds` the price in hryvnias, which is the dollar price times `kurs`.
pub open spec fn priced(item: PriceItem, row: PriceRow, nds_orig: bool, nds: bool, kurs: Decimal)
    -> PriceItem {
    if item.lock {
        PriceItem { recommended_price: row.recommended_price, ..item }
    } else {
        PriceItem {
            price_usd: if nds_orig {
                row.price_usd.spec_round6()
            } else {
                row.price_usd
            },
            price_ind: row.price_ind,
            retail_price: row.retail_price,
            internet_price: row.internet_price,
            price_uah: if nds {
                row.price_usd.spec_times(kurs).spec_round6()
            } else {
                row.price_usd.spec_times(kurs)
            },
            recommended_price: row.recommended_price,
            ..item
        }
    }
}

/// An item with the prices of those rows that name it, in their order.
pub open spec fn priced_by(
    item: PriceItem,
    rows: Seq<PriceRow>,
    nds_orig: bool,
    nds: bool,
    kurs: Decimal,
) -> PriceItem
    decreases rows.len(),
{
    if rows.len() == 0 {
        item
    } else {
        let before = priced_by(item, rows.drop_last(), nds_orig, nds, kurs);
        if rows.last().product_id == item.id {
            priced(before, rows.last(), nds_orig, nds, kurs)
        } else {
            before
        }
    }
}

/// The items of one price list, in the order in which the file shows them,
/// and the place of each by its id.
pub struct Price {
    pub items: Vec<PriceItem>,
    pub index: HashMap<u32, usize>,
}

impl Price {
    /// The index names each item's place, and no two items share an id.
    pub open spec fn wf(&self) -> bool {
        &&& forall|i: int|
            0 <= i < self.items@.len() ==> self.index@.contains_key(#[trigger] self.items@[i].id)
                && self.index@[self.items@[i].id] == i
        &&& forall|k: u32| #[trigger]
            self.index@.contains_key(k) ==> self.index@[k] < self.items@.len()
                && self.items@[self.index@[k] as int].id == k
    }

    /// An empty list with room for `cap` items.
    pub fn new(cap: usize) -> (p: Price)
        ensures
            p.wf(),
            p.items@.len() == 0,
    {
        Price { items: Vec::with_capacity(cap), index: HashMap::with_capacity(cap) }
    }

    /// Looks a user up among the companies.
    pub fn check_auth(param: &Param, auth: &Auth) -> (r: Result<Access, u32>)
        ensures
            r == access_of(auth@.company, param.company_id, param.user_id, param.api),
    {
        match auth.company.get(&param.company_id) {
            Some(company) => match company.users.get(&param.user_id) {
                Some(user) => {
                    if user.profiles_id == 0 {
                        return Err(19);
                    }
                    Ok(
                        Access {
                            corp: user.corp,
                            rozn: user.rozn || param.api,
                            r3: user.r3 || param.api,
                            profile_id: user.profiles_id,
                        },
                    )
                },
                None => Err(18),
            },
            None => Err(17),
        }
    }

    /// The target that serves a request.
    pub fn target_of(param: &Param) -> (r: Result<u32, u32>)
        ensures
            r == serving_target(param.target_id, param.volume),
    {
        if param.target_id == 0 {
            Err(23)
        } else if param.volume == PriceVolume::FullUAH {
            Ok(29)
        } else {
            Ok(param.target_id)
        }
    }

    /// The host of the product pages for a user.
    pub fn host(corp: bool) -> (h: &'static str)
        ensures
            h@ == host_of(corp),
    {
        if corp {
            "corp.brain.com.ua"
        } else {
            "opt.brain.com.ua"
        }
    }

    /// Derives the items of a request from the products `keys`, in their
    /// order, and appends them to the list; returns the ids of the items. A
    /// key that names no product is passed over. The errors: 23 where the
    /// request names target 0, 25 for an unknown target, 26 for a target
    /// whose warehouse is unknown.
    pub fn collect_in(
        &mut self,
        keys: &Vec<u32>,
        param: &Param,
        corp: bool,
        products: &Products,
        locks: &Locks,
        targets: &Targets,
        store: &Store,
        bgs: &Bg,
        world: &World,
    ) -> (r: Result<Vec<u32>, u32>)
        requires
            old(self).wf(),
            old(self).items@.len() == 0,
            keys@.no_duplicates(),
        ensures
            final(self).wf(),
            match r {
                Err(code) => {
                    &&& final(self).items@.len() == 0
                    &&& match serving_target(param.target_id, param.volume) {
                        Err(c) => code == c,
                        Ok(t) => if !targets.target@.contains_key(t) {
                            code == 25
                        } else {
                            code == 26 && !store.stock@.contains_key(targets.target@[t].stock_id)
                        },
                    }
                },
                Ok(ids) => {
                    &&& serving_target(param.target_id, param.volume) is Ok
                    &&& targets.target@.contains_key(
                        serving_target(param.target_id, param.volume)->Ok_0,
                    )
                    &&& store.stock@.contains_key(
                        targets.target@[serving_target(
                            param.target_id,
                            param.volume,
                        )->Ok_0].stock_id,
                    )
                    &&& ids@ == listed(keys@, param, products, locks, targets, store)
                    &&& ids@.len() == final(self).items@.len()
                    &&& forall|i: int|
                        0 <= i < ids@.len() ==> #[trigger] ids@[i] == final(self).items@[i].id
                    &&& forall|k: u32| #[trigger]
                        final(self).index@.contains_key(k) <==> keys@.contains(k)
                            && products.product@.contains_key(k) && listing(
                            param,
                            k,
                            products.product@[k],
                            locks,
                            targets,
                            store,
                        ).is_some()
                    &&& forall|i: int|
                        0 <= i < ids@.len() ==> #[trigger] derived(
                            final(self).items@[i],
                            param,
                            corp,
                            products.product@[ids@[i]],
                            locks,
                            targets,
                            store,
                            bgs,
                            world,
                        )
                },
            },
    {
        let target_id = match Price::target_of(param) {
            Ok(t) => t,
            Err(code) => return Err(code),
        };
        let target = match targets.target.get(&target_id) {
            Some(t) => *t,
            None => return Err(25),
        };
        let stock = match store.stock.get(&target.stock_id) {
            Some(s) => s,
            None => return Err(26),
        };
        let no_locks = LockList::new(0);
        let lock = match locks.lock.get(&param.company_id) {
            Some(l) => l,
            None => &no_locks,
        };
        let no_groups = BonusGroup::new(0);
        let bg = match bgs.bg.get(&param.company_id) {
            Some(b) => b,
            None => &no_groups,
        };
        let hostname = Price::host(corp);
        let mut ids: Vec<u32> = Vec::new();
        let mut i: usize = 0;
        assert(keys@.take(0) =~= Seq::<u32>::empty());
        while i < keys.len()
            invariant
                i <= keys@.len(),
                keys@.no_duplicates(),
                ids@ == listed(keys@.take(i as int), param, products, locks, targets, store),
                self.wf(),
                serving_target(param.target_id, param.volume) == Ok::<u32, u32>(target_id),
                targets.target@.contains_key(target_id),
                target == targets.target@[target_id],
                store.stock@.contains_key(target.stock_id),
                *stock == store.stock@[target.stock_id],
                lock@ == lists_of(locks, param.company_id),
                bg@ == groups_of(bgs, param.company_id),
                hostname@ == host_of(corp),
                ids@.len() == self.items@.len(),
                forall|j: int| 0 <= j < ids@.len() ==> #[trigger] ids@[j] == self.items@[j].id,
                forall|k: u32| #[trigger]
                    self.index@.contains_key(k) <==> seen(keys@, i as int, k)
                        && products.product@.contains_key(k) && listing(
                        param,
                        k,
                        products.product@[k],
                        locks,
                        targets,
                        store,
                    ).is_some(),
                forall|j: int|
                    0 <= j < ids@.len() ==> #[trigger] derived(
                        self.items@[j],
                        param,
                        corp,
                        products.product@[ids@[j]],
                        locks,
                        targets,
                        store,
                        bgs,
                        world,
                    ),
            decreases keys@.len() - i,
        {
            let key = keys[i];
            proof {
                assert(keys@.take(i + 1).drop_last() =~= keys@.take(i as int));
                assert(keys@.take(i + 1).last() == key);
            }
            assert(keys@.contains(key));
            assert(!seen(keys@, i as int, key)) by {
                if seen(keys@, i as int, key) {
                    let j = choose|j: int| 0 <= j < i && j < keys@.len() && keys@[j] == key;
                    assert(keys@[j] == keys@[i as int]);
                }
            }
            let ghost old_index = self.index@;
            let ghost old_items = self.items@;
            let ghost old_ids = ids@;
            match products.product.get(&key) {
                Some(p) => {
                    let made = PriceItem::new(
                        key,
                        param,
                        p,
                        lock,
                        stock,
                        bg,
                        &target,
                        hostname,
                        &world.countries,
                        target_id,
                    );
                    if let Some(item) = made {
                        let at = self.items.len();
                        self.items.push(item);
                        self.index.insert(key, at);
                        ids.push(key);
                        proof {
                            assert forall|j: int| 0 <= j < ids@.len() implies #[trigger] derived(
                                self.items@[j],
                                param,
                                corp,
                                products.product@[ids@[j]],
                                locks,
                                targets,
                                store,
                                bgs,
                                world,
                            ) by {
                                if j < old_ids.len() {
                                    assert(self.items@[j] == old_items[j]);
                                    assert(ids@[j] == old_ids[j]);
                                }
                            }
                            assert forall|j: int| 0 <= j < self.items@.len() implies
                                self.index@.contains_key(#[trigger] self.items@[j].id)
                                && self.index@[self.items@[j].id] == j by {
                                if j < old_items.len() {
                                    assert(self.items@[j] == old_items[j]);
                                    assert(old_index.contains_key(old_items[j].id));
                                }
                            }
                        }
                    }
                },
                None => {},
            }
            proof {
                assert(seen(keys@, i + 1, key));
                assert forall|k: u32| k != key implies (seen(keys@, i + 1, k) <==> seen(
                    keys@,
                    i as int,
                    k,
                )) by {
                    if seen(keys@, i + 1, k) {
                        let j = choose|j: int| 0 <= j < i + 1 && j < keys@.len() && keys@[j] == k;
                        assert(j < i);
                    }
                }
            }
            i += 1;
        }
        proof {
            assert(keys@.take(keys@.len() as int) =~= keys@);
            assert forall|k: u32| keys@.contains(k) implies seen(keys@, i as int, k) by {
                let j = choose|j: int| 0 <= j < keys@.len() && keys@[j] == k;
                assert(keys@[j] == k);
            }
            assert forall|k: u32| seen(keys@, i as int, k) implies keys@.contains(k) by {
                let j = choose|j: int| 0 <= j < i && j < keys@.len() && keys@[j] == k;
                assert(keys@.contains(keys@[j]));
            }
        }
        Ok(ids)
    }

    /// Derives the items of a request from all products of the catalog, each
    /// once, in the order in which the catalog hands them out, and appends
    /// them to the list; returns the ids of the items. The errors are those
    /// of `collect_in`.
    pub fn collect(
        &mut self,
        param: &Param,
        corp: bool,
        products: &Products,
        locks: &Locks,
        targets: &Targets,
        store: &Store,
        bgs: &Bg,
        world: &World,
    ) -> (r: Result<Vec<u32>, u32>)
        requires
            old(self).wf(),
            old(self).items@.len() == 0,
        ensures
            final(self).wf(),
            match r {
                Err(code) => {
                    &&& final(self).items@.len() == 0
                    &&& match serving_target(param.target_id, param.volume) {
                        Err(c) => code == c,
                        Ok(t) => if !targets.target@.contains_key(t) {
                            code == 25
                        } else {
                            code == 26 && !store.stock@.contains_key(targets.target@[t].stock_id)
                        },
                    }
                },
                Ok(ids) => {
                    &&& serving_target(param.target_id, param.volume) is Ok
                    &&& targets.target@.contains_key(
                        serving_target(param.target_id, param.volume)->Ok_0,
                    )
                    &&& store.stock@.contains_key(
                        targets.target@[serving_target(
                            param.target_id,
                            param.volume,
                        )->Ok_0].stock_id,
                    )
                    &&& exists|keys: Seq<u32>|
                        {
                            &&& keys.no_duplicates()
                            &&& forall|k: u32|
                                keys.contains(k) <==> products.product@.contains_key(k)
                            &&& ids@ == listed(keys, param, products, locks, targets, store)
                        }
                    &&& ids@.len() == final(self).items@.len()
                    &&& forall|i: int|
                        0 <= i < ids@.len() ==> #[trigger] ids@[i] == final(self).items@[i].id
                    &&& forall|k: u32| #[trigger]
                        final(self).index@.contains_key(k) <==> products.product@.contains_key(k)
                            && listing(
                            param,
                            k,
                            products.product@[k],
                            locks,
                            targets,
                            store,
                        ).is_some()
                    &&& forall|i: int|
                        0 <= i < ids@.len() ==> #[trigger] derived(
                            final(self).items@[i],
                            param,
                            corp,
                            products.product@[ids@[i]],
                            locks,
                            targets,
                            store,
                            bgs,
                            world,
                        )
                },
            },
    {
        let keys = keys_of(&products.product);
        self.collect_in(&keys, param, corp, products, locks, targets, store, bgs, world)
    }

    /// Enters the prices of the rows into the items that they name. A row
    /// that names no item is passed over.
    pub fn apply(&mut self, rows: &Vec<PriceRow>, nds_orig: bool, nds: bool, kurs: Decimal)
        requires
            old(self).wf(),
        ensures
            final(self).wf(),
            final(self).index@ == old(self).index@,
            final(self).items@.len() == old(self).items@.len(),
            forall|i: int|
                0 <= i < old(self).items@.len() ==> #[trigger] final(self).items@[i] == priced_by(
                    old(self).items@[i],
                    rows@,
                    nds_orig,
                    nds,
                    kurs,
                ),
    {
        let mut k: usize = 0;
        assert(rows@.take(0) =~= Seq::<PriceRow>::empty());
        while k < rows.len()
            invariant
                k <= rows@.len(),
                self.wf(),
                self.index@ == old(self).index@,
                self.items@.len() == old(self).items@.len(),
                forall|i: int|
                    0 <= i < old(self).items@.len() ==> (#[trigger] self.items@[i]).id == old(
                        self,
                    ).items@[i].id,
                forall|i: int|
                    0 <= i < old(self).items@.len() ==> #[trigger] self.items@[i] == priced_by(
                        old(self).items@[i],
                        rows@.take(k as int),
                        nds_orig,
                        nds,
                        kurs,
                    ),
            decreases rows@.len() - k,
        {
            let row = rows[k];
            proof {
                assert(rows@.take(k + 1).drop_last() =~= rows@.take(k as int));
                assert(rows@.take(k + 1).last() == row);
            }
            let ghost before = self.items@;
            let found = match self.index.get(&row.product_id) {
                Some(at) => Some(*at),
                None => None,
            };
            match found {
                Some(at) => {
                    let usd = if nds_orig {
                        row.price_usd.round6()
                    } else {
                        row.price_usd
                    };
                    let uah = if nds {
                        row.price_usd.times(kurs).round6()
                    } else {
                        row.price_usd.times(kurs)
                    };
                    let mut item = PriceItem::blank();
                    core::mem::swap(&mut item, &mut self.items[at]);
                    if !item.lock {
                        item.price_usd = usd;
                        item.price_ind = row.price_ind;
                        item.retail_price = row.retail_price;
                        item.internet_price = row.internet_price;
                        item.price_uah = uah;
                    }
                    item.recommended_price = row.recommended_price;
                    self.items.set(at, item);
                    proof {
                        assert(self.items@[at as int] == priced(
                            before[at as int],
                            row,
                            nds_orig,
                            nds,
                            kurs,
                        ));
                        assert forall|i: int| 0 <= i < self.items@.len() && i != at implies
                            self.items@[i] == before[i] && before[i].id != row.product_id by {
                            assert(self.index@.contains_key(before[i].id));
                        }
                    }
                },
                None => {
                    proof {
                        assert forall|i: int| 0 <= i < self.items@.len() implies before[i].id
                            != row.product_id by {
                            assert(self.index@.contains_key(before[i].id));
                        }
                    }
                },
            }
            k += 1;
        }
        assert(rows@.take(rows@.len() as int) =~= rows@);
    }
}

impl PriceItem {
    /// The item names no product and holds nothing.
    pub open spec fn is_blank(&self) -> bool {
        &&& self.id == 0
        &&& !self.lock
        &&& self.price_ind == 0
        &&& self.category_id == 0
        &&& self.warranty == 0
        &&& self.group_id == 0
        &&& self.class_id == 0
        &&& self.bonus.units == 0
        &&& self.price_usd.units == 0
        &&& self.price_uah.units == 0
        &&& self.recommended_price.units == 0
        &&& self.retail_price.units == 0
        &&& self.internet_price.units == 0
        &&& self.cost_delivery.units == 0
        &&& self.code@.len() == 0
        &&& self.stock@.len() == 0
        &&& self.available@.len() == 0
        &&& self.day_delivery@.len() == 0
        &&& self.group@.len() == 0
        &&& self.articul@.len() == 0
        &&& self.vendor@.len() == 0
        &&& self.model@.len() == 0
        &&& self.name@.len() == 0
        &&& self.description@.len() == 0
        &&& self.category_name@.len() == 0
        &&& self.ddp@.len() == 0
        &&& self.note@.len() == 0
        &&& self.url@.len() == 0
        &&& self.uktved@.len() == 0
        &&& self.class_name@.len() == 0
        &&& self.country@.len() == 0
        &&& self.exclusive@.len() == 0
        &&& self.ean@.len() == 0
        &&& self.fop@.len() == 0
    }

    /// An item that names no product and holds nothing.
    pub fn blank() -> (item: PriceItem)
        ensures
            item.is_blank(),
    {
        PriceItem {
            id: 0,
            code: String::new(),
            stock: String::new(),
            available: String::new(),
            day_delivery: String::new(),
            bonus: Decimal::zero(),
            price_usd: Decimal::zero(),
            price_ind: 0,
            recommended_price: Decimal::zero(),
            retail_price: Decimal::zero(),
            internet_price: Decimal::zero(),
            cost_delivery: Decimal::zero(),
            category_id: 0,
            group: String::new(),
            articul: String::new(),
            vendor: String::new(),
            model: String::new(),
            name: String::new(),
            description: String::new(),
            category_name: String::new(),
            ddp: String::new(),
            warranty: 0,
            note: String::new(),
            url: String::new(),
            uktved: String::new(),
            group_id: 0,
            class_id: 0,
            class_name: String::new(),
            country: String::new(),
            exclusive: String::new(),
            lock: false,
            ean: String::new(),
            fop: String::new(),
            price_uah: Decimal::zero(),
        }
    }
}

/// The locks of a company; a company without a list has none.
pub open spec fn lists_of(locks: &Locks, company_id: u32) -> crate::data::LockListView {
    if locks.lock@.contains_key(company_id) {
        locks.lock@[company_id]@
    } else {
        crate::data::LockListView::empty()
    }
}

/// The bonus groups of a company; a company without groups has none.
pub open spec fn groups_of(bgs: &Bg, company_id: u32) -> crate::data::BonusGroupView {
    if bgs.bg@.contains_key(company_id) {
        bgs.bg@[company_id]@
    } else {
        crate::data::BonusGroupView::empty()
    }
}

/// The state in which the product `k` is listed for a request whose target
/// and warehouse are known, or `None` where it is not listed.
pub open spec fn listing(
    param: &Param,
    k: u32,
    p: Product,
    locks: &Locks,
    targets: &Targets,
    store: &Store,
) -> Option<Availability> {
    let target_id = serving_target(param.target_id, param.volume)->Ok_0;
    listed_state(
        k,
        param.company_id,
        param.pc_vinga,
        param.volume,
        p,
        lists_of(locks, param.company_id).list,
        store.stock@[targets.target@[target_id].stock_id].product@,
        target_id,
    )
}

/// The products among `keys` that are listed for a request whose target
/// and warehouse are known, in the order of `keys`.
pub open spec fn listed(
    keys: Seq<u32>,
    param: &Param,
    products: &Products,
    locks: &Locks,
    targets: &Targets,
    store: &Store,
) -> Seq<u32>
    decreases keys.len(),
{
    if keys.len() == 0 {
        Seq::empty()
    } else {
        let before = listed(keys.drop_last(), param, products, locks, targets, store);
        if products.product@.contains_key(keys.last()) && listing(
            param,
            keys.last(),
            products.product@[keys.last()],
            locks,
            targets,
            store,
        ).is_some() {
            before.push(keys.last())
        } else {
            before
        }
    }
}

/// Among keys of which none occurs twice, no product is listed twice, and a
/// product is listed exactly where it is among the keys, is in the catalog
/// and is listed for the request. So a file has one entry for each such
/// product and none for a product that was dropped.
pub proof fn lemma_listed_once(
    keys: Seq<u32>,
    param: &Param,
    products: &Products,
    locks: &Locks,
    targets: &Targets,
    store: &Store,
)
    requires
        keys.no_duplicates(),
    ensures
        listed(keys, param, products, locks, targets, store).no_duplicates(),
        forall|k: u32|
            #[trigger] listed(keys, param, products, locks, targets, store).contains(k) <==> {
                &&& keys.contains(k)
                &&& products.product@.contains_key(k)
                &&& listing(param, k, products.product@[k], locks, targets, store).is_some()
            },
    decreases keys.len(),
{
    let all = listed(keys, param, products, locks, targets, store);
    if keys.len() > 0 {
        let init = keys.drop_last();
        let last = keys.last();
        let before = listed(init, param, products, locks, targets, store);
        assert(init.no_duplicates()) by {
            assert forall|i: int, j: int| 0 <= i < init.len() && 0 <= j < init.len() && i != j
                implies init[i] != init[j] by {
                assert(init[i] == keys[i] && init[j] == keys[j]);
            }
        }
        lemma_listed_once(init, param, products, locks, targets, store);
        assert(!init.contains(last)) by {
            if init.contains(last) {
                let i = choose|i: int| 0 <= i < init.len() && init[i] == last;
                assert(keys[i] == keys[keys.len() - 1]);
            }
        }
        assert(!before.contains(last));
        let takes = products.product@.contains_key(last) && listing(
            param,
            last,
            products.product@[last],
            locks,
            targets,
            store,
        ).is_some();
        assert forall|k: u32| keys.contains(k) <==> init.contains(k) || k == last by {
            if keys.contains(k) {
                let i = choose|i: int| 0 <= i < keys.len() && keys[i] == k;
                if i < keys.len() - 1 {
                    assert(init[i] == k);
                }
            }
            if init.contains(k) {
                let i = choose|i: int| 0 <= i < init.len() && init[i] == k;
                assert(keys[i] == k);
            }
            if k == last {
                assert(keys[keys.len() - 1] == k);
            }
        }
        if takes {
            assert(all == before.push(last));
            assert forall|k: u32| all.contains(k) <==> before.contains(k) || k == last by {
                if all.contains(k) {
                    let i = choose|i: int| 0 <= i < all.len() && all[i] == k;
                    if i < before.len() {
                        assert(before[i] == k);
                    }
                }
                if before.contains(k) {
                    let i = choose|i: int| 0 <= i < before.len() && before[i] == k;
                    assert(all[i] == k);
                }
                if k == last {
                    assert(all[all.len() - 1] == k);
                }
            }
            assert forall|i: int, j: int| 0 <= i < all.len() && 0 <= j < all.len() && i != j
                implies all[i] != all[j] by {
                if i < before.len() && j < before.len() {
                    assert(before[i] != before[j]);
                } else if i < before.len() {
                    assert(before.contains(before[i]));
                } else {
                    assert(before.contains(before[j]));
                }
            }
        } else {
            assert(all == before);
        }
    } else {
        assert(all =~= Seq::<u32>::empty());
    }
}

/// `item` is the line of the product `p` for a request whose target and
/// warehouse are known.
pub open spec fn derived(
    item: PriceItem,
    param: &Param,
    corp: bool,
    p: Product,
    locks: &Locks,
    targets: &Targets,
    store: &Store,
    bgs: &Bg,
    world: &World,
) -> bool {
    let target_id = serving_target(param.target_id, param.volume)->Ok_0;
    let state = listing(param, item.id, p, locks, targets, store);
    &&& state.is_some()
    &&& numbers_match(
        item,
        item.id,
        p,
        locked(
            lists_of(locks, param.company_id).list,
            item.id,
            p.measures.vendor_id,
            p.measures.group_id,
            p.measures.class_id,
        ),
        state.unwrap(),
        groups_of(bgs, param.company_id).groups,
        targets.target@[target_id],
    )
    &&& texts_match(item, p, param.lang, host_of(corp), world.countries@)
}

} // verus!
