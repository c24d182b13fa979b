use brain_b2b::cache::{AuthRow, BgRow, Cache, IdentityRow, LabelsRow, LockRow, MeasuresRow, StockRow, TargetRow};
use brain_b2b::data::{Auth, Bg, BonusGroup, Country, LockList, Locks, Product, ProductStock, Products, Store, Target, Targets, World};
use brain_b2b::decimal::Decimal;
use brain_b2b::format_json::FormatJSON;
use brain_b2b::log::Log;
use brain_b2b::param::{Format, Lang, Param, PriceVolume};
use brain_b2b::price::{cost_of_delivery, is_locked, rule_state, warehouse, Access, Availability, Price, PriceItem, PriceRow};

fn param(company_id: u32, target_id: u32, volume: PriceVolume) -> Param {
    Param {
        user_id: 1,
        company_id,
        target_id,
        format_str: "json".to_string(),
        format: Format::JSON,
        lang: Lang::UA,
        lang_str: "ua".to_string(),
        pc_vinga: false,
        pc_vinga_str: "0".to_string(),
        volume,
        volume_str: "1".to_string(),
        uah: false,
        nds_orig: false,
        nds: false,
        round: false,
        ean: false,
        api: false,
    }
}

fn product(vendor: &str, category_id: u32, seller: &str) -> Product {
    Product::new(
        1, 1, 1,
        "AB1".to_string(), "назва".to_string(), "название".to_string(),
        "група".to_string(), "группа".to_string(), "опис".to_string(), "описание".to_string(),
        "кат".to_string(), "катр".to_string(), "slug-ua".to_string(), "slug-ru".to_string(),
        "клас".to_string(), "класс".to_string(),
        "BG1".to_string(), "482".to_string(), seller.to_string(), "art".to_string(),
        vendor.to_string(), "m1".to_string(), "8471".to_string(), 12,
        Decimal::from_units(15000), 4, 5, 6,
        Decimal::from_units(20000), Decimal::from_units(100), 1, category_id, true, 8,
        "0".to_string(),
    )
}

fn target() -> Target {
    Target::new(
        1, true, 5,
        Decimal::from_units(10000), Decimal::from_units(15000),
        Decimal::from_units(20000), Decimal::from_units(30000),
    )
}

fn stock_with(product_id: u32, available: u32, day: u32) -> ProductStock {
    let mut s = ProductStock::new(4);
    s.update_available(1, product_id, available);
    s.update_day(1, product_id, day);
    s
}

#[test]
fn lock_probe_tries_the_eight_keys() {
    let keys = [
        (0, 0, 0, 77),
        (4, 0, 0, 0),
        (0, 5, 0, 0),
        (0, 0, 6, 0),
        (4, 5, 0, 0),
        (4, 0, 6, 0),
        (0, 5, 6, 0),
        (4, 5, 6, 0),
    ];
    for (v, g, c, p) in keys {
        let mut l = LockList::new(1);
        l.update(1, v, g, c, p);
        assert!(is_locked(&l, 77, 4, 5, 6), "{:?}", (v, g, c, p));
    }
    let others = [(4, 0, 0, 77), (0, 0, 0, 78), (5, 0, 0, 0), (4, 5, 6, 77), (0, 4, 0, 0), (0, 0, 0, 0)];
    for (v, g, c, p) in others {
        let mut l = LockList::new(1);
        l.update(1, v, g, c, p);
        assert!(!is_locked(&l, 77, 4, 5, 6), "{:?}", (v, g, c, p));
    }
    assert!(!is_locked(&LockList::new(0), 77, 4, 5, 6));
    let mut l = LockList::new(1);
    l.update(1, 9, 9, 9, 0);
    l.update(1, 0, 5, 6, 0);
    assert!(is_locked(&l, 77, 4, 5, 6));
}

#[test]
fn delivery_cost_is_the_larger_measure_times_the_postage() {
    let t = target();
    let units = |w: u64, v: u64, overall: i32| {
        cost_of_delivery(Decimal::from_units(w), Decimal::from_units(v), overall, &t).units
    };
    assert_eq!(units(20000, 100, 1), 37500);
    assert_eq!(units(30000, 100, 1), 45000);
    assert_eq!(units(20000, 100, 0), 25000);
    assert_eq!(units(20000, 100, 2), 50000);
    assert_eq!(units(20000, 100, 3), 75000);
    assert_eq!(units(20000, 100, 4), 75000);
    assert_eq!(units(20000, 100, -1), 25000);
    assert_eq!(units(20000, 100, i32::MIN), 25000);
    assert_eq!(units(20000, 100, i32::MAX), 75000);
    assert_eq!(units(100000, 0, -1), 100000);
    assert_eq!(units(20000, 80, 0), 20000);
    assert_eq!(units(0, 0, 0), 0);
}

#[test]
fn availability_follows_the_warehouse() {
    let s = stock_with(7, 4, 2);
    assert_eq!(warehouse(false, &s, 7), Availability { stock: true, available: 4, day: 0 });
    assert_eq!(warehouse(true, &s, 7), Availability { stock: false, available: 0, day: 0 });
    assert_eq!(warehouse(false, &s, 8), Availability { stock: false, available: 0, day: 0 });
    let s = stock_with(7, 0, 5);
    assert_eq!(warehouse(false, &s, 7), Availability { stock: false, available: 0, day: 5 });
}

#[test]
fn merchant_rules() {
    let waiting = Availability { stock: false, available: 0, day: 7 };
    let at_hand = Availability { stock: true, available: 2, day: 0 };
    let nothing = Availability { stock: false, available: 0, day: 0 };
    let forced = Some(Availability { stock: true, available: 3, day: 0 });
    let full = PriceVolume::Full;
    assert_eq!(rule_state(13983, 10, false, full, 1, false, true, false, at_hand), None);
    assert_eq!(rule_state(13983, 10, false, full, 1, false, false, false, at_hand), Some(at_hand));
    assert_eq!(rule_state(12377, 10, false, full, 1053, true, false, false, waiting), forced);
    assert_eq!(rule_state(16304, 10, false, full, 1053, true, false, false, waiting), forced);
    assert_eq!(rule_state(16813, 29, false, full, 1053, true, false, false, waiting), forced);
    assert_eq!(rule_state(16813, 10, false, full, 1053, true, false, false, waiting), Some(waiting));
    assert_eq!(rule_state(12377, 10, false, full, 1052, true, false, false, waiting), Some(waiting));
    assert_eq!(rule_state(12377, 10, false, full, 1053, false, false, false, waiting), Some(waiting));
    assert_eq!(rule_state(12377, 10, false, full, 1053, true, false, true, nothing), Some(nothing));
    assert_eq!(rule_state(12377, 10, false, full, 1053, true, false, false, nothing), None);
    assert_eq!(rule_state(1, 10, true, full, 1053, true, false, false, nothing), forced);
    assert_eq!(rule_state(1, 10, true, full, 1053, false, false, false, at_hand), None);
    assert_eq!(rule_state(1, 10, true, full, 7, true, false, false, at_hand), None);
    assert_eq!(rule_state(16304, 10, false, full, 1, false, true, false, at_hand), None);
    assert_eq!(rule_state(16304, 10, false, full, 1, false, false, false, waiting), None);
    assert_eq!(rule_state(16304, 10, false, full, 1, false, false, false, at_hand), Some(at_hand));
    assert_eq!(rule_state(1, 10, false, PriceVolume::Local, 1, false, false, false, waiting), None);
    assert_eq!(rule_state(1, 10, false, PriceVolume::FullUAH, 1, false, false, false, waiting), None);
    assert_eq!(rule_state(1, 10, false, PriceVolume::Short, 1, false, false, false, waiting), Some(waiting));
    assert_eq!(rule_state(1, 10, false, full, 1, false, false, false, nothing), None);
    assert_eq!(rule_state(1, 10, false, full, 1, false, false, true, nothing), Some(nothing));
    assert_eq!(rule_state(1, 10, false, PriceVolume::Local, 1, false, false, true, nothing), None);
}

#[test]
fn fresh_local_xlsx() {
    let p = product("BRAIN", 1053, "");
    let mut bg = BonusGroup::new(1);
    bg.update(1, "BG1".to_string());
    let mut countries = std::collections::HashMap::new();
    countries.insert(8, Country::new("Україна".to_string(), "Украина".to_string()));
    let item = PriceItem::new(
        7,
        &param(12377, 10, PriceVolume::Full),
        &p,
        &LockList::new(0),
        &stock_with(7, 0, 7),
        &bg,
        &target(),
        "corp.brain.com.ua",
        &countries,
        10,
    )
    .unwrap();
    assert_eq!((item.stock.as_str(), item.available.as_str(), item.day_delivery.as_str()), ("1", "3", "0"));
    assert_eq!(item.id, 7);
    assert_eq!(item.code, "AB1");
    assert_eq!(item.name, "назва");
    assert_eq!(item.group, "група");
    assert_eq!(item.description, "опис");
    assert_eq!(item.category_name, "кат");
    assert_eq!(item.class_name, "клас");
    assert_eq!(item.country, "Україна");
    assert_eq!(item.url, "https://corp.brain.com.ua/slug-ua.html");
    assert_eq!(item.bonus.units, 15000);
    assert_eq!(item.cost_delivery.units, 37500);
    assert_eq!((item.ddp.as_str(), item.fop.as_str(), item.lock), ("1", "0", false));
    assert_eq!((item.category_id, item.warranty, item.group_id, item.class_id), (1053, 12, 5, 6));
    assert_eq!((item.vendor.as_str(), item.model.as_str(), item.articul.as_str()), ("BRAIN", "m1", "art"));
    assert_eq!((item.uktved.as_str(), item.ean.as_str(), item.exclusive.as_str(), item.note.as_str()), ("8471", "482", "0", ""));
    assert_eq!(item.price_usd.units, 0);
}

#[test]
fn the_language_chooses_the_texts() {
    let p = product("Acme", 5, "FOP");
    let mut q = param(1, 10, PriceVolume::Full);
    q.lang = Lang::RU;
    let countries = std::collections::HashMap::new();
    let item = PriceItem::new(
        7, &q, &p, &LockList::new(0), &stock_with(7, 4, 2), &BonusGroup::new(0), &target(),
        "opt.brain.com.ua", &countries, 10,
    )
    .unwrap();
    assert_eq!(item.name, "название");
    assert_eq!(item.group, "группа");
    assert_eq!(item.url, "https://opt.brain.com.ua/slug-ru.html");
    assert_eq!(item.country, "");
    assert_eq!(item.fop, "1");
    assert_eq!(item.bonus.units, 0);
    assert_eq!((item.stock.as_str(), item.available.as_str(), item.day_delivery.as_str()), ("1", "4", "0"));
}

#[test]
fn a_locked_product_has_no_bonus_and_no_stock() {
    let p = product("Acme", 5, "");
    let mut l = LockList::new(1);
    l.update(1, 4, 0, 0, 0);
    let mut bg = BonusGroup::new(1);
    bg.update(1, "BG1".to_string());
    let countries = std::collections::HashMap::new();
    let item = PriceItem::new(
        7, &param(1, 10, PriceVolume::Full), &p, &l, &stock_with(7, 4, 2), &bg, &target(),
        "opt.brain.com.ua", &countries, 10,
    )
    .unwrap();
    assert!(item.lock);
    assert_eq!(item.bonus.units, 0);
    assert_eq!((item.stock.as_str(), item.available.as_str(), item.day_delivery.as_str()), ("0", "0", "0"));
    let none = PriceItem::new(
        7, &param(1, 10, PriceVolume::Local), &p, &l, &stock_with(7, 4, 2), &bg, &target(),
        "opt.brain.com.ua", &countries, 10,
    );
    assert!(none.is_none());
}

struct Catalog {
    products: Products,
    locks: Locks,
    targets: Targets,
    store: Store,
    bg: Bg,
    world: World,
}

fn catalog(available: u32, day: u32) -> Catalog {
    let mut products = Products::new(4);
    let m = |product_id: u32| MeasuresRow {
        product_id, bonus: Decimal::from_units(15000), vendor_id: 4, group_id: 5, class_id: 6,
        weight: Decimal::from_units(20000), volume: Decimal::from_units(100), overall: 1,
        category_id: 1, warranty: 12, ddp: false, country_id: 8,
    };
    let l = |product_id: u32| LabelsRow {
        product_id, group_ua: "g".into(), group_ru: "g".into(), desc_ua: "d".into(), desc_ru: "d".into(),
        category_ua: "c".into(), category_ru: "c".into(), url_ua: "u".into(), url_ru: "u".into(),
        class_ua: "k".into(), class_ru: "k".into(),
    };
    let i = |product_id: u32, code: &str| IdentityRow {
        product_id, code: code.into(), bg: "BG1".into(), ean: "".into(), seller: "".into(),
        article: "".into(), vendor: "Acme".into(), model: "".into(), ua: "n".into(), ru: "n".into(),
        uktved: "".into(), exclusive: "0".into(),
    };
    Cache::load_product(&mut products, &vec![m(7), m(8)], &vec![l(7), l(8)], &vec![i(7, "AB7"), i(8, "AB8")]);
    let mut store = Store::new(4, 4);
    let s = |stock_id: u32, code: &str, amount: u32| StockRow { stock_id, code: code.into(), amount };
    Cache::load_stock(
        &mut store, &products,
        &vec![s(5, "AB7", available), s(5, "AB8", 2), s(6, "AB7", available), s(6, "AB8", 2)],
        &vec![s(5, "AB7", day), s(6, "AB7", day)],
    );
    let mut targets = Targets::new(4);
    let t = |target_id: u32, stock_id: u32| TargetRow {
        target_id, region_stock: false, stock_id,
        postage_compact: Decimal::from_units(10000), postage_middle: Decimal::from_units(15000),
        postage_big: Decimal::from_units(20000), postage_large: Decimal::from_units(30000),
    };
    Cache::load_target(&mut targets, &vec![t(10, 5), t(29, 6), t(11, 99)]);
    let mut locks = Locks::new(4, 4);
    Cache::load_lock(&mut locks, &vec![LockRow { company_id: 55, vendor_id: 4, group_id: 0, class_id: 0, product_id: 0 }]);
    let mut bg = Bg::new(4, 4);
    Cache::load_bg(&mut bg, &vec![BgRow { company_id: 1, group: "BG1".into() }]);
    Catalog { products, locks, targets, store, bg, world: World::new(1) }
}

fn collect(c: &Catalog, p: &Param) -> (Price, Result<Vec<u32>, u32>) {
    let mut price = Price::new(4);
    let r = price.collect(p, false, &c.products, &c.locks, &c.targets, &c.store, &c.bg, &c.world);
    (price, r)
}

#[test]
fn full_uah_filter() {
    let c = catalog(0, 5);
    let (price, r) = collect(&c, &param(1, 10, PriceVolume::FullUAH));
    let ids = r.unwrap();
    assert_eq!(ids, vec![8]);
    let json = String::from_utf8(FormatJSON::make(&price.items, PriceVolume::FullUAH, false, false, false)).unwrap();
    assert!(json.contains("\"8\":{"));
    assert!(!json.contains("\"7\":{"));
    let (_, r) = collect(&c, &param(1, 10, PriceVolume::Full));
    let mut ids = r.unwrap();
    ids.sort();
    assert_eq!(ids, vec![7, 8]);
}

#[test]
fn collecting_lists_every_product_once() {
    let c = catalog(3, 0);
    let (price, r) = collect(&c, &param(1, 10, PriceVolume::Local));
    let ids = r.unwrap();
    assert_eq!(ids.len(), 2);
    assert_eq!(price.items.len(), 2);
    for (i, id) in ids.iter().enumerate() {
        assert_eq!(price.items[i].id, *id);
        assert_eq!(price.index.get(id), Some(&i));
        assert_eq!(price.items[i].bonus.units, 15000);
        assert_eq!(price.items[i].url, "https://opt.brain.com.ua/u.html");
    }
    let (price, r) = collect(&c, &param(55, 10, PriceVolume::Full));
    assert_eq!(r.unwrap().len(), 2);
    assert!(price.items.iter().all(|i| i.lock && i.bonus.units == 0 && i.stock == "0"));
}

#[test]
fn a_request_needs_a_known_target_and_warehouse() {
    let c = catalog(3, 0);
    assert_eq!(collect(&c, &param(1, 0, PriceVolume::Full)).1, Err(23));
    assert_eq!(collect(&c, &param(1, 0, PriceVolume::FullUAH)).1, Err(23));
    assert_eq!(collect(&c, &param(1, 12, PriceVolume::Full)).1, Err(25));
    assert_eq!(collect(&c, &param(1, 11, PriceVolume::Full)).1, Err(26));
    assert!(collect(&c, &param(1, 12, PriceVolume::FullUAH)).1.is_ok());
    assert_eq!(Price::target_of(&param(1, 12, PriceVolume::FullUAH)), Ok(29));
    assert_eq!(Price::target_of(&param(1, 12, PriceVolume::Short)), Ok(12));
    assert_eq!(Price::host(true), "corp.brain.com.ua");
    assert_eq!(Price::host(false), "opt.brain.com.ua");
}

#[test]
fn cache_sweep() {
    let mut auth = Auth::new(4, 4);
    let row = |company_id: u32, profiles_id: u32| AuthRow { company_id, user_id: 1, profiles_id, corp: true, rozn: true, r3: false };
    Cache::load_auth(&mut auth, &vec![row(100, 3), row(200, 3), row(300, 0)]);
    let p = param(100, 10, PriceVolume::Full);
    assert_eq!(Price::check_auth(&p, &auth), Ok(Access { corp: true, rozn: true, r3: false, profile_id: 3 }));
    let mut api = param(100, 10, PriceVolume::Full);
    api.api = true;
    assert_eq!(Price::check_auth(&api, &auth), Ok(Access { corp: true, rozn: true, r3: true, profile_id: 3 }));
    let mut other = param(100, 10, PriceVolume::Full);
    other.user_id = 2;
    assert_eq!(Price::check_auth(&other, &auth), Err(18));
    assert_eq!(Price::check_auth(&param(300, 10, PriceVolume::Full), &auth), Err(19));
    Cache::load_auth(&mut auth, &vec![row(200, 3)]);
    assert!(auth.company.get(&100).is_none());
    assert_eq!(Price::check_auth(&p, &auth), Err(17));
    let log = Log::new(1, "/tmp");
    let answer = String::from_utf8(Price::calc(&Err(17), Format::JSON, "", &log)).unwrap();
    assert!(answer.contains("Помилка 17"));
}

#[test]
fn prices_are_entered_by_product() {
    let c = catalog(3, 0);
    let (mut price, r) = collect(&c, &param(1, 10, PriceVolume::Full));
    let ids = r.unwrap();
    let row = |product_id: u32, usd: u64| PriceRow {
        product_id,
        price_usd: Decimal::from_units(usd),
        price_ind: 2,
        recommended_price: Decimal::from_units(99900),
        retail_price: Decimal::from_units(1),
        internet_price: Decimal::from_units(2),
    };
    price.apply(&vec![row(7, 12370), row(1000, 5), row(7, 12650)], true, true, Decimal::from_whole(40));
    let at = ids.iter().position(|i| *i == 7).unwrap();
    let item = &price.items[at];
    assert_eq!(item.price_usd.units, 12600);
    assert_eq!(item.price_uah.units, 505800);
    assert_eq!(item.price_ind, 2);
    assert_eq!(item.recommended_price.units, 99900);
    assert_eq!((item.retail_price.units, item.internet_price.units), (1, 2));
    let other = &price.items[1 - at];
    assert_eq!((other.id, other.price_usd.units, other.recommended_price.units), (8, 0, 0));
    price.apply(&vec![row(8, 12370)], false, false, Decimal::from_whole(40));
    let other = &price.items[1 - at];
    assert_eq!((other.price_usd.units, other.price_uah.units), (12370, 494800));
    price.apply(&vec![row(8, 12370)], true, false, Decimal::from_whole(40));
    assert_eq!(price.items[1 - at].price_usd.units, 12000);
    assert_eq!(price.items[1 - at].price_uah.units, 494800);
}

#[test]
fn a_locked_item_gets_the_recommended_price_only() {
    let c = catalog(3, 0);
    let (mut price, _) = collect(&c, &param(55, 10, PriceVolume::Full));
    let rows = vec![PriceRow {
        product_id: 7,
        price_usd: Decimal::from_units(12370),
        price_ind: 2,
        recommended_price: Decimal::from_units(99900),
        retail_price: Decimal::from_units(1),
        internet_price: Decimal::from_units(2),
    }];
    price.apply(&rows, false, false, Decimal::from_whole(40));
    let item = price.items.iter().find(|i| i.id == 7).unwrap();
    assert_eq!(item.recommended_price.units, 99900);
    assert_eq!((item.price_usd.units, item.price_uah.units, item.price_ind), (0, 0, 0));
    assert_eq!((item.retail_price.units, item.internet_price.units), (0, 0));
}

#[test]
fn items_follow_the_order_of_the_keys() {
    let c = catalog(3, 0);
    let p = param(1, 10, PriceVolume::Full);
    let mut price = Price::new(4);
    let ids = price
        .collect_in(&vec![8, 99, 7], &p, false, &c.products, &c.locks, &c.targets, &c.store, &c.bg, &c.world)
        .unwrap();
    assert_eq!(ids, vec![8, 7]);
    assert_eq!(price.items.iter().map(|i| i.id).collect::<Vec<u32>>(), vec![8, 7]);
    let json = String::from_utf8(FormatJSON::make(&price.items, PriceVolume::Short, false, false, false)).unwrap();
    assert!(json.starts_with("{\"8\":{\"CategoryID\":1,\"Code\":\"AB8\","));
    assert!(json.find("\"8\":{").unwrap() < json.find("\"7\":{").unwrap());
    let mut price = Price::new(4);
    let ids = price
        .collect_in(&vec![7], &p, false, &c.products, &c.locks, &c.targets, &c.store, &c.bg, &c.world)
        .unwrap();
    assert_eq!(ids, vec![7]);
    let mut price = Price::new(4);
    let r = price.collect_in(&vec![7], &param(1, 0, PriceVolume::Full), false, &c.products, &c.locks, &c.targets, &c.store, &c.bg, &c.world);
    assert_eq!(r, Err(23));
    assert_eq!(price.items.len(), 0);
}

#[test]
fn an_overall_below_zero_takes_the_first_bucket() {
    let mut p = product("Acme", 5, "");
    p.measures.weight = Decimal::from_whole(10);
    p.measures.volume = Decimal::zero();
    p.measures.overall = -1;
    let t = Target::new(
        1, false, 5,
        Decimal::from_whole(1), Decimal::from_whole(2), Decimal::from_whole(4), Decimal::from_whole(8),
    );
    let mut s = ProductStock::new(1);
    s.update_available(1, 70, 4);
    let countries = std::collections::HashMap::new();
    let item = PriceItem::new(
        70, &param(100, 10, PriceVolume::Full), &p, &LockList::new(0), &s, &BonusGroup::new(0), &t,
        "h", &countries, 10,
    )
    .unwrap();
    assert_eq!(item.cost_delivery.units, 100000);
}
