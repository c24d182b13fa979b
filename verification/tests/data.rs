use brain_b2b::cache::{
    AuthRow, BgRow, Cache, CountryRow, IdentityRow, LabelsRow, LockRow, MeasuresRow, StockRow,
    TargetRow,
};
use brain_b2b::data::{
    make_lock_key, Auth, Bg, BonusGroup, Group, Locks, Products, Store, Targets, World,
};
use brain_b2b::decimal::Decimal;

fn auth_row(company_id: u32, user_id: u32) -> AuthRow {
    AuthRow { company_id, user_id, profiles_id: 3, corp: true, rozn: false, r3: true }
}

#[test]
fn auth_pass_stamps_what_it_touches() {
    let mut auth = Auth::new(4, 4);
    Cache::load_auth(&mut auth, &vec![auth_row(100, 1), auth_row(100, 2), auth_row(200, 9)]);
    assert_eq!(auth.version, 1);
    assert_eq!(auth.company.len(), 2);
    for (_, c) in auth.company.iter() {
        assert_eq!(c.version, auth.version);
        for (_, u) in c.users.iter() {
            assert_eq!(u.version, auth.version);
        }
    }
    let u = auth.company.get(&100).unwrap().users.get(&2).unwrap();
    assert_eq!((u.profiles_id, u.corp, u.rozn, u.r3), (3, true, false, true));
}

#[test]
fn auth_sweep_drops_what_a_pass_did_not_name() {
    let mut auth = Auth::new(4, 4);
    Cache::load_auth(&mut auth, &vec![auth_row(100, 1), auth_row(100, 2), auth_row(200, 9)]);
    Cache::load_auth(&mut auth, &vec![auth_row(100, 2)]);
    assert_eq!(auth.version, 2);
    assert!(auth.company.get(&200).is_none());
    let c = auth.company.get(&100).unwrap();
    assert!(c.users.get(&1).is_none());
    assert_eq!(c.users.get(&2).unwrap().version, 2);
}

#[test]
fn version_wraps() {
    let mut auth = Auth::new(1, 1);
    auth.version = u32::MAX;
    auth.add_version();
    assert_eq!(auth.version, 0);
}

#[test]
fn update_outside_a_sweep_keeps_everything() {
    let mut auth = Auth::new(1, 1);
    auth.add_version();
    auth.update(1, 1, 5, false, true, false);
    auth.add_version();
    auth.update(2, 1, 6, false, false, false);
    assert_eq!(auth.company.len(), 2);
    auth.clear_old();
    assert_eq!(auth.company.len(), 1);
    assert!(auth.company.contains_key(&2));
}

fn measures(product_id: u32) -> MeasuresRow {
    MeasuresRow {
        product_id,
        bonus: Decimal::from_units(15000),
        vendor_id: 4,
        group_id: 5,
        class_id: 6,
        weight: Decimal::from_units(20000),
        volume: Decimal::from_units(100),
        overall: 1,
        category_id: 1053,
        warranty: 12,
        ddp: true,
        country_id: 8,
    }
}

fn labels(product_id: u32) -> LabelsRow {
    LabelsRow {
        product_id,
        group_ua: "група".to_string(),
        group_ru: "группа".to_string(),
        desc_ua: "опис".to_string(),
        desc_ru: "описание".to_string(),
        category_ua: "категорія".to_string(),
        category_ru: "категория".to_string(),
        url_ua: "slug-ua".to_string(),
        url_ru: "slug-ru".to_string(),
        class_ua: "клас".to_string(),
        class_ru: "класс".to_string(),
    }
}

fn identity(product_id: u32, code: &str) -> IdentityRow {
    IdentityRow {
        product_id,
        code: code.to_string(),
        bg: "BG1".to_string(),
        ean: "482".to_string(),
        seller: "".to_string(),
        article: "art".to_string(),
        vendor: "BRAIN".to_string(),
        model: "m1".to_string(),
        ua: "назва".to_string(),
        ru: "название".to_string(),
        uktved: "8471".to_string(),
        exclusive: "0".to_string(),
    }
}

#[test]
fn product_survives_only_with_all_three_projections() {
    let mut products = Products::new(8);
    Cache::load_product(
        &mut products,
        &vec![measures(1), measures(2), measures(3)],
        &vec![labels(1), labels(2)],
        &vec![identity(1, "AB1"), identity(3, "AB3")],
    );
    assert_eq!(products.version, 1);
    assert_eq!(products.product.len(), 1);
    let p = products.product.get(&1).unwrap();
    assert_eq!(p.measures.version, 1);
    assert_eq!(p.labels.version, 1);
    assert_eq!(p.identity.version, 1);
    assert_eq!(p.measures.warranty, 12);
    assert_eq!(p.labels.url_ua, "slug-ua");
    assert_eq!(p.identity.code, "AB1");
    assert_eq!(products.get_product_id("AB1".to_string()), Some(1));
    assert_eq!(products.get_product_id("AB3".to_string()), Some(3));
    assert_eq!(products.get_product_id("zz".to_string()), None);
}

#[test]
fn product_of_an_earlier_pass_is_swept() {
    let mut products = Products::new(8);
    Cache::load_product(
        &mut products,
        &vec![measures(1), measures(2)],
        &vec![labels(1), labels(2)],
        &vec![identity(1, "AB1"), identity(2, "AB2")],
    );
    assert_eq!(products.product.len(), 2);
    Cache::load_product(
        &mut products,
        &vec![measures(2)],
        &vec![labels(2)],
        &vec![identity(2, "AB2")],
    );
    assert_eq!(products.product.len(), 1);
    let p = products.product.get(&2).unwrap();
    assert!(p.measures.version == 2 && p.labels.version == 2 && p.identity.version == 2);
    assert_eq!(products.get_product_id("AB1".to_string()), Some(1));
}

#[test]
fn the_first_product_of_a_code_keeps_it() {
    let mut products = Products::new(8);
    products.add_version();
    let i = identity(1, "X");
    products.update_str(1, i.code, i.bg, i.ean, i.seller, i.article, i.vendor, i.model, i.ua, i.ru, i.uktved, i.exclusive);
    let i = identity(2, "X");
    products.update_str(2, i.code, i.bg, i.ean, i.seller, i.article, i.vendor, i.model, i.ua, i.ru, i.uktved, i.exclusive);
    assert_eq!(products.get_product_id("X".to_string()), Some(1));
    let p = products.product.get(&2).unwrap();
    assert_eq!(p.identity.exclusive, "0");
    assert_eq!(p.measures.version, 0);
    assert_eq!(p.labels.group_ua, "");
}

#[test]
fn blank_identity_is_not_exclusive() {
    let mut products = Products::new(8);
    products.add_version();
    let m = measures(5);
    products.update(5, m.bonus, m.vendor_id, m.group_id, m.class_id, m.weight, m.volume, m.overall, m.category_id, m.warranty, m.ddp, m.country_id);
    let p = products.product.get(&5).unwrap();
    assert_eq!(p.identity.exclusive, "0");
    assert_eq!(p.identity.code, "");
    assert_eq!(p.measures.warranty, 12);
    assert_eq!(p.measures.bonus.units, 15000);
}

#[test]
fn stock_pass_needs_the_code_index_and_prunes_empty_entries() {
    let mut products = Products::new(8);
    Cache::load_product(
        &mut products,
        &vec![measures(1), measures(2)],
        &vec![labels(1), labels(2)],
        &vec![identity(1, "AB1"), identity(2, "AB2")],
    );
    let mut store = Store::new(4, 4);
    let row = |stock_id: u32, code: &str, amount: u32| StockRow { stock_id, code: code.to_string(), amount };
    Cache::load_stock(
        &mut store,
        &products,
        &vec![row(5, "AB1", 4), row(5, "nope", 9), row(6, "AB2", 0)],
        &vec![row(5, "AB1", 1), row(5, "AB2", 7), row(6, "AB2", 0)],
    );
    assert_eq!(store.version, 1);
    let five = store.stock.get(&5).unwrap();
    assert_eq!(five.product.len(), 2);
    let s = five.product.get(&1).unwrap();
    assert_eq!((s.available, s.day, s.version), (4, 1, 1));
    let s = five.product.get(&2).unwrap();
    assert_eq!((s.available, s.day), (0, 7));
    let six = store.stock.get(&6).unwrap();
    assert_eq!(six.product.len(), 0);
    Cache::load_stock(&mut store, &products, &vec![row(5, "AB1", 2)], &vec![]);
    assert!(store.stock.get(&6).is_none());
    let five = store.stock.get(&5).unwrap();
    assert_eq!(five.product.len(), 1);
    let s = five.product.get(&1).unwrap();
    assert_eq!((s.available, s.day, s.version), (2, 1, 2));
}

#[test]
fn lock_pass_keys_by_the_four_identifiers() {
    let mut locks = Locks::new(4, 4);
    let row = |company_id, vendor_id, group_id, class_id, product_id| LockRow { company_id, vendor_id, group_id, class_id, product_id };
    Cache::load_lock(&mut locks, &vec![row(1, 4, 0, 0, 0), row(1, 0, 0, 0, 77), row(2, 1, 2, 3, 0)]);
    let l = locks.lock.get(&1).unwrap();
    assert_eq!(l.list.len(), 2);
    assert!(l.list.contains_key(&make_lock_key(4, 0, 0, 0)));
    assert!(l.list.contains_key(&make_lock_key(0, 0, 0, 77)));
    assert!(!l.list.contains_key(&make_lock_key(0, 4, 0, 0)));
    Cache::load_lock(&mut locks, &vec![row(1, 4, 0, 0, 0)]);
    assert!(locks.lock.get(&2).is_none());
    let l = locks.lock.get(&1).unwrap();
    assert_eq!(l.list.len(), 1);
    assert_eq!(l.list.get(&make_lock_key(4, 0, 0, 0)).unwrap().version, locks.version);
}

#[test]
fn lock_keys_differ_for_different_identifiers() {
    assert_eq!(make_lock_key(0, 0, 0, 1), 1);
    assert_eq!(make_lock_key(0, 0, 1, 0), 1u128 << 32);
    assert_eq!(make_lock_key(0, 1, 0, 0), 1u128 << 64);
    assert_eq!(make_lock_key(1, 0, 0, 0), 1u128 << 96);
    assert_eq!(
        make_lock_key(u32::MAX, u32::MAX, u32::MAX, u32::MAX),
        u128::MAX
    );
}

#[test]
fn bonus_groups_of_an_earlier_pass_are_gone() {
    let mut bg = Bg::new(4, 4);
    let row = |company_id: u32, group: &str| BgRow { company_id, group: group.to_string() };
    Cache::load_bg(&mut bg, &vec![row(1, "A"), row(1, "B"), row(2, "A")]);
    assert!(bg.bg.get(&1).unwrap().contains("A"));
    assert!(bg.bg.get(&1).unwrap().contains("B"));
    Cache::load_bg(&mut bg, &vec![row(1, "B")]);
    assert!(bg.bg.get(&2).is_none());
    let g = bg.bg.get(&1).unwrap();
    assert!(!g.contains("A"));
    assert!(g.contains("B"));
    assert_eq!(g.version, bg.version);
    assert_eq!(bg.version, 2);
}

#[test]
fn target_pass_sweeps() {
    let mut targets = Targets::new(4);
    let row = |target_id: u32, stock_id: u32| TargetRow {
        target_id,
        region_stock: true,
        stock_id,
        postage_compact: Decimal::from_units(10000),
        postage_middle: Decimal::from_units(15000),
        postage_big: Decimal::from_units(20000),
        postage_large: Decimal::from_units(30000),
    };
    Cache::load_target(&mut targets, &vec![row(10, 5), row(29, 6)]);
    assert_eq!(targets.target.len(), 2);
    Cache::load_target(&mut targets, &vec![row(29, 7)]);
    assert_eq!(targets.target.len(), 1);
    let t = targets.target.get(&29).unwrap();
    assert_eq!((t.stock_id, t.version), (7, 2));
    assert_eq!(t.postage_big.units, 20000);
}

#[test]
fn countries_are_never_removed_and_currency_takes_the_last_row() {
    let mut world = World::new(4);
    let row = |country_id: u32, ua: &str, ru: &str| CountryRow { country_id, ua: ua.to_string(), ru: ru.to_string() };
    Cache::load_country(&mut world, &vec![row(1, "Україна", "Украина"), row(2, "Китай", "Китай")]);
    Cache::load_country(&mut world, &vec![row(1, "Укр", "Укр")]);
    assert_eq!(world.countries.len(), 2);
    assert_eq!(world.countries.get(&1).unwrap().ua, "Укр");
    let mut kurs = Decimal::from_units(1);
    Cache::load_currency(&mut kurs, &vec![]);
    assert_eq!(kurs.units, 1);
    Cache::load_currency(&mut kurs, &vec![Decimal::from_units(400000), Decimal::from_units(410000)]);
    assert_eq!(kurs.units, 410000);
}

#[test]
fn a_bonus_code_stays_until_the_sweep() {
    let mut g = BonusGroup::new(2);
    g.update(1, "A".to_string());
    g.update(1, "B".to_string());
    g.update(2, "B".to_string());
    assert_eq!(g.version, 2);
    assert!(g.contains("A"));
    assert!(g.contains("B"));
    assert!(!g.contains("C"));
    g.clear_old();
    assert!(!g.contains("A"));
    assert!(g.contains("B"));
    assert_eq!(g.groups.len(), 1);
    assert_eq!((g.groups[0].code.as_str(), g.groups[0].version), ("B", 2));
    g.update(2, "B".to_string());
    g.clear_old();
    assert_eq!(g.groups.len(), 1);
    g.clear_old();
    assert!(g.contains("B"));
    g.version = 3;
    g.clear_old();
    assert_eq!(g.groups.len(), 0);
}

#[test]
fn the_last_stamp_of_a_code_counts_at_the_sweep() {
    let entry = |code: &str, version: u32| Group { code: code.to_string(), version };
    let mut g = BonusGroup { version: 5, groups: vec![entry("A", 5), entry("B", 4), entry("A", 4), entry("B", 5), entry("C", 5)] };
    g.clear_old();
    assert!(!g.contains("A"));
    assert!(g.contains("B"));
    assert!(g.contains("C"));
    assert_eq!(g.groups.len(), 2);
    assert!(g.groups.iter().all(|e| e.version == 5));
}

#[test]
fn a_sweep_of_the_container_drops_older_codes_of_a_company_that_stays() {
    let mut bg = Bg::new(2, 2);
    bg.add_version();
    bg.update(1, "A".to_string());
    bg.update(1, "B".to_string());
    bg.update(2, "A".to_string());
    bg.add_version();
    bg.update(1, "B".to_string());
    assert!(bg.bg.get(&1).unwrap().contains("A"));
    assert!(bg.bg.get(&2).unwrap().contains("A"));
    assert_eq!(bg.bg.len(), 2);
    bg.clear_old();
    assert_eq!(bg.bg.len(), 1);
    let g = bg.bg.get(&1).unwrap();
    assert!(!g.contains("A"));
    assert!(g.contains("B"));
    assert_eq!(g.version, 2);
    assert!(g.groups.iter().all(|e| e.version == 2));
}
