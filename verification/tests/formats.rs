use brain_b2b::decimal::Decimal;
use std::io::Read;
use brain_b2b::format_json::FormatJSON;
use brain_b2b::format_php::FormatPHP;
use brain_b2b::format_xlsx::{FormatXLSX, Strings};
use brain_b2b::format_xml::{Category, FormatXml};
use brain_b2b::param::PriceVolume;
use brain_b2b::price::PriceItem;
use brain_b2b::show::{select, Column, ItemShow, Show, ValueType};

fn item(id: u32, code: &str) -> PriceItem {
    let mut i = PriceItem::blank();
    i.id = id;
    i.code = code.to_string();
    i.category_id = 1053;
    i.price_usd = Decimal::from_units(12370);
    i.recommended_price = Decimal::from_units(105000);
    i.cost_delivery = Decimal::from_units(20000);
    i.stock = "1".to_string();
    i.available = "3".to_string();
    i.day_delivery = "0".to_string();
    i
}

fn text(bytes: Vec<u8>) -> String {
    String::from_utf8(bytes).unwrap()
}

#[test]
fn the_table_has_thirty_four_columns() {
    let show = Show::new();
    assert_eq!(show.list.len(), 34);
    assert_eq!(show.list[0].name, "CategoryID");
    assert_eq!(show.list[0].column, Column::CategoryId);
    assert_eq!(show.list[9].name, "PriceUAH");
    assert!(!show.list[9].local && !show.list[9].full && !show.list[9].short && show.list[9].full_uah);
    assert_eq!(show.list[27].name, "RetailPrice");
    assert!(show.list[27].rozn && show.list[27].full_uah && !show.list[27].full);
    assert_eq!(show.list[28].name, "InternetPrice");
    assert!(show.list[28].r3);
    assert_eq!(show.list[30].name, "Available");
    assert_eq!(show.list[30].column, Column::Available);
    assert_eq!(show.list[25].column, Column::Available);
    assert_eq!(show.list[32].name, "EAN");
    assert!(show.list[32].ean);
    assert_eq!(show.list[33].name, "FOP");
}

fn names(cols: &Vec<ItemShow>) -> Vec<&'static str> {
    cols.iter().map(|c| c.name).collect()
}

#[test]
fn a_column_shows_by_variant_or_capability() {
    let short = select(PriceVolume::Short, false, false, false);
    assert_eq!(
        names(&short),
        vec![
            "CategoryID", "Code", "PriceUSD", "Bonus", "RecommendedPrice", "Stock", "DayDelivery",
            "ProductID", "InternetPrice", "CostDelivery", "Available"
        ]
    );
    let local = select(PriceVolume::Local, false, false, false);
    assert_eq!(local.len(), 30);
    assert!(!names(&local).contains(&"RetailPrice"));
    assert!(!names(&local).contains(&"EAN"));
    assert!(!names(&local).contains(&"PriceUAH"));
    let local = select(PriceVolume::Local, true, false, true);
    assert_eq!(local.len(), 32);
    assert!(names(&local).contains(&"RetailPrice"));
    assert!(names(&local).contains(&"EAN"));
    let uah = select(PriceVolume::FullUAH, false, false, false);
    assert!(names(&uah).contains(&"PriceUAH"));
    assert!(names(&uah).contains(&"RetailPrice"));
    assert!(!names(&uah).contains(&"InternetPrice"));
    assert!(names(&select(PriceVolume::FullUAH, false, true, false)).contains(&"InternetPrice"));
    let e = &Show::new().list[27];
    assert!(e.is_shown(PriceVolume::FullUAH, false, false, false));
    assert!(!e.is_shown(PriceVolume::Full, false, true, true));
    assert!(e.is_shown(PriceVolume::Full, true, false, false));
}

#[test]
fn a_column_holds_a_field_of_the_item() {
    let i = item(7, "AB1");
    assert!(matches!(i.value(Column::Id), ValueType::Index(7)));
    assert!(matches!(i.value(Column::Code), ValueType::String("AB1")));
    assert!(matches!(i.value(Column::PriceUsd), ValueType::Money(m) if m.units == 12370));
    assert!(matches!(i.value(Column::Available), ValueType::String("3")));
    assert!(matches!(i.value(Column::CostDelivery), ValueType::Money(m) if m.units == 20000));
}

#[test]
fn json_file() {
    let items = vec![item(7, "AB/1")];
    let out = text(FormatJSON::make(&items, PriceVolume::Short, false, false, false));
    assert_eq!(
        out,
        "{\"7\":{\"CategoryID\":1053,\"Code\":\"AB\\/1\",\"PriceUSD\":1.24,\"Bonus\":0.00,\"RecommendedPrice\":10.50,\"Stock\":\"1\",\"DayDelivery\":\"0\",\"ProductID\":7,\"InternetPrice\":0.00,\"CostDelivery\":2.00,\"Available\":\"3\"}}"
    );
    assert_eq!(text(FormatJSON::make(&vec![], PriceVolume::Short, false, false, false)), "{}");
    let two = text(FormatJSON::write(&vec![item(1, "a"), item(2, "b")], &vec![]));
    assert_eq!(two, "{\"1\":{},\"2\":{}}");
}

#[test]
fn json_round_trip() {
    let mut a = item(7, "q\"uo\\te\t\n\r/");
    a.name = "назва & <b>".to_string();
    let items = vec![a, item(8, "AB8")];
    let out = FormatJSON::make(&items, PriceVolume::Full, true, true, true);
    let v: serde_json::Value = serde_json::from_slice(&out).unwrap();
    let obj = v.as_object().unwrap();
    assert_eq!(obj.len(), 2);
    let seven = obj.get("7").unwrap();
    assert_eq!(seven.get("Code").unwrap().as_str(), Some("q\"uo\\te\t\n\r/"));
    assert_eq!(seven.get("Name").unwrap().as_str(), Some("назва & <b>"));
    assert_eq!(seven.get("ProductID").unwrap().as_u64(), Some(7));
    assert_eq!(seven.get("PriceUSD").unwrap().as_f64(), Some(1.24));
    assert_eq!(seven.get("Available").unwrap().as_str(), Some("3"));
    assert_eq!(seven.as_object().unwrap().len(), select(PriceVolume::Full, true, true, true).len());
    assert_eq!(obj.get("8").unwrap().get("Code").unwrap().as_str(), Some("AB8"));
}

#[test]
fn json_escaping() {
    assert_eq!(text(FormatJSON::escape_json("a\\b\"c/d\te\nf\rg")), "a\\\\b\\\"c\\/d\\te\\nf\\rg");
    assert_eq!(text(FormatJSON::escape_json("")), "");
    assert_eq!(text(FormatJSON::escape_json("ціна")), "ціна");
}

#[test]
fn php_file() {
    let items = vec![item(7, "AB/1")];
    let out = text(FormatPHP::make(&items, PriceVolume::Short, false, false, false));
    assert_eq!(
        out,
        "a:1:{i:7;a:11:{s:10:\"CategoryID\";i:1053;s:4:\"Code\";s:4:\"AB/1\";s:8:\"PriceUSD\";d:1.24;s:5:\"Bonus\";d:0.00;s:16:\"RecommendedPrice\";d:10.50;s:5:\"Stock\";s:1:\"1\";s:11:\"DayDelivery\";s:1:\"0\";s:9:\"ProductID\";i:7;s:13:\"InternetPrice\";d:0.00;s:12:\"CostDelivery\";d:2.00;s:9:\"Available\";s:1:\"3\";}}"
    );
    assert_eq!(text(FormatPHP::make(&vec![], PriceVolume::Short, false, false, false)), "a:0:{}");
    let mut i = item(1, "ціна\"");
    i.id = 1;
    let cols: Vec<ItemShow> = select(PriceVolume::Short, false, false, false).into_iter().skip(1).take(1).collect();
    assert_eq!(text(FormatPHP::write(&vec![i], &cols)), "a:1:{i:1;a:1:{s:4:\"Code\";s:9:\"ціна\"\";}}");
}

#[test]
fn xml_file() {
    let items = vec![item(7, "A<B>&'\"")];
    let out = text(FormatXml::make(&items, PriceVolume::Short, false, false, false, &vec![]));
    assert_eq!(
        out,
        "<?xml version=\"1.0\" encoding=\"UTF-8\"?>\n<price><products><product CategoryID=\"1053\" Code=\"A&lt;B&gt;&amp;&apos;&quot;\" PriceUSD=\"1.24\" Bonus=\"0.00\" RecommendedPrice=\"10.50\" Stock=\"1\" DayDelivery=\"0\" ProductID=\"7\" InternetPrice=\"0.00\" CostDelivery=\"2.00\" Available=\"3\"/></products></price>"
    );
    let empty = text(FormatXml::make(&vec![], PriceVolume::FullUAH, false, false, false, &vec![]));
    assert_eq!(empty, "<?xml version=\"1.0\" encoding=\"UTF-8\"?>\n<price><products></products></price>");
    let full = text(FormatXml::make(&vec![], PriceVolume::Full, false, false, false, &vec![]));
    assert_eq!(
        full,
        "<?xml version=\"1.0\" encoding=\"UTF-8\"?>\n<price><categories></categories><products></products></price>"
    );
    assert_eq!(text(FormatXml::escape_xml("a&b\"c'd<e>f")), "a&amp;b&quot;c&apos;d&lt;e&gt;f");
    assert_eq!(text(FormatXLSX::escape_xml("<Ї>")), "&lt;Ї&gt;");
}

fn cat(id: u32, name: &str, parent_id: u32) -> Category {
    Category { id, name: name.to_string(), parent_id }
}

#[test]
fn xml_categories_form_a_tree() {
    let cats = vec![cat(2, "PC & co", 1), cat(3, "Laptops", 2), cat(4, "Mice", 1), cat(5, "Gaming", 3), cat(6, "Lost", 77)];
    assert_eq!(
        text(FormatXml::get_categories(&cats)),
        "<categories><category id=\"2\" name=\"PC &amp; co\"><subcategory id=\"3\" name=\"Laptops\"><subcategory id=\"5\" name=\"Gaming\"/></subcategory></category><category id=\"4\" name=\"Mice\"/></categories>"
    );
    assert_eq!(text(FormatXml::build_tree_cat(&cats, 2, 1)), "<subcategory id=\"3\" name=\"Laptops\"/>");
    assert_eq!(text(FormatXml::build_tree_cat(&cats, 2, 0)), "");
    assert_eq!(text(FormatXml::build_tree_cat(&cats, 4, 5)), "");
    let cycle = vec![cat(2, "a", 1), cat(3, "b", 2), cat(2, "a", 3)];
    let out = text(FormatXml::get_categories(&cycle));
    assert!(out.starts_with("<categories><category id=\"2\" name=\"a\"><subcategory id=\"3\""));
    assert!(out.ends_with("</category></categories>"));
}

#[test]
fn column_letters() {
    let label = |n: usize| FormatXLSX::get_col_xlsx(n).map(|v| String::from_utf8(v).unwrap());
    assert_eq!(label(0).as_deref(), Some("A"));
    assert_eq!(label(25).as_deref(), Some("Z"));
    assert_eq!(label(26).as_deref(), Some("AA"));
    assert_eq!(label(27).as_deref(), Some("AB"));
    assert_eq!(label(51).as_deref(), Some("AZ"));
    assert_eq!(label(52).as_deref(), Some("BA"));
    assert_eq!(label(701).as_deref(), Some("ZZ"));
    assert_eq!(label(702), None);
    assert_eq!(label(usize::MAX), None);
}

#[test]
fn strings_are_kept_once() {
    let mut s = Strings::new();
    assert_eq!(s.intern("a"), 0);
    assert_eq!(s.intern("b"), 1);
    assert_eq!(s.intern("a"), 0);
    assert_eq!(s.intern(""), 2);
    assert_eq!(s.intern("b"), 1);
    assert_eq!(s.list, vec!["a", "b", ""]);
}

#[test]
fn xlsx_sheet() {
    let mut a = item(7, "AB1");
    a.stock = "AB1".to_string();
    let items = vec![a, item(8, "<8>")];
    let cols: Vec<ItemShow> = select(PriceVolume::Short, false, false, false).into_iter().take(3).collect();
    let (sheet, shared) = FormatXLSX::write(&items, &cols).unwrap();
    let sheet = text(sheet);
    let row = |n: u32| format!("<row collapsed=\"false\" customFormat=\"false\" customHeight=\"false\" hidden=\"false\" ht=\"12.1\" outlineLevel=\"0\" r=\"{}\">", n);
    let rows = format!(
        "{}<c r=\"A1\" s=\"0\" t=\"s\"><v>0</v></c><c r=\"B1\" s=\"0\" t=\"s\"><v>1</v></c><c r=\"C1\" s=\"0\" t=\"s\"><v>2</v></c></row>{}<c r=\"A2\" s=\"3\" t=\"n\"><v>1053</v></c><c r=\"B2\" s=\"0\" t=\"s\"><v>3</v></c><c r=\"C2\" s=\"1\" t=\"n\"><v>1.24</v></c></row>{}<c r=\"A3\" s=\"3\" t=\"n\"><v>1053</v></c><c r=\"B3\" s=\"0\" t=\"s\"><v>4</v></c><c r=\"C3\" s=\"1\" t=\"n\"><v>1.24</v></c></row></sheetData>",
        row(1), row(2), row(3)
    );
    assert!(sheet.contains(&rows), "{}", sheet);
    assert!(sheet.contains("<dimension ref=\"A1:C3\"/>"));
    assert!(sheet.starts_with("<?xml version=\"1.0\" encoding=\"UTF-8\" standalone=\"yes\"?>\n<worksheet "));
    assert!(sheet.ends_with("</worksheet>"));
    let shared = text(shared);
    assert!(shared.contains("<sst count=\"5\" uniqueCount=\"5\" "));
    assert!(shared.ends_with("<si><t>CategoryID</t></si><si><t>Code</t></si><si><t>PriceUSD</t></si><si><t>AB1</t></si><si><t>&lt;8&gt;</t></si></sst>"));
    assert!(FormatXLSX::write(&items, &vec![]).is_none());
}

#[test]
fn xlsx_parts() {
    let parts = FormatXLSX::make(&vec![item(7, "AB1")], PriceVolume::Short, false, false, false, "2024-01-02T03:04:05").unwrap();
    let names: Vec<&str> = parts.iter().map(|p| p.name).collect();
    assert_eq!(
        names,
        vec![
            "[Content_Types].xml", "_rels", "_rels/.rels", "docProps", "docProps/app.xml",
            "docProps/core.xml", "xl", "xl/_rels", "xl/_rels/workbook.xml.rels", "xl/worksheets",
            "xl/worksheets/sheet1.xml", "xl/workbook.xml", "xl/styles.xml", "xl/sharedStrings.xml"
        ]
    );
    let dirs: Vec<bool> = parts.iter().map(|p| p.directory).collect();
    assert_eq!(dirs.iter().filter(|d| **d).count(), 5);
    assert!(parts.iter().all(|p| p.directory == p.data.is_empty()));
    let core = text(parts[5].data.clone());
    assert!(core.contains("<dcterms:created xsi:type=\"dcterms:W3CDTF\">2024-01-02T03:04:05.00Z</dcterms:created>"));
    let sheet = text(parts[10].data.clone());
    assert!(sheet.contains("<dimension ref=\"A1:K2\"/>"));
    let shared = text(parts[13].data.clone());
    assert!(shared.contains("<sst count=\"15\" uniqueCount=\"15\" "));
}

#[test]
fn the_archive_holds_the_parts() {
    let parts = FormatXLSX::make(&vec![item(7, "AB1")], PriceVolume::Short, false, false, false, "2024-01-02T03:04:05").unwrap();
    let bytes = FormatXLSX::pack(&parts).unwrap();
    assert_eq!(&bytes[..4], b"PK\x03\x04");
    let mut archive = zip::ZipArchive::new(std::io::Cursor::new(bytes.clone())).unwrap();
    assert_eq!(archive.len(), 14);
    for (i, part) in parts.iter().enumerate() {
        let mut file = archive.by_index(i).unwrap();
        if part.directory {
            assert!(file.is_dir());
            assert_eq!(file.name(), format!("{}/", part.name));
        } else {
            assert_eq!(file.name(), part.name);
            let mut data = Vec::new();
            file.read_to_end(&mut data).unwrap();
            assert_eq!(data, part.data);
        }
    }
    assert_eq!(FormatXLSX::pack(&parts).unwrap(), bytes);
    assert_eq!(FormatXLSX::pack(&vec![]).unwrap().len(), 22);
}

#[test]
fn a_directory_is_stored_with_one_slash_behind_its_name() {
    let part = |name: &'static str, directory: bool, data: &[u8]| brain_b2b::format_xlsx::Part { name, directory, data: data.to_vec() };
    let parts = vec![part("xl/", true, b""), part("docs", true, b"ignored"), part("empty.txt", false, b""), part("a.txt", false, b"abc")];
    let bytes = FormatXLSX::pack(&parts).unwrap();
    let mut archive = zip::ZipArchive::new(std::io::Cursor::new(bytes)).unwrap();
    assert_eq!(archive.len(), 4);
    assert_eq!(archive.by_index(0).unwrap().name(), "xl/");
    assert_eq!(archive.by_index(1).unwrap().name(), "docs/");
    assert_eq!(archive.by_index(1).unwrap().size(), 0);
    assert_eq!(archive.by_index(2).unwrap().size(), 0);
    let mut data = Vec::new();
    archive.by_index(3).unwrap().read_to_end(&mut data).unwrap();
    assert_eq!(data, b"abc");
    let same = vec![part("xl", true, b""), part("docs/", true, b""), part("empty.txt", false, b""), part("a.txt", false, b"abc")];
    assert_eq!(FormatXLSX::pack(&same), FormatXLSX::pack(&parts));
}
