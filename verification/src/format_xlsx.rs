//! The price list as a workbook: one sheet with a row of column names and a
//! row per item. Texts are kept once in the table of strings, and a text cell
//! holds the place of its text in that table.

use crate::format_xml::{push_xml_escaped, xml_escaped};
use crate::param::PriceVolume;
use crate::price::PriceItem;
use crate::show::{column_value, select, shown_columns, ItemShow, Value, ValueType};
use crate::text::{digits, money_digits, push_decimal, push_money, push_str, utf8};
use crate::xlsx_parts::{
    APP, CONTENT_TYPES, CORE_HEAD, CORE_TAIL, RELS, SHEET_HEAD, SHEET_OPEN, SHEET_TAIL, SST_HEAD,
    SST_MID, SST_OPEN, STYLES, WORKBOOK, WORKBOOK_RELS,
};
use vstd::hash_map::StringHashMap;
use vstd::prelude::*;
use vstd::string::*;

verus! {

/// The largest number of columns that letters from A to ZZ can name.
pub const MAX_COLUMNS: usize = 702;

/// The letters of the column at place `n`, counted from zero: A to Z, then
/// AA to ZZ.
pub open spec fn col_label(n: int) -> Seq<u8> {
    if n < 26 {
        seq![(65 + n) as u8]
    } else {
        seq![(65 + n / 26 - 1) as u8, (65 + n % 26) as u8]
    }
}

/// The table with `s`, which is appended where the table does not hold it.
pub open spec fn interned(table: Seq<Seq<char>>, s: Seq<char>) -> Seq<Seq<char>> {
    if table.contains(s) {
        table
    } else {
        table.push(s)
    }
}

/// A sheet in the making: its bytes so far, the table of strings and the
/// number of text cells.
pub struct Sheet {
    pub bytes: Seq<u8>,
    pub table: Seq<Seq<char>>,
    pub count: nat,
}

pub open spec fn cell_open(col: int, row: nat) -> Seq<u8> {
    utf8("<c r=\""@) + col_label(col) + digits(row)
}

/// A cell with a text: style 0, and the place of the text in the table.
pub open spec fn text_cell(col: int, row: nat, place: int) -> Seq<u8> {
    cell_open(col, row) + utf8("\" s=\"0\" t=\"s\"><v>"@) + digits(place as nat) + utf8(
        "</v></c>"@,
    )
}

/// A cell with an amount: style 1, two fractional digits.
pub open spec fn money_cell(col: int, row: nat, units: int) -> Seq<u8> {
    cell_open(col, row) + utf8("\" s=\"1\" t=\"n\"><v>"@) + money_digits(units) + utf8(
        "</v></c>"@,
    )
}

/// A cell with a whole number: style 3.
pub open spec fn index_cell(col: int, row: nat, n: nat) -> Seq<u8> {
    cell_open(col, row) + utf8("\" s=\"3\" t=\"n\"><v>"@) + digits(n) + utf8("</v></c>"@)
}

/// The sheet with one more cell.
pub open spec fn with_value(s: Sheet, col: int, row: nat, v: Value) -> Sheet {
    match v {
        Value::Text(t) => {
            let table = interned(s.table, t);
            Sheet {
                bytes: s.bytes + text_cell(col, row, table.index_of(t)),
                table,
                count: s.count + 1,
            }
        },
        Value::Money(m) => Sheet { bytes: s.bytes + money_cell(col, row, m.units as int), ..s },
        Value::Index(n) => Sheet { bytes: s.bytes + index_cell(col, row, n as nat), ..s },
    }
}

/// The sheet with the names of the columns as cells of the first row.
pub open spec fn with_names(s: Sheet, cols: Seq<ItemShow>) -> Sheet
    decreases cols.len(),
{
    if cols.len() == 0 {
        s
    } else {
        with_value(
            with_names(s, cols.drop_last()),
            cols.len() - 1,
            1,
            Value::Text(cols.last().name@),
        )
    }
}

/// The sheet with the cells of an item in the row `row`.
pub open spec fn with_cells(s: Sheet, item: PriceItem, cols: Seq<ItemShow>, row: nat) -> Sheet
    decreases cols.len(),
{
    if cols.len() == 0 {
        s
    } else {
        with_value(
            with_cells(s, item, cols.drop_last(), row),
            cols.len() - 1,
            row,
            column_value(item, cols.last().column),
        )
    }
}

pub open spec fn row_open(row: nat) -> Seq<u8> {
    utf8(
        "<row collapsed=\"false\" customFormat=\"false\" customHeight=\"false\" hidden=\"false\" ht=\"12.1\" outlineLevel=\"0\" r=\""@,
    ) + digits(row) + utf8("\">"@)
}

pub open spec fn more(s: Sheet, bytes: Seq<u8>) -> Sheet {
    Sheet { bytes: s.bytes + bytes, ..s }
}

/// The sheet with the rows of the items; the first item stands in row 2.
pub open spec fn with_rows(s: Sheet, items: Seq<PriceItem>, cols: Seq<ItemShow>) -> Sheet
    decreases items.len(),
{
    if items.len() == 0 {
        s
    } else {
        let row = (items.len() + 1) as nat;
        more(
            with_cells(
                more(with_rows(s, items.drop_last(), cols), row_open(row)),
                items.last(),
                cols,
                row,
            ),
            utf8("</row>"@),
        )
    }
}

/// The sheet of the items with the columns.
pub open spec fn sheet_of(items: Seq<PriceItem>, cols: Seq<ItemShow>) -> Sheet {
    let start = Sheet {
        bytes: utf8(SHEET_HEAD@) + col_label(cols.len() - 1) + digits((items.len() + 1) as nat)
            + utf8(SHEET_OPEN@) + row_open(1),
        table: Seq::empty(),
        count: 0,
    };
    more(
        with_rows(more(with_names(start, cols), utf8("</row>"@)), items, cols),
        utf8(SHEET_TAIL@),
    )
}

pub open spec fn string_entries(table: Seq<Seq<char>>) -> Seq<u8>
    decreases table.len(),
{
    if table.len() == 0 {
        Seq::empty()
    } else {
        string_entries(table.drop_last()) + utf8("<si><t>"@) + xml_escaped(utf8(table.last()))
            + utf8("</t></si>"@)
    }
}

/// The part that holds the table of strings.
pub open spec fn strings_part(table: Seq<Seq<char>>, count: nat) -> Seq<u8> {
    utf8(SST_HEAD@) + digits(count) + utf8(SST_MID@) + digits(table.len()) + utf8(SST_OPEN@)
        + string_entries(table) + utf8("</sst>"@)
}

/// The part that holds the core properties of a workbook made at `created`.
pub open spec fn core_part(created: Seq<char>) -> Seq<u8> {
    utf8(CORE_HEAD@) + utf8(created) + utf8(CORE_TAIL@)
}

/// A part of the package: a directory, or a file with its bytes.
pub struct Part {
    pub name: &'static str,
    pub directory: bool,
    pub data: Vec<u8>,
}

/// The table of strings in the making.
pub struct Strings {
    pub dict: StringHashMap<usize>,
    pub list: Vec<String>,
}

impl Strings {
    pub open spec fn table(&self) -> Seq<Seq<char>> {
        Seq::new(self.list@.len(), |i: int| self.list@[i]@)
    }

    /// The dictionary names the place of each string of the list.
    pub open spec fn wf(&self) -> bool {
        &&& forall|i: int|
            0 <= i < self.list@.len() ==> self.dict@.contains_key(#[trigger] self.list@[i]@)
                && self.dict@[self.list@[i]@] == i
        &&& forall|k: Seq<char>| #[trigger]
            self.dict@.contains_key(k) ==> self.dict@[k] < self.list@.len()
                && self.list@[self.dict@[k] as int]@ == k
    }

    pub fn new() -> (s: Strings)
        ensures
            s.wf(),
            s.table() == Seq::<Seq<char>>::empty(),
    {
        let s = Strings { dict: StringHashMap::new(), list: Vec::new() };
        assert(s.table() =~= Seq::<Seq<char>>::empty());
        s
    }

    /// The place of `text` in the table, to which it is appended where the
    /// table does not hold it.
    pub fn intern(&mut self, text: &str) -> (place: usize)
        requires
            old(self).wf(),
        ensures
            final(self).wf(),
            final(self).table() == interned(old(self).table(), text@),
            place == final(self).table().index_of(text@),
    {
        let ghost before = self.table();
        let found = match self.dict.get(text) {
            Some(at) => Some(*at),
            None => None,
        };
        match found {
            Some(at) => {
                proof {
                    assert(before[at as int] == text@);
                    assert(before.contains(text@));
                    let w = before.index_of(text@);
                    assert(before[w] == text@);
                    assert(self.list@[w]@ == text@);
                }
                at
            },
            None => {
                let at = self.list.len();
                proof {
                    if before.contains(text@) {
                        let w = choose|w: int| 0 <= w < before.len() && before[w] == text@;
                        assert(self.list@[w]@ == text@);
                    }
                }
                self.dict.insert(text.to_owned(), at);
                self.list.push(text.to_owned());
                proof {
                    assert(self.table() =~= before.push(text@));
                    assert(self.table()[at as int] == text@);
                    let w = self.table().index_of(text@);
                    assert(self.table()[w] == text@);
                    assert(self.list@[w]@ == text@);
                    assert forall|i: int| 0 <= i < self.list@.len() implies
                        self.dict@.contains_key(#[trigger] self.list@[i]@)
                        && self.dict@[self.list@[i]@] == i by {
                        if i < at {
                            assert(self.list@[i] == old(self).list@[i]);
                            assert(old(self).dict@.contains_key(old(self).list@[i]@));
                        }
                    }
                    assert forall|k: Seq<char>| #[trigger] self.dict@.contains_key(k) implies
                        self.dict@[k] < self.list@.len() && self.list@[self.dict@[k] as int]@
                        == k by {
                        if k != text@ {
                            assert(old(self).dict@.contains_key(k));
                            assert(self.list@[self.dict@[k] as int] == old(self).list@[old(
                                self,
                            ).dict@[k] as int]);
                        }
                    }
                }
                at
            },
        }
    }
}

pub struct FormatXLSX {}

impl FormatXLSX {
    /// Escapes a text for XML.
    pub fn escape_xml(val: &str) -> (r: Vec<u8>)
        ensures
            r@ == xml_escaped(utf8(val@)),
    {
        let mut out: Vec<u8> = Vec::new();
        push_xml_escaped(&mut out, val);
        assert(out@ =~= xml_escaped(utf8(val@)));
        out
    }

    /// The letters of the column at place `col`, counted from zero; `None`
    /// where letters from A to ZZ do not reach it.
    pub fn get_col_xlsx(col: usize) -> (r: Option<Vec<u8>>)
        ensures
            match r {
                Some(v) => col < MAX_COLUMNS && v@ == col_label(col as int),
                None => col >= MAX_COLUMNS,
            },
    {
        if col >= MAX_COLUMNS {
            return None;
        }
        let mut v: Vec<u8> = Vec::new();
        if col < 26 {
            v.push(65 + col as u8);
        } else {
            v.push((65 + col / 26 - 1) as u8);
            v.push((65 + col % 26) as u8);
        }
        assert(v@ =~= col_label(col as int));
        Some(v)
    }

    fn push_label(out: &mut Vec<u8>, col: usize)
        requires
            col < MAX_COLUMNS,
        ensures
            final(out)@ == old(out)@ + col_label(col as int),
    {
        if col < 26 {
            out.push(65 + col as u8);
        } else {
            out.push((65 + col / 26 - 1) as u8);
            out.push((65 + col % 26) as u8);
        }
        assert(out@ =~= old(out)@ + col_label(col as int));
    }

    fn push_cell(
        out: &mut Vec<u8>,
        strings: &mut Strings,
        count: &mut u128,
        col: usize,
        row: u128,
        v: ValueType<'_>,
    )
        requires
            old(strings).wf(),
            col < MAX_COLUMNS,
            *old(count) < u128::MAX,
        ensures
            final(strings).wf(),
            (Sheet {
                bytes: final(out)@,
                table: final(strings).table(),
                count: *final(count) as nat,
            }) == with_value(
                Sheet {
                    bytes: old(out)@,
                    table: old(strings).table(),
                    count: *old(count) as nat,
                },
                col as int,
                row as nat,
                v@,
            ),
    {
        push_str(out, "<c r=\"");
        FormatXLSX::push_label(out, col);
        push_decimal(out, row);
        let ghost opened = out@;
        assert(opened =~= old(out)@ + cell_open(col as int, row as nat));
        match v {
            ValueType::String(t) => {
                let place = strings.intern(t);
                *count = *count + 1;
                push_str(out, "\" s=\"0\" t=\"s\"><v>");
                push_decimal(out, place as u128);
                push_str(out, "</v></c>");
                assert(out@ =~= old(out)@ + text_cell(col as int, row as nat, place as int));
            },
            ValueType::Money(m) => {
                push_str(out, "\" s=\"1\" t=\"n\"><v>");
                push_money(out, m);
                push_str(out, "</v></c>");
                assert(out@ =~= old(out)@ + money_cell(col as int, row as nat, m.units as int));
            },
            ValueType::Index(n) => {
                push_str(out, "\" s=\"3\" t=\"n\"><v>");
                push_decimal(out, n as u128);
                push_str(out, "</v></c>");
                assert(out@ =~= old(out)@ + index_cell(col as int, row as nat, n as nat));
            },
        }
    }

    fn push_row_open(out: &mut Vec<u8>, row: u128)
        ensures
            final(out)@ == old(out)@ + row_open(row as nat),
    {
        push_str(
            out,
            "<row collapsed=\"false\" customFormat=\"false\" customHeight=\"false\" hidden=\"false\" ht=\"12.1\" outlineLevel=\"0\" r=\"",
        );
        push_decimal(out, row);
        push_str(out, "\">");
        assert(out@ =~= old(out)@ + row_open(row as nat));
    }

    /// The sheet and the table of strings of the given items with the given
    /// columns; `None` where there is no column or there are more columns
    /// than letters from A to ZZ can name.
    pub fn write(items: &Vec<PriceItem>, cols: &Vec<ItemShow>) -> (r: Option<(Vec<u8>, Vec<u8>)>)
        ensures
            match r {
                Some(parts) => {
                    &&& 0 < cols@.len() <= MAX_COLUMNS
                    &&& parts.0@ == sheet_of(items@, cols@).bytes
                    &&& parts.1@ == strings_part(
                        sheet_of(items@, cols@).table,
                        sheet_of(items@, cols@).count,
                    )
                },
                None => cols@.len() == 0 || cols@.len() > MAX_COLUMNS,
            },
    {
        if cols.len() == 0 || cols.len() > MAX_COLUMNS {
            return None;
        }
        let mut out: Vec<u8> = Vec::new();
        let mut strings = Strings::new();
        let mut count: u128 = 0;
        push_str(&mut out, SHEET_HEAD);
        FormatXLSX::push_label(&mut out, cols.len() - 1);
        push_decimal(&mut out, items.len() as u128 + 1);
        push_str(&mut out, SHEET_OPEN);
        FormatXLSX::push_row_open(&mut out, 1);
        let ghost start = Sheet { bytes: out@, table: strings.table(), count: 0 };
        assert(start.bytes =~= utf8(SHEET_HEAD@) + col_label(cols@.len() - 1) + digits(
            (items@.len() + 1) as nat,
        ) + utf8(SHEET_OPEN@) + row_open(1));
        let mut j: usize = 0;
        assert(cols@.take(0) =~= Seq::<ItemShow>::empty());
        while j < cols.len()
            invariant
                j <= cols@.len() <= MAX_COLUMNS,
                strings.wf(),
                count <= j,
                (Sheet { bytes: out@, table: strings.table(), count: count as nat }) == with_names(
                    start,
                    cols@.take(j as int),
                ),
            decreases cols@.len() - j,
        {
            proof {
                assert(cols@.take(j + 1).drop_last() =~= cols@.take(j as int));
                assert(cols@.take(j + 1).last() == cols@[j as int]);
            }
            FormatXLSX::push_cell(
                &mut out,
                &mut strings,
                &mut count,
                j,
                1,
                ValueType::String(cols[j].name),
            );
            j += 1;
        }
        assert(cols@.take(cols@.len() as int) =~= cols@);
        push_str(&mut out, "</row>");
        let ghost named = more(with_names(start, cols@), utf8("</row>"@));
        let mut i: usize = 0;
        assert(items@.take(0) =~= Seq::<PriceItem>::empty());
        while i < items.len()
            invariant
                i <= items@.len(),
                0 < cols@.len() <= MAX_COLUMNS,
                strings.wf(),
                count <= (i + 1) * MAX_COLUMNS,
                (Sheet { bytes: out@, table: strings.table(), count: count as nat }) == with_rows(
                    named,
                    items@.take(i as int),
                    cols@,
                ),
            decreases items@.len() - i,
        {
            proof {
                assert(items@.take(i + 1).drop_last() =~= items@.take(i as int));
                assert(items@.take(i + 1).last() == items@[i as int]);
            }
            let row: u128 = i as u128 + 2;
            FormatXLSX::push_row_open(&mut out, row);
            let ghost opened = more(with_rows(named, items@.take(i as int), cols@), row_open(
                row as nat,
            ));
            let mut c: usize = 0;
            assert(cols@.take(0) =~= Seq::<ItemShow>::empty());
            while c < cols.len()
                invariant
                    c <= cols@.len() <= MAX_COLUMNS,
                    i < items@.len(),
                    row == i + 2,
                    strings.wf(),
                    count <= (i + 1) * MAX_COLUMNS + c,
                    (Sheet { bytes: out@, table: strings.table(), count: count as nat })
                        == with_cells(opened, items@[i as int], cols@.take(c as int), row as nat),
                decreases cols@.len() - c,
            {
                proof {
                    assert(cols@.take(c + 1).drop_last() =~= cols@.take(c as int));
                    assert(cols@.take(c + 1).last() == cols@[c as int]);
                }
                FormatXLSX::push_cell(
                    &mut out,
                    &mut strings,
                    &mut count,
                    c,
                    row,
                    items[i].value(cols[c].column),
                );
                c += 1;
            }
            assert(cols@.take(cols@.len() as int) =~= cols@);
            push_str(&mut out, "</row>");
            i += 1;
        }
        assert(items@.take(items@.len() as int) =~= items@);
        push_str(&mut out, SHEET_TAIL);
        let shared = FormatXLSX::strings(&strings, count);
        Some((out, shared))
    }

    fn strings(strings: &Strings, count: u128) -> (r: Vec<u8>)
        ensures
            r@ == strings_part(strings.table(), count as nat),
    {
        let mut out: Vec<u8> = Vec::new();
        push_str(&mut out, SST_HEAD);
        push_decimal(&mut out, count);
        push_str(&mut out, SST_MID);
        push_decimal(&mut out, strings.list.len() as u128);
        push_str(&mut out, SST_OPEN);
        let ghost base = out@;
        let ghost table = strings.table();
        let mut i: usize = 0;
        assert(table.take(0) =~= Seq::<Seq<char>>::empty());
        while i < strings.list.len()
            invariant
                i <= strings.list@.len(),
                table == strings.table(),
                out@ == base + string_entries(table.take(i as int)),
            decreases strings.list@.len() - i,
        {
            proof {
                assert(table.take(i + 1).drop_last() =~= table.take(i as int));
                assert(table.take(i + 1).last() == strings.list@[i as int]@);
            }
            push_str(&mut out, "<si><t>");
            push_xml_escaped(&mut out, strings.list[i].as_str());
            push_str(&mut out, "</t></si>");
            assert(out@ =~= base + string_entries(table.take(i + 1)));
            i += 1;
        }
        assert(table.take(table.len() as int) =~= table);
        push_str(&mut out, "</sst>");
        assert(out@ =~= strings_part(strings.table(), count as nat));
        out
    }

    fn file(name: &'static str, text: &str) -> (p: Part)
        ensures
            p.name == name,
            !p.directory,
            p.data@ == utf8(text@),
    {
        let mut data: Vec<u8> = Vec::new();
        push_str(&mut data, text);
        assert(data@ =~= utf8(text@));
        Part { name, directory: false, data }
    }

    fn directory(name: &'static str) -> (p: Part)
        ensures
            p.name == name,
            p.directory,
            p.data@.len() == 0,
    {
        Part { name, directory: true, data: Vec::new() }
    }

    /// The parts of the workbook of the given items for a variant of the
    /// list and a user's capabilities, in the order in which the package
    /// holds them; `created` is the moment of its making.
    pub fn make(
        items: &Vec<PriceItem>,
        volume: PriceVolume,
        rozn: bool,
        r3: bool,
        ean: bool,
        created: &str,
    ) -> (r: Option<Vec<Part>>)
        ensures
            ({
                let cols = shown_columns(volume, rozn, r3, ean);
                match r {
                    Some(parts) => {
                        &&& 0 < cols.len() <= MAX_COLUMNS
                        &&& parts@.len() == 14
                        &&& parts@[0].name == "[Content_Types].xml" && parts@[0].data@ == utf8(
                            CONTENT_TYPES@,
                        )
                        &&& parts@[1].name == "_rels" && parts@[1].directory
                        &&& parts@[2].name == "_rels/.rels" && parts@[2].data@ == utf8(RELS@)
                        &&& parts@[3].name == "docProps" && parts@[3].directory
                        &&& parts@[4].name == "docProps/app.xml" && parts@[4].data@ == utf8(APP@)
                        &&& parts@[5].name == "docProps/core.xml" && parts@[5].data@ == core_part(
                            created@,
                        )
                        &&& parts@[6].name == "xl" && parts@[6].directory
                        &&& parts@[7].name == "xl/_rels" && parts@[7].directory
                        &&& parts@[8].name == "xl/_rels/workbook.xml.rels" && parts@[8].data@
                            == utf8(WORKBOOK_RELS@)
                        &&& parts@[9].name == "xl/worksheets" && parts@[9].directory
                        &&& parts@[10].name == "xl/worksheets/sheet1.xml" && parts@[10].data@
                            == sheet_of(items@, cols).bytes
                        &&& parts@[11].name == "xl/workbook.xml" && parts@[11].data@ == utf8(
                            WORKBOOK@,
                        )
                        &&& parts@[12].name == "xl/styles.xml" && parts@[12].data@ == utf8(STYLES@)
                        &&& parts@[13].name == "xl/sharedStrings.xml" && parts@[13].data@
                            == strings_part(
                            sheet_of(items@, cols).table,
                            sheet_of(items@, cols).count,
                        )
                        &&& forall|i: int|
                            0 <= i < 14 ==> (#[trigger] parts@[i]).directory == (i == 1 || i == 3
                                || i == 6 || i == 7 || i == 9)
                    },
                    None => cols.len() == 0 || cols.len() > MAX_COLUMNS,
                }
            }),
    {
        let cols = select(volume, rozn, r3, ean);
        let (sheet, shared) = match FormatXLSX::write(items, &cols) {
            Some(p) => p,
            None => return None,
        };
        let mut core: Vec<u8> = Vec::new();
        push_str(&mut core, CORE_HEAD);
        push_str(&mut core, created);
        push_str(&mut core, CORE_TAIL);
        assert(core@ =~= core_part(created@));
        let mut parts: Vec<Part> = Vec::with_capacity(14);
        parts.push(FormatXLSX::file("[Content_Types].xml", CONTENT_TYPES));
        parts.push(FormatXLSX::directory("_rels"));
        parts.push(FormatXLSX::file("_rels/.rels", RELS));
        parts.push(FormatXLSX::directory("docProps"));
        parts.push(FormatXLSX::file("docProps/app.xml", APP));
        parts.push(Part { name: "docProps/core.xml", directory: false, data: core });
        parts.push(FormatXLSX::directory("xl"));
        parts.push(FormatXLSX::directory("xl/_rels"));
        parts.push(FormatXLSX::file("xl/_rels/workbook.xml.rels", WORKBOOK_RELS));
        parts.push(FormatXLSX::directory("xl/worksheets"));
        parts.push(Part { name: "xl/worksheets/sheet1.xml", directory: false, data: sheet });
        parts.push(FormatXLSX::file("xl/workbook.xml", WORKBOOK));
        parts.push(FormatXLSX::file("xl/styles.xml", STYLES));
        parts.push(Part { name: "xl/sharedStrings.xml", directory: false, data: shared });
        Some(parts)
    }
}

} // verus!
