//! The price list as an XML document: the tree of categories, where the
//! variant of the list has it, and one element per item whose attributes are
//! the columns.

use crate::param::PriceVolume;
use crate::price::PriceItem;
use crate::show::{column_value, select, shown_columns, ItemShow, Value, ValueType};
use crate::text::{digits, money_digits, push_decimal, push_money, push_str, utf8};
use vstd::prelude::*;
use vstd::string::*;

verus! {

/// A category of the catalog and the category above it.
pub struct Category {
    pub id: u32,
    pub name: String,
    pub parent_id: u32,
}

/// What stands in XML for one byte of a text.
pub open spec fn xml_byte(b: u8) -> Seq<u8> {
    if b == 38 {
        seq![38u8, 97u8, 109u8, 112u8, 59u8]
    } else if b == 34 {
        seq![38u8, 113u8, 117u8, 111u8, 116u8, 59u8]
    } else if b == 39 {
        seq![38u8, 97u8, 112u8, 111u8, 115u8, 59u8]
    } else if b == 60 {
        seq![38u8, 108u8, 116u8, 59u8]
    } else if b == 62 {
        seq![38u8, 103u8, 116u8, 59u8]
    } else {
        seq![b]
    }
}

/// A text with ampersand, quote, apostrophe and angle brackets escaped.
pub open spec fn xml_escaped(s: Seq<u8>) -> Seq<u8>
    decreases s.len(),
{
    if s.len() == 0 {
        Seq::empty()
    } else {
        xml_escaped(s.drop_last()) + xml_byte(s.last())
    }
}

/// Appends a text, escaped for XML.
pub fn push_xml_escaped(out: &mut Vec<u8>, val: &str)
    ensures
        final(out)@ == old(out)@ + xml_escaped(utf8(val@)),
{
    let b = val.as_bytes();
    let mut i: usize = 0;
    assert(b@.take(0) =~= Seq::<u8>::empty());
    while i < b.len()
        invariant
            i <= b@.len(),
            b@ == utf8(val@),
            out@ == old(out)@ + xml_escaped(b@.take(i as int)),
        decreases b@.len() - i,
    {
        let c = b[i];
        proof {
            assert(b@.take(i + 1).drop_last() =~= b@.take(i as int));
            assert(b@.take(i + 1).last() == c);
        }
        let ghost before = out@;
        if c == 38 {
            out.push(38);
            out.push(97);
            out.push(109);
            out.push(112);
            out.push(59);
        } else if c == 34 {
            out.push(38);
            out.push(113);
            out.push(117);
            out.push(111);
            out.push(116);
            out.push(59);
        } else if c == 39 {
            out.push(38);
            out.push(97);
            out.push(112);
            out.push(111);
            out.push(115);
            out.push(59);
        } else if c == 60 {
            out.push(38);
            out.push(108);
            out.push(116);
            out.push(59);
        } else if c == 62 {
            out.push(38);
            out.push(103);
            out.push(116);
            out.push(59);
        } else {
            out.push(c);
        }
        assert(out@ =~= before + xml_byte(c));
        assert(out@ =~= old(out)@ + xml_escaped(b@.take(i + 1)));
        i += 1;
    }
    assert(b@.take(b@.len() as int) =~= b@);
}

/// A value as the text of an attribute.
pub open spec fn xml_value(v: Value) -> Seq<u8> {
    match v {
        Value::Text(t) => xml_escaped(utf8(t)),
        Value::Money(m) => money_digits(m.units as int),
        Value::Index(n) => digits(n as nat),
    }
}

/// One attribute: a blank, the name, and the value in quotes.
pub open spec fn xml_attribute(item: PriceItem, col: ItemShow) -> Seq<u8> {
    seq![32u8] + xml_escaped(utf8(col.name@)) + seq![61u8, 34u8] + xml_value(
        column_value(item, col.column),
    ) + seq![34u8]
}

pub open spec fn xml_attributes(item: PriceItem, cols: Seq<ItemShow>) -> Seq<u8>
    decreases cols.len(),
{
    if cols.len() == 0 {
        Seq::empty()
    } else {
        xml_attributes(item, cols.drop_last()) + xml_attribute(item, cols.last())
    }
}

/// The element of one item.
pub open spec fn xml_product(item: PriceItem, cols: Seq<ItemShow>) -> Seq<u8> {
    utf8("<product"@) + xml_attributes(item, cols) + utf8("/>"@)
}

pub open spec fn xml_products(items: Seq<PriceItem>, cols: Seq<ItemShow>) -> Seq<u8>
    decreases items.len(),
{
    if items.len() == 0 {
        Seq::empty()
    } else {
        xml_products(items.drop_last(), cols) + xml_product(items.last(), cols)
    }
}

/// The whole document; `categories` is the tree of categories or nothing.
pub open spec fn xml_file(categories: Seq<u8>, items: Seq<PriceItem>, cols: Seq<ItemShow>) -> Seq<
    u8,
> {
    utf8("<?xml version=\"1.0\" encoding=\"UTF-8\"?>\n<price>"@) + categories + utf8(
        "<products>"@,
    ) + xml_products(items, cols) + utf8("</products></price>"@)
}

/// The opening of a category's element up to the end of its name.
pub open spec fn xml_node_head(tag: Seq<char>, c: Category) -> Seq<u8> {
    seq![60u8] + utf8(tag) + utf8(" id=\""@) + digits(c.id as nat) + utf8("\" name=\""@)
        + xml_escaped(utf8(c.name@))
}

/// The element of a category: `tag`, its id and name, and `inner` between
/// the tags where there is any.
pub open spec fn xml_node(tag: Seq<char>, c: Category, inner: Seq<u8>) -> Seq<u8> {
    let head = xml_node_head(tag, c);
    if inner.len() == 0 {
        head + utf8("\"/>"@)
    } else {
        head + utf8("\">"@) + inner + utf8("</"@) + utf8(tag) + seq![62u8]
    }
}

/// The elements of the first `n` categories that lie directly under `id`,
/// each with what lies under it, down to `depth` levels.
pub open spec fn xml_tree(cat: Seq<Category>, id: u32, depth: nat, n: nat) -> Seq<u8>
    decreases depth, n,
{
    if depth == 0 || n == 0 || n > cat.len() {
        Seq::empty()
    } else {
        let c = cat[n - 1];
        xml_tree(cat, id, depth, (n - 1) as nat) + if c.parent_id == id {
            xml_node("subcategory"@, c, xml_tree(cat, c.id, (depth - 1) as nat, cat.len()))
        } else {
            Seq::empty()
        }
    }
}

/// The elements of the first `n` categories that lie directly under the
/// root, which has the id 1.
pub open spec fn xml_roots(cat: Seq<Category>, n: nat) -> Seq<u8>
    decreases n,
{
    if n == 0 || n > cat.len() {
        Seq::empty()
    } else {
        let c = cat[n - 1];
        xml_roots(cat, (n - 1) as nat) + if c.parent_id == 1 {
            xml_node("category"@, c, xml_tree(cat, c.id, cat.len(), cat.len()))
        } else {
            Seq::empty()
        }
    }
}

/// The tree of categories.
pub open spec fn xml_categories(cat: Seq<Category>) -> Seq<u8> {
    utf8("<categories>"@) + xml_roots(cat, cat.len()) + utf8("</categories>"@)
}

pub struct FormatXml {}

impl FormatXml {
    /// Escapes a text for XML.
    pub fn escape_xml(val: &str) -> (r: Vec<u8>)
        ensures
            r@ == xml_escaped(utf8(val@)),
    {
        let mut out: Vec<u8> = Vec::new();
        push_xml_escaped(&mut out, val);
        assert(out@ =~= xml_escaped(utf8(val@)));
        out
    }

    fn push_node_head(out: &mut Vec<u8>, tag: &str, c: &Category)
        ensures
            final(out)@ == old(out)@ + xml_node_head(tag@, *c),
    {
        out.push(60);
        push_str(out, tag);
        push_str(out, " id=\"");
        push_decimal(out, c.id as u128);
        push_str(out, "\" name=\"");
        push_xml_escaped(out, c.name.as_str());
        assert(out@ =~= old(out)@ + xml_node_head(tag@, *c));
    }

    fn push_node(out: &mut Vec<u8>, tag: &str, c: &Category, inner: &Vec<u8>)
        ensures
            final(out)@ == old(out)@ + xml_node(tag@, *c, inner@),
    {
        FormatXml::push_node_head(out, tag, c);
        if inner.len() == 0 {
            push_str(out, "\"/>");
        } else {
            push_str(out, "\">");
            out.extend_from_slice(inner.as_slice());
            push_str(out, "</");
            push_str(out, tag);
            out.push(62);
        }
        assert(out@ =~= old(out)@ + xml_node(tag@, *c, inner@));
    }

    /// The elements of the categories that lie directly under `id`, each
    /// with what lies under it, down to `depth` levels. A tree without
    /// cycles is no deeper than it has categories.
    pub fn build_tree_cat(cat: &Vec<Category>, id: u32, depth: usize) -> (r: Vec<u8>)
        ensures
            r@ == xml_tree(cat@, id, depth as nat, cat@.len()),
        decreases depth,
    {
        let mut out: Vec<u8> = Vec::new();
        if depth == 0 {
            return out;
        }
        let mut i: usize = 0;
        while i < cat.len()
            invariant
                i <= cat@.len(),
                depth > 0,
                out@ == xml_tree(cat@, id, depth as nat, i as nat),
            decreases cat@.len() - i,
        {
            if cat[i].parent_id == id {
                let inner = FormatXml::build_tree_cat(cat, cat[i].id, depth - 1);
                FormatXml::push_node(&mut out, "subcategory", &cat[i], &inner);
            }
            assert(out@ =~= xml_tree(cat@, id, depth as nat, (i + 1) as nat));
            i += 1;
        }
        out
    }

    /// The tree of categories, from those directly under the root down.
    pub fn get_categories(cat: &Vec<Category>) -> (r: Vec<u8>)
        ensures
            r@ == xml_categories(cat@),
    {
        let mut out: Vec<u8> = Vec::new();
        push_str(&mut out, "<categories>");
        let ghost base = out@;
        let mut i: usize = 0;
        while i < cat.len()
            invariant
                i <= cat@.len(),
                out@ == base + xml_roots(cat@, i as nat),
            decreases cat@.len() - i,
        {
            if cat[i].parent_id == 1 {
                let inner = FormatXml::build_tree_cat(cat, cat[i].id, cat.len());
                FormatXml::push_node(&mut out, "category", &cat[i], &inner);
            }
            assert(out@ =~= base + xml_roots(cat@, (i + 1) as nat));
            i += 1;
        }
        push_str(&mut out, "</categories>");
        assert(out@ =~= xml_categories(cat@));
        out
    }

    fn push_attribute(out: &mut Vec<u8>, item: &PriceItem, col: &ItemShow)
        ensures
            final(out)@ == old(out)@ + xml_attribute(*item, *col),
    {
        out.push(32);
        push_xml_escaped(out, col.name);
        out.push(61);
        out.push(34);
        let ghost mid = out@;
        assert(mid =~= old(out)@ + (seq![32u8] + xml_escaped(utf8(col.name@)) + seq![61u8, 34u8]));
        match item.value(col.column) {
            ValueType::String(v) => {
                push_xml_escaped(out, v);
            },
            ValueType::Money(v) => {
                push_money(out, v);
            },
            ValueType::Index(v) => {
                push_decimal(out, v as u128);
            },
        }
        out.push(34);
        assert(out@ =~= old(out)@ + xml_attribute(*item, *col));
    }

    fn push_product(out: &mut Vec<u8>, item: &PriceItem, cols: &Vec<ItemShow>)
        ensures
            final(out)@ == old(out)@ + xml_product(*item, cols@),
    {
        push_str(out, "<product");
        let ghost base = out@;
        let mut j: usize = 0;
        assert(cols@.take(0) =~= Seq::<ItemShow>::empty());
        while j < cols.len()
            invariant
                j <= cols@.len(),
                out@ == base + xml_attributes(*item, cols@.take(j as int)),
            decreases cols@.len() - j,
        {
            proof {
                assert(cols@.take(j + 1).drop_last() =~= cols@.take(j as int));
                assert(cols@.take(j + 1).last() == cols@[j as int]);
            }
            FormatXml::push_attribute(out, item, &cols[j]);
            assert(out@ =~= base + xml_attributes(*item, cols@.take(j + 1)));
            j += 1;
        }
        assert(cols@.take(cols@.len() as int) =~= cols@);
        push_str(out, "/>");
        assert(out@ =~= old(out)@ + xml_product(*item, cols@));
    }

    /// The document of the given items with the given columns and tree of
    /// categories.
    pub fn write(categories: &Vec<u8>, items: &Vec<PriceItem>, cols: &Vec<ItemShow>) -> (r: Vec<u8>)
        ensures
            r@ == xml_file(categories@, items@, cols@),
    {
        let mut out: Vec<u8> = Vec::new();
        push_str(&mut out, "<?xml version=\"1.0\" encoding=\"UTF-8\"?>\n<price>");
        out.extend_from_slice(categories.as_slice());
        push_str(&mut out, "<products>");
        let ghost base = out@;
        assert(base =~= utf8("<?xml version=\"1.0\" encoding=\"UTF-8\"?>\n<price>"@)
            + categories@ + utf8("<products>"@));
        let mut i: usize = 0;
        assert(items@.take(0) =~= Seq::<PriceItem>::empty());
        while i < items.len()
            invariant
                i <= items@.len(),
                out@ == base + xml_products(items@.take(i as int), cols@),
            decreases items@.len() - i,
        {
            proof {
                assert(items@.take(i + 1).drop_last() =~= items@.take(i as int));
                assert(items@.take(i + 1).last() == items@[i as int]);
            }
            FormatXml::push_product(&mut out, &items[i], cols);
            assert(out@ =~= base + xml_products(items@.take(i + 1), cols@));
            i += 1;
        }
        assert(items@.take(items@.len() as int) =~= items@);
        push_str(&mut out, "</products></price>");
        assert(out@ =~= xml_file(categories@, items@, cols@));
        out
    }

    /// Whether a variant of the list carries the tree of categories.
    pub open spec fn with_categories(volume: PriceVolume) -> bool {
        volume == PriceVolume::Local || volume == PriceVolume::Full
    }

    /// The document of the given items for a variant of the list and a
    /// user's capabilities. The short variant and the one in hryvnias carry
    /// no tree of categories.
    pub fn make(
        items: &Vec<PriceItem>,
        volume: PriceVolume,
        rozn: bool,
        r3: bool,
        ean: bool,
        cat: &Vec<Category>,
    ) -> (r: Vec<u8>)
        ensures
            r@ == xml_file(
                if FormatXml::with_categories(volume) {
                    xml_categories(cat@)
                } else {
                    Seq::empty()
                },
                items@,
                shown_columns(volume, rozn, r3, ean),
            ),
    {
        let categories = match volume {
            PriceVolume::Local | PriceVolume::Full => FormatXml::get_categories(cat),
            _ => Vec::new(),
        };
        let cols = select(volume, rozn, r3, ean);
        FormatXml::write(&categories, items, &cols)
    }
}

// ------------------------------------------------------------ reading back

/// `e` begins with `p`.
pub open spec fn begins(e: Seq<u8>, p: Seq<u8>) -> bool {
    e.len() >= p.len() && e.subrange(0, p.len() as int) == p
}

/// What a reader makes of a text that holds no entity but the five written
/// here: each entity is one byte.
pub open spec fn xml_unescaped(e: Seq<u8>) -> Seq<u8>
    decreases e.len(),
{
    if e.len() == 0 {
        Seq::empty()
    } else if begins(e, xml_byte(38)) {
        seq![38u8] + xml_unescaped(e.subrange(5, e.len() as int))
    } else if begins(e, xml_byte(34)) {
        seq![34u8] + xml_unescaped(e.subrange(6, e.len() as int))
    } else if begins(e, xml_byte(39)) {
        seq![39u8] + xml_unescaped(e.subrange(6, e.len() as int))
    } else if begins(e, xml_byte(60)) {
        seq![60u8] + xml_unescaped(e.subrange(4, e.len() as int))
    } else if begins(e, xml_byte(62)) {
        seq![62u8] + xml_unescaped(e.subrange(4, e.len() as int))
    } else {
        seq![e[0]] + xml_unescaped(e.subrange(1, e.len() as int))
    }
}

/// Escaping goes byte by byte from the left as well.
pub proof fn lemma_xml_escaped_from_left(x: u8, rest: Seq<u8>)
    ensures
        xml_escaped(seq![x] + rest) == xml_byte(x) + xml_escaped(rest),
    decreases rest.len(),
{
    if rest.len() == 0 {
        assert(seq![x] + rest =~= seq![x]);
        assert(seq![x].drop_last() =~= Seq::<u8>::empty());
        assert(seq![x].last() == x);
        assert(xml_escaped(Seq::<u8>::empty()) =~= Seq::<u8>::empty());
        assert(xml_escaped(seq![x]) =~= xml_byte(x));
        assert(xml_byte(x) + xml_escaped(rest) =~= xml_byte(x));
    } else {
        lemma_xml_escaped_from_left(x, rest.drop_last());
        assert((seq![x] + rest).drop_last() =~= seq![x] + rest.drop_last());
        assert((seq![x] + rest).last() == rest.last());
        assert(xml_byte(x) + xml_escaped(rest.drop_last()) + xml_byte(rest.last()) =~= xml_byte(x)
            + xml_escaped(rest));
    }
}

/// A reader gets back the text that was escaped.
pub proof fn lemma_xml_round_trip(s: Seq<u8>)
    ensures
        xml_unescaped(xml_escaped(s)) == s,
    decreases s.len(),
{
    if s.len() > 0 {
        let x = s[0];
        let rest = s.subrange(1, s.len() as int);
        assert(s =~= seq![x] + rest);
        lemma_xml_escaped_from_left(x, rest);
        lemma_xml_round_trip(rest);
        let e = xml_escaped(s);
        let tail = xml_escaped(rest);
        let head = xml_byte(x);
        assert(e == head + tail);
        assert(e.subrange(head.len() as int, e.len() as int) =~= tail);
        assert(e.subrange(0, head.len() as int) =~= head);
        assert(e[0] == head[0]);
        if x == 38 {
            assert(begins(e, xml_byte(38)));
        } else if x == 34 {
            assert(e[1] == 113);
            assert(!begins(e, xml_byte(38))) by {
                if begins(e, xml_byte(38)) {
                    assert(e.subrange(0, 5)[1] == xml_byte(38)[1]);
                }
            }
            assert(begins(e, xml_byte(34)));
        } else if x == 39 {
            assert(e[1] == 97 && e[2] == 112);
            assert(!begins(e, xml_byte(38))) by {
                if begins(e, xml_byte(38)) {
                    assert(e.subrange(0, 5)[2] == xml_byte(38)[2]);
                }
            }
            assert(!begins(e, xml_byte(34))) by {
                if begins(e, xml_byte(34)) {
                    assert(e.subrange(0, 6)[1] == xml_byte(34)[1]);
                }
            }
            assert(begins(e, xml_byte(39)));
        } else if x == 60 || x == 62 {
            assert(e[1] == 108 || e[1] == 103);
            assert(!begins(e, xml_byte(38))) by {
                if begins(e, xml_byte(38)) {
                    assert(e.subrange(0, 5)[1] == xml_byte(38)[1]);
                }
            }
            assert(!begins(e, xml_byte(34))) by {
                if begins(e, xml_byte(34)) {
                    assert(e.subrange(0, 6)[1] == xml_byte(34)[1]);
                }
            }
            assert(!begins(e, xml_byte(39))) by {
                if begins(e, xml_byte(39)) {
                    assert(e.subrange(0, 6)[1] == xml_byte(39)[1]);
                }
            }
            if x == 60 {
                assert(begins(e, xml_byte(60)));
            } else {
                assert(!begins(e, xml_byte(60))) by {
                    if begins(e, xml_byte(60)) {
                        assert(e.subrange(0, 4)[1] == xml_byte(60)[1]);
                    }
                }
                assert(begins(e, xml_byte(62)));
            }
        } else {
            assert(e[0] == x);
            assert forall|c: u8| c == 38 || c == 34 || c == 39 || c == 60 || c == 62 implies !begins(
                e,
                xml_byte(c),
            ) by {
                if begins(e, xml_byte(c)) {
                    assert(e.subrange(0, xml_byte(c).len() as int)[0] == xml_byte(c)[0]);
                }
            }
        }
        assert(xml_unescaped(e) =~= seq![x] + rest);
    } else {
        assert(xml_escaped(s) =~= Seq::<u8>::empty());
    }
}

/// Escaped text holds no quote, no apostrophe and no angle bracket, so the
/// first quote behind the opening of an attribute's value ends it.
pub proof fn lemma_xml_escaped_is_plain(s: Seq<u8>)
    ensures
        forall|i: int|
            0 <= i < xml_escaped(s).len() ==> {
                let b = #[trigger] xml_escaped(s)[i];
                b != 34 && b != 39 && b != 60 && b != 62
            },
    decreases s.len(),
{
    if s.len() > 0 {
        lemma_xml_escaped_is_plain(s.drop_last());
        let init = xml_escaped(s.drop_last());
        let last = xml_byte(s.last());
        assert(xml_escaped(s) == init + last);
        assert forall|i: int| 0 <= i < xml_escaped(s).len() implies {
            let b = #[trigger] xml_escaped(s)[i];
            b != 34 && b != 39 && b != 60 && b != 62
        } by {
            if i < init.len() {
                assert(xml_escaped(s)[i] == init[i]);
            } else {
                assert(xml_escaped(s)[i] == last[i - init.len()]);
            }
        }
    }
}

} // verus!
