//! The price list in the serialized form of PHP: an array of the items by
//! id, each an array of its columns by name.

use crate::param::PriceVolume;
use crate::price::PriceItem;
use crate::show::{column_value, select, shown_columns, ItemShow, Value, ValueType};
use crate::text::{digits, money_digits, push_decimal, push_money, push_str, utf8};
use vstd::prelude::*;
use vstd::string::*;

verus! {

/// A text: `s:`, its length in bytes, `:`, the text in quotes, `;`.
pub open spec fn php_text(t: Seq<char>) -> Seq<u8> {
    seq![115u8, 58u8] + digits(utf8(t).len()) + seq![58u8, 34u8] + utf8(t) + seq![34u8, 59u8]
}

/// A value: a text as above, an amount as `d:` with two fractional digits,
/// an index as `i:` with a whole number.
pub open spec fn php_value(v: Value) -> Seq<u8> {
    match v {
        Value::Text(t) => php_text(t),
        Value::Money(m) => seq![100u8, 58u8] + money_digits(m.units as int) + seq![59u8],
        Value::Index(n) => seq![105u8, 58u8] + digits(n as nat) + seq![59u8],
    }
}

/// The entries of an item's array: each column's name and value.
pub open spec fn php_fields(item: PriceItem, cols: Seq<ItemShow>) -> Seq<u8>
    decreases cols.len(),
{
    if cols.len() == 0 {
        Seq::empty()
    } else {
        php_fields(item, cols.drop_last()) + php_text(cols.last().name@) + php_value(
            column_value(item, cols.last().column),
        )
    }
}

/// The entry of one item: its id and the array of its columns.
pub open spec fn php_item(item: PriceItem, cols: Seq<ItemShow>) -> Seq<u8> {
    seq![105u8, 58u8] + digits(item.id as nat) + seq![59u8, 97u8, 58u8] + digits(cols.len())
        + seq![58u8, 123u8] + php_fields(item, cols) + seq![125u8]
}

pub open spec fn php_items(items: Seq<PriceItem>, cols: Seq<ItemShow>) -> Seq<u8>
    decreases items.len(),
{
    if items.len() == 0 {
        Seq::empty()
    } else {
        php_items(items.drop_last(), cols) + php_item(items.last(), cols)
    }
}

/// The whole file.
pub open spec fn php_file(items: Seq<PriceItem>, cols: Seq<ItemShow>) -> Seq<u8> {
    seq![97u8, 58u8] + digits(items.len()) + seq![58u8, 123u8] + php_items(items, cols) + seq![
        125u8,
    ]
}

pub struct FormatPHP {}

impl FormatPHP {
    fn push_text(out: &mut Vec<u8>, t: &str)
        ensures
            final(out)@ == old(out)@ + php_text(t@),
    {
        out.push(115);
        out.push(58);
        let b = t.as_bytes();
        push_decimal(out, b.len() as u128);
        out.push(58);
        out.push(34);
        push_str(out, t);
        out.push(34);
        out.push(59);
        assert(out@ =~= old(out)@ + php_text(t@));
    }

    fn push_value(out: &mut Vec<u8>, v: ValueType<'_>)
        ensures
            final(out)@ == old(out)@ + php_value(v@),
    {
        match v {
            ValueType::String(t) => {
                FormatPHP::push_text(out, t);
            },
            ValueType::Money(m) => {
                out.push(100);
                out.push(58);
                push_money(out, m);
                out.push(59);
                assert(out@ =~= old(out)@ + php_value(v@));
            },
            ValueType::Index(n) => {
                out.push(105);
                out.push(58);
                push_decimal(out, n as u128);
                out.push(59);
                assert(out@ =~= old(out)@ + php_value(v@));
            },
        }
    }

    fn push_item(out: &mut Vec<u8>, item: &PriceItem, cols: &Vec<ItemShow>)
        ensures
            final(out)@ == old(out)@ + php_item(*item, cols@),
    {
        out.push(105);
        out.push(58);
        push_decimal(out, item.id as u128);
        out.push(59);
        out.push(97);
        out.push(58);
        push_decimal(out, cols.len() as u128);
        out.push(58);
        out.push(123);
        let ghost base = out@;
        assert(base =~= old(out)@ + (seq![105u8, 58u8] + digits(item.id as nat) + seq![
            59u8,
            97u8,
            58u8,
        ] + digits(cols@.len()) + seq![58u8, 123u8]));
        let mut j: usize = 0;
        assert(cols@.take(0) =~= Seq::<ItemShow>::empty());
        while j < cols.len()
            invariant
                j <= cols@.len(),
                out@ == base + php_fields(*item, cols@.take(j as int)),
            decreases cols@.len() - j,
        {
            proof {
                assert(cols@.take(j + 1).drop_last() =~= cols@.take(j as int));
                assert(cols@.take(j + 1).last() == cols@[j as int]);
            }
            FormatPHP::push_text(out, cols[j].name);
            FormatPHP::push_value(out, item.value(cols[j].column));
            assert(out@ =~= base + php_fields(*item, cols@.take(j + 1)));
            j += 1;
        }
        assert(cols@.take(cols@.len() as int) =~= cols@);
        out.push(125);
        assert(out@ =~= old(out)@ + php_item(*item, cols@));
    }

    /// The file of the given items with the given columns.
    pub fn write(items: &Vec<PriceItem>, cols: &Vec<ItemShow>) -> (r: Vec<u8>)
        ensures
            r@ == php_file(items@, cols@),
    {
        let mut out: Vec<u8> = Vec::new();
        out.push(97);
        out.push(58);
        push_decimal(&mut out, items.len() as u128);
        out.push(58);
        out.push(123);
        let ghost base = out@;
        assert(base =~= seq![97u8, 58u8] + digits(items@.len()) + seq![58u8, 123u8]);
        let mut i: usize = 0;
        assert(items@.take(0) =~= Seq::<PriceItem>::empty());
        while i < items.len()
            invariant
                i <= items@.len(),
                out@ == base + php_items(items@.take(i as int), cols@),
            decreases items@.len() - i,
        {
            proof {
                assert(items@.take(i + 1).drop_last() =~= items@.take(i as int));
                assert(items@.take(i + 1).last() == items@[i as int]);
            }
            FormatPHP::push_item(&mut out, &items[i], cols);
            assert(out@ =~= base + php_items(items@.take(i + 1), cols@));
            i += 1;
        }
        assert(items@.take(items@.len() as int) =~= items@);
        out.push(125);
        assert(out@ =~= php_file(items@, cols@));
        out
    }

    /// The file of the given items for a variant of the list and a user's
    /// capabilities.
    pub fn make(items: &Vec<PriceItem>, volume: PriceVolume, rozn: bool, r3: bool, ean: bool) -> (r:
        Vec<u8>)
        ensures
            r@ == php_file(items@, shown_columns(volume, rozn, r3, ean)),
    {
        let cols = select(volume, rozn, r3, ean);
        FormatPHP::write(items, &cols)
    }
}

} // verus!
