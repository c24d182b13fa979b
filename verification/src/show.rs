//! The columns of a price list: which of them a variant of the list shows,
//! and what each holds of an item.

use crate::decimal::Decimal;
use crate::param::PriceVolume;
use crate::price::PriceItem;
use vstd::prelude::*;
use vstd::string::*;

verus! {

/// What a column holds of an item.
pub enum ValueType<'a> {
    String(&'a str),
    Money(Decimal),
    Index(u32),
}

/// What a value says, without where it is kept.
pub enum Value {
    Text(Seq<char>),
    Money(Decimal),
    Index(u32),
}

impl<'a> View for ValueType<'a> {
    type V = Value;

    open spec fn view(&self) -> Value {
        match self {
            ValueType::String(s) => Value::Text(s@),
            ValueType::Money(m) => Value::Money(*m),
            ValueType::Index(n) => Value::Index(*n),
        }
    }
}

/// The field of an item that a column shows.
#[derive(Debug, Clone, Copy, PartialEq, Eq, Structural)]
pub enum Column {
    CategoryId,
    Code,
    Group,
    Articul,
    Vendor,
    Model,
    Name,
    Description,
    PriceUsd,
    PriceUah,
    PriceInd,
    CategoryName,
    Bonus,
    RecommendedPrice,
    Ddp,
    Warranty,
    Stock,
    Note,
    DayDelivery,
    Id,
    Url,
    Uktved,
    GroupId,
    ClassId,
    ClassName,
    Available,
    Country,
    RetailPrice,
    InternetPrice,
    CostDelivery,
    Exclusive,
    Ean,
    Fop,
}

/// What the column `col` holds of `item`.
pub open spec fn column_value(item: PriceItem, col: Column) -> Value {
    match col {
        Column::CategoryId => Value::Index(item.category_id),
        Column::Code => Value::Text(item.code@),
        Column::Group => Value::Text(item.group@),
        Column::Articul => Value::Text(item.articul@),
        Column::Vendor => Value::Text(item.vendor@),
        Column::Model => Value::Text(item.model@),
        Column::Name => Value::Text(item.name@),
        Column::Description => Value::Text(item.description@),
        Column::PriceUsd => Value::Money(item.price_usd),
        Column::PriceUah => Value::Money(item.price_uah),
        Column::PriceInd => Value::Index(item.price_ind),
        Column::CategoryName => Value::Text(item.category_name@),
        Column::Bonus => Value::Money(item.bonus),
        Column::RecommendedPrice => Value::Money(item.recommended_price),
        Column::Ddp => Value::Text(item.ddp@),
        Column::Warranty => Value::Index(item.warranty),
        Column::Stock => Value::Text(item.stock@),
        Column::Note => Value::Text(item.note@),
        Column::DayDelivery => Value::Text(item.day_delivery@),
        Column::Id => Value::Index(item.id),
        Column::Url => Value::Text(item.url@),
        Column::Uktved => Value::Text(item.uktved@),
        Column::GroupId => Value::Index(item.group_id),
        Column::ClassId => Value::Index(item.class_id),
        Column::ClassName => Value::Text(item.class_name@),
        Column::Available => Value::Text(item.available@),
        Column::Country => Value::Text(item.country@),
        Column::RetailPrice => Value::Money(item.retail_price),
        Column::InternetPrice => Value::Money(item.internet_price),
        Column::CostDelivery => Value::Money(item.cost_delivery),
        Column::Exclusive => Value::Text(item.exclusive@),
        Column::Ean => Value::Text(item.ean@),
        Column::Fop => Value::Text(item.fop@),
    }
}

impl PriceItem {
    /// What the column `col` holds of the item.
    pub fn value(&self, col: Column) -> (v: ValueType<'_>)
        ensures
            v@ == column_value(*self, col),
    {
        match col {
            Column::CategoryId => ValueType::Index(self.category_id),
            Column::Code => ValueType::String(self.code.as_str()),
            Column::Group => ValueType::String(self.group.as_str()),
            Column::Articul => ValueType::String(self.articul.as_str()),
            Column::Vendor => ValueType::String(self.vendor.as_str()),
            Column::Model => ValueType::String(self.model.as_str()),
            Column::Name => ValueType::String(self.name.as_str()),
            Column::Description => ValueType::String(self.description.as_str()),
            Column::PriceUsd => ValueType::Money(self.price_usd),
            Column::PriceUah => ValueType::Money(self.price_uah),
            Column::PriceInd => ValueType::Index(self.price_ind),
            Column::CategoryName => ValueType::String(self.category_name.as_str()),
            Column::Bonus => ValueType::Money(self.bonus),
            Column::RecommendedPrice => ValueType::Money(self.recommended_price),
            Column::Ddp => ValueType::String(self.ddp.as_str()),
            Column::Warranty => ValueType::Index(self.warranty),
            Column::Stock => ValueType::String(self.stock.as_str()),
            Column::Note => ValueType::String(self.note.as_str()),
            Column::DayDelivery => ValueType::String(self.day_delivery.as_str()),
            Column::Id => ValueType::Index(self.id),
            Column::Url => ValueType::String(self.url.as_str()),
            Column::Uktved => ValueType::String(self.uktved.as_str()),
            Column::GroupId => ValueType::Index(self.group_id),
            Column::ClassId => ValueType::Index(self.class_id),
            Column::ClassName => ValueType::String(self.class_name.as_str()),
            Column::Available => ValueType::String(self.available.as_str()),
            Column::Country => ValueType::String(self.country.as_str()),
            Column::RetailPrice => ValueType::Money(self.retail_price),
            Column::InternetPrice => ValueType::Money(self.internet_price),
            Column::CostDelivery => ValueType::Money(self.cost_delivery),
            Column::Exclusive => ValueType::String(self.exclusive.as_str()),
            Column::Ean => ValueType::String(self.ean.as_str()),
            Column::Fop => ValueType::String(self.fop.as_str()),
        }
    }
}

/// A column: the variants of the list that show it, the capabilities that
/// show it in any variant, its name and what it holds.
pub struct ItemShow {
    pub local: bool,
    pub full: bool,
    pub short: bool,
    pub full_uah: bool,
    pub rozn: bool,
    pub r3: bool,
    pub ean: bool,
    pub name: &'static str,
    pub column: Column,
}

/// The number of columns.
pub const COLUMNS: usize = 34;

/// The column at place `i` of the table.
pub open spec fn show_entry(i: int) -> ItemShow {
    if i == 0 {
        ItemShow { local: true, full: true, short: true, full_uah: true, rozn: false, r3: false, ean: false, name: "CategoryID", column: Column::CategoryId }
    } else if i == 1 {
        ItemShow { local: true, full: true, short: true, full_uah: true, rozn: false, r3: false, ean: false, name: "Code", column: Column::Code }
    } else if i == 2 {
        ItemShow { local: true, full: true, short: false, full_uah: false, rozn: false, r3: false, ean: false, name: "Group", column: Column::Group }
    } else if i == 3 {
        ItemShow { local: true, full: true, short: false, full_uah: true, rozn: false, r3: false, ean: false, name: "Article", column: Column::Articul }
    } else if i == 4 {
        ItemShow { local: true, full: true, short: false, full_uah: true, rozn: false, r3: false, ean: false, name: "Vendor", column: Column::Vendor }
    } else if i == 5 {
        ItemShow { local: true, full: true, short: false, full_uah: true, rozn: false, r3: false, ean: false, name: "Model", column: Column::Model }
    } else if i == 6 {
        ItemShow { local: true, full: true, short: false, full_uah: true, rozn: false, r3: false, ean: false, name: "Name", column: Column::Name }
    } else if i == 7 {
        ItemShow { local: true, full: true, short: false, full_uah: false, rozn: false, r3: false, ean: false, name: "Description", column: Column::Description }
    } else if i == 8 {
        ItemShow { local: true, full: true, short: true, full_uah: true, rozn: false, r3: false, ean: false, name: "PriceUSD", column: Column::PriceUsd }
    } else if i == 9 {
        ItemShow { local: false, full: false, short: false, full_uah: true, rozn: false, r3: false, ean: false, name: "PriceUAH", column: Column::PriceUah }
    } else if i == 10 {
        ItemShow { local: true, full: true, short: false, full_uah: true, rozn: false, r3: false, ean: false, name: "Price_ind", column: Column::PriceInd }
    } else if i == 11 {
        ItemShow { local: true, full: true, short: false, full_uah: true, rozn: false, r3: false, ean: false, name: "CategoryName", column: Column::CategoryName }
    } else if i == 12 {
        ItemShow { local: true, full: true, short: true, full_uah: true, rozn: false, r3: false, ean: false, name: "Bonus", column: Column::Bonus }
    } else if i == 13 {
        ItemShow { local: true, full: true, short: true, full_uah: true, rozn: false, r3: false, ean: false, name: "RecommendedPrice", column: Column::RecommendedPrice }
    } else if i == 14 {
        ItemShow { local: true, full: true, short: false, full_uah: false, rozn: false, r3: false, ean: false, name: "DDP", column: Column::Ddp }
    } else if i == 15 {
        ItemShow { local: true, full: true, short: false, full_uah: true, rozn: false, r3: false, ean: false, name: "Warranty", column: Column::Warranty }
    } else if i == 16 {
        ItemShow { local: true, full: true, short: true, full_uah: true, rozn: false, r3: false, ean: false, name: "Stock", column: Column::Stock }
    } else if i == 17 {
        ItemShow { local: true, full: true, short: false, full_uah: false, rozn: false, r3: false, ean: false, name: "Note", column: Column::Note }
    } else if i == 18 {
        ItemShow { local: true, full: true, short: true, full_uah: true, rozn: false, r3: false, ean: false, name: "DayDelivery", column: Column::DayDelivery }
    } else if i == 19 {
        ItemShow { local: true, full: true, short: true, full_uah: true, rozn: false, r3: false, ean: false, name: "ProductID", column: Column::Id }
    } else if i == 20 {
        ItemShow { local: true, full: true, short: false, full_uah: false, rozn: false, r3: false, ean: false, name: "URL", column: Column::Url }
    } else if i == 21 {
        ItemShow { local: true, full: true, short: false, full_uah: true, rozn: false, r3: false, ean: false, name: "UKTVED", column: Column::Uktved }
    } else if i == 22 {
        ItemShow { local: true, full: true, short: false, full_uah: true, rozn: false, r3: false, ean: false, name: "GroupID", column: Column::GroupId }
    } else if i == 23 {
        ItemShow { local: true, full: true, short: false, full_uah: true, rozn: false, r3: false, ean: false, name: "ClassID", column: Column::ClassId }
    } else if i == 24 {
        ItemShow { local: true, full: true, short: false, full_uah: true, rozn: false, r3: false, ean: false, name: "ClassName", column: Column::ClassName }
    } else if i == 25 {
        ItemShow { local: true, full: true, short: false, full_uah: true, rozn: false, r3: false, ean: false, name: "Available", column: Column::Available }
    } else if i == 26 {
        ItemShow { local: true, full: true, short: false, full_uah: true, rozn: false, r3: false, ean: false, name: "Country", column: Column::Country }
    } else if i == 27 {
        ItemShow { local: false, full: false, short: false, full_uah: true, rozn: true, r3: false, ean: false, name: "RetailPrice", column: Column::RetailPrice }
    } else if i == 28 {
        ItemShow { local: true, full: true, short: true, full_uah: false, rozn: false, r3: true, ean: false, name: "InternetPrice", column: Column::InternetPrice }
    } else if i == 29 {
        ItemShow { local: true, full: true, short: true, full_uah: false, rozn: false, r3: false, ean: false, name: "CostDelivery", column: Column::CostDelivery }
    } else if i == 30 {
        ItemShow { local: false, full: false, short: true, full_uah: false, rozn: false, r3: false, ean: false, name: "Available", column: Column::Available }
    } else if i == 31 {
        ItemShow { local: true, full: true, short: false, full_uah: true, rozn: false, r3: false, ean: false, name: "Exclusive", column: Column::Exclusive }
    } else if i == 32 {
        ItemShow { local: false, full: false, short: false, full_uah: true, rozn: false, r3: false, ean: true, name: "EAN", column: Column::Ean }
    } else {
        ItemShow { local: true, full: true, short: false, full_uah: true, rozn: false, r3: false, ean: false, name: "FOP", column: Column::Fop }
    }
}

fn entry(i: usize) -> (e: ItemShow)
    ensures
        e == show_entry(i as int),
{
    if i == 0 {
        ItemShow { local: true, full: true, short: true, full_uah: true, rozn: false, r3: false, ean: false, name: "CategoryID", column: Column::CategoryId }
    } else if i == 1 {
        ItemShow { local: true, full: true, short: true, full_uah: true, rozn: false, r3: false, ean: false, name: "Code", column: Column::Code }
    } else if i == 2 {
        ItemShow { local: true, full: true, short: false, full_uah: false, rozn: false, r3: false, ean: false, name: "Group", column: Column::Group }
    } else if i == 3 {
        ItemShow { local: true, full: true, short: false, full_uah: true, rozn: false, r3: false, ean: false, name: "Article", column: Column::Articul }
    } else if i == 4 {
        ItemShow { local: true, full: true, short: false, full_uah: true, rozn: false, r3: false, ean: false, name: "Vendor", column: Column::Vendor }
    } else if i == 5 {
        ItemShow { local: true, full: true, short: false, full_uah: true, rozn: false, r3: false, ean: false, name: "Model", column: Column::Model }
    } else if i == 6 {
        ItemShow { local: true, full: true, short: false, full_uah: true, rozn: false, r3: false, ean: false, name: "Name", column: Column::Name }
    } else if i == 7 {
        ItemShow { local: true, full: true, short: false, full_uah: false, rozn: false, r3: false, ean: false, name: "Description", column: Column::Description }
    } else if i == 8 {
        ItemShow { local: true, full: true, short: true, full_uah: true, rozn: false, r3: false, ean: false, name: "PriceUSD", column: Column::PriceUsd }
    } else if i == 9 {
        ItemShow { local: false, full: false, short: false, full_uah: true, rozn: false, r3: false, ean: false, name: "PriceUAH", column: Column::PriceUah }
    } else if i == 10 {
        ItemShow { local: true, full: true, short: false, full_uah: true, rozn: false, r3: false, ean: false, name: "Price_ind", column: Column::PriceInd }
    } else if i == 11 {
        ItemShow { local: true, full: true, short: false, full_uah: true, rozn: false, r3: false, ean: false, name: "CategoryName", column: Column::CategoryName }
    } else if i == 12 {
        ItemShow { local: true, full: true, short: true, full_uah: true, rozn: false, r3: false, ean: false, name: "Bonus", column: Column::Bonus }
    } else if i == 13 {
        ItemShow { local: true, full: true, short: true, full_uah: true, rozn: false, r3: false, ean: false, name: "RecommendedPrice", column: Column::RecommendedPrice }
    } else if i == 14 {
        ItemShow { local: true, full: true, short: false, full_uah: false, rozn: false, r3: false, ean: false, name: "DDP", column: Column::Ddp }
    } else if i == 15 {
        ItemShow { local: true, full: true, short: false, full_uah: true, rozn: false, r3: false, ean: false, name: "Warranty", column: Column::Warranty }
    } else if i == 16 {
        ItemShow { local: true, full: true, short: true, full_uah: true, rozn: false, r3: false, ean: false, name: "Stock", column: Column::Stock }
    } else if i == 17 {
        ItemShow { local: true, full: true, short: false, full_uah: false, rozn: false, r3: false, ean: false, name: "Note", column: Column::Note }
    } else if i == 18 {
        ItemShow { local: true, full: true, short: true, full_uah: true, rozn: false, r3: false, ean: false, name: "DayDelivery", column: Column::DayDelivery }
    } else if i == 19 {
        ItemShow { local: true, full: true, short: true, full_uah: true, rozn: false, r3: false, ean: false, name: "ProductID", column: Column::Id }
    } else if i == 20 {
        ItemShow { local: true, full: true, short: false, full_uah: false, rozn: false, r3: false, ean: false, name: "URL", column: Column::Url }
    } else if i == 21 {
        ItemShow { local: true, full: true, short: false, full_uah: true, rozn: false, r3: false, ean: false, name: "UKTVED", column: Column::Uktved }
    } else if i == 22 {
        ItemShow { local: true, full: true, short: false, full_uah: true, rozn: false, r3: false, ean: false, name: "GroupID", column: Column::GroupId }
    } else if i == 23 {
        ItemShow { local: true, full: true, short: false, full_uah: true, rozn: false, r3: false, ean: false, name: "ClassID", column: Column::ClassId }
    } else if i == 24 {
        ItemShow { local: true, full: true, short: false, full_uah: true, rozn: false, r3: false, ean: false, name: "ClassName", column: Column::ClassName }
    } else if i == 25 {
        ItemShow { local: true, full: true, short: false, full_uah: true, rozn: false, r3: false, ean: false, name: "Available", column: Column::Available }
    } else if i == 26 {
        ItemShow { local: true, full: true, short: false, full_uah: true, rozn: false, r3: false, ean: false, name: "Country", column: Column::Country }
    } else if i == 27 {
        ItemShow { local: false, full: false, short: false, full_uah: true, rozn: true, r3: false, ean: false, name: "RetailPrice", column: Column::RetailPrice }
    } else if i == 28 {
        ItemShow { local: true, full: true, short: true, full_uah: false, rozn: false, r3: true, ean: false, name: "InternetPrice", column: Column::InternetPrice }
    } else if i == 29 {
        ItemShow { local: true, full: true, short: true, full_uah: false, rozn: false, r3: false, ean: false, name: "CostDelivery", column: Column::CostDelivery }
    } else if i == 30 {
        ItemShow { local: false, full: false, short: true, full_uah: false, rozn: false, r3: false, ean: false, name: "Available", column: Column::Available }
    } else if i == 31 {
        ItemShow { local: true, full: true, short: false, full_uah: true, rozn: false, r3: false, ean: false, name: "Exclusive", column: Column::Exclusive }
    } else if i == 32 {
        ItemShow { local: false, full: false, short: false, full_uah: true, rozn: false, r3: false, ean: true, name: "EAN", column: Column::Ean }
    } else {
        ItemShow { local: true, full: true, short: false, full_uah: true, rozn: false, r3: false, ean: false, name: "FOP", column: Column::Fop }
    }
}

/// Whether a variant of the list shows the column for a user with the given
/// capabilities: the variant names it, or one of its capabilities is the
/// user's.
pub open spec fn shown(e: ItemShow, volume: PriceVolume, rozn: bool, r3: bool, ean: bool) -> bool {
    (match volume {
        PriceVolume::Local => e.local,
        PriceVolume::Full => e.full,
        PriceVolume::Short => e.short,
        PriceVolume::FullUAH => e.full_uah,
    }) || (e.rozn && rozn) || (e.r3 && r3) || (e.ean && ean)
}

impl ItemShow {
    /// Whether a variant of the list shows the column.
    pub fn is_shown(&self, volume: PriceVolume, rozn: bool, r3: bool, ean: bool) -> (b: bool)
        ensures
            b == shown(*self, volume, rozn, r3, ean),
    {
        let by_volume = match volume {
            PriceVolume::Local => self.local,
            PriceVolume::Full => self.full,
            PriceVolume::Short => self.short,
            PriceVolume::FullUAH => self.full_uah,
        };
        by_volume || (self.rozn && rozn) || (self.r3 && r3) || (self.ean && ean)
    }
}

/// The table of columns, in the order in which a file shows them.
pub struct Show {
    pub list: Vec<ItemShow>,
}

impl Show {
    pub fn new() -> (show: Show)
        ensures
            show.list@.len() == COLUMNS,
            forall|i: int| 0 <= i < COLUMNS ==> #[trigger] show.list@[i] == show_entry(i),
    {
        let mut list: Vec<ItemShow> = Vec::with_capacity(COLUMNS);
        let mut i: usize = 0;
        while i < COLUMNS
            invariant
                i <= COLUMNS,
                list@.len() == i,
                forall|j: int| 0 <= j < i ==> #[trigger] list@[j] == show_entry(j),
            decreases COLUMNS - i,
        {
            list.push(entry(i));
            i += 1;
        }
        Show { list }
    }
}

/// The columns that a variant of the list shows, in the order of the table.
pub open spec fn shown_columns(volume: PriceVolume, rozn: bool, r3: bool, ean: bool) -> Seq<
    ItemShow,
> {
    Seq::new(COLUMNS as nat, |i: int| show_entry(i)).filter(
        |e: ItemShow| shown(e, volume, rozn, r3, ean),
    )
}

/// Picks the columns that a variant of the list shows.
pub fn select(volume: PriceVolume, rozn: bool, r3: bool, ean: bool) -> (cols: Vec<ItemShow>)
    ensures
        cols@ == shown_columns(volume, rozn, r3, ean),
{
    let mut cols: Vec<ItemShow> = Vec::new();
    let ghost all = Seq::new(COLUMNS as nat, |i: int| show_entry(i));
    let ghost pred = |e: ItemShow| shown(e, volume, rozn, r3, ean);
    let mut i: usize = 0;
    assert(all.take(0).filter(pred) =~= Seq::<ItemShow>::empty());
    while i < COLUMNS
        invariant
            i <= COLUMNS,
            all == Seq::new(COLUMNS as nat, |i: int| show_entry(i)),
            pred == |e: ItemShow| shown(e, volume, rozn, r3, ean),
            cols@ == all.take(i as int).filter(pred),
        decreases COLUMNS - i,
    {
        let e = entry(i);
        proof {
            assert(all.take(i + 1).drop_last() =~= all.take(i as int));
            assert(all.take(i + 1).last() == e);
            reveal(Seq::filter);
        }
        if e.is_shown(volume, rozn, r3, ean) {
            cols.push(e);
        }
        i += 1;
    }
    assert(all.take(COLUMNS as int) =~= all);
    cols
}

} // verus!
