//! The T&T Supermarket integration: raw records as the vendor's API reports
//! them, the filtering policy, and the conversion into vendor-neutral
//! [`Product`] values.

use vstd::prelude::*;

use super::{ParseError, Prices, PricesView, Product, ProductView};
use crate::json::{
    dot_get, dot_lookup, json_text_wf, json_tree_of, lemma_view_json_seq_index, obj_field,
    obj_get, parse_json, view_json, view_json_seq, Json, JsonView,
};
use crate::money::{all_digits, digits_val, digits_value, money_cents_of, parse_amount};

verus! {

/// Mathematical view of [`RawProduct`]: amounts in cents.
pub ghost struct RawProductView {
    pub id: Seq<char>,
    pub sku: Seq<char>,
    pub name: Seq<char>,
    pub old_amount: int,
    pub final_amount: int,
    pub weight_uom: Seq<char>,
    pub is_available: int,
    pub is_saleable: int,
}

impl RawProductView {
    /// Amounts reported by the vendor are non-negative.
    pub open spec fn wf(self) -> bool {
        &&& 0 <= self.old_amount
        &&& 0 <= self.final_amount
    }
}

/// A product record as the vendor's weekly-specials endpoint reports it.
#[derive(Clone, Debug)]
pub struct RawProduct {
    pub id: String,
    pub sku: String,
    pub name: String,
    /// `oldPrice.amount` of the record's nested prices object, in cents.
    pub old_amount: i64,
    /// `finalPrice.amount` of the record's nested prices object, in cents.
    pub final_amount: i64,
    /// The unit-of-measure string; may be empty.
    pub weight_uom: String,
    /// Availability flag: zero means unavailable.
    pub is_available: u8,
    /// Saleability flag: zero means unsellable.
    pub is_saleable: u8,
}

impl View for RawProduct {
    type V = RawProductView;

    open spec fn view(&self) -> RawProductView {
        RawProductView {
            id: self.id@,
            sku: self.sku@,
            name: self.name@,
            old_amount: self.old_amount as int,
            final_amount: self.final_amount as int,
            weight_uom: self.weight_uom@,
            is_available: self.is_available as int,
            is_saleable: self.is_saleable as int,
        }
    }
}

impl DeepView for RawProduct {
    type V = RawProductView;

    open spec fn deep_view(&self) -> RawProductView {
        self.view()
    }
}

/// The filtering policy: a raw record survives when it is available,
/// saleable, and its final price amount is non-zero.
pub open spec fn qualifies(p: RawProductView) -> bool {
    &&& p.is_available != 0
    &&& p.is_saleable != 0
    &&& p.final_amount != 0
}

/// How a surviving raw record becomes a vendor-neutral product: the unit
/// label is kept only when non-empty, the vendor is the fixed constant, and
/// the sale price is kept only when it differs from the original price.
pub open spec fn product_of(p: RawProductView) -> ProductView {
    ProductView {
        name: p.name,
        units: if p.weight_uom.len() == 0 {
            None
        } else {
            Some(p.weight_uom)
        },
        prices: PricesView {
            original: p.old_amount,
            sale: if p.final_amount == p.old_amount {
                None
            } else {
                Some(p.final_amount)
            },
        },
        vendor: "T&T"@,
        vendor_id: p.id,
        vendor_sku: p.sku,
    }
}

/// The raw records that survive the filtering policy, in their order.
pub open spec fn qualifying_raws(raws: Seq<RawProductView>) -> Seq<RawProductView>
    decreases raws.len(),
{
    if raws.len() == 0 {
        Seq::empty()
    } else {
        let rest = qualifying_raws(raws.drop_last());
        if qualifies(raws.last()) {
            rest.push(raws.last())
        } else {
            rest
        }
    }
}

/// The sequence of products that a sequence of raw records yields: the
/// qualifying records, in their order, each converted.
pub open spec fn products_of(raws: Seq<RawProductView>) -> Seq<ProductView> {
    qualifying_raws(raws).map_values(|p: RawProductView| product_of(p))
}

proof fn lemma_products_of_step(raws: Seq<RawProductView>)
    requires
        raws.len() > 0,
    ensures
        qualifies(raws.last()) ==> products_of(raws) == products_of(raws.drop_last()).push(
            product_of(raws.last()),
        ),
        !qualifies(raws.last()) ==> products_of(raws) == products_of(raws.drop_last()),
{
    if qualifies(raws.last()) {
        assert(products_of(raws) =~= products_of(raws.drop_last()).push(
            product_of(raws.last()),
        ));
    }
}

/// Every record that survives the filtering policy qualifies.
pub proof fn lemma_qualifying_raws_qualify(raws: Seq<RawProductView>)
    ensures
        forall|j: int|
            0 <= j < qualifying_raws(raws).len() ==> qualifies(
                #[trigger] qualifying_raws(raws)[j],
            ),
    decreases raws.len(),
{
    if raws.len() > 0 {
        lemma_qualifying_raws_qualify(raws.drop_last());
        let rest = qualifying_raws(raws.drop_last());
        assert forall|j: int|
            0 <= j < qualifying_raws(raws).len() implies qualifies(
            qualifying_raws(raws)[j],
        ) by {
            if j < rest.len() {
                assert(qualifying_raws(raws)[j] == rest[j]);
            } else {
                assert(qualifying_raws(raws)[j] == raws.last());
            }
        }
    }
}

proof fn lemma_remove_nonqualifying(raws: Seq<RawProductView>, i: int)
    requires
        0 <= i < raws.len(),
        !qualifies(raws[i]),
    ensures
        qualifying_raws(raws.remove(i)) == qualifying_raws(raws),
    decreases raws.len(),
{
    if i == raws.len() - 1 {
        assert(raws.remove(i) =~= raws.drop_last());
    } else {
        let shorter = raws.drop_last();
        lemma_remove_nonqualifying(shorter, i);
        assert(raws.remove(i).drop_last() =~= shorter.remove(i));
        assert(raws.remove(i).last() == raws.last());
    }
}

proof fn lemma_nonqualifying_excluded(raws: Seq<RawProductView>, i: int)
    requires
        0 <= i < raws.len(),
        !qualifies(raws[i]),
    ensures
        !qualifying_raws(raws).contains(raws[i]),
        products_of(raws) == products_of(raws.remove(i)),
{
    lemma_qualifying_raws_qualify(raws);
    if qualifying_raws(raws).contains(raws[i]) {
        let j = choose|j: int|
            0 <= j < qualifying_raws(raws).len() && qualifying_raws(raws)[j] == raws[i];
        assert(qualifies(qualifying_raws(raws)[j]));
    }
    lemma_remove_nonqualifying(raws, i);
}

/// Law: a raw record whose availability flag is zero is excluded from the
/// result, regardless of its other fields: it never survives the filter, and
/// the products are those of the page without it.
pub proof fn lemma_unavailable_excluded(raws: Seq<RawProductView>, i: int)
    requires
        0 <= i < raws.len(),
        raws[i].is_available == 0,
    ensures
        !qualifying_raws(raws).contains(raws[i]),
        products_of(raws) == products_of(raws.remove(i)),
{
    lemma_nonqualifying_excluded(raws, i);
}

/// Law: a raw record whose saleability flag is zero is excluded from the
/// result, regardless of its other fields.
pub proof fn lemma_unsellable_excluded(raws: Seq<RawProductView>, i: int)
    requires
        0 <= i < raws.len(),
        raws[i].is_saleable == 0,
    ensures
        !qualifying_raws(raws).contains(raws[i]),
        products_of(raws) == products_of(raws.remove(i)),
{
    lemma_nonqualifying_excluded(raws, i);
}

/// Law: a raw record whose final price amount is zero is excluded from the
/// result, regardless of its other fields.
pub proof fn lemma_unpriced_excluded(raws: Seq<RawProductView>, i: int)
    requires
        0 <= i < raws.len(),
        raws[i].final_amount == 0,
    ensures
        !qualifying_raws(raws).contains(raws[i]),
        products_of(raws) == products_of(raws.remove(i)),
{
    lemma_nonqualifying_excluded(raws, i);
}

/// Law: a page on which every record qualifies is converted whole, in the
/// vendor's order.
pub proof fn lemma_all_qualifying_kept_in_order(raws: Seq<RawProductView>)
    requires
        forall|i: int| 0 <= i < raws.len() ==> qualifies(#[trigger] raws[i]),
    ensures
        products_of(raws) == raws.map_values(|p: RawProductView| product_of(p)),
{
    lemma_all_qualifying_identity(raws);
    assert(products_of(raws) =~= raws.map_values(|p: RawProductView| product_of(p)));
}

proof fn lemma_all_qualifying_identity(raws: Seq<RawProductView>)
    requires
        forall|i: int| 0 <= i < raws.len() ==> qualifies(#[trigger] raws[i]),
    ensures
        qualifying_raws(raws) == raws,
    decreases raws.len(),
{
    if raws.len() > 0 {
        assert(qualifies(raws[raws.len() - 1]));
        lemma_all_qualifying_identity(raws.drop_last());
        assert(qualifying_raws(raws) =~= raws);
    } else {
        assert(qualifying_raws(raws) =~= raws);
    }
}

/// Law: a record whose final price equals its old price converts to a
/// product with no discount, whose current price is the old price.
pub proof fn lemma_equal_prices_no_discount(p: RawProductView)
    requires
        p.final_amount == p.old_amount,
    ensures
        product_of(p).prices.spec_discount() is None,
        product_of(p).prices.spec_current() == p.old_amount,
{
}

/// Law: a record whose final price differs from its old price converts to
/// a product whose current price is the final price, and whose discount is
/// old minus final.
pub proof fn lemma_changed_price_discount(p: RawProductView)
    requires
        p.final_amount != p.old_amount,
    ensures
        product_of(p).prices.spec_current() == p.final_amount,
        product_of(p).prices.spec_discount() == Some(p.old_amount - p.final_amount),
{
}

/// Law: a page on which no raw record qualifies yields the empty sequence of
/// products, not an error.
pub proof fn lemma_no_qualifying_yields_empty(raws: Seq<RawProductView>)
    requires
        forall|i: int| 0 <= i < raws.len() ==> !qualifies(#[trigger] raws[i]),
    ensures
        products_of(raws) == Seq::<ProductView>::empty(),
    decreases raws.len(),
{
    if raws.len() > 0 {
        assert(!qualifies(raws[raws.len() - 1]));
        lemma_no_qualifying_yields_empty(raws.drop_last());
    }
    assert(products_of(raws) =~= Seq::<ProductView>::empty());
}

impl RawProduct {
    /// Whether this record survives the filtering policy.
    pub fn is_qualifying(&self) -> (r: bool)
        ensures
            r == qualifies(self@),
    {
        self.is_available != 0 && self.is_saleable != 0 && self.final_amount != 0
    }

    /// Convert this record into a vendor-neutral product.
    pub fn to_product(&self) -> (r: Product)
        ensures
            r@ == product_of(self@),
    {
        let units = if self.weight_uom.as_str().is_empty() {
            None
        } else {
            Some(self.weight_uom.clone())
        };
        let sale = if self.final_amount == self.old_amount {
            None
        } else {
            Some(self.final_amount)
        };
        Product {
            name: self.name.clone(),
            units,
            prices: Prices { original: self.old_amount, sale },
            vendor: String::from_str("T&T"),
            vendor_id: self.id.clone(),
            vendor_sku: self.sku.clone(),
        }
    }
}

/// Filter a page of raw records and convert the survivors, keeping the
/// vendor's order.
pub fn sale_products_from_raw(raws: &Vec<RawProduct>) -> (r: Vec<Product>)
    ensures
        r.deep_view() == products_of(raws.deep_view()),
{
    let mut out: Vec<Product> = Vec::new();
    let mut i: usize = 0;
    proof {
        assert(out.deep_view() =~= Seq::<ProductView>::empty());
        assert(products_of(raws.deep_view().take(0)) =~= Seq::<ProductView>::empty());
    }
    while i < raws.len()
        invariant
            0 <= i <= raws.len(),
            raws.deep_view().len() == raws.len(),
            out.deep_view() == products_of(raws.deep_view().take(i as int)),
        decreases raws.len() - i,
    {
        let p = &raws[i];
        proof {
            let dv = raws.deep_view();
            let s1 = dv.take(i + 1);
            assert(s1.drop_last() =~= dv.take(i as int));
            assert(s1.last() == p.deep_view());
            lemma_products_of_step(s1);
        }
        if p.is_qualifying() {
            out.push(p.to_product());
        }
        i = i + 1;
    }
    proof {
        assert(raws.deep_view().take(raws.len() as int) =~= raws.deep_view());
    }
    out
}

proof fn lemma_qualifying_raws_wf(raws: Seq<RawProductView>)
    requires
        forall|i: int| 0 <= i < raws.len() ==> (#[trigger] raws[i]).wf(),
    ensures
        forall|j: int|
            0 <= j < qualifying_raws(raws).len() ==> (#[trigger] qualifying_raws(raws)[j]).wf(),
    decreases raws.len(),
{
    if raws.len() > 0 {
        lemma_qualifying_raws_wf(raws.drop_last());
        let rest = qualifying_raws(raws.drop_last());
        assert forall|j: int|
            0 <= j < qualifying_raws(raws).len() implies qualifying_raws(raws)[j].wf() by {
            if j < rest.len() {
                assert(qualifying_raws(raws)[j] == rest[j]);
            } else {
                assert(qualifying_raws(raws)[j] == raws.last());
            }
        }
    }
}

/// Records with non-negative amounts yield products that meet the price
/// invariant.
pub proof fn lemma_products_of_wf(raws: Seq<RawProductView>)
    requires
        forall|i: int| 0 <= i < raws.len() ==> (#[trigger] raws[i]).wf(),
    ensures
        forall|j: int|
            0 <= j < products_of(raws).len() ==> (#[trigger] products_of(raws)[j]).wf(),
{
    lemma_qualifying_raws_wf(raws);
    assert forall|j: int|
        0 <= j < products_of(raws).len() implies products_of(raws)[j].wf() by {
        assert(products_of(raws)[j] == product_of(qualifying_raws(raws)[j]));
        assert(qualifying_raws(raws)[j].wf());
    }
}

/// The string under `key` of a record object.
pub open spec fn field_str(t: JsonView, key: Seq<char>) -> Option<Seq<char>> {
    match t {
        JsonView::Obj(members) => match obj_get(members, key) {
            Some(JsonView::Str(s)) => Some(s),
            _ => None,
        },
        _ => None,
    }
}

/// The money amount, in cents, at a dotted path of a record.
pub open spec fn field_amount(t: JsonView, path: Seq<char>) -> Option<int> {
    match dot_lookup(t, path) {
        Some(JsonView::Num(s)) => money_cents_of(s),
        _ => None,
    }
}

/// A boolean-like flag: a number whose text is a small non-negative
/// integer.
pub open spec fn flag_of(s: Seq<char>) -> Option<int> {
    if 1 <= s.len() <= 3 && all_digits(s) && digits_val(s) <= 255 {
        Some(digits_val(s))
    } else {
        None
    }
}

/// The flag under `key` of a record object.
pub open spec fn field_flag(t: JsonView, key: Seq<char>) -> Option<int> {
    match t {
        JsonView::Obj(members) => match obj_get(members, key) {
            Some(JsonView::Num(s)) => flag_of(s),
            _ => None,
        },
        _ => None,
    }
}

/// The raw record that a JSON value denotes, when it has the expected
/// shape: string fields `id`, `sku`, `name` and `weight_uom`, money
/// amounts at `prices.oldPrice.amount` and `prices.finalPrice.amount`,
/// and flags `is_available` and `is_saleable`.
pub open spec fn raw_record_of(t: JsonView) -> Option<RawProductView> {
    match (field_str(t, "id"@), field_str(t, "sku"@), field_str(t, "name"@), field_str(
        t,
        "weight_uom"@,
    )) {
        (Some(id), Some(sku), Some(name), Some(uom)) => match (field_amount(
            t,
            "prices.oldPrice.amount"@,
        ), field_amount(t, "prices.finalPrice.amount"@)) {
            (Some(old), Some(fin)) => match (field_flag(t, "is_available"@), field_flag(
                t,
                "is_saleable"@,
            )) {
                (Some(av), Some(sa)) => Some(
                    RawProductView {
                        id,
                        sku,
                        name,
                        old_amount: old,
                        final_amount: fin,
                        weight_uom: uom,
                        is_available: av,
                        is_saleable: sa,
                    },
                ),
                _ => None,
            },
            _ => None,
        },
        _ => None,
    }
}

/// The raw records of the items array; `None` when any element is
/// malformed.
pub open spec fn records_of(items: Seq<JsonView>) -> Option<Seq<RawProductView>>
    decreases items.len(),
{
    if items.len() == 0 {
        Some(Seq::empty())
    } else {
        match records_of(items.drop_last()) {
            None => None,
            Some(rs) => match raw_record_of(items.last()) {
                None => None,
                Some(r) => Some(rs.push(r)),
            },
        }
    }
}

/// The record page of a weekly-specials document: the records of the
/// array at the expected nested path, when they all have the expected
/// shape.
pub open spec fn page_records(t: JsonView) -> Option<Seq<RawProductView>> {
    match dot_lookup(t, "data.category.items"@) {
        Some(JsonView::Arr(items)) => records_of(items),
        _ => None,
    }
}

/// What a weekly-specials document yields: the products of its qualifying
/// records, or the parse error its shape earns — `MissingItems` when the
/// expected nested path is absent or does not hold an array, `BadRecord`
/// when a record does not have the expected shape.
pub open spec fn sale_parse(t: JsonView) -> Result<Seq<ProductView>, ParseError> {
    match dot_lookup(t, "data.category.items"@) {
        Some(JsonView::Arr(items)) => match records_of(items) {
            None => Err(ParseError::BadRecord),
            Some(rs) => Ok(products_of(rs)),
        },
        Some(_) => Err(ParseError::MissingItems),
        None => Err(ParseError::MissingItems),
    }
}

/// A parsed record page always yields products, never an error.
pub proof fn lemma_sale_parse_of_records(t: JsonView, rs: Seq<RawProductView>)
    requires
        page_records(t) == Some(rs),
    ensures
        sale_parse(t) == Ok::<Seq<ProductView>, ParseError>(products_of(rs)),
{
}

/// Law: when the document parses to a record page, a record whose
/// availability flag is zero is excluded from the fetch's result,
/// regardless of its other fields.
pub proof fn lemma_fetch_unavailable_excluded(t: JsonView, rs: Seq<RawProductView>, i: int)
    requires
        page_records(t) == Some(rs),
        0 <= i < rs.len(),
        rs[i].is_available == 0,
    ensures
        sale_parse(t) == Ok::<Seq<ProductView>, ParseError>(products_of(rs.remove(i))),
        !qualifying_raws(rs).contains(rs[i]),
{
    lemma_sale_parse_of_records(t, rs);
    lemma_unavailable_excluded(rs, i);
}

/// Law: when the document parses to a record page, a record whose
/// saleability flag is zero is excluded from the fetch's result.
pub proof fn lemma_fetch_unsellable_excluded(t: JsonView, rs: Seq<RawProductView>, i: int)
    requires
        page_records(t) == Some(rs),
        0 <= i < rs.len(),
        rs[i].is_saleable == 0,
    ensures
        sale_parse(t) == Ok::<Seq<ProductView>, ParseError>(products_of(rs.remove(i))),
        !qualifying_raws(rs).contains(rs[i]),
{
    lemma_sale_parse_of_records(t, rs);
    lemma_unsellable_excluded(rs, i);
}

/// Law: when the document parses to a record page, a record whose final
/// price amount is zero is excluded from the fetch's result.
pub proof fn lemma_fetch_unpriced_excluded(t: JsonView, rs: Seq<RawProductView>, i: int)
    requires
        page_records(t) == Some(rs),
        0 <= i < rs.len(),
        rs[i].final_amount == 0,
    ensures
        sale_parse(t) == Ok::<Seq<ProductView>, ParseError>(products_of(rs.remove(i))),
        !qualifying_raws(rs).contains(rs[i]),
{
    lemma_sale_parse_of_records(t, rs);
    lemma_unpriced_excluded(rs, i);
}

/// Law: when the document parses to a record page on which no record
/// qualifies — the empty page included — the fetch yields the empty
/// sequence of products, not an error.
pub proof fn lemma_fetch_no_qualifying_empty(t: JsonView, rs: Seq<RawProductView>)
    requires
        page_records(t) == Some(rs),
        forall|i: int| 0 <= i < rs.len() ==> !qualifies(#[trigger] rs[i]),
    ensures
        sale_parse(t) == Ok::<Seq<ProductView>, ParseError>(Seq::<ProductView>::empty()),
{
    lemma_sale_parse_of_records(t, rs);
    lemma_no_qualifying_yields_empty(rs);
}

/// Read a string field of a record.
fn get_str_field(t: &Json, key: &str) -> (r: Option<String>)
    ensures
        field_str(t@, key@) == match r {
            None => None::<Seq<char>>,
            Some(s) => Some(s@),
        },
{
    let members = match t {
        Json::Obj(members) => members,
        _ => {
            return None;
        },
    };
    match obj_field(members, key) {
        None => None,
        Some(x) => match x {
            Json::Str(s) => Some(s.clone()),
            _ => None,
        },
    }
}

/// Read a money amount at a dotted path of a record, in cents.
fn get_amount_field(t: &Json, path: &str) -> (r: Option<i64>)
    ensures
        field_amount(t@, path@) == match r {
            None => None::<int>,
            Some(c) => Some(c as int),
        },
        r matches Some(c) ==> c >= 0,
{
    match dot_get(t, path) {
        None => None,
        Some(x) => match x {
            Json::Num(s) => parse_amount(s.as_str()),
            _ => None,
        },
    }
}

/// Read a flag's value out of its decimal text.
fn parse_flag(s: &str) -> (r: Option<u8>)
    ensures
        flag_of(s@) == match r {
            None => None::<int>,
            Some(v) => Some(v as int),
        },
{
    let n = s.unicode_len();
    if n == 0 || n > 3 {
        return None;
    }
    proof {
        assert(s@.subrange(0, n as int) =~= s@);
    }
    match digits_value(s, 0, n) {
        None => None,
        Some(v) => if v > 255 {
            None
        } else {
            Some(v as u8)
        },
    }
}

/// Read a boolean-like flag field of a record.
fn get_flag_field(t: &Json, key: &str) -> (r: Option<u8>)
    ensures
        field_flag(t@, key@) == match r {
            None => None::<int>,
            Some(v) => Some(v as int),
        },
{
    let members = match t {
        Json::Obj(members) => members,
        _ => {
            return None;
        },
    };
    match obj_field(members, key) {
        None => None,
        Some(x) => match x {
            Json::Num(s) => parse_flag(s.as_str()),
            _ => None,
        },
    }
}

/// Read one raw record out of its JSON value; any missing field, or an
/// amount that is not non-negative decimal money text, is a shape error.
pub fn extract_record(t: &Json) -> (r: Result<RawProduct, ParseError>)
    ensures
        match r {
            Ok(p) => raw_record_of(t@) == Some(p@) && p@.wf(),
            Err(e) => raw_record_of(t@) is None && e == ParseError::BadRecord,
        },
{
    let id = match get_str_field(t, "id") {
        Some(s) => s,
        None => {
            return Err(ParseError::BadRecord);
        },
    };
    let sku = match get_str_field(t, "sku") {
        Some(s) => s,
        None => {
            return Err(ParseError::BadRecord);
        },
    };
    let name = match get_str_field(t, "name") {
        Some(s) => s,
        None => {
            return Err(ParseError::BadRecord);
        },
    };
    let weight_uom = match get_str_field(t, "weight_uom") {
        Some(s) => s,
        None => {
            return Err(ParseError::BadRecord);
        },
    };
    let old_amount = match get_amount_field(t, "prices.oldPrice.amount") {
        Some(c) => c,
        None => {
            return Err(ParseError::BadRecord);
        },
    };
    let final_amount = match get_amount_field(t, "prices.finalPrice.amount") {
        Some(c) => c,
        None => {
            return Err(ParseError::BadRecord);
        },
    };
    let is_available = match get_flag_field(t, "is_available") {
        Some(f) => f,
        None => {
            return Err(ParseError::BadRecord);
        },
    };
    let is_saleable = match get_flag_field(t, "is_saleable") {
        Some(f) => f,
        None => {
            return Err(ParseError::BadRecord);
        },
    };
    Ok(RawProduct { id, sku, name, old_amount, final_amount, weight_uom, is_available, is_saleable })
}

proof fn lemma_records_of_bad(items: Seq<JsonView>, i: int)
    requires
        0 <= i < items.len(),
        raw_record_of(items[i]) is None,
    ensures
        records_of(items) is None,
    decreases items.len(),
{
    if i < items.len() - 1 {
        lemma_records_of_bad(items.drop_last(), i);
    }
}

/// Read every raw record of the items array; any malformed record fails
/// the whole page.
pub fn extract_records(items: &Vec<Json>) -> (r: Result<Vec<RawProduct>, ParseError>)
    ensures
        match r {
            Ok(raws) => records_of(view_json_seq(items@)) == Some(raws.deep_view()) && forall|
                i: int,
            |
                0 <= i < raws.deep_view().len() ==> (#[trigger] raws.deep_view()[i]).wf(),
            Err(e) => records_of(view_json_seq(items@)) is None && e == ParseError::BadRecord,
        },
{
    let ghost vm = view_json_seq(items@);
    proof {
        lemma_view_json_seq_index(items@);
        assert(records_of(vm.take(0)) =~= Some(Seq::<RawProductView>::empty()));
    }
    let mut out: Vec<RawProduct> = Vec::new();
    let mut i: usize = 0;
    while i < items.len()
        invariant
            0 <= i <= items.len(),
            vm == view_json_seq(items@),
            vm.len() == items@.len(),
            forall|j: int| 0 <= j < items@.len() ==> #[trigger] vm[j] == view_json(items@[j]),
            records_of(vm.take(i as int)) == Some(out.deep_view()),
            forall|j: int| 0 <= j < out@.len() ==> (#[trigger] out@[j])@.wf(),
        decreases items.len() - i,
    {
        match extract_record(&items[i]) {
            Ok(p) => {
                proof {
                    let s1 = vm.take(i + 1);
                    assert(s1.drop_last() =~= vm.take(i as int));
                    assert(s1.last() == vm[i as int]);
                    assert(records_of(s1) == Some(out.deep_view().push(p@)));
                }
                out.push(p);
                proof {
                    assert(out.deep_view() =~= records_of(vm.take(i + 1)).unwrap());
                }
            },
            Err(e) => {
                proof {
                    lemma_records_of_bad(vm, i as int);
                }
                return Err(e);
            },
        }
        i = i + 1;
    }
    proof {
        assert(vm.take(items.len() as int) =~= vm);
        assert(forall|j: int|
            0 <= j < out.deep_view().len() ==> #[trigger] out.deep_view()[j] == out@[j]@);
    }
    Ok(out)
}

/// The dotted path at which the weekly-specials response holds its array
/// of raw records.
pub const ITEMS_PATH: &'static str = "data.category.items";

/// Turn the body of a weekly-specials response into the products on sale:
/// parse the JSON, look up the record array at the expected nested path,
/// read the raw records, and filter and convert them.
///
/// The body fails with `InvalidJson` exactly when it is not a JSON
/// document; otherwise the result is exactly what [`sale_parse`] says of
/// the document's tree: the products of the page's qualifying records, or
/// `MissingItems`, or `BadRecord`. Every product returned meets the price
/// invariant.
pub fn parse_sale_products(body: &str) -> (r: Result<Vec<Product>, ParseError>)
    ensures
        r == Err::<Vec<Product>, ParseError>(ParseError::InvalidJson) <==> !json_text_wf(body@),
        json_text_wf(body@) ==> match sale_parse(json_tree_of(body@)) {
            Ok(ps) => r matches Ok(v) && v.deep_view() == ps,
            Err(e) => r == Err::<Vec<Product>, ParseError>(e),
        },
        r matches Ok(ps) ==> forall|i: int|
            0 <= i < ps.deep_view().len() ==> (#[trigger] ps.deep_view()[i]).wf(),
{
    let root = match parse_json(body) {
        Some(root) => root,
        None => {
            return Err(ParseError::InvalidJson);
        },
    };
    let items_value = match dot_get(&root, ITEMS_PATH) {
        Some(v) => v,
        None => {
            return Err(ParseError::MissingItems);
        },
    };
    let items = match items_value {
        Json::Arr(items) => items,
        _ => {
            return Err(ParseError::MissingItems);
        },
    };
    let raws = match extract_records(items) {
        Ok(raws) => raws,
        Err(e) => {
            return Err(e);
        },
    };
    let products = sale_products_from_raw(&raws);
    proof {
        lemma_products_of_wf(raws.deep_view());
    }
    Ok(products)
}

} // verus!
