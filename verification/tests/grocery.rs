use api::grocery::tnt::{parse_sale_products, RawProduct, sale_products_from_raw};
use api::grocery::ParseError;

fn raw(
    name: &str,
    old_amount: i64,
    final_amount: i64,
    uom: &str,
    is_available: u8,
    is_saleable: u8,
) -> RawProduct {
    RawProduct {
        id: String::from("17"),
        sku: String::from("SKU17"),
        name: String::from(name),
        old_amount,
        final_amount,
        weight_uom: String::from(uom),
        is_available,
        is_saleable,
    }
}

#[test]
fn unavailable_record_excluded() {
    let raws = vec![raw("Apple", 1000, 800, "kg", 0, 1)];
    let products = sale_products_from_raw(&raws);
    assert_eq!(products.len(), 0);
}

#[test]
fn unsellable_record_excluded() {
    let raws = vec![raw("Apple", 1000, 800, "kg", 1, 0)];
    let products = sale_products_from_raw(&raws);
    assert_eq!(products.len(), 0);
}

#[test]
fn zero_priced_record_excluded() {
    let raws = vec![raw("Apple", 1000, 0, "kg", 1, 1)];
    let products = sale_products_from_raw(&raws);
    assert_eq!(products.len(), 0);
}

#[test]
fn same_price_means_no_discount() {
    let raws = vec![raw("Apple", 1000, 1000, "", 1, 1)];
    let products = sale_products_from_raw(&raws);
    assert_eq!(products.len(), 1);
    assert_eq!(products[0].price(), 1000);
    assert!(products[0].discount().is_none());
    assert!(products[0].prices.sale.is_none());
}

#[test]
fn lower_final_price_means_discount() {
    let raws = vec![raw("Apple", 1000, 800, "", 1, 1)];
    let products = sale_products_from_raw(&raws);
    assert_eq!(products.len(), 1);
    assert_eq!(products[0].price(), 800);
    assert_eq!(products[0].discount(), Some(200));
}

#[test]
fn conversion_keeps_fields_and_order() {
    let raws = vec![
        raw("Apple", 1000, 800, "kg", 1, 1),
        raw("Pear", 500, 0, "", 1, 1),
        raw("Plum", 300, 300, "", 1, 1),
    ];
    let products = sale_products_from_raw(&raws);
    assert_eq!(products.len(), 2);
    assert_eq!(products[0].name, "Apple");
    assert_eq!(products[0].units.as_deref(), Some("kg"));
    assert_eq!(products[0].vendor, "T&T");
    assert_eq!(products[0].vendor_id, "17");
    assert_eq!(products[0].vendor_sku, "SKU17");
    assert_eq!(products[1].name, "Plum");
    assert!(products[1].units.is_none());
}

fn body_with_items(items: &str) -> String {
    format!("{{\"data\":{{\"category\":{{\"items\":[{}]}}}}}}", items)
}

fn item_json(name: &str, old: &str, fin: &str, avail: u64, saleable: u64) -> String {
    format!(
        "{{\"id\":\"3\",\"sku\":\"S3\",\"name\":\"{}\",\"prices\":{{\"oldPrice\":{{\"amount\":{}}},\"finalPrice\":{{\"amount\":{}}}}},\"weight_uom\":\"EA\",\"is_available\":{},\"is_saleable\":{}}}",
        name, old, fin, avail, saleable
    )
}

#[test]
fn parse_happy_path() {
    let body = body_with_items(&format!(
        "{},{}",
        item_json("Apple", "10.00", "8.00", 1, 1),
        item_json("Pear", "5.00", "5.00", 1, 1)
    ));
    let products = parse_sale_products(&body).unwrap();
    assert_eq!(products.len(), 2);
    assert_eq!(products[0].name, "Apple");
    assert_eq!(products[0].price(), 800);
    assert_eq!(products[0].discount(), Some(200));
    assert_eq!(products[0].units.as_deref(), Some("EA"));
    assert_eq!(products[1].name, "Pear");
    assert_eq!(products[1].price(), 500);
    assert!(products[1].discount().is_none());
}

#[test]
fn zero_qualifying_records_yield_empty_not_error() {
    let body = body_with_items(&format!(
        "{},{}",
        item_json("Apple", "10.00", "8.00", 0, 1),
        item_json("Pear", "5.00", "0", 1, 1)
    ));
    let products = parse_sale_products(&body).unwrap();
    assert_eq!(products.len(), 0);
}

#[test]
fn empty_items_array_yields_empty() {
    let body = body_with_items("");
    let products = parse_sale_products(&body).unwrap();
    assert_eq!(products.len(), 0);
}

#[test]
fn missing_path_is_parse_error_not_panic() {
    assert!(matches!(parse_sale_products("{}"), Err(ParseError::MissingItems)));
    assert!(matches!(
        parse_sale_products("{\"data\":{\"category\":{}}}"),
        Err(ParseError::MissingItems)
    ));
    assert!(matches!(
        parse_sale_products("{\"data\":{\"wrong\":{\"items\":[]}}}"),
        Err(ParseError::MissingItems)
    ));
}

#[test]
fn items_not_an_array_is_parse_error() {
    assert!(matches!(
        parse_sale_products("{\"data\":{\"category\":{\"items\":7}}}"),
        Err(ParseError::MissingItems)
    ));
}

#[test]
fn invalid_json_is_parse_error() {
    assert!(matches!(parse_sale_products("not json"), Err(ParseError::InvalidJson)));
    assert!(matches!(parse_sale_products(""), Err(ParseError::InvalidJson)));
}

#[test]
fn malformed_record_is_parse_error() {
    let body = body_with_items("{\"id\":\"3\"}");
    assert!(matches!(parse_sale_products(&body), Err(ParseError::BadRecord)));
    let body = body_with_items(&item_json("Apple", "-1.00", "8.00", 1, 1));
    assert!(matches!(parse_sale_products(&body), Err(ParseError::BadRecord)));
    let body = body_with_items(&item_json("Apple", "10.00", "\"8.00\"", 1, 1));
    assert!(matches!(parse_sale_products(&body), Err(ParseError::BadRecord)));
    let body = body_with_items(&item_json("Apple", "10.00", "8.00", 300, 1));
    assert!(matches!(parse_sale_products(&body), Err(ParseError::BadRecord)));
}
