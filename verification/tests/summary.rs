use api::graph::util::format_error;
use api::grocery::{FetchError, FetchStep, ParseError, Prices, Product};
use api::routes::shortcuts::bargain_day::{describe_product, sale_summary};

fn product(name: &str, original: i64, sale: Option<i64>) -> Product {
    Product {
        name: String::from(name),
        units: None,
        prices: Prices { original, sale },
        vendor: String::from("T&T"),
        vendor_id: String::from("1"),
        vendor_sku: String::from("S1"),
    }
}

#[test]
fn describes_a_product_with_its_price() {
    assert_eq!(describe_product(&product("Apple", 1000, Some(800))), "Apple ($8.00)");
    assert_eq!(describe_product(&product("Pear", 150, None)), "Pear ($1.50)");
}

#[test]
fn summary_of_no_products_is_none() {
    assert!(sale_summary(&Vec::new()).is_none());
}

#[test]
fn summary_of_one_product_stands_alone() {
    let products = vec![product("Apple", 800, None)];
    assert_eq!(
        sale_summary(&products).unwrap(),
        "Today's sale items include: Apple ($8.00)"
    );
}

#[test]
fn summary_joins_products_naturally() {
    let two = vec![product("Apple", 800, None), product("Pear", 150, None)];
    assert_eq!(
        sale_summary(&two).unwrap(),
        "Today's sale items include: Apple ($8.00), and Pear ($1.50)"
    );
    let three = vec![
        product("Apple", 800, None),
        product("Pear", 150, None),
        product("Plum", 75, None),
    ];
    assert_eq!(
        sale_summary(&three).unwrap(),
        "Today's sale items include: Apple ($8.00), Pear ($1.50), and Plum ($0.75)"
    );
}

#[test]
fn fetch_errors_render_their_step_and_cause() {
    assert_eq!(
        format_error(&FetchError::Request(FetchStep::SetLocation)),
        "set store location: send request"
    );
    assert_eq!(
        format_error(&FetchError::BadStatus(FetchStep::FetchSpecials)),
        "fetch weekly specials: bad response"
    );
    assert_eq!(
        format_error(&FetchError::Parse(ParseError::InvalidJson)),
        "parse response: invalid json"
    );
    assert_eq!(
        format_error(&FetchError::Parse(ParseError::MissingItems)),
        "parse products: missing data"
    );
    assert_eq!(
        format_error(&FetchError::Parse(ParseError::BadRecord)),
        "parse products: bad record"
    );
}
