//! Vendor-neutral grocery products on sale, and the capability to fetch them.
//!
//! All money amounts are integer numbers of cents, so that prices and
//! discounts are exact.

use vstd::prelude::*;

pub mod tnt;

verus! {

/// Mathematical view of [`Prices`]: amounts in cents.
pub ghost struct PricesView {
    pub original: int,
    pub sale: Option<int>,
}

impl PricesView {
    /// Amounts are non-negative, and a sale price equal to the original
    /// price is represented as absent.
    pub open spec fn wf(self) -> bool {
        &&& 0 <= self.original
        &&& match self.sale {
            Some(s) => 0 <= s && s != self.original,
            None => true,
        }
    }

    /// The price currently in effect: the sale price if there is one.
    pub open spec fn spec_current(self) -> int {
        match self.sale {
            Some(s) => s,
            None => self.original,
        }
    }

    /// What a buyer saves: original minus sale, when a sale price is set.
    pub open spec fn spec_discount(self) -> Option<int> {
        match self.sale {
            Some(s) => Some(self.original - s),
            None => None,
        }
    }
}

/// The original price of a product and, if it differs, the sale price.
#[derive(Clone, Debug)]
pub struct Prices {
    /// Price before the sale, in cents.
    pub original: i64,
    /// Sale price in cents; `None` when the product sells at the original
    /// price.
    pub sale: Option<i64>,
}

impl View for Prices {
    type V = PricesView;

    open spec fn view(&self) -> PricesView {
        PricesView {
            original: self.original as int,
            sale: match self.sale {
                Some(s) => Some(s as int),
                None => None,
            },
        }
    }
}

impl Prices {
    /// The price currently in effect, in cents.
    pub fn current(&self) -> (r: i64)
        ensures
            r as int == self@.spec_current(),
    {
        match self.sale {
            Some(amount) => amount,
            None => self.original,
        }
    }

    /// The savings against the original price, when a sale price is set.
    pub fn discount(&self) -> (r: Option<i64>)
        requires
            self@.wf(),
        ensures
            match r {
                Some(d) => self@.spec_discount() == Some(d as int),
                None => self@.spec_discount() is None,
            },
    {
        match self.sale {
            Some(amount) => Some(self.original - amount),
            None => None,
        }
    }
}

/// Mathematical view of [`Product`].
pub ghost struct ProductView {
    pub name: Seq<char>,
    pub units: Option<Seq<char>>,
    pub prices: PricesView,
    pub vendor: Seq<char>,
    pub vendor_id: Seq<char>,
    pub vendor_sku: Seq<char>,
}

impl ProductView {
    /// The price invariant: prices are present and non-negative.
    pub open spec fn wf(self) -> bool {
        self.prices.wf()
    }
}

/// A product on sale, in a vendor-neutral representation.
#[derive(Clone, Debug)]
pub struct Product {
    pub name: String,
    /// Unit label (such as a weight), when the vendor reports one.
    pub units: Option<String>,
    pub prices: Prices,
    pub vendor: String,
    pub vendor_id: String,
    pub vendor_sku: String,
}

impl View for Product {
    type V = ProductView;

    open spec fn view(&self) -> ProductView {
        ProductView {
            name: self.name@,
            units: match self.units {
                Some(u) => Some(u@),
                None => None,
            },
            prices: self.prices@,
            vendor: self.vendor@,
            vendor_id: self.vendor_id@,
            vendor_sku: self.vendor_sku@,
        }
    }
}

impl DeepView for Product {
    type V = ProductView;

    open spec fn deep_view(&self) -> ProductView {
        self.view()
    }
}

impl Product {
    /// The price currently in effect, in cents.
    pub fn price(&self) -> (r: i64)
        ensures
            r as int == self@.prices.spec_current(),
    {
        self.prices.current()
    }

    /// The savings against the original price, when a sale price is set.
    pub fn discount(&self) -> (r: Option<i64>)
        requires
            self@.wf(),
        ensures
            match r {
                Some(d) => self@.prices.spec_discount() == Some(d as int),
                None => self@.prices.spec_discount() is None,
            },
    {
        self.prices.discount()
    }
}

/// The step of a fetch at which a failure happened.
#[derive(Clone, Copy, Debug, PartialEq, Eq, Structural)]
pub enum FetchStep {
    /// Setting the preferred store location by postal code.
    SetLocation,
    /// Requesting the page of weekly specials.
    FetchSpecials,
}

/// Why a response body could not be turned into products.
#[derive(Clone, Copy, Debug, PartialEq, Eq, Structural)]
pub enum ParseError {
    /// The body is not valid JSON.
    InvalidJson,
    /// The expected nested path holding the records is missing, or does not
    /// hold an array.
    MissingItems,
    /// A record does not have the expected shape.
    BadRecord,
}

/// Why a fetch of sale products failed.
#[derive(Clone, Copy, Debug, PartialEq, Eq, Structural)]
pub enum FetchError {
    /// The request could not be sent, or no response arrived.
    Request(FetchStep),
    /// The response had a non-success status.
    BadStatus(FetchStep),
    /// The response body could not be parsed.
    Parse(ParseError),
}

/// The capability to fetch the products currently on sale at a grocery
/// vendor. Further vendor integrations implement this same trait.
///
/// The postal code of the preferred store is supplied by the caller.
pub trait Sailor {
    fn get_sale_products(&self, postcode: &str) -> (r: Result<Vec<Product>, FetchError>)
        ensures
            r matches Ok(ps) ==> forall|i: int|
                0 <= i < ps.deep_view().len() ==> (#[trigger] ps.deep_view()[i]).wf(),
    ;
}

} // verus!
