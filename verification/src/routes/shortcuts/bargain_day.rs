//! The human-readable summary of the products on sale: a comma-joined,
//! natural-language list with per-item prices.

use vstd::prelude::*;

use crate::grocery::{Product, ProductView};
use crate::money::{format_cents, money_string};

verus! {

/// How one product is described: its name and its current price with two
/// decimal places.
pub open spec fn description_of(p: ProductView) -> Seq<char> {
    p.name + " ($"@ + money_string(p.prices.spec_current()) + ")"@
}

/// The descriptions of a non-empty sequence of products, joined with
/// commas.
pub open spec fn joined_descriptions(ps: Seq<ProductView>) -> Seq<char>
    decreases ps.len(),
{
    if ps.len() <= 1 {
        description_of(ps[0])
    } else {
        joined_descriptions(ps.drop_last()) + ", "@ + description_of(ps.last())
    }
}

/// The natural-language listing: a single product stands alone; otherwise
/// the last description follows an `, and `.
pub open spec fn listing_of(ps: Seq<ProductView>) -> Seq<char> {
    if ps.len() <= 1 {
        description_of(ps[0])
    } else {
        joined_descriptions(ps.drop_last()) + ", and "@ + description_of(ps.last())
    }
}

/// Describe one product, as the sale summary does.
pub fn describe_product(product: &Product) -> (r: String)
    requires
        product@.wf(),
    ensures
        r@ == description_of(product@),
{
    let mut s = product.name.clone();
    s.append(" ($");
    let price = format_cents(product.price());
    s.append(price.as_str());
    s.append(")");
    proof {
        assert(s@ =~= description_of(product@));
    }
    s
}

/// The message of the bargain-day route: the listing of the products on
/// sale, or nothing when there are none — at this layer an empty page
/// becomes the caller's error.
pub fn sale_summary(products: &Vec<Product>) -> (r: Option<String>)
    requires
        forall|i: int| 0 <= i < products@.len() ==> (#[trigger] products@[i])@.wf(),
    ensures
        match r {
            None => products@.len() == 0,
            Some(s) => products@.len() > 0 && s@ == "Today's sale items include: "@ + listing_of(
                products.deep_view(),
            ),
        },
{
    let n = products.len();
    if n == 0 {
        return None;
    }
    let mut body = describe_product(&products[0]);
    proof {
        assert(products.deep_view().take(1)[0] == products@[0]@);
        assert(body@ == joined_descriptions(products.deep_view().take(1)));
    }
    let mut i: usize = 1;
    while i + 1 < n
        invariant
            1 <= i <= n,
            i + 1 <= n || n == 1,
            n == products@.len(),
            products.deep_view().len() == n,
            forall|k: int| 0 <= k < products@.len() ==> (#[trigger] products@[k])@.wf(),
            body@ == joined_descriptions(products.deep_view().take(i as int)),
        decreases n - i,
    {
        body.append(", ");
        let d = describe_product(&products[i]);
        body.append(d.as_str());
        proof {
            let dv = products.deep_view();
            let s1 = dv.take(i + 1);
            assert(s1.drop_last() =~= dv.take(i as int));
            assert(s1.last() == products@[i as int]@);
            assert(body@ =~= joined_descriptions(s1));
        }
        i = i + 1;
    }
    if n >= 2 {
        body.append(", and ");
        let d = describe_product(&products[n - 1]);
        body.append(d.as_str());
        proof {
            let dv = products.deep_view();
            assert(dv.take(n - 1) =~= dv.drop_last());
            assert(dv.last() == products@[n - 1]@);
            assert(body@ =~= listing_of(dv));
        }
    } else {
        proof {
            let dv = products.deep_view();
            assert(dv.take(1) =~= dv);
            assert(body@ == listing_of(dv));
        }
    }
    let mut s = String::from_str("Today's sale items include: ");
    s.append(body.as_str());
    Some(s)
}

} // verus!
