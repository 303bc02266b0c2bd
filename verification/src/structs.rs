//! Plain product records.
use vstd::prelude::*;

verus! {

/// The identifier of a product.
pub type ProductID = u32;

/// A product: its identifier and its name.
#[derive(Clone, Debug)]
pub struct Product {
    pub id: ProductID,
    pub name: String,
}

}
