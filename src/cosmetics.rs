//! Catalog records: brands, products and the hot list.

use vstd::prelude::*;

use crate::models::{CatalogError, Validate};

verus! {

/// A decimal amount: `mantissa * 10^-scale`.
#[derive(Debug, Clone, Copy, PartialEq, Eq, Structural)]
pub struct Price {
    pub mantissa: i128,
    pub scale: u32,
}

impl Price {
    pub open spec fn spec_is_negative(self) -> bool {
        self.mantissa < 0
    }

    /// Whether the amount is below zero.
    pub fn is_negative(&self) -> (r: bool)
        ensures
            r == self.spec_is_negative(),
    {
        self.mantissa < 0
    }
}

/// A brand as listed: `is_hot` is never set by the catalog itself.
#[derive(Debug)]
pub struct Brand {
    pub id: u64,
    pub name: String,
    pub sequence: i32,
    pub is_hot: bool,
}

impl View for Brand {
    type V = (u64, Seq<char>, i32, bool);

    open spec fn view(&self) -> (u64, Seq<char>, i32, bool) {
        (self.id, self.name@, self.sequence, self.is_hot)
    }
}

/// A brand submitted for creation.
#[derive(Debug, Clone)]
pub struct NewBrand {
    pub name: String,
}

impl Validate for NewBrand {
    open spec fn validation(&self) -> Result<(), CatalogError> {
        if self.name@.len() == 0 {
            Err(CatalogError::EmptyName)
        } else {
            Ok(())
        }
    }

    fn validate(&self) -> (r: Result<(), CatalogError>) {
        if self.name.as_str().is_empty() {
            return Err(CatalogError::EmptyName);
        }
        Ok(())
    }
}

/// A new display position for a brand.
#[derive(Debug, Clone, Copy, PartialEq, Eq, Structural)]
pub struct BrandSequence {
    pub id: u64,
    pub sequence: i32,
}

/// A product as listed under its brand.
#[derive(Debug)]
pub struct BrandItem {
    pub id: u64,
    pub name: String,
    pub title: String,
    pub subtitle: String,
    pub img_url: String,
}

/// A product as read, with the name of its brand.
#[derive(Debug)]
pub struct ProductItem {
    pub id: u64,
    pub name: String,
    pub alias: String,
    pub title: String,
    pub subtitle: String,
    pub brand_id: u64,
    pub brand_name: String,
    pub spec: String,
    pub kind: u8,
    pub sell_price: Price,
    pub import_price: Price,
    pub sequence: i32,
    pub jd_id: String,
    pub jd_url: String,
    pub img_url: String,
    pub status: u8,
    pub comment: String,
}

/// A product submitted for creation or update; its brand is named, and the
/// catalog resolves the name to an id.
#[derive(Debug)]
pub struct NewProduct {
    pub id: Option<u64>,
    pub name: String,
    pub alias: String,
    pub title: String,
    pub subtitle: String,
    pub brand_name: String,
    pub spec: String,
    pub kind: u8,
    pub sell_price: Price,
    pub import_price: Price,
    pub sequence: i32,
    pub jd_id: String,
    pub jd_url: String,
    pub status: u8,
    pub comment: String,
    pub img_url: String,
    pub brand_id: u64,
}

impl Validate for NewProduct {
    open spec fn validation(&self) -> Result<(), CatalogError> {
        if self.name@.len() == 0 {
            Err(CatalogError::EmptyName)
        } else if self.title@.len() == 0 {
            Err(CatalogError::EmptyTitle)
        } else if self.sell_price.spec_is_negative() {
            Err(CatalogError::NegativePrice)
        } else if self.status != 0 && self.status != 1 {
            Err(CatalogError::InvalidStatus)
        } else {
            Ok(())
        }
    }

    fn validate(&self) -> (r: Result<(), CatalogError>) {
        if self.name.as_str().is_empty() {
            return Err(CatalogError::EmptyName);
        }
        if self.title.as_str().is_empty() {
            return Err(CatalogError::EmptyTitle);
        }
        if self.sell_price.is_negative() {
            return Err(CatalogError::NegativePrice);
        }
        if self.status != 0 && self.status != 1 {
            return Err(CatalogError::InvalidStatus);
        }
        Ok(())
    }
}

/// An entry of the hot list.
#[derive(Debug, Clone, Copy, PartialEq, Eq, Structural)]
pub struct HotProduct {
    pub product_id: u64,
}

} // verus!
