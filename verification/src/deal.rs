//! The current deal on meh.com.
use vstd::prelude::*;

use crate::timestamp::Timestamp;

verus! {

/// Description of the current deal on meh.com.
#[derive(Debug, Clone, PartialEq, Eq)]
pub struct Deal {
    /// The bulleted list that appears below the item's name.
    pub features: String,
    /// Unique id for this deal.
    pub id: String,
    /// The items for sale.
    pub items: Vec<Item>,
    /// Details about the sale (currently just when it sold out).
    pub launches: Vec<Launch>,
    /// List of CDN urls for all of the images.
    pub photos: Vec<String>,
    /// Minimum/maximum limits for this purchase.
    pub purchase_quantity: PurchaseQuantity,
    /// The item's name.
    pub title: String,
    /// Bulleted list of additional information.
    pub specifications: String,
    /// A snarky story for your enjoyment.
    pub story: Story,
    /// The current website theme.
    pub theme: Theme,
    /// The direct url to this item.
    pub url: String,
    /// When this deal will expire.
    pub end_date: Option<Timestamp>,
}

/// A single item in the current deal.
#[derive(Debug, Clone, PartialEq, Eq)]
pub struct Item {
    /// What makes this item unique?
    pub attributes: Vec<Attribute>,
    /// New, Used, Refurbished...
    pub condition: String,
    /// Unique id for this item.
    pub id: String,
    /// The price they are selling it for, in cents (hundredths of a dollar).
    pub price_cents: i64,
    /// The main photo url for this variation.
    pub photo: String,
}

/// Details about the sale.
#[derive(Debug, Clone, PartialEq, Eq)]
pub struct Launch {
    /// If this sold out... when?
    pub sold_out_at: Option<Timestamp>,
}

/// Minimum/maximum limits for a purchase.
#[derive(Debug, Clone, Copy, PartialEq, Eq)]
pub struct PurchaseQuantity {
    pub maximum_limit: u32,
    pub minimum_limit: u32,
}

/// The story that comes with a deal.
#[derive(Debug, Clone, PartialEq, Eq)]
pub struct Story {
    pub title: String,
    pub body: String,
}

/// The website theme of a deal.
#[derive(Debug, Clone, PartialEq, Eq)]
pub struct Theme {
    pub accent_color: String,
    pub background_color: String,
    pub background_image: String,
    pub foreground: String,
}

/// A key/value attribute of an item.
#[derive(Debug, Clone, PartialEq, Eq)]
pub struct Attribute {
    pub key: String,
    pub value: String,
}

} // verus!
