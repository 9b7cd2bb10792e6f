//! One record of the upstream collection, as far as the library reads it.

use vstd::prelude::*;
use crate::json::{as_i64, as_str, clone_value, json_i64, json_member, json_str, member};
use crate::text::{opt_str_view, text_or_empty};

verus! {

/// A subscription as the upstream API lists it. The library reads the three
/// fields it filters and sorts by, and the id; the record itself rides
/// along untouched in `payload`.
#[derive(Debug, PartialEq, Eq)]
pub struct Item {
    pub id: String,
    pub title: String,
    pub channel_title: String,
    pub total_item_count: i64,
    pub payload: serde_json::Value,
}

impl Clone for Item {
    fn clone(&self) -> (r: Self)
        ensures
            r == *self,
    {
        Item {
            id: self.id.clone(),
            title: self.title.clone(),
            channel_title: self.channel_title.clone(),
            total_item_count: self.total_item_count,
            payload: clone_value(&self.payload),
        }
    }
}

/// The count itself, or 0 where there is none.
pub open spec fn count_or_zero(n: Option<i64>) -> i64 {
    match n {
        Some(x) => x,
        None => 0,
    }
}

/// The id that a record carries: its member `id`, if that is a string.
pub open spec fn record_id(v: serde_json::Value) -> Option<Seq<char>> {
    json_str(json_member(v, "id"@))
}

/// The title that a record carries: `snippet.title`, if that is a string.
pub open spec fn record_title(v: serde_json::Value) -> Option<Seq<char>> {
    json_str(json_member(json_member(v, "snippet"@), "title"@))
}

/// The channel name that a record carries: `snippet.channelTitle`, if that
/// is a string.
pub open spec fn record_channel_title(v: serde_json::Value) -> Option<Seq<char>> {
    json_str(json_member(json_member(v, "snippet"@), "channelTitle"@))
}

/// The count that a record carries: `contentDetails.totalItemCount`, if
/// that is an integer.
pub open spec fn record_count(v: serde_json::Value) -> Option<i64> {
    json_i64(json_member(json_member(v, "contentDetails"@), "totalItemCount"@))
}

impl Item {
    /// `self` is what [`Item::from_parts`] makes of these parts.
    pub open spec fn made_of(
        self,
        id: Option<Seq<char>>,
        title: Option<Seq<char>>,
        channel_title: Option<Seq<char>>,
        total_item_count: Option<i64>,
        payload: serde_json::Value,
    ) -> bool {
        &&& self.id@ == text_or_empty(id)
        &&& self.title@ == text_or_empty(title)
        &&& self.channel_title@ == text_or_empty(channel_title)
        &&& self.total_item_count == count_or_zero(total_item_count)
        &&& self.payload == payload
    }

    /// `self` is the item that the record `v` stands for.
    pub open spec fn reads(self, v: serde_json::Value) -> bool {
        self.made_of(record_id(v), record_title(v), record_channel_title(v), record_count(v), v)
    }

    /// Builds an item from the fields read off a record. A missing text
    /// becomes the empty text, a missing count becomes 0.
    pub fn from_parts(
        id: Option<&str>,
        title: Option<&str>,
        channel_title: Option<&str>,
        total_item_count: Option<i64>,
        payload: serde_json::Value,
    ) -> (r: Item)
        ensures
            r.made_of(
                opt_str_view(id),
                opt_str_view(title),
                opt_str_view(channel_title),
                total_item_count,
                payload,
            ),
    {
        Item {
            id: owned_or_empty(id),
            title: owned_or_empty(title),
            channel_title: owned_or_empty(channel_title),
            total_item_count: match total_item_count {
                Some(n) => n,
                None => 0,
            },
            payload,
        }
    }

    /// Reads an item off one record of an upstream page.
    pub fn from_json(v: &serde_json::Value) -> (r: Item)
        ensures
            r.reads(*v),
    {
        let snippet = member(v, "snippet");
        let details = member(v, "contentDetails");
        Item::from_parts(
            as_str(member(v, "id")),
            as_str(member(snippet, "title")),
            as_str(member(snippet, "channelTitle")),
            as_i64(member(details, "totalItemCount")),
            clone_value(v),
        )
    }
}

/// An owned copy of the text, or the empty string where there is none.
pub fn owned_or_empty(t: Option<&str>) -> (r: String)
    ensures
        r@ == text_or_empty(opt_str_view(t)),
{
    match t {
        Some(s) => s.to_owned(),
        None => String::new(),
    }
}

} // verus!
