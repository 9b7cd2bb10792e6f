//! What comes back from the upstream API, and how a list response is read.
//!
//! The caller performs the network call and hands over what it got: either
//! that the upstream could not be reached, or the status code and the body
//! of its answer. Everything decided from that is decided here.

use vstd::prelude::*;
use crate::item::Item;
use crate::json::{
    as_array,
    as_i64,
    as_str,
    json_elements,
    json_i64,
    json_member,
    json_parse,
    json_str,
    member,
    parse,
};
use crate::text::opt_string_view;

verus! {

/// The number of items that one upstream list call asks for.
pub const UPSTREAM_PAGE_SIZE: usize = 50;

/// Why a request could not be answered.
#[derive(Clone, Copy, Debug, PartialEq, Eq, Structural)]
pub enum QueryError {
    /// The caller supplied no credential.
    AuthMissing,
    /// The upstream could not be reached, or did not answer in time.
    UpstreamTransportError,
    /// The upstream answered with this status, which is no success.
    UpstreamRejected(u16),
    /// The upstream's answer is no JSON document.
    UpstreamMalformed,
}

/// The outcome of one call of the upstream API.
#[derive(Debug, PartialEq, Eq)]
pub enum UpstreamReply {
    /// No answer: connection failure or timeout.
    Unreachable,
    /// An answer with its status code and body.
    Answer { status: u16, body: String },
}

/// One page of the upstream collection.
#[derive(Debug, PartialEq, Eq)]
pub struct UpstreamPage {
    pub items: Vec<Item>,
    /// The cursor of the page after this one; none on the last page.
    pub next_cursor: Option<String>,
    /// The upstream's own estimate of the size of the whole collection,
    /// where it gave one.
    pub total_hint: Option<usize>,
}

/// The status is one of success: 200 to 299.
pub open spec fn is_success(status: u16) -> bool {
    200 <= status < 300
}

/// The status is one that an HTTP response can carry: 100 to 999.
pub open spec fn is_valid_status(status: u16) -> bool {
    100 <= status < 1000
}

/// The status with which an error is reported to the client: 401 where the
/// credential is missing, the upstream's own status where it rejected the
/// call, 500 otherwise.
pub open spec fn status_of(e: QueryError) -> u16 {
    match e {
        QueryError::AuthMissing => 401,
        QueryError::UpstreamTransportError => 500,
        QueryError::UpstreamRejected(status) => if is_valid_status(status) {
            status
        } else {
            500
        },
        QueryError::UpstreamMalformed => 500,
    }
}

/// The items are the records, read one by one; no items where the
/// document has no array of records.
pub open spec fn items_read(items: Seq<Item>, records: Option<Seq<serde_json::Value>>) -> bool {
    match records {
        Some(rs) => {
            &&& items.len() == rs.len()
            &&& forall|i: int| 0 <= i < rs.len() ==> (#[trigger] items[i]).reads(rs[i])
        },
        None => items.len() == 0,
    }
}

/// The size that an upstream estimate stands for: the number itself, if
/// it is not negative and fits.
pub open spec fn hint_of(n: Option<i64>) -> Option<usize> {
    match n {
        Some(x) => if 0 <= x <= usize::MAX {
            Some(x as usize)
        } else {
            None
        },
        None => None,
    }
}

/// `page` is what the list response `doc` holds: the records under `items`,
/// the cursor under `nextPageToken` and the estimate under
/// `pageInfo.totalResults`.
pub open spec fn page_reads(page: UpstreamPage, doc: serde_json::Value) -> bool {
    &&& items_read(page.items@, json_elements(json_member(doc, "items"@)))
    &&& opt_string_view(page.next_cursor) == json_str(json_member(doc, "nextPageToken"@))
    &&& page.total_hint == hint_of(
        json_i64(json_member(json_member(doc, "pageInfo"@), "totalResults"@)),
    )
}

/// `r` is what the reply to a list call decodes to: the error that the
/// reply stands for, or the page in its body.
pub open spec fn decodes_to(reply: UpstreamReply, r: Result<UpstreamPage, QueryError>) -> bool {
    match reply {
        UpstreamReply::Unreachable => r == Err::<UpstreamPage, QueryError>(
            QueryError::UpstreamTransportError,
        ),
        UpstreamReply::Answer { status, body } => {
            if !is_success(status) {
                r == Err::<UpstreamPage, QueryError>(QueryError::UpstreamRejected(status))
            } else {
                match json_parse(body@) {
                    Some(doc) => r matches Ok(page) && page_reads(page, doc),
                    None => r == Err::<UpstreamPage, QueryError>(QueryError::UpstreamMalformed),
                }
            }
        },
    }
}

impl QueryError {
    /// The status with which the error is reported to the client.
    pub fn http_status(&self) -> (r: u16)
        ensures
            r == status_of(*self),
    {
        match self {
            QueryError::AuthMissing => 401,
            QueryError::UpstreamTransportError => 500,
            QueryError::UpstreamRejected(status) => {
                if 100 <= *status && *status < 1000 {
                    *status
                } else {
                    500
                }
            },
            QueryError::UpstreamMalformed => 500,
        }
    }

    /// The text with which the error is reported to the client.
    pub fn message(&self) -> (r: &'static str)
        ensures
            r@ == (match *self {
                QueryError::AuthMissing => "Missing token"@,
                QueryError::UpstreamTransportError => "Request failed"@,
                QueryError::UpstreamRejected(_) => "YouTube API error"@,
                QueryError::UpstreamMalformed => "Invalid JSON"@,
            }),
    {
        match self {
            QueryError::AuthMissing => "Missing token",
            QueryError::UpstreamTransportError => "Request failed",
            QueryError::UpstreamRejected(_) => "YouTube API error",
            QueryError::UpstreamMalformed => "Invalid JSON",
        }
    }
}

/// Decides [`is_success`].
pub fn status_is_success(status: u16) -> (r: bool)
    ensures
        r == is_success(status),
{
    200 <= status && status < 300
}

/// Reads the records of a list response into items, in their order.
pub fn items_from_records(records: Option<&Vec<serde_json::Value>>) -> (r: Vec<Item>)
    ensures
        items_read(
            r@,
            match records {
                Some(rs) => Some(rs@),
                None => None,
            },
        ),
{
    let mut items: Vec<Item> = Vec::new();
    match records {
        Some(rs) => {
            let mut i: usize = 0;
            while i < rs.len()
                invariant
                    i <= rs.len(),
                    items.len() == i,
                    forall|j: int| 0 <= j < i ==> (#[trigger] items@[j]).reads(rs@[j]),
                decreases rs.len() - i,
            {
                items.push(Item::from_json(&rs[i]));
                i = i + 1;
            }
        },
        None => {},
    }
    items
}

/// Decides [`hint_of`].
pub fn total_hint_from(n: Option<i64>) -> (r: Option<usize>)
    ensures
        r == hint_of(n),
{
    match n {
        Some(x) => {
            if x >= 0 && x as u64 <= usize::MAX as u64 {
                Some(x as usize)
            } else {
                None
            }
        },
        None => None,
    }
}

/// Reads one page off the document of a list response.
pub fn page_from_json(doc: &serde_json::Value) -> (r: UpstreamPage)
    ensures
        page_reads(r, *doc),
{
    let items = items_from_records(as_array(member(doc, "items")));
    let next_cursor = match as_str(member(doc, "nextPageToken")) {
        Some(s) => Some(s.to_owned()),
        None => None,
    };
    let total_hint = total_hint_from(as_i64(member(member(doc, "pageInfo"), "totalResults")));
    UpstreamPage { items, next_cursor, total_hint }
}

/// Decodes the reply to a list call: no answer is a transport error, a
/// status other than success is passed on as a rejection, a body that is
/// no JSON document is malformed, and anything else is a page.
pub fn decode_list_reply(reply: &UpstreamReply) -> (r: Result<UpstreamPage, QueryError>)
    ensures
        decodes_to(*reply, r),
{
    match reply {
        UpstreamReply::Unreachable => Err(QueryError::UpstreamTransportError),
        UpstreamReply::Answer { status, body } => {
            if !status_is_success(*status) {
                return Err(QueryError::UpstreamRejected(*status));
            }
            match parse(body.as_str()) {
                Ok(doc) => Ok(page_from_json(&doc)),
                Err(_) => Err(QueryError::UpstreamMalformed),
            }
        },
    }
}

} // verus!
