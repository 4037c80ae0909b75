//! Trusted boundary to serde_json. Each upstream payload shape gets one
//! wrapper that parses the text and picks the consumed fields out as plain
//! values, and one uninterpreted name for its result: every parse here is a
//! pure function of the input text, so the name pins the wrapper's callers to
//! exactly "whatever serde_json makes of this text", no more.
use vstd::prelude::*;

use crate::progress::{PullEvent, PullEventView};
use crate::relay::{GenEvent, GenEventView};

verus! {

/// What serde_json makes of one pull-progress line: `None` when the line is
/// not a JSON object, otherwise its `status`, `total`, `completed` and
/// `error` fields as plain values.
pub uninterp spec fn pull_event_of(s: Seq<char>) -> Option<PullEventView>;

/// Relies on `serde_json::from_str::<Value>` and `Value::get` / `as_str` /
/// `as_u64`: parses one line of the pull stream and moves the four consumed
/// fields out. The result is a function of the line's characters alone.
#[verifier::external_body]
pub(crate) fn parse_pull_line(line: &str) -> (r: Option<PullEvent>)
    ensures
        r.deep_view() == pull_event_of(line@),
{
    let v: serde_json::Value = match serde_json::from_str(line) {
        Ok(v) => v,
        Err(_) => return None,
    };
    Some(PullEvent {
        status: v.get("status").and_then(|s| s.as_str()).unwrap_or("").to_string(),
        total: v.get("total").and_then(|t| t.as_u64()),
        completed: v.get("completed").and_then(|c| c.as_u64()),
        error: v.get("error").and_then(|e| e.as_str()).map(|s| s.to_string()),
    })
}

/// What serde_json makes of one completion-stream line: `None` when the line
/// is not a JSON object, otherwise its `response` and `done` fields.
pub uninterp spec fn gen_event_of(s: Seq<char>) -> Option<GenEventView>;

/// Relies on `serde_json::from_str::<Value>` and `Value::get` / `as_str` /
/// `as_bool`: parses one line of the completion stream and moves the two
/// consumed fields out. The result is a function of the line's characters
/// alone.
#[verifier::external_body]
pub(crate) fn parse_gen_line(line: &str) -> (r: Option<GenEvent>)
    ensures
        r.deep_view() == gen_event_of(line@),
{
    let v: serde_json::Value = match serde_json::from_str(line) {
        Ok(v) => v,
        Err(_) => return None,
    };
    Some(GenEvent {
        response: v.get("response").and_then(|s| s.as_str()).map(|s| s.to_string()),
        done: v.get("done").and_then(|d| d.as_bool()),
    })
}

/// What serde_json makes of the catalog payload: `None` when the body is not
/// JSON; otherwise one entry per element of `models`, each the element's
/// `name` field when it is a string. A missing or non-array `models` field
/// yields an empty sequence.
pub uninterp spec fn catalog_of(s: Seq<char>) -> Option<Seq<Option<Seq<char>>>>;

/// Relies on `serde_json::from_str::<Value>` and `Value::get` / `as_array` /
/// `as_str`: parses the catalog payload and moves each element's `name` field
/// out, one `Option` per element. The result is a function of the body's
/// characters alone.
#[verifier::external_body]
pub(crate) fn parse_catalog_body(body: &str) -> (r: Option<Vec<Option<String>>>)
    ensures
        r.deep_view() == catalog_of(body@),
{
    let v: serde_json::Value = match serde_json::from_str(body) {
        Ok(v) => v,
        Err(_) => return None,
    };
    let arr = match v.get("models").and_then(|m| m.as_array()) {
        Some(a) => a,
        None => return Some(Vec::new()),
    };
    Some(
        arr.iter().map(
            |m| m.get("name").and_then(|n| n.as_str()).map(|s| s.to_string()),
        ).collect(),
    )
}

/// One element of the search provider's result list, fields as the provider
/// sent them (absent or non-string fields are `None`).
pub struct RawSearchItem {
    pub title: Option<String>,
    pub url: Option<String>,
    pub description: Option<String>,
}

/// The mathematical value of a [`RawSearchItem`].
#[verifier::ext_equal]
pub ghost struct RawSearchItemView {
    pub title: Option<Seq<char>>,
    pub url: Option<Seq<char>>,
    pub description: Option<Seq<char>>,
}

/// The value of an optional string.
pub open spec fn view_opt(o: Option<String>) -> Option<Seq<char>> {
    match o {
        Some(s) => Some(s@),
        None => None,
    }
}

impl View for RawSearchItem {
    type V = RawSearchItemView;

    open spec fn view(&self) -> RawSearchItemView {
        RawSearchItemView {
            title: view_opt(self.title),
            url: view_opt(self.url),
            description: view_opt(self.description),
        }
    }
}

impl DeepView for RawSearchItem {
    type V = RawSearchItemView;

    open spec fn deep_view(&self) -> RawSearchItemView {
        self.view()
    }
}

/// What serde_json makes of the search provider's payload: `None` when the
/// body is not JSON or `web.results` is missing or not an array; otherwise
/// one raw item per result element.
pub uninterp spec fn search_items_of(s: Seq<char>) -> Option<Seq<RawSearchItemView>>;

/// Relies on `serde_json::from_str::<Value>` and `Value::get` / `as_array` /
/// `as_str`: parses the search payload and moves each result's `title`, `url`
/// and `description` fields out, one raw item per element. The result is a
/// function of the body's characters alone.
#[verifier::external_body]
pub(crate) fn parse_search_body(body: &str) -> (r: Option<Vec<RawSearchItem>>)
    ensures
        r.deep_view() == search_items_of(body@),
{
    let v: serde_json::Value = match serde_json::from_str(body) {
        Ok(v) => v,
        Err(_) => return None,
    };
    let arr = v.get("web")?.get("results")?.as_array()?;
    Some(
        arr.iter().map(
            |e| RawSearchItem {
                title: e.get("title").and_then(|t| t.as_str()).map(|s| s.to_string()),
                url: e.get("url").and_then(|t| t.as_str()).map(|s| s.to_string()),
                description: e.get("description").and_then(|t| t.as_str()).map(|s| s.to_string()),
            },
        ).collect(),
    )
}

} // verus!
