//! Core data model: locations, events, and the error taxonomy.

use vstd::prelude::*;
use vstd::string::StringExecFns;

verus! {

/// One monitored grid cell, identified by a pair of sanitized coordinate
/// strings. Immutable once constructed; both parts are non-empty by
/// construction policy.
#[derive(Debug, Clone, PartialEq, Eq, Hash)]
pub struct Location {
    pub bottom_right: String,
    pub top_right: String,
}

/// The notification produced for one `Location` transitioning to active.
/// It has no identity beyond its location.
#[derive(Debug, Clone)]
pub struct BattleEvent {
    pub location: Location,
}

/// The error taxonomy of the relay. Errors arising in outside transports
/// are carried as plain messages.
#[derive(Debug, Clone, PartialEq, Eq)]
pub enum AppError {
    Http(String),
    WebSocket(String),
    Unauthorized,
    RateLimitExceeded,
    HtmlParse(String),
}

/// The mathematical value of a `Location`: its two coordinate strings.
pub struct LocationView {
    pub bottom_right: Seq<char>,
    pub top_right: Seq<char>,
}

impl LocationView {
    /// The single string key under which this location is tracked:
    /// the concatenation of its two coordinates.
    pub open spec fn key(self) -> Seq<char> {
        self.bottom_right + self.top_right
    }
}

impl View for Location {
    type V = LocationView;

    open spec fn view(&self) -> LocationView {
        LocationView { bottom_right: self.bottom_right@, top_right: self.top_right@ }
    }
}

impl View for BattleEvent {
    type V = LocationView;

    open spec fn view(&self) -> LocationView {
        self.location@
    }
}

impl Location {
    /// Accepts exactly the pairs whose parts are both non-empty; anything
    /// else is a parse failure.
    pub fn new(bottom_right: String, top_right: String) -> (r: Result<Location, AppError>)
        ensures
            (r is Ok) <==> (bottom_right@.len() > 0 && top_right@.len() > 0),
            r is Ok ==> r->Ok_0@ == (LocationView { bottom_right: bottom_right@, top_right: top_right@ }),
            r is Err ==> (r->Err_0 matches AppError::HtmlParse(m) && m@ == "Invalid location coordinates"@),
    {
        if bottom_right.as_str().is_empty() || top_right.as_str().is_empty() {
            return Err(AppError::HtmlParse("Invalid location coordinates".to_owned()));
        }
        Ok(Location { bottom_right, top_right })
    }

    /// The concatenated coordinate key of this location.
    pub fn as_string(&self) -> (r: String)
        ensures
            r@ == self@.key(),
    {
        let mut r = self.bottom_right.clone();
        r.append(self.top_right.as_str());
        r
    }
}

/// An exact copy of an event, built field by field so that the result is
/// known to carry the same location.
pub fn clone_event(e: &BattleEvent) -> (r: BattleEvent)
    ensures
        r@ == e@,
{
    BattleEvent {
        location: Location {
            bottom_right: e.location.bottom_right.clone(),
            top_right: e.location.top_right.clone(),
        },
    }
}

} // verus!
