//! The messages the broker and its client exchange, and the outcome values
//! providers hand back for a selected entry.

use vstd::prelude::*;

verus! {

/// What a provider reports about itself: a display name, unique within a
/// session, and an icon identifier the client may render.
#[derive(Debug, PartialEq, Eq)]
pub struct ProviderInfo {
    pub name: String,
    pub icon: String,
}

/// Mathematical image of a `ProviderInfo`.
#[verifier::ext_equal]
pub struct ProviderInfoV {
    pub name: Seq<char>,
    pub icon: Seq<char>,
}

impl View for ProviderInfo {
    type V = ProviderInfoV;

    open spec fn view(&self) -> ProviderInfoV {
        ProviderInfoV { name: self.name@, icon: self.icon@ }
    }
}


impl Clone for ProviderInfo {
    fn clone(&self) -> (r: ProviderInfo)
        ensures
            r@ == self@,
    {
        ProviderInfo { name: self.name.clone(), icon: self.icon.clone() }
    }
}

/// One entry of a provider's answer to a query.
#[derive(Debug, PartialEq, Eq)]
pub struct MatchEntry {
    pub title: String,
    pub description: Option<String>,
    pub icon: Option<String>,
    pub id: Option<u64>,
    pub rich_text: bool,
}

/// Mathematical image of a `MatchEntry`.
#[verifier::ext_equal]
pub struct MatchEntryV {
    pub title: Seq<char>,
    pub description: Option<Seq<char>>,
    pub icon: Option<Seq<char>>,
    pub id: Option<u64>,
    pub rich_text: bool,
}

/// The view of an optional string.
pub open spec fn view_opt_string(s: Option<String>) -> Option<Seq<char>> {
    match s {
        Some(t) => Some(t@),
        None => None,
    }
}

impl View for MatchEntry {
    type V = MatchEntryV;

    open spec fn view(&self) -> MatchEntryV {
        MatchEntryV {
            title: self.title@,
            description: view_opt_string(self.description),
            icon: view_opt_string(self.icon),
            id: self.id,
            rich_text: self.rich_text,
        }
    }
}

/// The view of a list of match entries.
pub open spec fn view_matches(m: Seq<MatchEntry>) -> Seq<MatchEntryV> {
    m.map_values(|e: MatchEntry| e@)
}

/// The view of a list of provider descriptions.
pub open spec fn view_infos(m: Seq<ProviderInfo>) -> Seq<ProviderInfoV> {
    m.map_values(|e: ProviderInfo| e@)
}


/// Clones an optional string, keeping its view.
pub fn clone_opt_string(s: &Option<String>) -> (r: Option<String>)
    ensures
        view_opt_string(r) == view_opt_string(*s),
{
    match s {
        Some(t) => Some(t.clone()),
        None => None,
    }
}

impl Clone for MatchEntry {
    fn clone(&self) -> (r: MatchEntry)
        ensures
            r@ == self@,
    {
        MatchEntry {
            title: self.title.clone(),
            description: clone_opt_string(&self.description),
            icon: clone_opt_string(&self.icon),
            id: self.id,
            rich_text: self.rich_text,
        }
    }
}

/// What a provider decides when the user picks one of its entries: close the
/// launcher, keep it open, or replace the query text and search again.
#[derive(Debug, PartialEq, Eq)]
pub enum HandleOutcome {
    Close,
    KeepOpen,
    RefreshQuery(String),
}

/// Mathematical image of a `HandleOutcome`.
#[verifier::ext_equal]
pub enum HandleOutcomeV {
    Close,
    KeepOpen,
    RefreshQuery(Seq<char>),
}

impl View for HandleOutcome {
    type V = HandleOutcomeV;

    open spec fn view(&self) -> HandleOutcomeV {
        match self {
            HandleOutcome::Close => HandleOutcomeV::Close,
            HandleOutcome::KeepOpen => HandleOutcomeV::KeepOpen,
            HandleOutcome::RefreshQuery(t) => HandleOutcomeV::RefreshQuery(t@),
        }
    }
}

/// A client request to the broker.
#[derive(Debug, PartialEq, Eq)]
pub enum Request {
    /// Run every provider against this text.
    Query(String),
    /// The user picked `selection`, reported by the provider named in `provider`.
    Handle { provider: ProviderInfo, selection: MatchEntry },
    /// Cancel outstanding work and re-initialize every provider.
    Reset,
    /// End the session and stop the broker.
    Quit,
}

/// Mathematical image of a `Request`.
#[verifier::ext_equal]
pub enum RequestV {
    Query(Seq<char>),
    Handle { provider: ProviderInfoV, selection: MatchEntryV },
    Reset,
    Quit,
}

impl View for Request {
    type V = RequestV;

    open spec fn view(&self) -> RequestV {
        match self {
            Request::Query(t) => RequestV::Query(t@),
            Request::Handle { provider, selection } => RequestV::Handle {
                provider: provider@,
                selection: selection@,
            },
            Request::Reset => RequestV::Reset,
            Request::Quit => RequestV::Quit,
        }
    }
}

/// A broker message to the client.
#[derive(Debug, PartialEq, Eq)]
pub enum Response {
    /// The handshake: every loaded provider's description, sent once, first.
    Ready { providers: Vec<ProviderInfo> },
    /// One provider's full answer for the current query.
    Matches { provider: ProviderInfo, entries: Vec<MatchEntry> },
    /// The outcome of handing a selection to its provider.
    Handled { provider: ProviderInfo, outcome: HandleOutcome },
}

/// Mathematical image of a `Response`.
#[verifier::ext_equal]
pub enum ResponseV {
    Ready { providers: Seq<ProviderInfoV> },
    Matches { provider: ProviderInfoV, entries: Seq<MatchEntryV> },
    Handled { provider: ProviderInfoV, outcome: HandleOutcomeV },
}

impl View for Response {
    type V = ResponseV;

    open spec fn view(&self) -> ResponseV {
        match self {
            Response::Ready { providers } => ResponseV::Ready {
                providers: view_infos(providers@),
            },
            Response::Matches { provider, entries } => ResponseV::Matches {
                provider: provider@,
                entries: view_matches(entries@),
            },
            Response::Handled { provider, outcome } => ResponseV::Handled {
                provider: provider@,
                outcome: outcome@,
            },
        }
    }
}

} // verus!
