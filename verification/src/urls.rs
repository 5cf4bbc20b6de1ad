//! Where a deployed canister can be reached: how the URL of a network
//! provider is changed to lead to the frontend of a canister or to its
//! Candid interface.

use crate::text::str_equal;
use vstd::prelude::*;
use vstd::string::StringExecFns;

verus! {

/// The canister that serves Candid interfaces on the main network.
pub const MAINNET_CANDID_INTERFACE_PRINCIPAL: &'static str = "a4gq6-oaaaa-aaaab-qaa4q-cai";

/// The type of the canisters that only serve assets and have no Candid
/// interface to show.
pub const ASSETS_CANISTER_TYPE: &'static str = "assets";

/// A change to the URL of a provider, as contracts speak of it.
pub struct UrlChangeView {
    /// The host to set, if the host changes.
    pub host: Option<Seq<char>>,
    /// The query to set, if the query changes.
    pub query: Option<Seq<char>>,
}

/// A change to the URL of a provider.
pub struct UrlChange {
    /// The host to set, if the host changes.
    pub host: Option<String>,
    /// The query to set, if the query changes.
    pub query: Option<String>,
}

impl View for UrlChange {
    type V = UrlChangeView;

    open spec fn view(&self) -> UrlChangeView {
        UrlChangeView {
            host: match self.host {
                Some(host) => Some(host@),
                None => None,
            },
            query: match self.query {
                Some(query) => Some(query@),
                None => None,
            },
        }
    }
}

/// The change that leads to the frontend of the canister `canister_id`: the
/// canister becomes a subdomain where the provider is named by a domain,
/// and a query parameter otherwise.
pub open spec fn spec_frontend_url_change(
    canister_id: Seq<char>,
    domain: Option<Seq<char>>,
) -> UrlChangeView {
    match domain {
        Some(domain) => UrlChangeView { host: Some(canister_id + "."@ + domain), query: None },
        None => UrlChangeView { host: None, query: Some("canisterId="@ + canister_id) },
    }
}

/// Makes the change that leads to the frontend of the canister
/// `canister_id`, given the domain of the provider if it has one.
pub fn frontend_url_change(canister_id: &str, domain: Option<&str>) -> (change: UrlChange)
    ensures
        change@ == spec_frontend_url_change(
            canister_id@,
            match domain {
                Some(domain) => Some(domain@),
                None => None,
            },
        ),
{
    match domain {
        Some(domain) => {
            let mut host = String::from_str(canister_id);
            host.append(".");
            host.append(domain);
            UrlChange { host: Some(host), query: None }
        },
        None => {
            let mut query = String::from_str("canisterId=");
            query.append(canister_id);
            UrlChange { host: None, query: Some(query) }
        },
    }
}

/// Where the Candid interface of a canister is shown, as contracts speak of
/// it.
pub enum CandidUrlView {
    /// At this URL.
    Whole(Seq<char>),
    /// At the URL of the provider with this change.
    Changed(UrlChangeView),
}

/// Where the Candid interface of a canister is shown.
pub enum CandidUrl {
    /// At this URL.
    Whole(String),
    /// At the URL of the provider with this change.
    Changed(UrlChange),
}

impl View for CandidUrl {
    type V = CandidUrlView;

    open spec fn view(&self) -> CandidUrlView {
        match self {
            CandidUrl::Whole(url) => CandidUrlView::Whole(url@),
            CandidUrl::Changed(change) => CandidUrlView::Changed(change@),
        }
    }
}

/// Where the Candid interface of the canister `canister_id` is shown, if
/// anywhere: nowhere for a canister that only serves assets; on the main
/// network at the canister that serves the interfaces there; and elsewhere
/// at the interface canister of the network, if it has one, as a subdomain
/// where the provider is named by a domain and as a query parameter
/// otherwise.
pub open spec fn spec_candid_url(
    canister_type: Seq<char>,
    canister_id: Seq<char>,
    is_ic: bool,
    ui_canister_id: Option<Seq<char>>,
    domain: Option<Seq<char>>,
) -> Option<CandidUrlView> {
    if canister_type == ASSETS_CANISTER_TYPE@ {
        None
    } else if is_ic {
        Some(
            CandidUrlView::Whole(
                "https://"@ + MAINNET_CANDID_INTERFACE_PRINCIPAL@ + ".raw.ic0.app/?id="@
                    + canister_id,
            ),
        )
    } else {
        match ui_canister_id {
            None => None,
            Some(ui_canister_id) => Some(
                CandidUrlView::Changed(
                    match domain {
                        Some(domain) => UrlChangeView {
                            host: Some(ui_canister_id + "."@ + domain),
                            query: Some("id="@ + canister_id),
                        },
                        None => UrlChangeView {
                            host: None,
                            query: Some(
                                "canisterId="@ + ui_canister_id + "&id="@ + canister_id,
                            ),
                        },
                    },
                ),
            ),
        }
    }
}

/// Decides where the Candid interface of the canister `canister_id` is
/// shown, if anywhere.
pub fn candid_url(
    canister_type: &str,
    canister_id: &str,
    is_ic: bool,
    ui_canister_id: Option<&str>,
    domain: Option<&str>,
) -> (url: Option<CandidUrl>)
    ensures
        match url {
            Some(found) => Some(found@),
            None => None,
        } == spec_candid_url(
            canister_type@,
            canister_id@,
            is_ic,
            match ui_canister_id {
                Some(ui_canister_id) => Some(ui_canister_id@),
                None => None,
            },
            match domain {
                Some(domain) => Some(domain@),
                None => None,
            },
        ),
{
    if str_equal(canister_type, ASSETS_CANISTER_TYPE) {
        return None;
    }
    if is_ic {
        let mut url = String::from_str("https://");
        url.append(MAINNET_CANDID_INTERFACE_PRINCIPAL);
        url.append(".raw.ic0.app/?id=");
        url.append(canister_id);
        return Some(CandidUrl::Whole(url));
    }
    match ui_canister_id {
        None => None,
        Some(ui_canister_id) => {
            match domain {
                Some(domain) => {
                    let mut host = String::from_str(ui_canister_id);
                    host.append(".");
                    host.append(domain);
                    let mut query = String::from_str("id=");
                    query.append(canister_id);
                    Some(CandidUrl::Changed(UrlChange { host: Some(host), query: Some(query) }))
                },
                None => {
                    let mut query = String::from_str("canisterId=");
                    query.append(ui_canister_id);
                    query.append("&id=");
                    query.append(canister_id);
                    Some(CandidUrl::Changed(UrlChange { host: None, query: Some(query) }))
                },
            }
        },
    }
}

} // verus!
