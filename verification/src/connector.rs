//! Connector-facing data: the connector kind, the description shown to
//! callers, the authenticated user, and per-website connector options.

use vstd::prelude::*;

use crate::json::JsonValue;

verus! {

/// Icon shared by the filesystem connectors.
pub fn file_icon() -> (r: &'static str)
    ensures
        r@ == "/assets/laptop.png"@,
{
    "/assets/laptop.png"
}

/// User silhouette icon (an SVG data URI) shown for the local user.
pub fn user_icon() -> (r: &'static str) {
    "data:image/svg+xml,%3Csvg xmlns='http://www.w3.org/2000/svg' height='1em' viewBox='0 0 448 512'%3E%3Cpath d='M304 128a80 80 0 1 0 -160 0 80 80 0 1 0 160 0zM96 128a128 128 0 1 1 256 0A128 128 0 1 1 96 128zM49.3 464H398.7c-8.9-63.3-63.3-112-129-112H178.3c-65.7 0-120.1 48.7-129 112zM0 482.3C0 383.8 79.8 304 178.3 304h91.4C368.2 304 448 383.8 448 482.3c0 16.4-13.3 29.7-29.7 29.7H29.7C13.3 512 0 498.7 0 482.3z'/%3E%3C/svg%3E"
}

/// Kind of connector: storage persists website data, hosting publishes it.
#[derive(Debug, Clone, Copy, PartialEq, Eq, Structural)]
pub enum ConnectorType {
    Storage,
    Hosting,
}

/// Description of a connector as shown to callers.
#[derive(Debug)]
pub struct ConnectorData {
    /// Unique identifier of the connector.
    pub connector_id: String,
    /// Kind of connector.
    pub connector_type: ConnectorType,
    /// Human-readable name.
    pub display_name: String,
    /// URL or data URI of the connector icon.
    pub icon: String,
    /// Whether the logout control is hidden for this connector.
    pub disable_logout: bool,
    /// Whether the user is currently logged in.
    pub is_logged_in: bool,
    /// OAuth URL, for connectors that authenticate through OAuth.
    pub oauth_url: Option<String>,
    /// Primary color for styling.
    pub color: String,
    /// Background color for styling.
    pub background: String,
}

/// User data returned after authentication.
#[derive(Debug)]
pub struct ConnectorUser {
    /// The user's display name.
    pub name: String,
    /// The user's email address, when known.
    pub email: Option<String>,
    /// URL of the user's picture, when known.
    pub picture: Option<String>,
    /// The connector this user is associated with.
    pub storage: ConnectorData,
}

/// Connector-specific options stored in website metadata.
#[derive(Debug)]
pub struct ConnectorOptions {
    /// The URL the website will be published under, when set.
    pub website_url: Option<String>,
    /// Further connector-specific options.
    pub extra: Vec<(String, JsonValue)>,
}

impl Default for ConnectorOptions {
    /// No options: no URL and nothing further.
    fn default() -> (r: Self)
        ensures
            r.website_url is None,
            r.extra@.len() == 0,
    {
        ConnectorOptions { website_url: Option::None, extra: Vec::new() }
    }
}

} // verus!
