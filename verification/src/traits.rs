//! The capability contract every backend satisfies: fixed descriptive facts
//! about a connector, stated once and relied on by the registry and the
//! callers.  Swapping backends never touches calling code, because callers
//! depend on this contract alone.

use vstd::prelude::*;

use crate::connector::ConnectorData;
use crate::connector::ConnectorType;

verus! {

/// Fixed facts every connector states about itself.
pub trait ConnectorInfo: Sized {
    /// The connector's identifier, as a specification value.
    spec fn spec_connector_id(&self) -> Seq<char>;

    /// The connector's kind, as a specification value.
    spec fn spec_connector_type(&self) -> ConnectorType;

    /// Whether the logout control is hidden, as a specification value.
    spec fn spec_disable_logout(&self) -> bool;

    /// The display name, as a specification value.
    spec fn spec_display_name(&self) -> Seq<char>;

    /// The icon, as a specification value.
    spec fn spec_icon(&self) -> Seq<char>;

    /// The primary color, as a specification value.
    spec fn spec_color(&self) -> Seq<char>;

    /// The background color, as a specification value.
    spec fn spec_background(&self) -> Seq<char>;

    /// Unique identifier of the connector.
    fn connector_id(&self) -> (r: String)
        ensures
            r@ == self.spec_connector_id(),
    ;

    /// Kind of connector.
    fn connector_type(&self) -> (r: ConnectorType)
        ensures
            r == self.spec_connector_type(),
    ;

    /// Human-readable name for display.
    fn display_name(&self) -> (r: String)
        ensures
            r@ == self.spec_display_name(),
    ;

    /// Icon URL or data URI.
    fn icon(&self) -> (r: String)
        ensures
            r@ == self.spec_icon(),
    ;

    /// Primary color for styling.
    fn color(&self) -> (r: String)
        ensures
            r@ == self.spec_color(),
    ;

    /// Background color for styling.
    fn background(&self) -> (r: String)
        ensures
            r@ == self.spec_background(),
    ;

    /// Whether the logout control is hidden.
    fn disable_logout(&self) -> (r: bool)
        ensures
            r == self.spec_disable_logout(),
    ;
}

/// Assemble the description of a storage connector for callers, from its
/// fixed facts and its current login state.
pub fn to_connector_data<C: ConnectorInfo>(
    connector: &C,
    is_logged_in: bool,
    oauth_url: Option<String>,
) -> (r: ConnectorData)
    ensures
        r.connector_id@ == connector.spec_connector_id(),
        r.connector_type == connector.spec_connector_type(),
        r.display_name@ == connector.spec_display_name(),
        r.icon@ == connector.spec_icon(),
        r.color@ == connector.spec_color(),
        r.background@ == connector.spec_background(),
        r.disable_logout == connector.spec_disable_logout(),
        r.is_logged_in == is_logged_in,
        r.oauth_url == oauth_url,
{
    ConnectorData {
        connector_id: connector.connector_id(),
        connector_type: connector.connector_type(),
        display_name: connector.display_name(),
        icon: connector.icon(),
        disable_logout: connector.disable_logout(),
        is_logged_in,
        oauth_url,
        color: connector.color(),
        background: connector.background(),
    }
}

/// Assemble the description of a hosting connector for callers; hosting and
/// storage connectors describe themselves the same way.
pub fn hosting_to_connector_data<C: ConnectorInfo>(
    connector: &C,
    is_logged_in: bool,
    oauth_url: Option<String>,
) -> (r: ConnectorData)
    ensures
        r.connector_id@ == connector.spec_connector_id(),
        r.connector_type == connector.spec_connector_type(),
        r.display_name@ == connector.spec_display_name(),
        r.icon@ == connector.spec_icon(),
        r.color@ == connector.spec_color(),
        r.background@ == connector.spec_background(),
        r.disable_logout == connector.spec_disable_logout(),
        r.is_logged_in == is_logged_in,
        r.oauth_url == oauth_url,
{
    to_connector_data(connector, is_logged_in, oauth_url)
}

} // verus!
