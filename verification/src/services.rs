//! Tool services: where they are, and what loading their list came to.

use vstd::prelude::*;

use crate::bilingual::chain_line;
use crate::chars::opt_view;
use crate::favourites::Header;

verus! {

/// A service that offers tools over HTTP.
#[derive(Debug, Clone)]
pub struct Service {
    pub id: String,
    pub name: String,
    /// Where its machine readable description lives.
    pub spec_url: String,
    /// The header that carries the key, when the service wants one.
    pub auth_header: Option<Header>,
    /// Accept a certificate nobody vouches for.
    pub allow_insecure: bool,
    /// Where in an answer the result's address sits.
    pub result_path: String,
    pub icon: Option<String>,
}

/// An empty service to start from. Insecure is allowed from the start: a
/// service worth adding this way usually lives on the local network, where
/// there is no certificate.
pub fn blank_service() -> (result: Service)
    ensures
        result.id@ == Seq::<char>::empty(),
        result.name@ == Seq::<char>::empty(),
        result.spec_url@ == Seq::<char>::empty(),
        result.auth_header is None,
        result.allow_insecure,
        result.result_path@ == Seq::<char>::empty(),
        opt_view(result.icon) == None::<Seq<char>>,
{
    Service {
        id: String::new(),
        name: String::new(),
        spec_url: String::new(),
        auth_header: None,
        allow_insecure: true,
        result_path: String::new(),
        icon: None,
    }
}

/// What the window keeps from loading the list of services: the list, and
/// the error to show when that failed. A damaged file must not look like an
/// empty, healthy one.
pub fn services_from_load(loaded: Result<Vec<Service>, anyhow::Error>) -> (result: (
    Vec<Service>,
    Option<String>,
))
    ensures
        match loaded {
            Ok(list) => result.0 == list && result.1 is None,
            Err(_) => result.0@.len() == 0 && result.1 is Some,
        },
{
    match loaded {
        Ok(list) => (list, None),
        Err(error) => (Vec::new(), Some(chain_line(&error))),
    }
}

/// How far the self-update has got.
#[derive(Debug)]
pub enum UpdateState {
    /// Nobody has asked yet, or the setting says not to.
    Unknown,
    Checking,
    /// Asked, and this is the newest there is.
    Current,
    /// There is a newer one, by its version.
    Available(String),
    /// There is a newer one whose files are not all there yet.
    Incomplete(String),
    Downloading,
    /// Installed; the new copy is starting.
    Restarting,
    /// Kept bilingual and cut where it is drawn.
    Failed(String),
}

impl UpdateState {
    /// Whether a worker is busy, which is what greys out both buttons.
    pub fn busy(&self) -> (result: bool)
        ensures
            result == (self is Checking || self is Downloading || self is Restarting),
    {
        match self {
            UpdateState::Checking | UpdateState::Downloading | UpdateState::Restarting => true,
            _ => false,
        }
    }
}

} // verus!
