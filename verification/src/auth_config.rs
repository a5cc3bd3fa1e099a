//! Configuration of the authentication collaborator: the client credentials
//! and endpoints an OpenID client is created from. The discovery and token
//! validation themselves are transport work and live outside this core; here
//! stands the configuration surface they read.

use vstd::prelude::*;

verus! {

/// Client configuration, as read from the environment by the surrounding
/// runtime.
pub struct AuthConfig {
    pub client_id: String,
    pub client_secret: String,
    pub issuer_url: String,
    pub redirect_url: String,
    pub scopes: String,
}

/// What a client-configuration source must answer.
pub trait ClientConfig {
    /// The redirect URL, where the source has one.
    spec fn spec_redirect_url(&self) -> Option<Seq<char>>;

    /// The client identifier.
    spec fn spec_client_id(&self) -> Seq<char>;

    /// The client secret.
    spec fn spec_client_secret(&self) -> Seq<char>;

    /// The issuer URL.
    spec fn spec_issuer_url(&self) -> Seq<char>;

    fn redirect_url(&self) -> (r: Option<String>)
        ensures
            crate::types::opt_string_view(r) == self.spec_redirect_url(),
    ;

    fn client_id(&self) -> (r: String)
        ensures
            r@ == self.spec_client_id(),
    ;

    fn client_secret(&self) -> (r: String)
        ensures
            r@ == self.spec_client_secret(),
    ;

    fn issuer_url(&self) -> (r: String)
        ensures
            r@ == self.spec_issuer_url(),
    ;
}

impl ClientConfig for AuthConfig {
    open spec fn spec_redirect_url(&self) -> Option<Seq<char>> {
        Some(self.redirect_url@)
    }

    open spec fn spec_client_id(&self) -> Seq<char> {
        self.client_id@
    }

    open spec fn spec_client_secret(&self) -> Seq<char> {
        self.client_secret@
    }

    open spec fn spec_issuer_url(&self) -> Seq<char> {
        self.issuer_url@
    }

    fn redirect_url(&self) -> (r: Option<String>) {
        Some(self.redirect_url.clone())
    }

    fn client_id(&self) -> (r: String) {
        self.client_id.clone()
    }

    fn client_secret(&self) -> (r: String) {
        self.client_secret.clone()
    }

    fn issuer_url(&self) -> (r: String) {
        self.issuer_url.clone()
    }
}

} // verus!
