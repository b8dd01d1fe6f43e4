//! OpenID Connect settings the token validator works against: where the
//! key set lives, and which audiences and issuers are acceptable.

use vstd::prelude::*;

verus! {

#[derive(Debug)]
pub struct OpenIdConnectConfig {
    pub jwks_uri: String,
    pub audience: Vec<String>,
    pub issuers: Vec<String>,
}

impl OpenIdConnectConfig {
    pub fn new(jwks_uri: String, audience: Vec<String>, issuers: Vec<String>) -> (r:
        OpenIdConnectConfig)
        ensures
            r.jwks_uri@ == jwks_uri@,
            r.audience@ == audience@,
            r.issuers@ == issuers@,
    {
        OpenIdConnectConfig { jwks_uri, audience, issuers }
    }

    pub fn jwks_uri(&self) -> (r: &str)
        ensures
            r@ == self.jwks_uri@,
    {
        self.jwks_uri.as_str()
    }

    pub fn audience(&self) -> (r: &Vec<String>)
        ensures
            r@ == self.audience@,
    {
        &self.audience
    }

    pub fn issuers(&self) -> (r: &Vec<String>)
        ensures
            r@ == self.issuers@,
    {
        &self.issuers
    }
}

} // verus!
