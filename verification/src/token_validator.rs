//! The token validator: turns a compact bearer token into a verified
//! `Token`, or a typed failure.
//!
//! The validator reads the token's own text — its segments, its header's
//! `kid`, its claims — with the verified codec, and decides every step it
//! can decide itself: which key the token names, whether that key is an
//! RSA key with decodable components, and which algorithm it declares.
//! Only the signature, expiry, audience and issuer check is delegated to
//! the `jsonwebtoken` crate, and the outcome of that call alone decides
//! between acceptance and `InvalidToken`.

use crate::error::{Error, ErrorKind};
use crate::json::{obj_get, JsonValue, Jv};
use crate::jwt::{b64_decode, jwt_segments, read_segment_doc, segment_doc, split_segments};
use crate::openid::OpenIdConnectConfig;
use crate::text::{str_eq, str_to_chars};
use crate::token::{token_permissions, Token};
use vstd::prelude::*;
use vstd::string::StringExecFns;

verus! {

/// The signing algorithms a key of the set may declare.
#[derive(Clone, Copy, Debug, PartialEq, Eq, Structural)]
pub enum JwkAlgorithm {
    Rs256,
    Rs384,
    Rs512,
}

/// The key material of one key of the set, as far as the validator reads
/// it: RSA modulus and exponent, or something the validator does not use.
#[derive(Debug)]
pub enum JwkParameters {
    Rsa { n: String, e: String },
    Unsupported,
}

/// One key of a key set.
#[derive(Debug)]
pub struct Jwk {
    pub kid: String,
    pub algorithm: Option<JwkAlgorithm>,
    pub parameters: JwkParameters,
}

/// The mathematical form of a key.
pub struct JwkView {
    pub kid: Seq<char>,
    pub algorithm: Option<JwkAlgorithm>,
    pub rsa: Option<(Seq<char>, Seq<char>)>,
}

impl View for Jwk {
    type V = JwkView;

    open spec fn view(&self) -> JwkView {
        JwkView {
            kid: self.kid@,
            algorithm: self.algorithm,
            rsa: match self.parameters {
                JwkParameters::Rsa { n, e } => Some((n@, e@)),
                JwkParameters::Unsupported => None,
            },
        }
    }
}

/// A set of verification keys, looked up by key identifier.
#[derive(Debug)]
pub struct Jwks {
    pub keys: Vec<Jwk>,
}

impl View for Jwks {
    type V = Seq<JwkView>;

    open spec fn view(&self) -> Seq<JwkView> {
        Seq::new(self.keys@.len(), |i: int| self.keys@[i]@)
    }
}

/// The first key carrying `kid`, if any.
pub open spec fn find_jwk(keys: Seq<JwkView>, kid: Seq<char>) -> Option<JwkView>
    decreases keys.len(),
{
    if keys.len() == 0 {
        None
    } else if keys.first().kid == kid {
        Some(keys.first())
    } else {
        find_jwk(keys.drop_first(), kid)
    }
}

impl Jwks {
    pub fn new(keys: Vec<Jwk>) -> (r: Jwks)
        ensures
            r.keys@ == keys@,
    {
        Jwks { keys }
    }

    /// The first key carrying `kid`, if any.
    pub fn find<'a>(&'a self, kid: &str) -> (r: Option<&'a Jwk>)
        ensures
            r is Some <==> find_jwk(self@, kid@) is Some,
            r matches Some(k) ==> find_jwk(self@, kid@) == Some(k@),
    {
        let mut i: usize = 0;
        proof {
            assert(self@.skip(0) =~= self@);
        }
        while i < self.keys.len()
            invariant
                i <= self.keys.len(),
                self@.len() == self.keys@.len(),
                find_jwk(self@, kid@) == find_jwk(self@.skip(i as int), kid@),
            decreases self.keys.len() - i,
        {
            if str_eq(self.keys[i].kid.as_str(), kid) {
                proof {
                    assert(self@.skip(i as int).first() == self.keys@[i as int]@);
                }
                return Some(&self.keys[i]);
            }
            proof {
                assert(self@.skip(i as int).first() == self.keys@[i as int]@);
                assert(self@.skip(i as int).drop_first() =~= self@.skip(i + 1 as int));
            }
            i = i + 1;
        }
        proof {
            assert(self@.skip(i as int).len() == 0);
        }
        None
    }
}

/// The settings of a validator: the key set and the expected audiences
/// and issuers.
#[derive(Debug)]
pub struct TokenValidatorConfig {
    pub jwks: Jwks,
    pub openid_connect: OpenIdConnectConfig,
}

impl TokenValidatorConfig {
    pub fn new(jwks: Jwks, openid_connect: OpenIdConnectConfig) -> (r: TokenValidatorConfig)
        ensures
            r.jwks@ == jwks@,
            r.openid_connect == openid_connect,
    {
        TokenValidatorConfig { jwks, openid_connect }
    }

    pub fn jwks(&self) -> (r: &Jwks)
        ensures
            r@ == self.jwks@,
    {
        &self.jwks
    }

    pub fn open_id_connect(&self) -> (r: &OpenIdConnectConfig)
        ensures
            r == self.openid_connect,
    {
        &self.openid_connect
    }
}

// ---------------------------------------------------------------------------
// What the validator decides before any cryptography runs.
// ---------------------------------------------------------------------------

/// The claims object a token's payload segment carries, if any.
pub open spec fn jwt_claims_obj(token: Seq<char>) -> Option<Seq<(Seq<char>, Jv)>> {
    match jwt_segments(token) {
        Some((h, p, g)) => match segment_doc(p) {
            Some(Jv::Obj(ms)) => Some(ms),
            _ => None,
        },
        None => None,
    }
}

/// Every decision the validator makes from the token text and the key
/// set alone, in the order it makes them.
pub enum TokenPrecheck {
    /// The header cannot be read: bad segmenting, base64, UTF-8 or JSON,
    /// a non-object header, or a `kid` that is not a string.
    HeaderUndecodable,
    /// The header carries no `kid`.
    KidMissing,
    /// No key of the set carries the header's `kid`.
    KidUnknown,
    /// The named key is not an RSA key.
    KeyNotRsa,
    /// The named key's RSA components are not valid base64.
    KeyUndecodable,
    /// The named key declares no algorithm.
    AlgorithmMissing,
    /// Everything the text decides has passed; the signature check rules.
    Verifiable,
}

pub open spec fn token_precheck(token: Seq<char>, keys: Seq<JwkView>) -> TokenPrecheck {
    match jwt_segments(token) {
        None => TokenPrecheck::HeaderUndecodable,
        Some((h, p, g)) => match segment_doc(h) {
            Some(Jv::Obj(ms)) => match obj_get(ms, "kid"@) {
                None => TokenPrecheck::KidMissing,
                Some(Jv::Str(kid)) => match find_jwk(keys, kid) {
                    None => TokenPrecheck::KidUnknown,
                    Some(jwk) => match jwk.rsa {
                        None => TokenPrecheck::KeyNotRsa,
                        Some((n, e)) => if b64_decode(n) is None || b64_decode(e) is None {
                            TokenPrecheck::KeyUndecodable
                        } else if jwk.algorithm is None {
                            TokenPrecheck::AlgorithmMissing
                        } else {
                            TokenPrecheck::Verifiable
                        },
                    },
                },
                Some(_) => TokenPrecheck::HeaderUndecodable,
            },
            _ => TokenPrecheck::HeaderUndecodable,
        },
    }
}

// ---------------------------------------------------------------------------
// The delegated cryptography.
// ---------------------------------------------------------------------------

/// Declares `jsonwebtoken::DecodingKey` so verified code can hold one.
#[verifier::external_type_specification]
#[verifier::external_body]
pub struct ExDecodingKey(jsonwebtoken::DecodingKey);

/// Relies on `jsonwebtoken::DecodingKey::from_rsa_components`: it
/// succeeds exactly when both components are valid unpadded URL-safe
/// base64, which is what `b64_decode` admits.
#[verifier::external_body]
fn rsa_decoding_key(n: &String, e: &String) -> (r: Option<jsonwebtoken::DecodingKey>)
    ensures
        r is Some <==> (b64_decode(n@) is Some && b64_decode(e@) is Some),
{
    jsonwebtoken::DecodingKey::from_rsa_components(n.as_str(), e.as_str()).ok()
}

/// Relies on `jsonwebtoken::decode`: returns whether the token's
/// signature verifies under the key and algorithm and its claims pass the
/// expiry, audience and issuer checks at the present moment. The outcome
/// depends on the current time, so nothing further is promised of it.
#[verifier::external_body]
fn jwt_verify(
    token: &str,
    key: &jsonwebtoken::DecodingKey,
    algorithm: &JwkAlgorithm,
    audience: &Vec<String>,
    issuers: &Vec<String>,
) -> bool {
    let alg = match algorithm {
        JwkAlgorithm::Rs256 => jsonwebtoken::Algorithm::RS256,
        JwkAlgorithm::Rs384 => jsonwebtoken::Algorithm::RS384,
        JwkAlgorithm::Rs512 => jsonwebtoken::Algorithm::RS512,
    };
    let mut validation = jsonwebtoken::Validation::new(alg);
    validation.validate_exp = true;
    validation.set_audience(audience);
    validation.set_issuer(issuers);
    jsonwebtoken::decode::<serde_json::Value>(token, key, &validation).is_ok()
}

// ---------------------------------------------------------------------------
// The validator.
// ---------------------------------------------------------------------------

#[derive(Debug)]
pub struct TokenValidator {
    pub config: TokenValidatorConfig,
}

impl TokenValidator {
    pub fn new(config: TokenValidatorConfig) -> (r: TokenValidator)
        ensures
            r.config.jwks@ == config.jwks@,
            r.config.openid_connect == config.openid_connect,
    {
        TokenValidator { config }
    }

    /// Verifies a compact token and wraps its claims as a `Token`.
    ///
    /// Every failure the token's text and the key set decide is pinned
    /// down through `token_precheck`; when they admit the token, the
    /// signature check decides, and on acceptance the returned token
    /// carries exactly the payload's claims and the permissions they
    /// yield.
    pub fn validate(&self, token: &str) -> (r: Result<Token, Error>)
        ensures
            ({
                let pc = token_precheck(token@, self.config.jwks@);
                &&& (pc is HeaderUndecodable ==> (r matches Err(e)
                    && e.kind == ErrorKind::TokenDecodingFailure))
                &&& (pc is KidMissing ==> (r matches Err(e) && e.kind
                    == ErrorKind::MalformedToken))
                &&& (pc is KidUnknown ==> (r matches Err(e) && e.kind
                    == ErrorKind::MalformedToken))
                &&& (pc is KeyNotRsa ==> (r matches Err(e) && e.kind
                    == ErrorKind::MalformedToken))
                &&& (pc is KeyUndecodable ==> (r matches Err(e) && e.kind
                    == ErrorKind::TokenDecodingFailure))
                &&& (pc is AlgorithmMissing ==> (r matches Err(e) && e.kind
                    == ErrorKind::TokenDecodingFailure))
                &&& (pc is Verifiable && r is Err ==> (r matches Err(e) && (e.kind
                    == ErrorKind::InvalidToken || e.kind == ErrorKind::MalformedToken)))
                &&& ((pc is Verifiable && (r matches Err(e) && e.kind
                    == ErrorKind::MalformedToken)) ==> (match jwt_claims_obj(token@) {
                    Some(cm) => token_permissions(cm) is None,
                    None => true,
                }))
            }),
            r is Ok ==> token_precheck(token@, self.config.jwks@) is Verifiable,
            r matches Ok(t) ==> (match jwt_claims_obj(token@) {
                Some(cm) => t.claims_view() == cm && Some(t.perms_view()) == token_permissions(cm),
                None => false,
            }),
            r matches Err(e) ==> e.kind == ErrorKind::TokenDecodingFailure || e.kind
                == ErrorKind::MalformedToken || e.kind == ErrorKind::InvalidToken,
    {
        let cs = str_to_chars(token);
        let (header_seg, payload_seg, _signature_seg) = match split_segments(&cs) {
            Some(t) => t,
            None => {
                return Err(
                    Error::new(
                        ErrorKind::TokenDecodingFailure,
                        String::from_str("failure to decode token's header"),
                    ),
                );
            },
        };
        let header_doc = match read_segment_doc(&header_seg) {
            Some(d) => d,
            None => {
                return Err(
                    Error::new(
                        ErrorKind::TokenDecodingFailure,
                        String::from_str("failure to decode token's header"),
                    ),
                );
            },
        };
        let header_members = match &header_doc {
            JsonValue::Obj(ms) => ms,
            _ => {
                proof {
                    crate::json::lemma_jv_variants(header_doc);
                }
                return Err(
                    Error::new(
                        ErrorKind::TokenDecodingFailure,
                        String::from_str("failure to decode token's header"),
                    ),
                );
            },
        };
        let kid = match crate::json::get_member(header_members, "kid") {
            None => {
                return Err(
                    Error::new(
                        ErrorKind::MalformedToken,
                        String::from_str("failed to find token header's kid"),
                    ),
                );
            },
            Some(x) => {
                proof {
                    crate::json::lemma_jv_variants(*x);
                }
                match x {
                    JsonValue::Str(s) => s,
                    _ => {
                        return Err(
                            Error::new(
                                ErrorKind::TokenDecodingFailure,
                                String::from_str("failure to decode token's header"),
                            ),
                        );
                    },
                }
            },
        };
        let jwk = match self.config.jwks.find(kid.as_str()) {
            Some(jwk) => jwk,
            None => {
                let mut message = String::from_str("failed to find jwk for kid '");
                message.append(kid.as_str());
                message.append("'");
                return Err(Error::new(ErrorKind::MalformedToken, message));
            },
        };
        let (n, e) = match &jwk.parameters {
            JwkParameters::Rsa { n, e } => (n, e),
            JwkParameters::Unsupported => {
                return Err(
                    Error::new(
                        ErrorKind::MalformedToken,
                        String::from_str("expected an RSA key for the token's kid"),
                    ),
                );
            },
        };
        let key = match rsa_decoding_key(n, e) {
            Some(key) => key,
            None => {
                return Err(
                    Error::new(
                        ErrorKind::TokenDecodingFailure,
                        String::from_str("failed to get decoding key"),
                    ),
                );
            },
        };
        let algorithm = match &jwk.algorithm {
            Some(a) => a,
            None => {
                return Err(
                    Error::new(
                        ErrorKind::TokenDecodingFailure,
                        String::from_str("jwk is missing algorithm"),
                    ),
                );
            },
        };
        if !jwt_verify(
            token,
            &key,
            algorithm,
            self.config.openid_connect.audience(),
            self.config.openid_connect.issuers(),
        ) {
            return Err(
                Error::new(ErrorKind::InvalidToken, String::from_str("invalid token detected")),
            );
        }
        let payload_doc = match read_segment_doc(&payload_seg) {
            Some(d) => d,
            None => {
                return Err(
                    Error::new(
                        ErrorKind::MalformedToken,
                        String::from_str("failed to read token claims"),
                    ),
                );
            },
        };
        let claims = match payload_doc {
            JsonValue::Obj(ms) => ms,
            _ => {
                proof {
                    crate::json::lemma_jv_variants(payload_doc);
                }
                return Err(
                    Error::new(
                        ErrorKind::MalformedToken,
                        String::from_str("failed to read token claims"),
                    ),
                );
            },
        };
        match Token::try_new(claims) {
            Ok(t) => Ok(t),
            Err(e) => Err(e),
        }
    }
}

} // verus!
