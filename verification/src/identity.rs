//! Canonical user identities and their resolution from a login string.

use crate::error::AuthError;
use vstd::prelude::*;
use vstd::string::*;

verus! {

/// What an identity holds, as plain sequences.
pub struct IdentityView {
    /// The local part, in lower case.
    pub localpart: Seq<char>,
    /// The host name of the server the identity belongs to, without a port.
    pub hostname: Seq<char>,
    /// The canonical text, of the form `@local:domain`.
    pub text: Seq<char>,
}

/// A canonical, fully qualified user identity.
#[derive(Debug)]
pub struct Identity {
    /// The local part, in lower case.
    pub localpart: String,
    /// The host name of the server the identity belongs to, without a port.
    pub hostname: String,
    /// The canonical text, of the form `@local:domain`.
    pub text: String,
}

impl View for Identity {
    type V = IdentityView;

    open spec fn view(&self) -> IdentityView {
        IdentityView { localpart: self.localpart@, hostname: self.hostname@, text: self.text@ }
    }
}

/// What the identifier grammar makes of a text: the local part, the host
/// name and the canonical text of the identity it denotes, or `None` where
/// the text is no fully qualified user identifier.
pub uninterp spec fn user_id_parse(raw: Seq<char>) -> Option<(Seq<char>, Seq<char>, Seq<char>)>;

/// The identity made of a parsed local part, host name and canonical text.
pub open spec fn identity_from(parsed: Option<(Seq<char>, Seq<char>, Seq<char>)>) -> Option<
    IdentityView,
> {
    match parsed {
        Some((localpart, hostname, text)) => Some(IdentityView { localpart, hostname, text }),
        None => None,
    }
}

/// The identity that a text denotes under the identifier grammar.
pub open spec fn parsed_identity(raw: Seq<char>) -> Option<IdentityView> {
    identity_from(user_id_parse(raw))
}

/// The fully qualified text made of a local part and a domain.
pub open spec fn qualified(local: Seq<char>, domain: Seq<char>) -> Seq<char> {
    seq!['@'] + local + seq![':'] + domain
}

/// The outcome of resolution, given what the grammar made of the raw text
/// (`direct`) and of the text synthesized from it (`synthesized`).
pub open spec fn resolution(
    direct: Option<IdentityView>,
    synthesized: Option<IdentityView>,
    domain: Seq<char>,
) -> Result<IdentityView, AuthError> {
    match direct {
        Some(identity) => if identity.hostname == domain {
            Ok(identity)
        } else {
            Err(AuthError::ForeignDomain)
        },
        None => match synthesized {
            Some(identity) => if identity.hostname == domain {
                Ok(identity)
            } else {
                Err(AuthError::InvalidIdentifier)
            },
            None => Err(AuthError::InvalidIdentifier),
        },
    }
}

/// The identity that a login string resolves to on a server of `domain`.
pub open spec fn resolve_spec(raw: Seq<char>, domain: Seq<char>) -> Result<
    IdentityView,
    AuthError,
> {
    resolution(parsed_identity(raw), parsed_identity(qualified(raw, domain)), domain)
}

/// The view of a resolution result.
pub open spec fn identity_result_view(result: Result<Identity, AuthError>) -> Result<
    IdentityView,
    AuthError,
> {
    match result {
        Ok(identity) => Ok(identity@),
        Err(error) => Err(error),
    }
}

/// The view of an optional identity.
pub open spec fn identity_option_view(identity: Option<Identity>) -> Option<IdentityView> {
    match identity {
        Some(identity) => Some(identity@),
        None => None,
    }
}

/// Trusted: `ruma_identifiers::UserId::try_from(&str)`, read through
/// `localpart()`, the `Display` of `hostname()` and the `Display` of the
/// identifier. Claims only that the outcome is a function of the text alone.
#[verifier::external_body]
pub(crate) fn parse_user_id(raw: &str) -> (identity: Option<Identity>)
    ensures
        identity_option_view(identity) == identity_from(user_id_parse(raw@)),
{
    let id = ruma_identifiers::UserId::try_from(raw).ok()?;
    Some(
        Identity {
            localpart: id.localpart().to_owned(),
            hostname: id.hostname().to_string(),
            text: id.to_string(),
        },
    )
}

impl Identity {
    /// A copy of the identity.
    pub fn duplicate(&self) -> (copy: Identity)
        ensures
            copy@ == self@,
    {
        Identity {
            localpart: self.localpart.clone(),
            hostname: self.hostname.clone(),
            text: self.text.clone(),
        }
    }

    /// The canonical text, of the form `@local:domain`.
    pub fn as_str(&self) -> (text: &str)
        ensures
            text@ == self@.text,
    {
        self.text.as_str()
    }

    /// Whether the identity belongs to the server of `domain`.
    pub fn is_local_to(&self, domain: &str) -> (local: bool)
        ensures
            local == (self@.hostname == domain@),
    {
        let domain = String::from_str(domain);
        self.hostname == domain
    }
}

/// The text `@local:domain`.
pub fn qualify(local: &str, domain: &str) -> (text: String)
    ensures
        text@ == qualified(local@, domain@),
{
    proof {
        reveal_strlit("@");
        reveal_strlit(":");
    }
    let mut text = String::from_str("@");
    assert(text@ =~= seq!['@']);
    text.append(local);
    text.append(":");
    assert(":"@ =~= seq![':']);
    text.append(domain);
    text
}

/// Decides a resolution from what the grammar made of the raw login string
/// and of the text synthesized from it.
///
/// A fully qualified identifier is accepted only for this server's domain,
/// and fails with `ForeignDomain` otherwise. Anything else is taken as a
/// local part of this server, and fails with `InvalidIdentifier` where the
/// synthesized text is no identifier of this server's domain. Whatever is
/// resolved belongs to `domain`.
pub fn resolve_parsed(direct: Option<Identity>, synthesized: Option<Identity>, domain: &str) -> (result:
    Result<Identity, AuthError>)
    ensures
        identity_result_view(result) == resolution(
            identity_option_view(direct),
            identity_option_view(synthesized),
            domain@,
        ),
        result matches Ok(identity) ==> identity@.hostname == domain@,
{
    match direct {
        Some(identity) => {
            if identity.is_local_to(domain) {
                Ok(identity)
            } else {
                Err(AuthError::ForeignDomain)
            }
        },
        None => match synthesized {
            Some(identity) => {
                if identity.is_local_to(domain) {
                    Ok(identity)
                } else {
                    Err(AuthError::InvalidIdentifier)
                }
            },
            None => Err(AuthError::InvalidIdentifier),
        },
    }
}

/// Resolves a login string to the identity it stands for on a server of
/// `configured_domain`. Whatever is resolved belongs to that domain.
pub fn resolve(raw: &str, configured_domain: &str) -> (result: Result<Identity, AuthError>)
    ensures
        identity_result_view(result) == resolve_spec(raw@, configured_domain@),
        result matches Ok(identity) ==> identity@.hostname == configured_domain@,
{
    let direct = parse_user_id(raw);
    if direct.is_some() {
        resolve_parsed(direct, None, configured_domain)
    } else {
        let text = qualify(raw, configured_domain);
        let synthesized = parse_user_id(text.as_str());
        resolve_parsed(None, synthesized, configured_domain)
    }
}

} // verus!
