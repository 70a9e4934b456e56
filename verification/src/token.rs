//! The token scheme: the text keys under which templates and pools stand.
//!
//! A tenant or profile name is embedded in a token trimmed and lower-cased, so
//! two names that differ only in case or surrounding white space give one token.

use vstd::prelude::*;
use vstd::string::*;
use crate::text::{join, normalize, normalized};

verus! {

/// The token of the managed tier: `managed` without a tenant, and
/// `managed-<source>` for the tenant `source`.
pub open spec fn managed_token(source: Option<Seq<char>>) -> Seq<char> {
    match source {
        None => "managed"@,
        Some(source) => "managed-"@ + normalized(source),
    }
}

/// The token of a named profile: `profile-<name>` without a tenant, and
/// `profile-<name>-<source>` for the tenant `source`.
pub open spec fn profile_token(name: Seq<char>, source: Option<Seq<char>>) -> Seq<char> {
    match source {
        None => "profile-"@ + normalized(name),
        Some(source) => "profile-"@ + normalized(name) + "-"@ + normalized(source),
    }
}

/// Whether a token has the shape of a named profile's: it begins with `profile-`.
pub open spec fn is_profile_token(token: Seq<char>) -> bool {
    "profile-"@.is_prefix_of(token)
}

/// The token for a managed connection, specialised to `source_id` where one is given.
pub fn managed_connection_token_id(source_id: Option<&str>) -> (token: String)
    ensures
        token@ == managed_token(
            match source_id {
                Some(s) => Some(s@),
                None => None,
            },
        ),
{
    match source_id {
        None => "managed".to_owned(),
        Some(source_id) => {
            let source_id = normalize(source_id);
            join("managed-", source_id.as_str())
        },
    }
}

/// The token for a named profile's connection, specialised to `source_id` where
/// one is given.
pub fn named_profile_connection_token_id(name: &str, source_id: Option<&str>) -> (token: String)
    ensures
        token@ == profile_token(
            name@,
            match source_id {
                Some(s) => Some(s@),
                None => None,
            },
        ),
{
    let name = normalize(name);
    let unspecialised = join("profile-", name.as_str());
    match source_id {
        None => unspecialised,
        Some(source_id) => {
            let source_id = normalize(source_id);
            let stem = join(unspecialised.as_str(), "-");
            join(stem.as_str(), source_id.as_str())
        },
    }
}

/// Names that are equal once trimmed and lower-cased give the same tokens.
pub proof fn lemma_tokens_collide(a: Seq<char>, b: Seq<char>, name: Seq<char>)
    requires
        normalized(a) == normalized(b),
    ensures
        managed_token(Some(a)) == managed_token(Some(b)),
        profile_token(name, Some(a)) == profile_token(name, Some(b)),
        profile_token(a, None) == profile_token(b, None),
        profile_token(a, Some(name)) == profile_token(b, Some(name)),
{
}

/// A tenant's managed token is never the unspecialised one, and no managed
/// token has a profile token's shape.
pub proof fn lemma_managed_tokens(source: Seq<char>)
    ensures
        managed_token(Some(source)) != managed_token(None),
        !is_profile_token(managed_token(Some(source))),
        !is_profile_token(managed_token(None)),
{
    reveal_strlit("managed");
    reveal_strlit("managed-");
    reveal_strlit("profile-");
    let specialised = managed_token(Some(source));
    assert(specialised.len() >= 8);
    assert(specialised[0] == 'm');
    assert(managed_token(None)[0] == 'm');
    assert("profile-"@[0] == 'p');
    if is_profile_token(specialised) {
        assert(specialised.subrange(0, 8)[0] == 'p');
    }
    if is_profile_token(managed_token(None)) {
        assert(managed_token(None).subrange(0, 8)[0] == 'p');
    }
}

/// A profile's tokens have the profile shape, and the one specialised to a
/// tenant is never the unspecialised one.
pub proof fn lemma_profile_tokens(name: Seq<char>, source: Seq<char>)
    ensures
        is_profile_token(profile_token(name, None)),
        is_profile_token(profile_token(name, Some(source))),
        profile_token(name, Some(source)) != profile_token(name, None),
{
    reveal_strlit("profile-");
    reveal_strlit("-");
    let plain = profile_token(name, None);
    let specialised = profile_token(name, Some(source));
    assert(plain.subrange(0, 8) =~= "profile-"@);
    assert(specialised.subrange(0, 8) =~= "profile-"@);
    assert(specialised.len() > plain.len());
}

} // verus!
