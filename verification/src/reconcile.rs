//! Reconciling the ambient settings with a profile about to be activated:
//! credentials leave the `env` object of the ambient settings, and what the
//! profile holds beside its own `env` becomes the session's local settings.

use vstd::prelude::*;
use crate::json::{
    JsonModel, value_model, object_model, parsed_json, pretty_json, parse, to_pretty,
    error_message, into_object, object_value, object_remove,
};

verus! {

/// The key under which a settings document keeps its environment.
pub open spec fn env_key() -> Seq<char> {
    "env"@
}

/// The name under which the address of the service is kept.
pub open spec fn base_url_key() -> Seq<char> {
    "ANTHROPIC_BASE_URL"@
}

/// The name under which the token is kept.
pub open spec fn auth_token_key() -> Seq<char> {
    "ANTHROPIC_AUTH_TOKEN"@
}

/// The name under which the API key is kept.
pub open spec fn api_key_key() -> Seq<char> {
    "ANTHROPIC_API_KEY"@
}

/// The names that may not stay in the ambient `env`.
pub open spec fn is_credential_key(k: Seq<char>) -> bool {
    k == base_url_key() || k == auth_token_key() || k == api_key_key()
}

/// The `env` object of a document: present where the document is an object
/// whose member `env` is an object.
pub open spec fn env_object(doc: JsonModel) -> Option<Map<Seq<char>, JsonModel>> {
    if doc is Object && doc->Object_0.contains_key(env_key()) && doc->Object_0[env_key()] is Object {
        Some(doc->Object_0[env_key()]->Object_0)
    } else {
        None
    }
}

/// Whether the `env` object of a document holds a credential.
pub open spec fn holds_credentials(doc: JsonModel) -> bool {
    match env_object(doc) {
        Some(env) => env.contains_key(base_url_key()) || env.contains_key(auth_token_key())
            || env.contains_key(api_key_key()),
        None => false,
    }
}

/// An `env` object without the credentials.
pub open spec fn scrubbed_env(env: Map<Seq<char>, JsonModel>) -> Map<Seq<char>, JsonModel> {
    env.remove(base_url_key()).remove(auth_token_key()).remove(api_key_key())
}

/// Whether an object has no member at all.
pub open spec fn has_no_member(m: Map<Seq<char>, JsonModel>) -> bool {
    forall|k: Seq<char>| !m.contains_key(k)
}

/// Whether scrubbing removes the `env` member altogether: it held credentials
/// and nothing else.
pub open spec fn drops_env(doc: JsonModel) -> bool {
    holds_credentials(doc) && has_no_member(scrubbed_env(env_object(doc).unwrap()))
}

/// A settings document after the scrub. One without credentials in `env` is
/// left as it is. Otherwise the credentials leave `env`, and an `env` left
/// without members leaves the document.
pub open spec fn scrubbed(doc: JsonModel) -> JsonModel {
    if !holds_credentials(doc) {
        doc
    } else if drops_env(doc) {
        JsonModel::Object(doc->Object_0.remove(env_key()))
    } else {
        JsonModel::Object(
            doc->Object_0.insert(
                env_key(),
                JsonModel::Object(scrubbed_env(env_object(doc).unwrap())),
            ),
        )
    }
}

/// The single key `k` if `env` has it, nothing otherwise.
pub open spec fn key_if_present(env: Map<Seq<char>, JsonModel>, k: Seq<char>) -> Seq<Seq<char>> {
    if env.contains_key(k) {
        seq![k]
    } else {
        Seq::empty()
    }
}

/// The credentials that the scrub removes from a document, in the fixed order
/// base URL, auth token, API key.
pub open spec fn removed_keys(doc: JsonModel) -> Seq<Seq<char>> {
    match env_object(doc) {
        Some(env) => key_if_present(env, base_url_key()) + key_if_present(env, auth_token_key())
            + key_if_present(env, api_key_key()),
        None => Seq::empty(),
    }
}

/// The views of a sequence of strings.
pub open spec fn texts(v: Seq<String>) -> Seq<Seq<char>> {
    Seq::new(v.len(), |i: int| v[i]@)
}

/// What a profile hands to the session's local settings: its top-level members
/// but `env`. `None` where the profile is no object or nothing is left.
pub open spec fn local_settings(profile: JsonModel) -> Option<JsonModel> {
    if profile is Object && !has_no_member(profile->Object_0.remove(env_key())) {
        Some(JsonModel::Object(profile->Object_0.remove(env_key())))
    } else {
        None
    }
}

/// The three credential names differ from one another.
pub proof fn lemma_credential_keys_differ()
    ensures
        base_url_key() != auth_token_key(),
        base_url_key() != api_key_key(),
        auth_token_key() != api_key_key(),
{
    reveal_strlit("ANTHROPIC_BASE_URL");
    reveal_strlit("ANTHROPIC_AUTH_TOKEN");
    reveal_strlit("ANTHROPIC_API_KEY");
    assert(base_url_key().len() == 18);
    assert(auth_token_key().len() == 20);
    assert(api_key_key().len() == 17);
}

/// A scrubbed document holds no credential in `env`, so a second scrub finds
/// nothing to remove and changes nothing.
pub proof fn lemma_scrub_idempotent(doc: JsonModel)
    ensures
        !holds_credentials(scrubbed(doc)),
        removed_keys(scrubbed(doc)) == Seq::<Seq<char>>::empty(),
        scrubbed(scrubbed(doc)) == scrubbed(doc),
{
    if holds_credentials(doc) {
        if drops_env(doc) {
            assert(env_object(scrubbed(doc)) is None);
        } else {
            let env = scrubbed_env(env_object(doc).unwrap());
            assert(env_object(scrubbed(doc)) == Some(env));
        }
    }
    let after = scrubbed(doc);
    if env_object(after) is Some {
        let env = env_object(after).unwrap();
        assert(key_if_present(env, base_url_key()) + key_if_present(env, auth_token_key())
            + key_if_present(env, api_key_key()) =~= Seq::<Seq<char>>::empty());
    }
}

/// Scrubbing never touches a member other than `env`.
pub proof fn lemma_scrub_keeps_other_members(doc: JsonModel, k: Seq<char>)
    requires
        doc is Object,
        k != env_key(),
    ensures
        scrubbed(doc) is Object,
        scrubbed(doc)->Object_0.contains_key(k) <==> doc->Object_0.contains_key(k),
        doc->Object_0.contains_key(k) ==> scrubbed(doc)->Object_0[k] == doc->Object_0[k],
{
}

/// An `env` object that holds credentials and nothing else is gone from the
/// scrubbed document.
pub proof fn lemma_env_of_credentials_alone_is_dropped(doc: JsonModel)
    requires
        holds_credentials(doc),
        forall|k: Seq<char>| env_object(doc).unwrap().contains_key(k) ==> is_credential_key(k),
    ensures
        scrubbed(doc) is Object,
        !scrubbed(doc)->Object_0.contains_key(env_key()),
        drops_env(doc),
{
    let env = env_object(doc).unwrap();
    assert forall|k: Seq<char>| !scrubbed_env(env).contains_key(k) by {
        if env.contains_key(k) {
            assert(is_credential_key(k));
        }
    }
}

/// An `env` object that holds a credential and something else is still there
/// in the scrubbed document: with every member that is no credential, as it
/// was, and with no credential.
pub proof fn lemma_env_keeps_what_is_no_credential(doc: JsonModel, other: Seq<char>)
    requires
        holds_credentials(doc),
        env_object(doc).unwrap().contains_key(other),
        !is_credential_key(other),
    ensures
        !drops_env(doc),
        env_object(scrubbed(doc)) == Some(scrubbed_env(env_object(doc).unwrap())),
        forall|k: Seq<char>|
            env_object(scrubbed(doc)).unwrap().contains_key(k) <==> (env_object(
                doc,
            ).unwrap().contains_key(k) && !is_credential_key(k)),
        forall|k: Seq<char>|
            env_object(scrubbed(doc)).unwrap().contains_key(k) ==> env_object(
                scrubbed(doc),
            ).unwrap()[k] == env_object(doc).unwrap()[k],
{
    assert(scrubbed_env(env_object(doc).unwrap()).contains_key(other));
}

/// The local settings of a profile hold no `env`, and every other member of
/// the profile as it is there; there are none exactly where the profile has no
/// other member.
pub proof fn lemma_local_settings_hold_all_but_env(profile: JsonModel, k: Seq<char>)
    requires
        profile is Object,
    ensures
        match local_settings(profile) {
            Some(local) => {
                &&& local is Object
                &&& !local->Object_0.contains_key(env_key())
                &&& k != env_key() ==> (local->Object_0.contains_key(k)
                    <==> profile->Object_0.contains_key(k))
                &&& k != env_key() && profile->Object_0.contains_key(k) ==> local->Object_0[k]
                    == profile->Object_0[k]
            },
            None => k != env_key() ==> !profile->Object_0.contains_key(k),
        },
{
    if local_settings(profile) is None && k != env_key() {
        assert(!profile->Object_0.remove(env_key()).contains_key(k));
    }
}

/// Why reconciling failed.
#[derive(Debug)]
pub enum ConfigError {
    /// A document is no well-formed JSON; the text is the parser's complaint.
    Parse(String),
    /// A document could not be written as text; the text is the serializer's
    /// complaint.
    Serialize(String),
}

/// A settings document after the scrub, with what the scrub did.
pub struct Scrubbed {
    /// The document without credentials in `env`.
    pub settings: serde_json::Value,
    /// The credentials that were removed, in the order they were looked for.
    pub removed: Vec<String>,
    /// Whether `env` was left empty and removed.
    pub env_dropped: bool,
}

/// Removes the member `key` from `env` and notes the key if it was there.
fn remove_credential(
    env: &mut serde_json::Map<String, serde_json::Value>,
    key: &str,
    removed: &mut Vec<String>,
)
    ensures
        object_model(*final(env)) == object_model(*old(env)).remove(key@),
        texts(final(removed)@) == texts(old(removed)@) + key_if_present(object_model(*old(env)), key@),
{
    let gone = object_remove(env, key);
    if gone.is_some() {
        removed.push(key.to_owned());
    }
    assert(texts(removed@) =~= texts(old(removed)@) + key_if_present(
        object_model(*old(env)),
        key@,
    ));
}

/// Scrubs the credentials from a settings document.
///
/// The result holds the scrubbed document, the names that were removed, and
/// whether `env` went with them. Nothing was removed exactly when the document
/// comes back as it was.
pub fn scrub_credentials(settings: serde_json::Value) -> (r: Scrubbed)
    ensures
        value_model(r.settings) == scrubbed(value_model(settings)),
        texts(r.removed@) == removed_keys(value_model(settings)),
        r.removed@.len() > 0 <==> holds_credentials(value_model(settings)),
        r.env_dropped == drops_env(value_model(settings)),
{
    let ghost doc = value_model(settings);
    let mut removed: Vec<String> = Vec::new();
    assert(texts(removed@) =~= Seq::<Seq<char>>::empty());
    let mut top = match into_object(settings) {
        Ok(m) => m,
        Err(other) => {
            return Scrubbed { settings: other, removed, env_dropped: false };
        },
    };
    let ghost top_before = object_model(top);
    let env_value = match object_remove(&mut top, "env") {
        Some(v) => v,
        None => {
            assert(object_model(top) =~= top_before);
            return Scrubbed { settings: object_value(top), removed, env_dropped: false };
        },
    };
    let mut env = match into_object(env_value) {
        Ok(m) => m,
        Err(other) => {
            top.insert("env".to_owned(), other);
            assert(object_model(top) =~= top_before);
            return Scrubbed { settings: object_value(top), removed, env_dropped: false };
        },
    };
    let ghost env_before = object_model(env);
    assert(env_object(doc) == Some(env_before));
    proof {
        lemma_credential_keys_differ();
    }
    remove_credential(&mut env, "ANTHROPIC_BASE_URL", &mut removed);
    remove_credential(&mut env, "ANTHROPIC_AUTH_TOKEN", &mut removed);
    remove_credential(&mut env, "ANTHROPIC_API_KEY", &mut removed);
    assert(object_model(env) == scrubbed_env(env_before));
    assert(texts(removed@) =~= removed_keys(doc));
    assert(texts(removed@).len() == removed@.len());
    let env_dropped = removed.len() > 0 && env.is_empty();
    if !env_dropped {
        if removed.len() == 0 {
            assert(object_model(env) =~= env_before);
        }
        top.insert("env".to_owned(), object_value(env));
        assert(object_model(top) =~= top_before.insert(env_key(), JsonModel::Object(scrubbed_env(env_before))));
        if removed.len() == 0 {
            assert(object_model(top) =~= top_before);
        }
    }
    Scrubbed { settings: object_value(top), removed, env_dropped }
}

/// The local settings that a profile yields: its top-level members but `env`,
/// as one object; `None` where the profile is no object or has no other member.
pub fn extract_local_settings(profile: serde_json::Value) -> (r: Option<serde_json::Value>)
    ensures
        match r {
            Some(v) => local_settings(value_model(profile)) == Some(value_model(v)),
            None => local_settings(value_model(profile)) is None,
        },
{
    match into_object(profile) {
        Ok(mut top) => {
            let _ = object_remove(&mut top, "env");
            if top.is_empty() {
                None
            } else {
                Some(object_value(top))
            }
        },
        Err(_) => None,
    }
}

/// The settings file as it is to be written back after a scrub.
pub struct SettingsRewrite {
    /// The new text of the file.
    pub content: String,
    /// The credentials that were removed, in the order they were looked for.
    pub removed: Vec<String>,
    /// Whether `env` was left empty and removed.
    pub env_dropped: bool,
}

/// What reconciling asks of the file system.
pub struct ReconcilePlan {
    /// The rewrite of the ambient settings file, if it is to be rewritten.
    pub settings: Option<SettingsRewrite>,
    /// The text of the local settings file, if one is to be written, or the
    /// reason why the profile could not be read. The rewrite of the ambient
    /// settings comes first either way.
    pub local_settings: Result<Option<String>, ConfigError>,
}

/// What [`scrub_settings`] owes for a settings text: a parse error for a text
/// that is no JSON, nothing to write where no credential is found, and otherwise
/// the pretty text of the scrubbed document.
pub open spec fn scrub_outcome(content: Seq<char>, r: Result<Option<SettingsRewrite>, ConfigError>) -> bool {
    match parsed_json(content) {
        None => r is Err && r->Err_0 is Parse,
        Some(doc) => if !holds_credentials(doc) {
            r is Ok && r->Ok_0 is None
        } else {
            match pretty_json(scrubbed(doc)) {
                Some(text) => {
                    &&& r is Ok
                    &&& r->Ok_0 is Some
                    &&& r->Ok_0->Some_0.content@ == text
                    &&& texts(r->Ok_0->Some_0.removed@) == removed_keys(doc)
                    &&& r->Ok_0->Some_0.env_dropped == drops_env(doc)
                },
                None => r is Err && r->Err_0 is Serialize,
            }
        },
    }
}

/// What [`local_settings_content`] owes for a profile text: a parse error for a
/// text that is no JSON, nothing to write where the profile has no member beside
/// `env`, and otherwise the pretty text of those members.
pub open spec fn local_outcome(content: Seq<char>, r: Result<Option<String>, ConfigError>) -> bool {
    match parsed_json(content) {
        None => r is Err && r->Err_0 is Parse,
        Some(doc) => match local_settings(doc) {
            None => r is Ok && r->Ok_0 is None,
            Some(local) => match pretty_json(local) {
                Some(text) => r is Ok && r->Ok_0 is Some && r->Ok_0->Some_0@ == text,
                None => r is Err && r->Err_0 is Serialize,
            },
        },
    }
}

/// Once the settings file holds a scrubbed document, reconciling again has
/// nothing to write to it.
pub proof fn lemma_second_scrub_writes_nothing(
    content: Seq<char>,
    doc: JsonModel,
    r: Result<Option<SettingsRewrite>, ConfigError>,
)
    requires
        parsed_json(content) == Some(scrubbed(doc)),
        scrub_outcome(content, r),
    ensures
        r is Ok,
        r->Ok_0 is None,
{
    lemma_scrub_idempotent(doc);
}

/// Reads a settings text, scrubs it, and says what is to be written back.
pub fn scrub_settings(content: &str) -> (r: Result<Option<SettingsRewrite>, ConfigError>)
    ensures
        scrub_outcome(content@, r),
{
    let settings = match parse(content) {
        Ok(v) => v,
        Err(e) => {
            return Err(ConfigError::Parse(error_message(&e)));
        },
    };
    let scrub = scrub_credentials(settings);
    if scrub.removed.len() == 0 {
        return Ok(None);
    }
    match to_pretty(&scrub.settings) {
        Ok(text) => Ok(
            Some(
                SettingsRewrite {
                    content: text,
                    removed: scrub.removed,
                    env_dropped: scrub.env_dropped,
                },
            ),
        ),
        Err(e) => Err(ConfigError::Serialize(error_message(&e))),
    }
}

/// Reads a profile text and gives the text of the local settings that it
/// yields.
pub fn local_settings_content(profile_content: &str) -> (r: Result<Option<String>, ConfigError>)
    ensures
        local_outcome(profile_content@, r),
{
    let profile = match parse(profile_content) {
        Ok(v) => v,
        Err(e) => {
            return Err(ConfigError::Parse(error_message(&e)));
        },
    };
    match extract_local_settings(profile) {
        None => Ok(None),
        Some(local) => match to_pretty(&local) {
            Ok(text) => Ok(Some(text)),
            Err(e) => Err(ConfigError::Serialize(error_message(&e))),
        },
    }
}

/// Reconciles the ambient settings with a profile of the first kind.
///
/// `settings_content` is the text of the ambient settings file, `None` where
/// there is no such file; `config_content` is the text of the profile. The
/// ambient settings are dealt with first: where they cannot be scrubbed the
/// whole call fails and nothing is to be written. The profile comes second, and
/// its failure stands in the plan beside the rewrite that precedes it.
pub fn backup_settings_json_if_exists(settings_content: Option<&str>, config_content: &str) -> (r:
    Result<ReconcilePlan, ConfigError>)
    ensures
        match settings_content {
            None => r is Ok && r->Ok_0.settings is None,
            Some(content) => match r {
                Ok(plan) => scrub_outcome(content@, Ok(plan.settings)),
                Err(e) => scrub_outcome(content@, Err(e)),
            },
        },
        r is Ok ==> local_outcome(config_content@, r->Ok_0.local_settings),
{
    let settings = match settings_content {
        None => None,
        Some(content) => match scrub_settings(content) {
            Ok(rewrite) => rewrite,
            Err(e) => {
                return Err(e);
            },
        },
    };
    let local_settings = local_settings_content(config_content);
    Ok(ReconcilePlan { settings, local_settings })
}

} // verus!
