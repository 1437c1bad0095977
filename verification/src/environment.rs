//! The environment that the assistant is launched with: the inherited one,
//! overlaid with what the chosen profile says.

use vstd::prelude::*;
use vstd::string::*;
use crate::config::ConfigType;
use crate::json::{
    JsonModel, value_model, object_model, object_get, object_keys, parsed_json, parse,
    error_message,
};
use crate::reconcile::{
    ConfigError, env_object, base_url_key, auth_token_key, api_key_key, lemma_credential_keys_differ,
};

verus! {

/// The mapping that a list of assignments amounts to when they are applied in
/// order: a later assignment to a name replaces an earlier one.
pub open spec fn assigned(vars: Seq<(String, String)>) -> Map<Seq<char>, Seq<char>>
    decreases vars.len(),
{
    if vars.len() == 0 {
        Map::empty()
    } else {
        assigned(vars.drop_last()).insert(vars.last().0@, vars.last().1@)
    }
}

/// An environment under construction.
///
/// It is kept as the list of assignments made so far, and stands for the
/// mapping from names to values that they amount to.
pub struct LaunchEnvironment {
    pub vars: Vec<(String, String)>,
}

impl View for LaunchEnvironment {
    type V = Map<Seq<char>, Seq<char>>;

    open spec fn view(&self) -> Map<Seq<char>, Seq<char>> {
        assigned(self.vars@)
    }
}

impl LaunchEnvironment {
    /// The environment that the given assignments amount to.
    pub fn new(vars: Vec<(String, String)>) -> (r: Self)
        ensures
            r@ == assigned(vars@),
            r.vars == vars,
    {
        LaunchEnvironment { vars }
    }

    /// Sets `name` to `value`, whatever it was before; every other name keeps
    /// its value.
    pub fn set(&mut self, name: String, value: String)
        ensures
            final(self)@ == old(self)@.insert(name@, value@),
    {
        self.vars.push((name, value));
        assert(self.vars@.drop_last() =~= old(self).vars@);
    }

    /// The value of `name`, if it has one.
    pub fn get(&self, name: &str) -> (r: Option<&str>)
        ensures
            match r {
                Some(value) => self@.contains_key(name@) && self@[name@] == value@,
                None => !self@.contains_key(name@),
            },
    {
        let wanted = name.to_owned();
        let mut i: usize = self.vars.len();
        assert(self.vars@.take(i as int) =~= self.vars@);
        while i > 0
            invariant
                i <= self.vars@.len(),
                wanted@ == name@,
                self@.contains_key(name@) <==> assigned(self.vars@.take(i as int)).contains_key(name@),
                self@.contains_key(name@) ==> self@[name@] == assigned(self.vars@.take(i as int))[name@],
            decreases i,
        {
            let ghost prefix = self.vars@.take(i as int);
            assert(prefix.drop_last() =~= self.vars@.take(i - 1));
            assert(prefix.last() == self.vars@[i - 1]);
            i = i - 1;
            if self.vars[i].0 == wanted {
                return Some(self.vars[i].1.as_str());
            }
        }
        assert(self.vars@.take(0) =~= Seq::<(String, String)>::empty());
        None
    }
}

/// The text member `key` of a document: present where the document is an
/// object whose member `key` is a string.
pub open spec fn text_member(doc: JsonModel, key: Seq<char>) -> Option<Seq<char>> {
    if doc is Object && doc->Object_0.contains_key(key) && doc->Object_0[key] is Text {
        Some(doc->Object_0[key]->Text_0)
    } else {
        None
    }
}

/// The assignments that a profile of the first kind makes: the members of its
/// `env` object that are strings.
pub open spec fn profile_assignments(profile: JsonModel) -> Map<Seq<char>, Seq<char>> {
    match env_object(profile) {
        Some(env) => Map::new(
            |k: Seq<char>| env.contains_key(k) && env[k] is Text,
            |k: Seq<char>| env[k]->Text_0,
        ),
        None => Map::empty(),
    }
}

/// The port that a router profile names: its text member `PORT` where that is
/// present and not empty, else 3456.
pub open spec fn router_port(profile: JsonModel) -> Seq<char> {
    match text_member(profile, "PORT"@) {
        Some(port) => if port.len() > 0 {
            port
        } else {
            "3456"@
        },
        None => "3456"@,
    }
}

/// The address of the router on this machine.
pub open spec fn router_base_url(profile: JsonModel) -> Seq<char> {
    "http://127.0.0.1:"@ + router_port(profile)
}

/// The environment for a profile of the router kind: the API key where the
/// profile names one, else a placeholder token; and the router's address.
pub open spec fn router_environment(profile: JsonModel, inherited: Map<Seq<char>, Seq<char>>) -> Map<
    Seq<char>,
    Seq<char>,
> {
    let with_credential = match text_member(profile, "APIKEY"@) {
        Some(key) => inherited.insert("ANTHROPIC_API_KEY"@, key),
        None => inherited.insert("ANTHROPIC_AUTH_TOKEN"@, "test"@),
    };
    with_credential.insert("ANTHROPIC_BASE_URL"@, router_base_url(profile))
}

/// The environment that a profile is launched with. What the profile does not
/// set passes through from the inherited environment.
pub open spec fn launch_environment(
    kind: ConfigType,
    profile: JsonModel,
    inherited: Map<Seq<char>, Seq<char>>,
) -> Map<Seq<char>, Seq<char>> {
    match kind {
        ConfigType::Claude => inherited.union_prefer_right(profile_assignments(profile)),
        ConfigType::CodeRouter => router_environment(profile, inherited),
    }
}

/// A name that the profile does not assign keeps the value it inherited. For the
/// router kind the profile assigns the address and one of the two credentials.
pub proof fn lemma_unset_names_pass_through(
    kind: ConfigType,
    profile: JsonModel,
    inherited: Map<Seq<char>, Seq<char>>,
    name: Seq<char>,
)
    requires
        inherited.contains_key(name),
        kind == ConfigType::Claude ==> !profile_assignments(profile).contains_key(name),
        kind == ConfigType::CodeRouter ==> name != "ANTHROPIC_BASE_URL"@ && name
            != "ANTHROPIC_API_KEY"@ && name != "ANTHROPIC_AUTH_TOKEN"@,
    ensures
        launch_environment(kind, profile, inherited).contains_key(name),
        launch_environment(kind, profile, inherited)[name] == inherited[name],
{
}

/// For a router profile that names neither key nor port, the environment holds
/// the placeholder token and the router's address at the default port; it
/// holds no API key unless one was inherited.
pub proof fn lemma_router_without_key_and_port(
    profile: JsonModel,
    inherited: Map<Seq<char>, Seq<char>>,
)
    requires
        text_member(profile, "APIKEY"@) is None,
        text_member(profile, "PORT"@) is None,
    ensures
        router_environment(profile, inherited).contains_key(auth_token_key()),
        router_environment(profile, inherited)[auth_token_key()] == "test"@,
        router_environment(profile, inherited).contains_key(base_url_key()),
        router_environment(profile, inherited)[base_url_key()] == "http://127.0.0.1:3456"@,
        router_environment(profile, inherited).contains_key(api_key_key())
            <==> inherited.contains_key(api_key_key()),
{
    lemma_credential_keys_differ();
    reveal_strlit("http://127.0.0.1:");
    reveal_strlit("3456");
    reveal_strlit("http://127.0.0.1:3456");
    assert("http://127.0.0.1:"@ + "3456"@ =~= "http://127.0.0.1:3456"@);
}

/// For a router profile that names a key and a port, the environment holds
/// that key and the router's address at that port; it holds no placeholder
/// token unless one was inherited.
pub proof fn lemma_router_with_key_and_port(
    profile: JsonModel,
    inherited: Map<Seq<char>, Seq<char>>,
    key: Seq<char>,
    port: Seq<char>,
)
    requires
        text_member(profile, "APIKEY"@) == Some(key),
        text_member(profile, "PORT"@) == Some(port),
        port.len() > 0,
    ensures
        router_environment(profile, inherited).contains_key(api_key_key()),
        router_environment(profile, inherited)[api_key_key()] == key,
        router_environment(profile, inherited).contains_key(base_url_key()),
        router_environment(profile, inherited)[base_url_key()] == "http://127.0.0.1:"@ + port,
        router_environment(profile, inherited).contains_key(auth_token_key())
            <==> inherited.contains_key(auth_token_key()),
{
    lemma_credential_keys_differ();
}

/// Whether `k` is among the first `n` of `keys`.
pub open spec fn among_first(keys: Seq<String>, n: int, k: Seq<char>) -> bool {
    exists|j: int| 0 <= j < n && #[trigger] keys[j]@ == k
}

/// The string member `key` of a document, where it has one.
fn text_of<'a>(doc: &'a serde_json::Value, key: &str) -> (r: Option<&'a str>)
    ensures
        match r {
            Some(text) => text_member(value_model(*doc), key@) == Some(text@),
            None => text_member(value_model(*doc), key@) is None,
        },
{
    match doc.as_object() {
        Some(members) => match object_get(members, key) {
            Some(member) => member.as_str(),
            None => None,
        },
        None => None,
    }
}

/// Overlays the string members of a profile's `env` object on an environment.
fn assign_profile_env(profile: &serde_json::Value, inherited: LaunchEnvironment) -> (r:
    LaunchEnvironment)
    ensures
        r@ == inherited@.union_prefer_right(profile_assignments(value_model(*profile))),
{
    let mut result = inherited;
    let ghost base = inherited@;
    let env = match profile.as_object() {
        Some(members) => match object_get(members, "env") {
            Some(member) => match member.as_object() {
                Some(env) => env,
                None => {
                    assert(result@ =~= base.union_prefer_right(
                        profile_assignments(value_model(*profile)),
                    ));
                    return result;
                },
            },
            None => {
                assert(result@ =~= base.union_prefer_right(
                    profile_assignments(value_model(*profile)),
                ));
                return result;
            },
        },
        None => {
            assert(result@ =~= base.union_prefer_right(
                profile_assignments(value_model(*profile)),
            ));
            return result;
        },
    };
    let ghost members = object_model(*env);
    assert(env_object(value_model(*profile)) == Some(members));
    let keys = object_keys(env);
    let mut i: usize = 0;
    while i < keys.len()
        invariant
            i <= keys@.len(),
            members == object_model(*env),
            forall|j: int| 0 <= j < keys@.len() ==> members.contains_key(#[trigger] keys@[j]@),
            result@ =~= Map::new(
                |k: Seq<char>|
                    base.contains_key(k) || (among_first(keys@, i as int, k) && members[k] is Text),
                |k: Seq<char>|
                    if among_first(keys@, i as int, k) && members[k] is Text {
                        members[k]->Text_0
                    } else {
                        base[k]
                    },
            ),
        decreases keys@.len() - i,
    {
        let ghost before = result@;
        let key = &keys[i];
        assert(members.contains_key(keys@[i as int]@));
        let text = match object_get(env, key.as_str()) {
            Some(member) => member.as_str(),
            None => None,
        };
        if let Some(text) = text {
            result.set(key.clone(), text.to_owned());
        }
        proof {
            let n = i as int;
            assert forall|k: Seq<char>| among_first(keys@, n + 1, k) <==> (among_first(keys@, n, k)
                || keys@[n]@ == k) by {
                if among_first(keys@, n + 1, k) {
                    let j = choose|j: int| 0 <= j < n + 1 && #[trigger] keys@[j]@ == k;
                    if j < n {
                        assert(among_first(keys@, n, k));
                    }
                }
                if among_first(keys@, n, k) {
                    let j = choose|j: int| 0 <= j < n && #[trigger] keys@[j]@ == k;
                    assert(0 <= j < n + 1 && keys@[j]@ == k);
                }
                if keys@[n]@ == k {
                    assert(0 <= n < n + 1 && keys@[n]@ == k);
                }
            }
        }
        i = i + 1;
    }
    proof {
        let n = keys@.len() as int;
        assert forall|k: Seq<char>| members.contains_key(k) <==> among_first(keys@, n, k) by {
            if among_first(keys@, n, k) {
                let j = choose|j: int| 0 <= j < n && #[trigger] keys@[j]@ == k;
                assert(members.contains_key(keys@[j]@));
            }
        }
        assert(result@ =~= base.union_prefer_right(profile_assignments(value_model(*profile))));
    }
    result
}

/// Points an environment at the router that a profile describes.
fn assign_router(profile: &serde_json::Value, inherited: LaunchEnvironment) -> (r:
    LaunchEnvironment)
    ensures
        r@ == router_environment(value_model(*profile), inherited@),
{
    let mut result = inherited;
    match text_of(profile, "APIKEY") {
        Some(key) => result.set("ANTHROPIC_API_KEY".to_owned(), key.to_owned()),
        None => result.set("ANTHROPIC_AUTH_TOKEN".to_owned(), "test".to_owned()),
    }
    let port = match text_of(profile, "PORT") {
        Some(port) => if port.unicode_len() > 0 {
            port
        } else {
            "3456"
        },
        None => "3456",
    };
    let base_url = "http://127.0.0.1:".to_owned().concat(port);
    result.set("ANTHROPIC_BASE_URL".to_owned(), base_url);
    result
}

/// The environment to launch the assistant with, for a profile of the given
/// kind, over the inherited environment.
///
/// For the first kind, every string member of the profile's `env` object is
/// assigned; members that are no strings are passed over. For the router kind,
/// the API key is assigned where the profile names one, else the placeholder
/// token, and the router's address in either case.
pub fn synthesize(kind: ConfigType, profile: &serde_json::Value, inherited: LaunchEnvironment) -> (r:
    LaunchEnvironment)
    ensures
        r@ == launch_environment(kind, value_model(*profile), inherited@),
{
    match kind {
        ConfigType::Claude => assign_profile_env(profile, inherited),
        ConfigType::CodeRouter => assign_router(profile, inherited),
    }
}

/// The environment to launch the assistant with, from the text of the profile.
/// A text that is no JSON is a parse error, and nothing is launched.
pub fn environment_from_profile(kind: ConfigType, content: &str, inherited: LaunchEnvironment) -> (r:
    Result<LaunchEnvironment, ConfigError>)
    ensures
        match parsed_json(content@) {
            Some(profile) => r is Ok && r->Ok_0@ == launch_environment(kind, profile, inherited@),
            None => r is Err && r->Err_0 is Parse,
        },
{
    match parse(content) {
        Ok(profile) => Ok(synthesize(kind, &profile, inherited)),
        Err(e) => Err(ConfigError::Parse(error_message(&e))),
    }
}

} // verus!
