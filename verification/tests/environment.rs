use claude_codust::config::ConfigType;
use claude_codust::environment::{environment_from_profile, synthesize, LaunchEnvironment};
use claude_codust::reconcile::ConfigError;
use serde_json::Value;

fn json(text: &str) -> Value {
    serde_json::from_str(text).unwrap()
}

fn inherited() -> LaunchEnvironment {
    LaunchEnvironment::new(vec![
        ("PATH".to_string(), "/usr/bin".to_string()),
        ("HOME".to_string(), "/home/u".to_string()),
    ])
}

#[test]
fn later_assignments_win() {
    let mut env = LaunchEnvironment::new(vec![
        ("A".to_string(), "1".to_string()),
        ("B".to_string(), "2".to_string()),
        ("A".to_string(), "3".to_string()),
    ]);
    assert_eq!(env.get("A"), Some("3"));
    assert_eq!(env.get("B"), Some("2"));
    assert_eq!(env.get("C"), None);
    env.set("B".to_string(), "4".to_string());
    env.set("C".to_string(), "".to_string());
    assert_eq!(env.get("A"), Some("3"));
    assert_eq!(env.get("B"), Some("4"));
    assert_eq!(env.get("C"), Some(""));
    assert_eq!(LaunchEnvironment::new(Vec::new()).get("A"), None);
}

#[test]
fn router_without_key_and_port() {
    let env = synthesize(ConfigType::CodeRouter, &json(r#"{"Providers":[]}"#), inherited());
    assert_eq!(env.get("ANTHROPIC_AUTH_TOKEN"), Some("test"));
    assert_eq!(env.get("ANTHROPIC_BASE_URL"), Some("http://127.0.0.1:3456"));
    assert_eq!(env.get("ANTHROPIC_API_KEY"), None);
    assert_eq!(env.get("PATH"), Some("/usr/bin"));
    assert_eq!(env.get("HOME"), Some("/home/u"));
}

#[test]
fn router_with_key_and_port() {
    let env = synthesize(
        ConfigType::CodeRouter,
        &json(r#"{"APIKEY":"k1","PORT":"8080"}"#),
        inherited(),
    );
    assert_eq!(env.get("ANTHROPIC_API_KEY"), Some("k1"));
    assert_eq!(env.get("ANTHROPIC_BASE_URL"), Some("http://127.0.0.1:8080"));
    assert_eq!(env.get("ANTHROPIC_AUTH_TOKEN"), None);
    assert_eq!(env.get("PATH"), Some("/usr/bin"));
}

#[test]
fn router_fields_that_are_no_strings_count_as_absent() {
    let env = synthesize(
        ConfigType::CodeRouter,
        &json(r#"{"APIKEY":17,"PORT":8080,"env":{"X":"1"}}"#),
        inherited(),
    );
    assert_eq!(env.get("ANTHROPIC_AUTH_TOKEN"), Some("test"));
    assert_eq!(env.get("ANTHROPIC_API_KEY"), None);
    assert_eq!(env.get("ANTHROPIC_BASE_URL"), Some("http://127.0.0.1:3456"));
    assert_eq!(env.get("X"), None);
}

#[test]
fn router_with_an_empty_port_uses_the_default() {
    let env = synthesize(ConfigType::CodeRouter, &json(r#"{"PORT":""}"#), inherited());
    assert_eq!(env.get("ANTHROPIC_BASE_URL"), Some("http://127.0.0.1:3456"));
}

#[test]
fn router_profile_that_is_no_object() {
    let env = synthesize(ConfigType::CodeRouter, &json("[]"), inherited());
    assert_eq!(env.get("ANTHROPIC_AUTH_TOKEN"), Some("test"));
    assert_eq!(env.get("ANTHROPIC_BASE_URL"), Some("http://127.0.0.1:3456"));
}

#[test]
fn router_overrides_what_was_inherited() {
    let ambient = LaunchEnvironment::new(vec![
        ("ANTHROPIC_BASE_URL".to_string(), "https://elsewhere".to_string()),
        ("ANTHROPIC_API_KEY".to_string(), "old".to_string()),
    ]);
    let env = synthesize(ConfigType::CodeRouter, &json(r#"{"APIKEY":"new"}"#), ambient);
    assert_eq!(env.get("ANTHROPIC_API_KEY"), Some("new"));
    assert_eq!(env.get("ANTHROPIC_BASE_URL"), Some("http://127.0.0.1:3456"));
}

#[test]
fn first_kind_assigns_the_strings_of_env() {
    let env = synthesize(
        ConfigType::Claude,
        &json(r#"{"env":{"PATH":"/opt/bin","ANTHROPIC_API_KEY":"k","N":5,"B":true,"O":{"a":"b"},"Z":null},"APIKEY":"no"}"#),
        inherited(),
    );
    assert_eq!(env.get("PATH"), Some("/opt/bin"));
    assert_eq!(env.get("HOME"), Some("/home/u"));
    assert_eq!(env.get("ANTHROPIC_API_KEY"), Some("k"));
    assert_eq!(env.get("N"), None);
    assert_eq!(env.get("B"), None);
    assert_eq!(env.get("O"), None);
    assert_eq!(env.get("Z"), None);
    assert_eq!(env.get("ANTHROPIC_BASE_URL"), None);
    assert_eq!(env.get("ANTHROPIC_AUTH_TOKEN"), None);
}

#[test]
fn first_kind_without_an_env_object_inherits_everything() {
    for text in [r#"{"model":"m"}"#, r#"{"env":"X=1"}"#, r#"{"env":[1]}"#, "3", r#"{"env":{}}"#] {
        let env = synthesize(ConfigType::Claude, &json(text), inherited());
        assert_eq!(env.get("PATH"), Some("/usr/bin"));
        assert_eq!(env.get("HOME"), Some("/home/u"));
        assert_eq!(env.vars.len(), 2);
    }
}

#[test]
fn environment_from_the_text_of_a_profile() {
    let env = environment_from_profile(
        ConfigType::Claude,
        r#"{"env":{"A":"1","HOME":"/root"}}"#,
        inherited(),
    )
    .unwrap();
    assert_eq!(env.get("A"), Some("1"));
    assert_eq!(env.get("HOME"), Some("/root"));
    assert_eq!(env.get("PATH"), Some("/usr/bin"));

    let env =
        environment_from_profile(ConfigType::CodeRouter, r#"{"PORT":"9"}"#, inherited()).unwrap();
    assert_eq!(env.get("ANTHROPIC_BASE_URL"), Some("http://127.0.0.1:9"));

    for kind in [ConfigType::Claude, ConfigType::CodeRouter] {
        assert!(matches!(
            environment_from_profile(kind, "{\"env\":", inherited()),
            Err(ConfigError::Parse(_))
        ));
    }
}
