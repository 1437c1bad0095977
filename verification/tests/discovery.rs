use claude_codust::config::{
    get_type_indicator, item_le, load_configurations, name_le, strip_suffix, ConfigItem,
    ConfigType, FoundFile,
};
use std::path::PathBuf;

fn found(dir: &str, file_name: &str) -> FoundFile {
    FoundFile {
        file_name: Some(file_name.to_string()),
        path: PathBuf::from(dir).join(file_name),
    }
}

fn names(list: &[ConfigItem]) -> Vec<String> {
    list.iter().map(|item| item.name.clone()).collect()
}

#[test]
fn indicator_of_each_kind() {
    assert_eq!(ConfigType::Claude.get_indicator(), "");
    assert_eq!(ConfigType::CodeRouter.get_indicator(), " [CCR]");
    assert_eq!(get_type_indicator(&ConfigType::Claude), "");
    assert_eq!(get_type_indicator(&ConfigType::CodeRouter), " [CCR]");
}

#[test]
fn no_entries_give_an_empty_list() {
    let list = load_configurations(Vec::new(), Vec::new());
    assert!(list.is_empty());
}

#[test]
fn only_matching_file_names_are_profiles() {
    let claude = vec![
        found("/h/.profiles", "settings.json"),
        found("/h/.profiles", "work-settings.json"),
        found("/h/.profiles", "notes.txt"),
        found("/h/.profiles", "x-config.json"),
        FoundFile { file_name: None, path: PathBuf::from("/h/.profiles/odd") },
    ];
    let router = vec![
        found("/h/.router", "config.json"),
        found("/h/.router", "local-config.json"),
        found("/h/.router", "y-settings.json"),
    ];
    let list = load_configurations(claude, router);
    assert_eq!(names(&list), vec!["work".to_string(), "local-ccr".to_string()]);
    assert_eq!(list[0].config_type, ConfigType::Claude);
    assert_eq!(list[0].path, PathBuf::from("/h/.profiles/work-settings.json"));
    assert_eq!(list[1].config_type, ConfigType::CodeRouter);
    assert_eq!(list[1].path, PathBuf::from("/h/.router/local-config.json"));
}

#[test]
fn a_file_named_by_the_suffix_alone_has_an_empty_name() {
    let list = load_configurations(vec![found("/h/.profiles", "-settings.json")], Vec::new());
    assert_eq!(names(&list), vec![String::new()]);
}

#[test]
fn first_kind_alone_is_sorted_by_name() {
    let claude = vec![
        found("/h/.profiles", "zeta-settings.json"),
        found("/h/.profiles", "alpha-settings.json"),
        found("/h/.profiles", "mid-settings.json"),
        found("/h/.profiles", "Beta-settings.json"),
        found("/h/.profiles", "alpha2-settings.json"),
    ];
    let list = load_configurations(claude, Vec::new());
    assert_eq!(
        names(&list),
        vec!["Beta", "alpha", "alpha2", "mid", "zeta"]
            .into_iter()
            .map(String::from)
            .collect::<Vec<_>>()
    );
    assert!(list.iter().all(|item| item.config_type == ConfigType::Claude));
}

#[test]
fn first_kind_precedes_router_kind() {
    let claude = vec![found("/h/.profiles", "zz-settings.json"), found("/h/.profiles", "m-settings.json")];
    let router = vec![
        found("/h/.router", "b-config.json"),
        found("/h/.router", "a-config.json"),
    ];
    let list = load_configurations(claude, router);
    assert_eq!(
        names(&list),
        vec!["m", "zz", "a-ccr", "b-ccr"].into_iter().map(String::from).collect::<Vec<_>>()
    );
    let kinds: Vec<ConfigType> = list.iter().map(|item| item.config_type).collect();
    assert_eq!(
        kinds,
        vec![
            ConfigType::Claude,
            ConfigType::Claude,
            ConfigType::CodeRouter,
            ConfigType::CodeRouter
        ]
    );
}

#[test]
fn the_order_agrees_with_the_order_of_strings() {
    let words = ["", "a", "A", "ab", "abc", "b", "é", "z", "日本", "a-b", "a_b", "a0"];
    for a in words {
        for b in words {
            assert_eq!(name_le(a, b), a <= b, "{:?} against {:?}", a, b);
        }
    }
}

#[test]
fn items_compare_by_kind_first() {
    let item = |name: &str, kind: ConfigType| ConfigItem {
        name: name.to_string(),
        path: PathBuf::from("/p"),
        config_type: kind,
    };
    assert!(item_le(&item("z", ConfigType::Claude), &item("a", ConfigType::CodeRouter)));
    assert!(!item_le(&item("a", ConfigType::CodeRouter), &item("z", ConfigType::Claude)));
    assert!(item_le(&item("a", ConfigType::Claude), &item("b", ConfigType::Claude)));
    assert!(!item_le(&item("b", ConfigType::CodeRouter), &item("a", ConfigType::CodeRouter)));
    assert!(item_le(&item("a", ConfigType::Claude), &item("a", ConfigType::Claude)));
}

#[test]
fn strip_suffix_cases() {
    assert_eq!(strip_suffix("work-settings.json", "-settings.json"), Some("work".to_string()));
    assert_eq!(strip_suffix("-settings.json", "-settings.json"), Some(String::new()));
    assert_eq!(strip_suffix("settings.json", "-settings.json"), None);
    assert_eq!(strip_suffix("work-settings.json.bak", "-settings.json"), None);
    assert_eq!(strip_suffix("é日-config.json", "-config.json"), Some("é日".to_string()));
    assert_eq!(strip_suffix("abc", ""), Some("abc".to_string()));
}
