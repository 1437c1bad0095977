use claude_codust::config::{ConfigItem, ConfigType};
use claude_codust::selector::{
    print_selector_ui, run_selector, show_interactive_selector, Key, KeyInput, SelectorStart,
    SelectorStep,
};
use std::path::PathBuf;

fn press(key: Key) -> Option<KeyInput> {
    Some(KeyInput { key, pressed: true })
}

#[test]
fn an_empty_list_is_not_entered() {
    assert_eq!(show_interactive_selector(0), SelectorStart::NoConfigurations);
    assert_eq!(show_interactive_selector(1), SelectorStart::Selecting(0));
    assert_eq!(show_interactive_selector(9), SelectorStart::Selecting(0));
}

#[test]
fn cursor_wraps_at_both_ends() {
    assert_eq!(run_selector(4, 0, press(Key::Up)), SelectorStep::Selecting(3));
    assert_eq!(run_selector(4, 3, press(Key::Down)), SelectorStep::Selecting(0));
    assert_eq!(run_selector(1, 0, press(Key::Up)), SelectorStep::Selecting(0));
    assert_eq!(run_selector(1, 0, press(Key::Down)), SelectorStep::Selecting(0));
}

#[test]
fn cursor_moves_by_one() {
    assert_eq!(run_selector(4, 2, press(Key::Up)), SelectorStep::Selecting(1));
    assert_eq!(run_selector(4, 2, press(Key::Down)), SelectorStep::Selecting(3));
    assert_eq!(run_selector(4, 1, press(Key::Up)), SelectorStep::Selecting(0));
}

#[test]
fn up_and_down_undo_each_other() {
    for count in 1..6usize {
        for selected in 0..count {
            let up = match run_selector(count, selected, press(Key::Up)) {
                SelectorStep::Selecting(cursor) => cursor,
                other => panic!("{:?}", other),
            };
            assert_eq!(run_selector(count, up, press(Key::Down)), SelectorStep::Selecting(selected));
            assert_eq!(up, (selected + count - 1) % count);
        }
    }
}

#[test]
fn enter_activates_the_selected_entry() {
    assert_eq!(run_selector(3, 2, press(Key::Enter)), SelectorStep::Activate(2));
    assert_eq!(run_selector(3, 0, press(Key::Enter)), SelectorStep::Activate(0));
}

#[test]
fn escape_and_q_cancel() {
    assert_eq!(run_selector(3, 1, press(Key::Esc)), SelectorStep::Cancelled);
    assert_eq!(run_selector(3, 1, press(Key::Char('q'))), SelectorStep::Cancelled);
}

#[test]
fn other_input_changes_nothing() {
    assert_eq!(run_selector(3, 1, press(Key::Char('Q'))), SelectorStep::Selecting(1));
    assert_eq!(run_selector(3, 1, press(Key::Char('x'))), SelectorStep::Selecting(1));
    assert_eq!(run_selector(3, 1, press(Key::Other)), SelectorStep::Selecting(1));
    assert_eq!(run_selector(3, 1, None), SelectorStep::Selecting(1));
    for key in [Key::Up, Key::Down, Key::Enter, Key::Esc, Key::Char('q')] {
        assert_eq!(
            run_selector(3, 1, Some(KeyInput { key, pressed: false })),
            SelectorStep::Selecting(1)
        );
    }
}

#[test]
fn labels_are_padded_to_the_longest_name() {
    let item = |name: &str, kind: ConfigType| ConfigItem {
        name: name.to_string(),
        path: PathBuf::from("/p"),
        config_type: kind,
    };
    let configs = vec![
        item("a", ConfigType::Claude),
        item("work", ConfigType::Claude),
        item("x-ccr", ConfigType::CodeRouter),
    ];
    assert_eq!(
        print_selector_ui(&configs, 1),
        vec!["  a          ", "❯ work       ", "  x-ccr [CCR]"]
    );
    assert_eq!(
        print_selector_ui(&configs, 2),
        vec!["  a          ", "  work       ", "❯ x-ccr [CCR]"]
    );
    assert_eq!(print_selector_ui(&configs, 7)[0], "  a          ");
    assert!(print_selector_ui(&Vec::new(), 0).is_empty());

    let wide = vec![item("é", ConfigType::Claude), item("ab", ConfigType::Claude)];
    for (label, config) in print_selector_ui(&wide, 0).iter().zip(wide.iter()) {
        let mark = if config.name == "é" { "❯ " } else { "  " };
        assert_eq!(*label, format!("{}{:<width$}", mark, config.name, width = 2));
    }
}
