//! The cursor of the interactive list.

use vstd::prelude::*;
use vstd::string::*;
use vstd::utf8::encode_utf8;
use crate::config::{ConfigItem, ConfigType, ProfileModel, indicator_text, views};

verus! {

/// The keys that the list tells apart.
#[derive(Debug, Clone, Copy, PartialEq, Eq, Structural)]
pub enum Key {
    Up,
    Down,
    Enter,
    Esc,
    Char(char),
    Other,
}

/// A key event of the terminal: the key, and whether it was pressed (rather
/// than released or repeated).
#[derive(Debug, Clone, Copy, PartialEq, Eq, Structural)]
pub struct KeyInput {
    pub key: Key,
    pub pressed: bool,
}

/// Where the list stands after an event.
#[derive(Debug, Clone, Copy, PartialEq, Eq, Structural)]
pub enum SelectorStep {
    /// Draw the list again with the cursor on this entry, and wait.
    Selecting(usize),
    /// Activate this entry and leave the list.
    Activate(usize),
    /// Leave the list without activating anything.
    Cancelled,
}

/// How the interaction begins.
#[derive(Debug, Clone, Copy, PartialEq, Eq, Structural)]
pub enum SelectorStart {
    /// There is nothing to choose from: say so, and do not enter the list.
    NoConfigurations,
    /// Enter the list with the cursor on this entry.
    Selecting(usize),
}

/// The entry above `selected` in a list of `count` entries, the last one
/// above the first.
pub open spec fn entry_above(count: int, selected: int) -> int {
    (selected - 1) % count
}

/// The entry below `selected` in a list of `count` entries, the first one
/// below the last.
pub open spec fn entry_below(count: int, selected: int) -> int {
    (selected + 1) % count
}

/// What an event does to a list of `count` entries with the cursor on
/// `selected`. Only pressed keys count; of those, the two arrows move the
/// cursor, Enter activates, Escape and `q` cancel, and any other key changes
/// nothing.
pub open spec fn selector_step(count: int, selected: int, event: Option<KeyInput>) -> SelectorStep {
    match event {
        Some(input) => if !input.pressed {
            SelectorStep::Selecting(selected as usize)
        } else {
            match input.key {
                Key::Up => SelectorStep::Selecting(entry_above(count, selected) as usize),
                Key::Down => SelectorStep::Selecting(entry_below(count, selected) as usize),
                Key::Enter => SelectorStep::Activate(selected as usize),
                Key::Esc => SelectorStep::Cancelled,
                Key::Char(c) => if c == 'q' {
                    SelectorStep::Cancelled
                } else {
                    SelectorStep::Selecting(selected as usize)
                },
                Key::Other => SelectorStep::Selecting(selected as usize),
            }
        },
        None => SelectorStep::Selecting(selected as usize),
    }
}

/// The cursor wraps around both ends of the list and otherwise moves by one.
pub proof fn lemma_cursor_wraps(count: int, selected: int)
    requires
        0 <= selected < count,
    ensures
        0 <= entry_above(count, selected) < count,
        0 <= entry_below(count, selected) < count,
        selected == 0 ==> entry_above(count, selected) == count - 1,
        selected > 0 ==> entry_above(count, selected) == selected - 1,
        selected == count - 1 ==> entry_below(count, selected) == 0,
        selected < count - 1 ==> entry_below(count, selected) == selected + 1,
        entry_below(count, entry_above(count, selected)) == selected,
        entry_above(count, entry_below(count, selected)) == selected,
{
    if selected == 0 {
        assert((0 - 1) % count == count - 1) by (nonlinear_arith)
            requires
                count > 0,
        ;
    } else {
        assert((selected - 1) % count == selected - 1) by (nonlinear_arith)
            requires
                0 < selected < count,
        ;
    }
    if selected == count - 1 {
        assert((selected + 1) % count == 0) by (nonlinear_arith)
            requires
                selected + 1 == count,
                count > 0,
        ;
    } else {
        assert((selected + 1) % count == selected + 1) by (nonlinear_arith)
            requires
                0 <= selected,
                selected + 1 < count,
        ;
    }
    let above = entry_above(count, selected);
    let below = entry_below(count, selected);
    if above == count - 1 {
        assert((above + 1) % count == 0) by (nonlinear_arith)
            requires
                above + 1 == count,
                count > 0,
        ;
    } else {
        assert((above + 1) % count == above + 1) by (nonlinear_arith)
            requires
                0 <= above,
                above + 1 < count,
        ;
    }
    if below == 0 {
        assert((0 - 1) % count == count - 1) by (nonlinear_arith)
            requires
                count > 0,
        ;
    } else {
        assert((below - 1) % count == below - 1) by (nonlinear_arith)
            requires
                0 < below < count,
        ;
    }
}

/// How the interaction begins for a list of `count` entries: with the cursor on
/// the first entry, or not at all where the list is empty.
pub fn show_interactive_selector(count: usize) -> (r: SelectorStart)
    ensures
        r == if count == 0 {
            SelectorStart::NoConfigurations
        } else {
            SelectorStart::Selecting(0)
        },
{
    if count == 0 {
        SelectorStart::NoConfigurations
    } else {
        SelectorStart::Selecting(0)
    }
}

/// One turn of the list: what the event does to a list of `count` entries with
/// the cursor on `selected`. `None` stands for an event that is no key event.
pub fn run_selector(count: usize, selected: usize, event: Option<KeyInput>) -> (r: SelectorStep)
    requires
        selected < count,
    ensures
        r == selector_step(count as int, selected as int, event),
        r matches SelectorStep::Selecting(cursor) ==> cursor < count,
        r matches SelectorStep::Activate(index) ==> index == selected,
{
    proof {
        lemma_cursor_wraps(count as int, selected as int);
    }
    let input = match event {
        Some(input) => input,
        None => {
            return SelectorStep::Selecting(selected);
        },
    };
    if !input.pressed {
        return SelectorStep::Selecting(selected);
    }
    match input.key {
        Key::Up => if selected == 0 {
            SelectorStep::Selecting(count - 1)
        } else {
            SelectorStep::Selecting(selected - 1)
        },
        Key::Down => if selected == count - 1 {
            SelectorStep::Selecting(0)
        } else {
            SelectorStep::Selecting(selected + 1)
        },
        Key::Enter => SelectorStep::Activate(selected),
        Key::Esc => SelectorStep::Cancelled,
        Key::Char(c) => if c == 'q' {
            SelectorStep::Cancelled
        } else {
            SelectorStep::Selecting(selected)
        },
        Key::Other => SelectorStep::Selecting(selected),
    }
}

/// What the list shows of a profile: its name and the tag of its kind.
pub open spec fn label_text(item: ProfileModel) -> Seq<char> {
    item.name + indicator_text(item.config_type)
}

/// The length in bytes of what the list shows of a profile.
pub open spec fn label_bytes(item: ProfileModel) -> nat {
    encode_utf8(item.name).len() + encode_utf8(indicator_text(item.config_type)).len()
}

/// The width of the column of names: the greatest length in bytes of what the
/// list shows of any profile.
pub open spec fn column_width(items: Seq<ProfileModel>) -> nat
    decreases items.len(),
{
    if items.len() == 0 {
        0
    } else if column_width(items.drop_last()) >= label_bytes(items.last()) {
        column_width(items.drop_last())
    } else {
        label_bytes(items.last())
    }
}

/// A text followed by as many spaces as it takes to make it `width`
/// characters long; a longer text is left as it is.
pub open spec fn padded(text: Seq<char>, width: nat) -> Seq<char> {
    if text.len() >= width {
        text
    } else {
        text + Seq::new((width - text.len()) as nat, |i: int| ' ')
    }
}

/// The mark that stands before an entry: an arrow before the one under the
/// cursor, two spaces before the others.
pub open spec fn cursor_mark(under_cursor: bool) -> Seq<char> {
    if under_cursor {
        "❯ "@
    } else {
        "  "@
    }
}

/// The label of entry `index` of the list with the cursor on `selected`: the
/// mark, then the name and the tag, padded to the width of the column.
pub open spec fn entry_label(items: Seq<ProfileModel>, index: int, selected: int) -> Seq<char> {
    cursor_mark(index == selected) + padded(label_text(items[index]), column_width(items))
}

/// The length in bytes of what the list shows of an item.
fn label_length(item: &ConfigItem) -> (r: u128)
    ensures
        r == label_bytes(item@),
{
    let name_length = item.name.as_str().as_bytes().len();
    let tag_length = item.config_type.get_indicator().as_bytes().len();
    name_length as u128 + tag_length as u128
}

/// The width of the column of names.
fn name_column_width(configs: &Vec<ConfigItem>) -> (r: u128)
    ensures
        r == column_width(views(configs@)),
{
    let mut width: u128 = 0;
    let mut i: usize = 0;
    assert(views(configs@).take(0) =~= Seq::<ProfileModel>::empty());
    while i < configs.len()
        invariant
            i <= configs@.len(),
            width == column_width(views(configs@).take(i as int)),
        decreases configs@.len() - i,
    {
        let length = label_length(&configs[i]);
        proof {
            let next = views(configs@).take(i + 1);
            assert(next.drop_last() =~= views(configs@).take(i as int));
            assert(next.last() == configs@[i as int]@);
        }
        if length > width {
            width = length;
        }
        i = i + 1;
    }
    assert(views(configs@).take(configs@.len() as int) =~= views(configs@));
    width
}

/// The labels of the list, one for each entry in order, with the cursor on
/// `selected`.
pub fn print_selector_ui(configs: &Vec<ConfigItem>, selected: usize) -> (r: Vec<String>)
    ensures
        r@.len() == configs@.len(),
        forall|i: int|
            0 <= i < r@.len() ==> (#[trigger] r@[i])@ == entry_label(
                views(configs@),
                i,
                selected as int,
            ),
{
    let width = name_column_width(configs);
    let mut labels: Vec<String> = Vec::new();
    let mut i: usize = 0;
    while i < configs.len()
        invariant
            i <= configs@.len(),
            labels@.len() == i,
            width == column_width(views(configs@)),
            forall|k: int|
                0 <= k < i ==> (#[trigger] labels@[k])@ == entry_label(
                    views(configs@),
                    k,
                    selected as int,
                ),
        decreases configs@.len() - i,
    {
        let item = &configs[i];
        let mark = if i == selected {
            "❯ "
        } else {
            "  "
        };
        let mut label = mark.to_owned();
        label.append(item.name.as_str());
        label.append(item.config_type.get_indicator());
        let ghost text = label_text(item@);
        assert(label@ =~= cursor_mark(i == selected) + text);
        let shown = item.name.as_str().unicode_len();
        let tag_shown = item.config_type.get_indicator().unicode_len();
        let mut count: u128 = shown as u128 + tag_shown as u128;
        assert(count == text.len());
        while count < width
            invariant
                count >= text.len(),
                count == text.len() || count <= width,
                label@ == cursor_mark(i == selected) + text + Seq::new(
                    (count - text.len()) as nat,
                    |i: int| ' ',
                ),
            decreases width - count,
        {
            let ghost before = label@;
            label.append(" ");
            proof {
                reveal_strlit(" ");
                assert(" "@ =~= seq![' ']);
                assert(label@ =~= cursor_mark(i == selected) + text + Seq::new(
                    (count + 1 - text.len()) as nat,
                    |i: int| ' ',
                ));
            }
            count = count + 1;
        }
        assert(views(configs@)[i as int] == item@);
        assert(label@ =~= entry_label(views(configs@), i as int, selected as int));
        labels.push(label);
        i = i + 1;
    }
    labels
}

} // verus!
