//! Profiles and their discovery.

use vstd::prelude::*;
use vstd::string::*;
use vstd::seq_lib::*;
use vstd::multiset::*;
use std::path::PathBuf;
use std::collections::HashMap;

verus! {

/// The two kinds of profile.
#[derive(Debug, Clone, Copy, PartialEq, Eq, Structural)]
pub enum ConfigType {
    /// Read by the assistant itself, through the `env` object of its settings.
    Claude,
    /// Read by the companion router, which the assistant then talks to.
    CodeRouter,
}

/// The tag shown after a profile's name in the list.
pub open spec fn indicator_text(kind: ConfigType) -> Seq<char> {
    match kind {
        ConfigType::Claude => ""@,
        ConfigType::CodeRouter => " [CCR]"@,
    }
}

impl ConfigType {
    /// The tag shown after a profile's name in the list.
    pub fn get_indicator(&self) -> (r: &'static str)
        ensures
            r@ == indicator_text(*self),
    {
        match self {
            ConfigType::Claude => "",
            ConfigType::CodeRouter => " [CCR]",
        }
    }
}

/// The tag shown after a profile's name in the list, as a free function.
pub fn get_type_indicator(config_type: &ConfigType) -> (r: &'static str)
    ensures
        r@ == indicator_text(*config_type),
{
    config_type.get_indicator()
}

/// The settings of the assistant, by their top-level names.
#[derive(Debug)]
pub struct ClaudeSettings {
    pub settings: HashMap<String, serde_json::Value>,
}

/// The configuration of the companion router, by its top-level names.
#[derive(Debug)]
pub struct ClaudeCodeRouterConfig {
    pub config: HashMap<String, serde_json::Value>,
}

/// A path of the file system, carried through as the system gave it.
#[verifier::external_type_specification]
#[verifier::external_body]
pub struct ExPathBuf(std::path::PathBuf);

/// One profile found on disk.
#[derive(Debug)]
pub struct ConfigItem {
    /// The name shown to the user.
    pub name: String,
    /// Where the profile's file is.
    pub path: PathBuf,
    pub config_type: ConfigType,
}

/// A profile as a mathematical value.
pub ghost struct ProfileModel {
    pub name: Seq<char>,
    pub path: PathBuf,
    pub config_type: ConfigType,
}

impl View for ConfigItem {
    type V = ProfileModel;

    open spec fn view(&self) -> ProfileModel {
        ProfileModel { name: self.name@, path: self.path, config_type: self.config_type }
    }
}

/// An entry of a directory: its path, and its file name where that is valid
/// Unicode.
#[derive(Debug)]
pub struct FoundFile {
    pub file_name: Option<String>,
    pub path: PathBuf,
}

/// Whether `text` ends with `suffix`.
pub open spec fn ends_with(text: Seq<char>, suffix: Seq<char>) -> bool {
    suffix.len() <= text.len() && text.subrange(text.len() - suffix.len(), text.len() as int)
        == suffix
}

/// The ending of the file names of a kind of profile.
pub open spec fn file_suffix(kind: ConfigType) -> Seq<char> {
    match kind {
        ConfigType::Claude => "-settings.json"@,
        ConfigType::CodeRouter => "-config.json"@,
    }
}

/// What is added to a file's stem to make the profile's name.
pub open spec fn name_tag(kind: ConfigType) -> Seq<char> {
    match kind {
        ConfigType::Claude => Seq::empty(),
        ConfigType::CodeRouter => "-ccr"@,
    }
}

/// The name of the profile in a file of the given name, if the file is a
/// profile of the given kind: the file name without the kind's ending, with the
/// kind's tag.
pub open spec fn profile_name(kind: ConfigType, file_name: Seq<char>) -> Option<Seq<char>> {
    if ends_with(file_name, file_suffix(kind)) {
        Some(file_name.subrange(0, file_name.len() - file_suffix(kind).len()) + name_tag(kind))
    } else {
        None
    }
}

/// The profile in a directory entry, if it is one.
pub open spec fn profile_of(file: FoundFile, kind: ConfigType) -> Option<ProfileModel> {
    match file.file_name {
        Some(file_name) => match profile_name(kind, file_name@) {
            Some(name) => Some(ProfileModel { name, path: file.path, config_type: kind }),
            None => None,
        },
        None => None,
    }
}

/// The profiles among the entries of a directory, in the entries' order.
pub open spec fn discovered(files: Seq<FoundFile>, kind: ConfigType) -> Seq<ProfileModel>
    decreases files.len(),
{
    if files.len() == 0 {
        Seq::empty()
    } else {
        let rest = discovered(files.drop_last(), kind);
        match profile_of(files.last(), kind) {
            Some(profile) => rest.push(profile),
            None => rest,
        }
    }
}

/// Alphabetical order of texts: by the first character in which they differ,
/// a text before its extensions.
pub open spec fn text_le(a: Seq<char>, b: Seq<char>) -> bool
    decreases a.len(),
{
    if a.len() == 0 {
        true
    } else if b.len() == 0 {
        false
    } else if a[0] != b[0] {
        (a[0] as int) < (b[0] as int)
    } else {
        text_le(a.drop_first(), b.drop_first())
    }
}

/// The order of the list: the first kind before the router kind, and within a
/// kind by name.
pub open spec fn profile_le(a: ProfileModel, b: ProfileModel) -> bool {
    match (a.config_type, b.config_type) {
        (ConfigType::Claude, ConfigType::CodeRouter) => true,
        (ConfigType::CodeRouter, ConfigType::Claude) => false,
        _ => text_le(a.name, b.name),
    }
}

/// Whether a list is in the order of [`profile_le`].
pub open spec fn sorted(list: Seq<ProfileModel>) -> bool {
    forall|i: int, j: int| 0 <= i < j < list.len() ==> profile_le(#[trigger] list[i], #[trigger] list[j])
}

/// The profiles of a list of items.
pub open spec fn views(items: Seq<ConfigItem>) -> Seq<ProfileModel> {
    items.map_values(|item: ConfigItem| item@)
}

/// Of two texts, one stands before the other or they are the same.
pub proof fn lemma_text_le_total(a: Seq<char>, b: Seq<char>)
    ensures
        text_le(a, b) || text_le(b, a),
    decreases a.len(),
{
    if a.len() > 0 && b.len() > 0 && a[0] == b[0] {
        lemma_text_le_total(a.drop_first(), b.drop_first());
    }
}

/// Alphabetical order is transitive.
pub proof fn lemma_text_le_transitive(a: Seq<char>, b: Seq<char>, c: Seq<char>)
    requires
        text_le(a, b),
        text_le(b, c),
    ensures
        text_le(a, c),
    decreases a.len(),
{
    if a.len() > 0 {
        if a[0] == b[0] && b[0] == c[0] {
            lemma_text_le_transitive(a.drop_first(), b.drop_first(), c.drop_first());
        }
    }
}

/// Of two profiles, one may stand before the other.
pub proof fn lemma_profile_le_total(a: ProfileModel, b: ProfileModel)
    ensures
        profile_le(a, b) || profile_le(b, a),
{
    lemma_text_le_total(a.name, b.name);
}

/// The order of the list is transitive.
pub proof fn lemma_profile_le_transitive(a: ProfileModel, b: ProfileModel, c: ProfileModel)
    requires
        profile_le(a, b),
        profile_le(b, c),
    ensures
        profile_le(a, c),
{
    if a.config_type == b.config_type && b.config_type == c.config_type {
        lemma_text_le_transitive(a.name, b.name, c.name);
    }
}

/// In a sorted list no router profile stands before a profile of the first
/// kind, whatever their names.
pub proof fn lemma_first_kind_leads(list: Seq<ProfileModel>, i: int, j: int)
    requires
        sorted(list),
        0 <= i < j < list.len(),
    ensures
        list[j].config_type == ConfigType::Claude ==> list[i].config_type == ConfigType::Claude,
        list[i].config_type == ConfigType::CodeRouter ==> list[j].config_type
            == ConfigType::CodeRouter,
{
    assert(profile_le(list[i], list[j]));
}

/// In a sorted list the profiles of one kind stand in the alphabetical order of
/// their names.
pub proof fn lemma_names_ascend_within_kind(list: Seq<ProfileModel>, i: int, j: int)
    requires
        sorted(list),
        0 <= i < j < list.len(),
        list[i].config_type == list[j].config_type,
    ensures
        text_le(list[i].name, list[j].name),
{
    assert(profile_le(list[i], list[j]));
}

/// Every profile discovered in a directory has the kind that was looked for,
/// and a name made from its file's name.
pub proof fn lemma_discovered_kind(files: Seq<FoundFile>, kind: ConfigType, i: int)
    requires
        0 <= i < discovered(files, kind).len(),
    ensures
        discovered(files, kind)[i].config_type == kind,
        exists|k: int| 0 <= k < files.len() && profile_of(#[trigger] files[k], kind) == Some(discovered(files, kind)[i]),
    decreases files.len(),
{
    if files.len() > 0 {
        let rest = discovered(files.drop_last(), kind);
        if i < rest.len() {
            lemma_discovered_kind(files.drop_last(), kind, i);
            let k = choose|k: int| 0 <= k < files.drop_last().len() && profile_of(#[trigger] files.drop_last()[k], kind) == Some(rest[i]);
            assert(files[k] == files.drop_last()[k]);
        } else {
            assert(profile_of(files[files.len() - 1], kind) == Some(discovered(files, kind)[i]));
        }
    }
}

/// Where only the directory of the first kind holds profiles, the list holds
/// profiles of the first kind alone, in the alphabetical order of their names.
pub proof fn lemma_first_kind_alone(
    claude_files: Seq<FoundFile>,
    router_files: Seq<FoundFile>,
    list: Seq<ProfileModel>,
    i: int,
    j: int,
)
    requires
        sorted(list),
        list.to_multiset() == discovered(claude_files, ConfigType::Claude).to_multiset().add(
            discovered(router_files, ConfigType::CodeRouter).to_multiset(),
        ),
        discovered(router_files, ConfigType::CodeRouter).len() == 0,
        0 <= i <= j < list.len(),
    ensures
        list[i].config_type == ConfigType::Claude,
        i < j ==> text_le(list[i].name, list[j].name),
{
    broadcast use group_multiset_axioms, group_to_multiset_ensures;

    let found = discovered(claude_files, ConfigType::Claude);
    assert forall|n: int| 0 <= n < list.len() implies (#[trigger] list[n]).config_type
        == ConfigType::Claude by {
        assert(list.to_multiset().count(list[n]) > 0);
        assert(discovered(router_files, ConfigType::CodeRouter).to_multiset().count(list[n]) == 0);
        assert(found.to_multiset().count(list[n]) > 0);
        assert(found.contains(list[n]));
        let k = choose|k: int| 0 <= k < found.len() && found[k] == list[n];
        lemma_discovered_kind(claude_files, ConfigType::Claude, k);
    }
    if i < j {
        assert(profile_le(list[i], list[j]));
    }
}

/// The part of `text` before `suffix`, where `text` ends with it.
pub fn strip_suffix(text: &str, suffix: &str) -> (r: Option<String>)
    ensures
        match r {
            Some(stem) => ends_with(text@, suffix@) && stem@ == text@.subrange(
                0,
                text@.len() - suffix@.len(),
            ),
            None => !ends_with(text@, suffix@),
        },
{
    let n = text.unicode_len();
    let m = suffix.unicode_len();
    if n < m {
        return None;
    }
    let tail = text.substring_char(n - m, n).to_owned();
    if tail == suffix.to_owned() {
        Some(text.substring_char(0, n - m).to_owned())
    } else {
        None
    }
}

/// Whether `a` stands before `b` in alphabetical order, or is `b`.
pub fn name_le(a: &str, b: &str) -> (r: bool)
    ensures
        r == text_le(a@, b@),
{
    let n = a.unicode_len();
    let m = b.unicode_len();
    let mut i: usize = 0;
    assert(a@.skip(0) =~= a@ && b@.skip(0) =~= b@);
    while i < n && i < m
        invariant
            i <= n,
            i <= m,
            n == a@.len(),
            m == b@.len(),
            text_le(a@, b@) == text_le(a@.skip(i as int), b@.skip(i as int)),
        decreases n - i,
    {
        let x = a.get_char(i);
        let y = b.get_char(i);
        assert(a@.skip(i as int)[0] == x && b@.skip(i as int)[0] == y);
        if x != y {
            return (x as u32) < (y as u32);
        }
        assert(a@.skip(i as int).drop_first() =~= a@.skip(i + 1));
        assert(b@.skip(i as int).drop_first() =~= b@.skip(i + 1));
        i = i + 1;
    }
    i == n
}

/// Whether `a` may stand before `b` in the list.
pub fn item_le(a: &ConfigItem, b: &ConfigItem) -> (r: bool)
    ensures
        r == profile_le(a@, b@),
{
    match (a.config_type, b.config_type) {
        (ConfigType::Claude, ConfigType::CodeRouter) => true,
        (ConfigType::CodeRouter, ConfigType::Claude) => false,
        _ => name_le(a.name.as_str(), b.name.as_str()),
    }
}

/// Puts an item into a sorted list, before the first item that may follow it.
fn insert_sorted(list: &mut Vec<ConfigItem>, item: ConfigItem)
    requires
        sorted(views(old(list)@)),
    ensures
        sorted(views(final(list)@)),
        views(final(list)@).to_multiset() == views(old(list)@).to_multiset().insert(item@),
{
    let ghost before = views(list@);
    let mut i: usize = 0;
    let mut found = false;
    while i < list.len() && !found
        invariant
            i <= list@.len(),
            views(list@) == before,
            forall|k: int| 0 <= k < i ==> profile_le(#[trigger] before[k], item@),
            found ==> i < list@.len() && profile_le(item@, before[i as int]),
        decreases list@.len() - i + if found { 0int } else { 1int },
    {
        if item_le(&item, &list[i]) {
            found = true;
        } else {
            proof {
                lemma_profile_le_total(item@, before[i as int]);
            }
            i = i + 1;
        }
    }
    let ghost model = item@;
    list.insert(i, item);
    proof {
        let after = views(list@);
        let at = i as int;
        assert(after =~= before.insert(at, model));
        to_multiset_insert(before, at, model);
        assert forall|a: int, b: int| 0 <= a < b < after.len() implies profile_le(
            #[trigger] after[a],
            #[trigger] after[b],
        ) by {
            if b < at {
                assert(after[a] == before[a] && after[b] == before[b]);
            } else if b == at {
                assert(after[a] == before[a]);
            } else if a < at {
                assert(after[a] == before[a] && after[b] == before[b - 1]);
            } else if a == at {
                assert(after[b] == before[b - 1]);
                if b - 1 > at {
                    assert(profile_le(before[at], before[b - 1]));
                    lemma_profile_le_transitive(model, before[at], before[b - 1]);
                }
            } else {
                assert(after[a] == before[a - 1] && after[b] == before[b - 1]);
            }
        }
    }
}

/// Adds the profiles among the entries of one directory to a sorted list.
fn add_profiles(list: &mut Vec<ConfigItem>, files: Vec<FoundFile>, kind: ConfigType)
    requires
        sorted(views(old(list)@)),
    ensures
        sorted(views(final(list)@)),
        views(final(list)@).to_multiset() == views(old(list)@).to_multiset().add(
            discovered(files@, kind).to_multiset(),
        ),
{
    broadcast use group_multiset_axioms;

    let mut rest = files;
    let suffix = match kind {
        ConfigType::Claude => "-settings.json",
        ConfigType::CodeRouter => "-config.json",
    };
    while rest.len() > 0
        invariant
            sorted(views(list@)),
            suffix@ == file_suffix(kind),
            views(list@).to_multiset().add(discovered(rest@, kind).to_multiset()) == views(
                old(list)@,
            ).to_multiset().add(discovered(files@, kind).to_multiset()),
        decreases rest@.len(),
    {
        let ghost pending = rest@;
        let ghost listed = views(list@);
        let file = rest.pop().unwrap();
        assert(rest@ =~= pending.drop_last());
        assert(file == pending.last());
        let stem = match &file.file_name {
            Some(file_name) => strip_suffix(file_name.as_str(), suffix),
            None => None,
        };
        if let Some(stem) = stem {
            let name = match kind {
                ConfigType::Claude => stem,
                ConfigType::CodeRouter => stem.concat("-ccr"),
            };
            assert(name@ =~= profile_name(kind, file.file_name.unwrap()@).unwrap());
            let item = ConfigItem { name, path: file.path, config_type: kind };
            assert(profile_of(file, kind) == Some(item@));
            proof {
                to_multiset_build(discovered(rest@, kind), item@);
            }
            insert_sorted(list, item);
            assert(views(list@).to_multiset().add(discovered(rest@, kind).to_multiset())
                =~= listed.to_multiset().add(discovered(pending, kind).to_multiset()));
        } else {
            assert(profile_of(file, kind) is None);
        }
    }
    assert(discovered(rest@, kind) =~= Seq::<ProfileModel>::empty());
    assert(discovered(rest@, kind).to_multiset() =~= Multiset::<ProfileModel>::empty()) by {
        broadcast use group_to_multiset_ensures;
    }
    assert(views(list@).to_multiset().add(Multiset::<ProfileModel>::empty()) =~= views(list@).to_multiset());
}

/// The list of profiles, from the entries of the two directories that hold
/// them.
///
/// The list holds exactly the profiles among the entries: each entry whose file
/// name ends as its directory's kind requires gives one, named after the rest
/// of the file name. The first kind comes before the router kind, and each kind
/// is in the alphabetical order of its names.
pub fn load_configurations(claude_files: Vec<FoundFile>, router_files: Vec<FoundFile>) -> (r: Vec<
    ConfigItem,
>)
    ensures
        sorted(views(r@)),
        views(r@).to_multiset() == discovered(claude_files@, ConfigType::Claude).to_multiset().add(
            discovered(router_files@, ConfigType::CodeRouter).to_multiset(),
        ),
{
    broadcast use group_multiset_axioms;

    let mut list: Vec<ConfigItem> = Vec::new();
    assert(views(list@) =~= Seq::<ProfileModel>::empty());
    assert(views(list@).to_multiset() =~= Multiset::<ProfileModel>::empty()) by {
        broadcast use group_to_multiset_ensures;
    }
    add_profiles(&mut list, claude_files, ConfigType::Claude);
    add_profiles(&mut list, router_files, ConfigType::CodeRouter);
    assert(views(list@).to_multiset() =~= discovered(claude_files@, ConfigType::Claude).to_multiset().add(
        discovered(router_files@, ConfigType::CodeRouter).to_multiset(),
    ));
    list
}

} // verus!
