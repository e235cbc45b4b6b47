//! What the tool reads of a Cargo manifest: the members of the workspace it declares.

use crate::text::texts;
use vstd::prelude::*;

verus! {

/// `toml::Value`.
#[verifier::external_type_specification]
#[verifier::external_body]
pub struct ExTomlValue(toml::Value);

/// `toml::map::Map`.
#[verifier::external_type_specification]
#[verifier::external_body]
#[verifier::reject_recursive_types(K)]
#[verifier::reject_recursive_types(V)]
pub struct ExTomlMap<K, V>(toml::map::Map<K, V>);

/// `toml::de::Error`, the error of the parser.
#[verifier::external_type_specification]
#[verifier::external_body]
pub struct ExTomlError(toml::de::Error);

/// The mathematical form of a TOML value, as far as a manifest is read: strings, arrays
/// and tables are told apart and taken in; of the other kinds only that they are others.
pub enum TomlView {
    Text(Seq<char>),
    Array(Seq<TomlView>),
    Table(Seq<(Seq<char>, TomlView)>),
    Other,
}

/// The mathematical form of a TOML table: its keys with their values. No key stands twice.
pub type TableView = Seq<(Seq<char>, TomlView)>;

/// What a TOML value holds.
pub uninterp spec fn toml_view(value: toml::Value) -> TomlView;

/// What a TOML table holds.
pub uninterp spec fn table_view(table: toml::map::Map<String, toml::Value>) -> TableView;

/// What the table holds that a text stands for as a TOML document, or `None` where the
/// text is no TOML document.
pub uninterp spec fn toml_document(text: Seq<char>) -> Option<TableView>;

/// What the values of a vector hold.
pub open spec fn toml_views(values: Seq<toml::Value>) -> Seq<TomlView> {
    Seq::new(values.len(), |i: int| toml_view(values[i]))
}

/// The value under a key among the first `upto` entries of a table, or `None` where none
/// of them has the key.
pub open spec fn toml_entry_among(table: TableView, key: Seq<char>, upto: int) -> Option<TomlView>
    decreases upto,
{
    if upto <= 0 {
        None
    } else if toml_entry_among(table, key, upto - 1) is Some {
        toml_entry_among(table, key, upto - 1)
    } else if table[upto - 1].0 == key {
        Some(table[upto - 1].1)
    } else {
        None
    }
}

/// The value under a key of a table, or `None` where the table has no such key.
pub open spec fn toml_entry(table: TableView, key: Seq<char>) -> Option<TomlView> {
    toml_entry_among(table, key, table.len() as int)
}

/// What a value holds that may be there.
pub open spec fn held_toml(value: Option<&toml::Value>) -> Option<TomlView> {
    match value {
        Some(value) => Some(toml_view(*value)),
        None => None,
    }
}

/// `toml::from_str` for a table: the document that the text stands for, or the parser's
/// error where the text is no TOML document.
#[verifier::external_body]
fn parse(text: &str) -> (parsed: Result<toml::Table, toml::de::Error>)
    ensures
        parsed matches Ok(table) ==> toml_document(text@) == Some(table_view(table)),
        parsed is Err ==> toml_document(text@) is None,
{
    toml::from_str::<toml::Table>(text)
}

/// `toml::map::Map::get`: the value under the key.
#[verifier::external_body]
fn get<'a>(table: &'a toml::Table, key: &str) -> (found: Option<&'a toml::Value>)
    ensures
        held_toml(found) == toml_entry(table_view(*table), key@),
{
    table.get(key)
}

/// `toml::Value::as_table`: the table, where the value is one.
#[verifier::external_body]
fn as_table(value: &toml::Value) -> (found: Option<&toml::Table>)
    ensures
        found matches Some(table) ==> toml_view(*value) == TomlView::Table(table_view(*table)),
        found is None ==> !(toml_view(*value) is Table),
{
    value.as_table()
}

/// `toml::Value::as_array`: the items, where the value is an array.
#[verifier::external_body]
fn as_array(value: &toml::Value) -> (found: Option<&Vec<toml::Value>>)
    ensures
        found matches Some(items) ==> toml_view(*value) == TomlView::Array(toml_views(items@)),
        found is None ==> !(toml_view(*value) is Array),
{
    value.as_array()
}

/// `toml::Value::as_str`: the text, where the value is a string.
#[verifier::external_body]
fn as_str(value: &toml::Value) -> (found: Option<&str>)
    ensures
        found matches Some(text) ==> toml_view(*value) == TomlView::Text(text@),
        found is None ==> !(toml_view(*value) is Text),
{
    value.as_str()
}

/// Why a manifest does not tell the members of its workspace.
#[derive(Debug, Clone, Copy, PartialEq, Eq, Structural)]
pub enum ManifestError {
    /// The text is no TOML document.
    Invalid,
    /// An item of `workspace.members` is not a string.
    MemberNotText,
}

/// The items of `workspace.members` in a document: the array under the key `members` of
/// the table under the key `workspace`. Where one of the two keys is missing, or holds a
/// value of another kind, there are none.
pub open spec fn declared_members(document: TableView) -> Seq<TomlView> {
    match toml_entry(document, "workspace"@) {
        Some(TomlView::Table(workspace)) => match toml_entry(workspace, "members"@) {
            Some(TomlView::Array(items)) => items,
            _ => Seq::empty(),
        },
        _ => Seq::empty(),
    }
}

/// The texts of items that are strings.
pub open spec fn member_texts(items: Seq<TomlView>) -> Seq<Seq<char>> {
    Seq::new(items.len(), |i: int| items[i]->Text_0)
}

/// What `workspace_members` returns for a manifest: the texts of the declared members in
/// their order, or the reason why there is no such list.
pub open spec fn members_of(manifest: Seq<char>) -> Result<Seq<Seq<char>>, ManifestError> {
    match toml_document(manifest) {
        None => Err(ManifestError::Invalid),
        Some(document) => {
            let items = declared_members(document);
            if forall|i: int| 0 <= i < items.len() ==> (#[trigger] items[i]) is Text {
                Ok(member_texts(items))
            } else {
                Err(ManifestError::MemberNotText)
            }
        },
    }
}

/// The members of the workspace that a manifest declares, as they are written there. A
/// manifest that declares no workspace has none; so has the empty text.
pub fn workspace_members(manifest: &str) -> (members: Result<Vec<String>, ManifestError>)
    ensures
        match members {
            Ok(names) => members_of(manifest@) is Ok && members_of(manifest@)->Ok_0 == texts(names@),
            Err(reason) => members_of(manifest@) is Err && members_of(manifest@)->Err_0 == reason,
        },
{
    let table = match parse(manifest) {
        Ok(table) => table,
        Err(_) => {
            return Err(ManifestError::Invalid);
        },
    };
    let mut names: Vec<String> = Vec::new();
    if let Some(workspace) = get(&table, "workspace") {
        if let Some(inner) = as_table(workspace) {
            if let Some(members) = get(inner, "members") {
                if let Some(items) = as_array(members) {
                    let ghost declared = toml_views(items@);
                    let mut i: usize = 0;
                    while i < items.len()
                        invariant
                            i <= items@.len(),
                            toml_document(manifest@) == Some(table_view(table)),
                            declared == toml_views(items@),
                            declared == declared_members(table_view(table)),
                            names@.len() == i,
                            forall|k: int| 0 <= k < i ==> (#[trigger] declared[k]) == TomlView::Text(names@[k]@),
                        decreases items@.len() - i,
                    {
                        match as_str(&items[i]) {
                            Some(text) => {
                                names.push(text.to_owned());
                                proof {
                                    assert(declared[i as int] == toml_view(items@[i as int]));
                                }
                            },
                            None => {
                                proof {
                                    assert(declared[i as int] == toml_view(items@[i as int]));
                                    assert(!(declared[i as int] is Text));
                                }
                                return Err(ManifestError::MemberNotText);
                            },
                        }
                        i += 1;
                    }
                    proof {
                        assert(texts(names@) =~= member_texts(declared));
                    }
                    return Ok(names);
                }
            }
        }
    }
    proof {
        assert(declared_members(table_view(table)) =~= Seq::<TomlView>::empty());
        assert(texts(names@) =~= member_texts(Seq::<TomlView>::empty()));
    }
    Ok(names)
}

} // verus!
