//! The trusted boundary to `toml_edit`, the format-preserving TOML store.
//!
//! The editor keeps the parsed document in a `toml_edit::DocumentMut` so
//! that comments, whitespace and key order survive a load/save cycle.  Verus
//! sees that document only through the names and wrappers below: the names
//! give each `toml_edit` value a mathematical content ([`Node`] trees and the
//! serialized text), and each wrapper states, over those names, what one
//! `toml_edit` call does to that content.  Everything else in the crate is
//! verified against these contracts.
use vstd::prelude::*;

use crate::model::{has_key, lookup, remove_key, set_key, Entries, Node};

verus! {

#[verifier::external_type_specification]
#[verifier::external_body]
pub struct ExDocumentMut(toml_edit::DocumentMut);

#[verifier::external_type_specification]
#[verifier::external_body]
pub struct ExTable(toml_edit::Table);

#[verifier::external_type_specification]
#[verifier::external_body]
pub struct ExItem(toml_edit::Item);

#[verifier::external_type_specification]
#[verifier::external_body]
pub struct ExArray(toml_edit::Array);

#[verifier::external_type_specification]
#[verifier::external_body]
pub struct ExTomlError(toml_edit::TomlError);

/// Whether `toml_edit`'s parser accepts the text: a function of the text
/// alone.
pub uninterp spec fn parses_ok(s: Seq<char>) -> bool;

/// The text that serializing the document yields.
pub uninterp spec fn render(d: toml_edit::DocumentMut) -> Seq<char>;

/// The entries of the document's root table, in storage order.
pub uninterp spec fn doc_entries(d: toml_edit::DocumentMut) -> Entries;

/// The entries of a table, in storage order.
pub uninterp spec fn table_entries(t: toml_edit::Table) -> Entries;

/// The logical content of an item.
pub uninterp spec fn item_node(i: toml_edit::Item) -> Node;

/// The logical contents of an array, in storage order.
pub uninterp spec fn arr_nodes(a: toml_edit::Array) -> Seq<Node>;

/// Relies on `DocumentMut::from_str` (`toml_edit`'s parser): a parsed
/// document serializes back to the input text byte for byte, which is the
/// crate's stated round-trip guarantee.  The one exception is a leading
/// byte-order mark, which the lexer consumes before the first token and
/// which therefore does not survive.
#[verifier::external_body]
pub fn parse_text(s: &str) -> (r: Result<toml_edit::DocumentMut, toml_edit::TomlError>)
    ensures
        r is Ok <==> parses_ok(s@),
        !(s@.len() > 0 && s@[0] == '\u{feff}') ==> (r matches Ok(d) ==> render(d) == s@),
{
    s.parse::<toml_edit::DocumentMut>()
}

/// Relies on `Display for DocumentMut`: serializes the document.
#[verifier::external_body]
pub fn render_string(d: &toml_edit::DocumentMut) -> (r: String)
    ensures
        r@ == render(*d),
{
    d.to_string()
}

/// Relies on `Display for TomlError`: the parser's own diagnostic, with its
/// location information, surfaced verbatim.
#[verifier::external_body]
pub fn error_text(e: &toml_edit::TomlError) -> String {
    e.to_string()
}

/// Relies on `DocumentMut::as_table`: the root of a document is its root
/// table.
#[verifier::external_body]
pub fn root(d: &toml_edit::DocumentMut) -> (r: &toml_edit::Table)
    ensures
        table_entries(*r) == doc_entries(*d),
{
    d.as_table()
}

/// Relies on `DocumentMut::as_table_mut`: edits through the returned root
/// table are edits of the document.
#[verifier::external_body]
pub fn root_mut(d: &mut toml_edit::DocumentMut) -> (r: &mut toml_edit::Table)
    ensures
        table_entries(*r) == doc_entries(*old(d)),
        doc_entries(*final(d)) == table_entries(*final(r)),
{
    d.as_table_mut()
}

/// Relies on `Table::contains_key`, which reports the keys of the table's
/// live entries.
#[verifier::external_body]
pub fn tbl_contains(t: &toml_edit::Table, key: &str) -> (r: bool)
    ensures
        r == has_key(table_entries(*t), key@),
{
    t.contains_key(key)
}

/// Relies on `Table::len`, which counts the table's live entries.
#[verifier::external_body]
pub fn tbl_len(t: &toml_edit::Table) -> (r: usize)
    ensures
        r == table_entries(*t).len(),
{
    t.len()
}

/// Relies on `Table::iter`, which yields the live entries in storage order;
/// the key is handed out as an owned string.
#[verifier::external_body]
pub fn tbl_entry_at<'a>(t: &'a toml_edit::Table, i: usize) -> (r: (String, &'a toml_edit::Item))
    requires
        i < table_entries(*t).len(),
    ensures
        r.0@ == table_entries(*t)[i as int].0,
        item_node(*r.1) == table_entries(*t)[i as int].1,
{
    let (k, v) = t.iter().nth(i).unwrap();
    (k.to_owned(), v)
}

/// Relies on `Table::get`: the item bound to the key, if the key is bound.
#[verifier::external_body]
pub fn tbl_get<'a>(t: &'a toml_edit::Table, key: &str) -> (r: Option<&'a toml_edit::Item>)
    ensures
        r is Some <==> has_key(table_entries(*t), key@),
        r matches Some(it) ==> lookup(table_entries(*t), key@) == Some(item_node(*it)),
{
    t.get(key)
}

/// Relies on `Table::get_mut`: edits through the returned item replace the
/// value bound to the key and leave every other entry as it was.
#[verifier::external_body]
pub fn tbl_get_mut<'a>(t: &'a mut toml_edit::Table, key: &str) -> (r: Option<
    &'a mut toml_edit::Item,
>)
    ensures
        r is Some <==> has_key(table_entries(*old(t)), key@),
        r is None ==> *final(t) == *old(t),
        r matches Some(it) ==> {
            &&& lookup(table_entries(*old(t)), key@) == Some(item_node(*it))
            &&& table_entries(*final(t)) == set_key(
                table_entries(*old(t)),
                key@,
                item_node(*final(it)),
            )
        },
{
    t.get_mut(key)
}

/// Relies on `Table::insert`: binds the key to the item, replacing in place
/// if the key was bound and appending at the end otherwise.
#[verifier::external_body]
pub fn tbl_insert(t: &mut toml_edit::Table, key: &str, item: toml_edit::Item)
    ensures
        table_entries(*final(t)) == set_key(table_entries(*old(t)), key@, item_node(item)),
{
    t.insert(key, item);
}

/// Relies on `Table::remove`: unbinds the key, shifting later entries up.
#[verifier::external_body]
pub fn tbl_remove(t: &mut toml_edit::Table, key: &str)
    ensures
        table_entries(*final(t)) == remove_key(table_entries(*old(t)), key@),
{
    t.remove(key);
}

/// Relies on `Item::as_str`, which yields the string of a string item and
/// nothing else; the string is handed out owned.
#[verifier::external_body]
pub fn item_str(i: &toml_edit::Item) -> (r: Option<String>)
    ensures
        r is Some <==> item_node(*i) is Str,
        r matches Some(s) ==> item_node(*i) == Node::Str(s@),
{
    i.as_str().map(|s| s.to_owned())
}

/// Relies on `Item::as_table`, which yields the table of a table item and
/// nothing else.
#[verifier::external_body]
pub fn item_table<'a>(i: &'a toml_edit::Item) -> (r: Option<&'a toml_edit::Table>)
    ensures
        r is Some <==> item_node(*i) is Tab,
        r matches Some(t) ==> item_node(*i) == Node::Tab(table_entries(*t)),
{
    i.as_table()
}

/// Relies on `Item::as_table_mut`: edits through the returned table are
/// edits of the item.
#[verifier::external_body]
pub fn item_table_mut<'a>(i: &'a mut toml_edit::Item) -> (r: Option<&'a mut toml_edit::Table>)
    ensures
        r is Some <==> item_node(*old(i)) is Tab,
        r is None ==> *final(i) == *old(i),
        r matches Some(t) ==> {
            &&& item_node(*old(i)) == Node::Tab(table_entries(*t))
            &&& item_node(*final(i)) == Node::Tab(table_entries(*final(t)))
        },
{
    i.as_table_mut()
}

/// Relies on `Item::as_array`, which yields the array of an array item and
/// nothing else.
#[verifier::external_body]
pub fn item_array<'a>(i: &'a toml_edit::Item) -> (r: Option<&'a toml_edit::Array>)
    ensures
        r is Some <==> item_node(*i) is Arr,
        r matches Some(a) ==> item_node(*i) == Node::Arr(arr_nodes(*a)),
{
    i.as_array()
}

/// Relies on `Item::as_array_mut`: edits through the returned array are
/// edits of the item.
#[verifier::external_body]
pub fn item_array_mut<'a>(i: &'a mut toml_edit::Item) -> (r: Option<&'a mut toml_edit::Array>)
    ensures
        r is Some <==> item_node(*old(i)) is Arr,
        r is None ==> *final(i) == *old(i),
        r matches Some(a) ==> {
            &&& item_node(*old(i)) == Node::Arr(arr_nodes(*a))
            &&& item_node(*final(i)) == Node::Arr(arr_nodes(*final(a)))
        },
{
    i.as_array_mut()
}

/// Relies on `toml_edit::table`, which makes an empty table item.
#[verifier::external_body]
pub fn mk_table_item() -> (r: toml_edit::Item)
    ensures
        item_node(r) == Node::Tab(Seq::<(Seq<char>, Node)>::empty()),
{
    toml_edit::table()
}

/// Relies on `Array::new` and the `Item::Value` constructor: an empty
/// array value item.
#[verifier::external_body]
pub fn mk_array_item() -> (r: toml_edit::Item)
    ensures
        item_node(r) == Node::Arr(Seq::<Node>::empty()),
{
    toml_edit::Item::Value(toml_edit::Value::Array(toml_edit::Array::new()))
}

/// Relies on `toml_edit::value`, which makes a string value item from a
/// string.
#[verifier::external_body]
pub fn mk_str_item(s: &str) -> (r: toml_edit::Item)
    ensures
        item_node(r) == Node::Str(s@),
{
    toml_edit::value(s)
}

/// Relies on `toml_edit::value`, which makes an integer value item from an
/// integer.
#[verifier::external_body]
pub fn mk_int_item(v: i64) -> (r: toml_edit::Item)
    ensures
        item_node(r) == Node::Int(v as int),
{
    toml_edit::value(v)
}

/// Relies on `toml_edit::value`, which makes a boolean value item from a
/// boolean.
#[verifier::external_body]
pub fn mk_bool_item(v: bool) -> (r: toml_edit::Item)
    ensures
        item_node(r) == Node::Bool(v),
{
    toml_edit::value(v)
}

/// Relies on `Array::len`: the length of the array's underlying storage.
#[verifier::external_body]
pub fn arr_len(a: &toml_edit::Array) -> (r: usize)
    ensures
        r == arr_nodes(*a).len(),
{
    a.len()
}

/// Relies on `Array::get` and `Value::as_str`: the string at the index, if
/// the element there is a string; the string is handed out owned.
#[verifier::external_body]
pub fn arr_str_at(a: &toml_edit::Array, i: usize) -> (r: Option<String>)
    requires
        i < arr_nodes(*a).len(),
    ensures
        r is Some <==> arr_nodes(*a)[i as int] is Str,
        r matches Some(s) ==> arr_nodes(*a)[i as int] == Node::Str(s@),
{
    a.get(i).and_then(|v| v.as_str()).map(|s| s.to_owned())
}

/// Relies on `Array::push`, which appends a string value at the end.
#[verifier::external_body]
pub fn arr_push_str(a: &mut toml_edit::Array, s: &str)
    ensures
        arr_nodes(*final(a)) == arr_nodes(*old(a)).push(Node::Str(s@)),
{
    a.push(s);
}

/// Relies on `Array::remove`, which removes the element at the index and
/// shifts later elements up.  Only elements shown to be strings are removed
/// here, which keeps the call panic-free.
#[verifier::external_body]
pub fn arr_remove_at(a: &mut toml_edit::Array, i: usize)
    requires
        i < arr_nodes(*old(a)).len(),
        arr_nodes(*old(a))[i as int] is Str,
    ensures
        arr_nodes(*final(a)) == arr_nodes(*old(a)).remove(i as int),
{
    a.remove(i);
}

/// Relies on `Display for Item`: a printable rendering of a value the
/// editor does not otherwise interpret.  Nothing is assumed of the text.
#[verifier::external_body]
pub fn item_display(i: &toml_edit::Item) -> String {
    i.to_string().trim().to_owned()
}

/// Relies on `Array::push`, which appends an integer value at the end.
#[verifier::external_body]
pub fn arr_push_int(a: &mut toml_edit::Array, v: i64)
    ensures
        arr_nodes(*final(a)) == arr_nodes(*old(a)).push(Node::Int(v as int)),
{
    a.push(v);
}

/// Relies on `Array::push`, which appends a boolean value at the end.
#[verifier::external_body]
pub fn arr_push_bool(a: &mut toml_edit::Array, v: bool)
    ensures
        arr_nodes(*final(a)) == arr_nodes(*old(a)).push(Node::Bool(v)),
{
    a.push(v);
}

/// Whether `str::parse::<toml_edit::Value>` reads the literal as a
/// floating-point value: a function of the literal alone.
pub uninterp spec fn toml_float_ok(lit: Seq<char>) -> bool;

/// Relies on `str::parse::<toml_edit::Value>` and `Array::push`: appends
/// the floating-point number the literal denotes, if the literal parses as
/// one; the editor does not interpret such a value further.
#[verifier::external_body]
pub fn arr_push_num(a: &mut toml_edit::Array, lit: &str) -> (r: bool)
    ensures
        r == toml_float_ok(lit@),
        r ==> arr_nodes(*final(a)) == arr_nodes(*old(a)).push(Node::Other),
        !r ==> *final(a) == *old(a),
{
    match lit.parse::<toml_edit::Value>() {
        Ok(toml_edit::Value::Float(f)) => {
            a.push(toml_edit::Value::Float(f));
            true
        },
        _ => false,
    }
}

/// Relies on `str::parse::<toml_edit::Value>`: the item holding the
/// floating-point number the literal denotes, if the literal parses as
/// one; the editor does not interpret such a value further.  An integer
/// literal above the signed 64-bit range is not accepted as a float and
/// is therefore rejected.
#[verifier::external_body]
pub fn mk_num_item(lit: &str) -> (r: Option<toml_edit::Item>)
    ensures
        r is Some <==> toml_float_ok(lit@),
        r matches Some(it) ==> item_node(it) == Node::Other,
{
    match lit.parse::<toml_edit::Value>() {
        Ok(toml_edit::Value::Float(f)) => Some(toml_edit::Item::Value(toml_edit::Value::Float(f))),
        _ => None,
    }
}

/// Relies on `Item::into_value` and `Array::push`: appends the item's
/// value form at the end of the array.  A full table becomes an inline
/// table, which the editor does not interpret further; values keep their
/// content.
#[verifier::external_body]
pub fn arr_push_item(a: &mut toml_edit::Array, it: toml_edit::Item)
    requires
        !(item_node(it) is Other),
    ensures
        arr_nodes(*final(a)) == arr_nodes(*old(a)).push(
            if item_node(it) is Tab {
                Node::Other
            } else {
                item_node(it)
            },
        ),
{
    match it.into_value() {
        Ok(v) => a.push(v),
        Err(_) => {},
    }
}

} // verus!
