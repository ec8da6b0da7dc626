//! Structured metadata values: a generic decoded tree handed over by the
//! external JSON decoder, and its fold into the document's own nodes.
//!
//! The fold maps the tree one to one: strings, integers and booleans become
//! the matching scalars, `null` becomes an empty string scalar, objects
//! become tables, arrays carry every element.  Inside an array an object
//! becomes an inline table and a number outside the integer range a float,
//! both of which the editor carries but does not interpret further.
use vstd::prelude::*;

use crate::model::{set_key, Entries, Node};
use crate::report::EditError;
use crate::store;
use crate::store::toml_float_ok;
use vstd::pervasive::unreached;

verus! {

/// A decoded structured value.
pub enum JsonTree {
    /// An explicit null; folds to an empty string scalar.
    Null,
    /// A boolean.
    Bool(bool),
    /// A number in the signed integer range.
    Int(i64),
    /// Any other number, carried as its literal text.
    Num(String),
    /// A string.
    Str(String),
    /// An array of values.
    Arr(Vec<JsonTree>),
    /// An object: field/value pairs in source order.
    Obj(Vec<(String, JsonTree)>),
}

#[verifier::external_type_specification]
#[verifier::external_body]
pub struct ExJsonValue(serde_json::Value);

/// Relies on `serde_json::from_str`: decodes a JSON document, surfacing
/// the decoder's own diagnostic on failure.
#[verifier::external_body]
pub(crate) fn parse_json(s: &str) -> Result<serde_json::Value, String> {
    serde_json::from_str::<serde_json::Value>(s).map_err(|e| e.to_string())
}

/// Relies on the `serde_json::Value` accessors: converts the decoded value
/// into the crate's tree, one arm per variant, numbers split by whether
/// `Number::as_i64` accepts them and otherwise carried as their text.
#[verifier::external_body]
pub(crate) fn decode_value(v: &serde_json::Value) -> JsonTree {
    match v {
        serde_json::Value::Null => JsonTree::Null,
        serde_json::Value::Bool(b) => JsonTree::Bool(*b),
        serde_json::Value::Number(n) => match n.as_i64() {
            Some(i) => JsonTree::Int(i),
            None => JsonTree::Num(n.to_string()),
        },
        serde_json::Value::String(s) => JsonTree::Str(s.clone()),
        serde_json::Value::Array(a) => JsonTree::Arr(a.iter().map(decode_value).collect()),
        serde_json::Value::Object(o) => JsonTree::Obj(
            o.iter().map(|(k, x)| (k.clone(), decode_value(x))).collect(),
        ),
    }
}

/// The node a tree folds to.
pub open spec fn tree_node(t: JsonTree) -> Node
    decreases t,
{
    match t {
        JsonTree::Null => Node::Str(Seq::empty()),
        JsonTree::Bool(b) => Node::Bool(b),
        JsonTree::Int(i) => Node::Int(i as int),
        JsonTree::Num(_) => Node::Other,
        JsonTree::Str(s) => Node::Str(s@),
        JsonTree::Arr(v) => Node::Arr(arr_elem_nodes(v@, 0)),
        JsonTree::Obj(fs) => Node::Tab(obj_entries(fs@, 0, Seq::empty())),
    }
}

/// The nodes the elements of an array fold to, from element `i` on.  An
/// object element becomes an inline table, which the store does not
/// interpret; every other element folds as a value.
pub open spec fn arr_elem_nodes(v: Seq<JsonTree>, i: int) -> Seq<Node>
    decreases v, v.len() - i, 0int,
{
    if i < 0 || i >= v.len() {
        Seq::empty()
    } else {
        let n = match v[i] {
            JsonTree::Obj(_) => Node::Other,
            _ => tree_node(v[i]),
        };
        seq![n] + arr_elem_nodes(v, i + 1)
    }
}

/// The entries an object folds to: each field inserted in source order
/// into `acc`.
pub open spec fn obj_entries(fs: Seq<(String, JsonTree)>, i: int, acc: Entries) -> Entries
    decreases fs, fs.len() - i, 0int,
{
    if i < 0 || i >= fs.len() {
        acc
    } else {
        obj_entries(fs, i + 1, set_key(acc, fs[i].0@, tree_node(fs[i].1)))
    }
}

/// Whether the store accepts every number literal of the tree, so that
/// the fold succeeds.
pub open spec fn tree_ok(t: JsonTree) -> bool
    decreases t,
{
    match t {
        JsonTree::Num(s) => toml_float_ok(s@),
        JsonTree::Arr(v) => arr_elems_ok(v@, 0),
        JsonTree::Obj(fs) => fields_ok(fs@, 0),
        _ => true,
    }
}

/// Whether every array element from `i` on is foldable.
pub open spec fn arr_elems_ok(v: Seq<JsonTree>, i: int) -> bool
    decreases v, v.len() - i, 0int,
{
    if i < 0 || i >= v.len() {
        true
    } else {
        tree_ok(v[i]) && arr_elems_ok(v, i + 1)
    }
}

/// Whether every object field from `i` on is foldable.
pub open spec fn fields_ok(fs: Seq<(String, JsonTree)>, i: int) -> bool
    decreases fs, fs.len() - i, 0int,
{
    if i < 0 || i >= fs.len() {
        true
    } else {
        tree_ok(fs[i].1) && fields_ok(fs, i + 1)
    }
}

/// Elementwise foldability gives `arr_elems_ok`.
proof fn lemma_arr_elems_ok_all(v: Seq<JsonTree>, i: int)
    requires
        0 <= i <= v.len(),
        forall|j: int| i <= j < v.len() ==> tree_ok(v[j]),
    ensures
        arr_elems_ok(v, i),
    decreases v.len() - i,
{
    if i < v.len() {
        lemma_arr_elems_ok_all(v, i + 1);
    }
}

/// `arr_elems_ok` covers each element.
proof fn lemma_arr_elems_ok_at(v: Seq<JsonTree>, i: int, j: int)
    requires
        arr_elems_ok(v, i),
        0 <= i <= j < v.len(),
    ensures
        tree_ok(v[j]),
    decreases j - i,
{
    if i < j {
        lemma_arr_elems_ok_at(v, i + 1, j);
    }
}

/// Fieldwise foldability gives `fields_ok`.
proof fn lemma_fields_ok_all(fs: Seq<(String, JsonTree)>, i: int)
    requires
        0 <= i <= fs.len(),
        forall|j: int| i <= j < fs.len() ==> tree_ok(fs[j].1),
    ensures
        fields_ok(fs, i),
    decreases fs.len() - i,
{
    if i < fs.len() {
        lemma_fields_ok_all(fs, i + 1);
    }
}

/// `fields_ok` covers each field.
proof fn lemma_fields_ok_at(fs: Seq<(String, JsonTree)>, i: int, j: int)
    requires
        fields_ok(fs, i),
        0 <= i <= j < fs.len(),
    ensures
        tree_ok(fs[j].1),
    decreases j - i,
{
    if i < j {
        lemma_fields_ok_at(fs, i + 1, j);
    }
}

/// Folds a decoded tree into one store item whose content is the tree's
/// node: one node per tree value, `null` an empty string scalar.  Succeeds
/// exactly when the store accepts every number literal of the tree.
pub fn fold_tree(t: &JsonTree) -> (r: Result<toml_edit::Item, EditError>)
    ensures
        r is Ok <==> tree_ok(*t),
        r matches Ok(it) ==> store::item_node(it) == tree_node(*t),
        r matches Err(e) ==> e is BadValue,
    decreases *t,
{
    match t {
        JsonTree::Null => {
            let it = store::mk_str_item("");
            proof {
                reveal_strlit("");
                assert(""@ =~= Seq::<char>::empty());
            }
            Ok(it)
        },
        JsonTree::Bool(b) => Ok(store::mk_bool_item(*b)),
        JsonTree::Int(i) => Ok(store::mk_int_item(*i)),
        JsonTree::Num(s) => {
            match store::mk_num_item(s.as_str()) {
                Some(it) => Ok(it),
                None => Err(EditError::BadValue("Unsupported number type".to_owned())),
            }
        },
        JsonTree::Str(s) => Ok(store::mk_str_item(s.as_str())),
        JsonTree::Arr(v) => {
            let mut it = store::mk_array_item();
            let mut i: usize = 0;
            proof {
                assert(Seq::<Node>::empty() + arr_elem_nodes(v@, 0) =~= arr_elem_nodes(v@, 0));
            }
            while i < v.len()
                invariant
                    i <= v@.len(),
                    *t == JsonTree::Arr(*v),
                    store::item_node(it) matches Node::Arr(ns) && ns + arr_elem_nodes(
                        v@,
                        i as int,
                    ) == arr_elem_nodes(v@, 0),
                    forall|j: int| 0 <= j < i ==> tree_ok(v@[j]),
                decreases v@.len() - i,
            {
                let ghost ns0 = store::item_node(it)->Arr_0;
                let ghost en = match v@[i as int] {
                    JsonTree::Obj(_) => Node::Other,
                    _ => tree_node(v@[i as int]),
                };
                proof {
                    assert(arr_elem_nodes(v@, i as int) == seq![en] + arr_elem_nodes(v@, i + 1));
                }
                match &v[i] {
                    JsonTree::Num(s) => {
                        let a = match store::item_array_mut(&mut it) {
                            Some(a) => a,
                            None => unreached(),
                        };
                        if !store::arr_push_num(a, s.as_str()) {
                            proof {
                                assert(!tree_ok(v@[i as int]));
                                if arr_elems_ok(v@, 0) {
                                    lemma_arr_elems_ok_at(v@, 0, i as int);
                                }
                            }
                            return Err(
                                EditError::BadValue("Unsupported number type".to_owned()),
                            );
                        }
                    },
                    other => {
                        let sub = match fold_tree(other) {
                            Ok(sub) => sub,
                            Err(e) => {
                                proof {
                                    assert(!tree_ok(v@[i as int]));
                                    if arr_elems_ok(v@, 0) {
                                        lemma_arr_elems_ok_at(v@, 0, i as int);
                                    }
                                }
                                return Err(e);
                            },
                        };
                        let a = match store::item_array_mut(&mut it) {
                            Some(a) => a,
                            None => unreached(),
                        };
                        store::arr_push_item(a, sub);
                    },
                }
                proof {
                    assert(store::item_node(it)->Arr_0 =~= ns0.push(en));
                    assert(ns0.push(en) + arr_elem_nodes(v@, i + 1) =~= ns0 + (seq![en]
                        + arr_elem_nodes(v@, i + 1)));
                }
                i += 1;
            }
            proof {
                assert(arr_elem_nodes(v@, v@.len() as int) =~= Seq::<Node>::empty());
                assert(store::item_node(it)->Arr_0 + Seq::<Node>::empty() =~= store::item_node(
                    it,
                )->Arr_0);
                lemma_arr_elems_ok_all(v@, 0);
            }
            Ok(it)
        },
        JsonTree::Obj(fs) => {
            let mut it = store::mk_table_item();
            let mut i: usize = 0;
            while i < fs.len()
                invariant
                    i <= fs@.len(),
                    *t == JsonTree::Obj(*fs),
                    store::item_node(it) matches Node::Tab(acc) && obj_entries(fs@, i as int, acc)
                        == obj_entries(fs@, 0, Seq::empty()),
                    forall|j: int| 0 <= j < i ==> tree_ok(fs@[j].1),
                decreases fs@.len() - i,
            {
                let ghost acc = store::item_node(it)->Tab_0;
                let sub = match fold_tree(&fs[i].1) {
                    Ok(sub) => sub,
                    Err(e) => {
                        proof {
                            assert(!tree_ok(fs@[i as int].1));
                            if fields_ok(fs@, 0) {
                                lemma_fields_ok_at(fs@, 0, i as int);
                            }
                        }
                        return Err(e);
                    },
                };
                let t2 = match store::item_table_mut(&mut it) {
                    Some(t2) => t2,
                    None => unreached(),
                };
                store::tbl_insert(t2, fs[i].0.as_str(), sub);
                i += 1;
            }
            proof {
                let acc = store::item_node(it)->Tab_0;
                assert(obj_entries(fs@, fs@.len() as int, acc) == acc);
                lemma_fields_ok_all(fs@, 0);
            }
            Ok(it)
        },
    }
}

} // verus!
