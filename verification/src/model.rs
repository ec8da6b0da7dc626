//! The mathematical model of a manifest document.
//!
//! A document is modelled as a tree of [`Node`]s: tables are ordered
//! sequences of key/node pairs, arrays are ordered sequences of nodes, and
//! scalars are strings, integers or booleans.  Anything the editor never
//! interprets (floats, date-times, inline tables, arrays of tables) is
//! modelled as `Other`: the editor carries such values through untouched and
//! reports a type conflict when an operation would need to look inside one.
use vstd::prelude::*;

verus! {

/// One node of the document tree.
pub enum Node {
    /// A string scalar.
    Str(Seq<char>),
    /// An integer scalar.
    Int(int),
    /// A boolean scalar.
    Bool(bool),
    /// An array of value nodes, in storage order.
    Arr(Seq<Node>),
    /// A table: key/node pairs in storage order.
    Tab(Seq<(Seq<char>, Node)>),
    /// A value the editor does not interpret.
    Other,
}

/// The entries of a table.
pub type Entries = Seq<(Seq<char>, Node)>;

/// Whether `es` binds the key `k`.
pub open spec fn has_key(es: Entries, k: Seq<char>) -> bool
    decreases es.len(),
{
    if es.len() == 0 {
        false
    } else if es[0].0 == k {
        true
    } else {
        has_key(es.drop_first(), k)
    }
}

/// The node bound to the first occurrence of `k`, if any.
pub open spec fn lookup(es: Entries, k: Seq<char>) -> Option<Node>
    decreases es.len(),
{
    if es.len() == 0 {
        Option::None
    } else if es[0].0 == k {
        Option::Some(es[0].1)
    } else {
        lookup(es.drop_first(), k)
    }
}

/// `es` with `k` bound to `n`: the first occurrence of `k` is replaced in
/// place; if `k` is absent the pair is appended at the end.
pub open spec fn set_key(es: Entries, k: Seq<char>, n: Node) -> Entries
    decreases es.len(),
{
    if es.len() == 0 {
        seq![(k, n)]
    } else if es[0].0 == k {
        seq![(k, n)] + es.drop_first()
    } else {
        seq![es[0]] + set_key(es.drop_first(), k, n)
    }
}

/// `es` with the first occurrence of `k` removed; `es` itself if `k` is
/// absent.
pub open spec fn remove_key(es: Entries, k: Seq<char>) -> Entries
    decreases es.len(),
{
    if es.len() == 0 {
        es
    } else if es[0].0 == k {
        es.drop_first()
    } else {
        seq![es[0]] + remove_key(es.drop_first(), k)
    }
}

/// The entries of the table bound to `k`, or the empty table if `k` is
/// absent.  Meaningful only when `k` is absent or bound to a table.
pub open spec fn entries_at(es: Entries, k: Seq<char>) -> Entries {
    match lookup(es, k) {
        Option::Some(Node::Tab(inner)) => inner,
        _ => Seq::empty(),
    }
}

/// The items of the array bound to `k`, or the empty array if `k` is absent.
/// Meaningful only when `k` is absent or bound to an array.
pub open spec fn items_at(es: Entries, k: Seq<char>) -> Seq<Node> {
    match lookup(es, k) {
        Option::Some(Node::Arr(items)) => items,
        _ => Seq::empty(),
    }
}

/// Whether `k` is absent or bound to a table: the states from which a write
/// may descend into `k` as a table.
pub open spec fn table_slot_free(es: Entries, k: Seq<char>) -> bool {
    match lookup(es, k) {
        Option::None => true,
        Option::Some(n) => n is Tab,
    }
}

/// Whether `k` is absent or bound to an array: the states from which a write
/// may treat `k` as an array.
pub open spec fn array_slot_free(es: Entries, k: Seq<char>) -> bool {
    match lookup(es, k) {
        Option::None => true,
        Option::Some(n) => n is Arr,
    }
}

/// Whether some item of `ns` is the string `s`.
pub open spec fn arr_has_str(ns: Seq<Node>, s: Seq<char>) -> bool {
    exists|i: int| 0 <= i < ns.len() && ns[i] == Node::Str(s)
}

/// `ns` without every occurrence of the string `s`.
pub open spec fn arr_remove_str(ns: Seq<Node>, s: Seq<char>) -> Seq<Node>
    decreases ns.len(),
{
    if ns.len() == 0 {
        ns
    } else if ns[0] == Node::Str(s) {
        arr_remove_str(ns.drop_first(), s)
    } else {
        seq![ns[0]] + arr_remove_str(ns.drop_first(), s)
    }
}

/// Removing a string that does not occur changes nothing.
pub proof fn lemma_arr_remove_none(ns: Seq<Node>, s: Seq<char>)
    requires
        !arr_has_str(ns, s),
    ensures
        arr_remove_str(ns, s) == ns,
    decreases ns.len(),
{
    if ns.len() != 0 {
        assert(ns[0] != Node::Str(s));
        assert(forall|i: int|
            0 <= i < ns.drop_first().len() ==> #[trigger] ns.drop_first()[i] == ns[i + 1]);
        lemma_arr_remove_none(ns.drop_first(), s);
        assert(seq![ns[0]] + ns.drop_first() =~= ns);
    }
}

/// Removing the first occurrence first does not change what removing every
/// occurrence yields.
pub proof fn lemma_arr_remove_step(ns: Seq<Node>, s: Seq<char>, i: int)
    requires
        0 <= i < ns.len(),
        ns[i] == Node::Str(s),
        forall|j: int| 0 <= j < i ==> ns[j] != Node::Str(s),
    ensures
        arr_remove_str(ns.remove(i), s) == arr_remove_str(ns, s),
    decreases ns.len(),
{
    if i == 0 {
        assert(ns.remove(0) =~= ns.drop_first());
    } else {
        assert(forall|j: int|
            0 <= j < ns.drop_first().len() ==> #[trigger] ns.drop_first()[j] == ns[j + 1]);
        lemma_arr_remove_step(ns.drop_first(), s, i - 1);
        assert(ns.remove(i)[0] == ns[0]);
        assert(ns.remove(i).drop_first() =~= ns.drop_first().remove(i - 1));
        assert(arr_remove_str(ns.remove(i), s) == seq![ns[0]] + arr_remove_str(
            ns.drop_first().remove(i - 1),
            s,
        ));
    }
}

/// After removing every occurrence of `s`, none is left.
pub proof fn lemma_arr_remove_gone(ns: Seq<Node>, s: Seq<char>)
    ensures
        !arr_has_str(arr_remove_str(ns, s), s),
    decreases ns.len(),
{
    if ns.len() != 0 {
        lemma_arr_remove_gone(ns.drop_first(), s);
        if ns[0] != Node::Str(s) {
            let r = seq![ns[0]] + arr_remove_str(ns.drop_first(), s);
            assert(forall|i: int|
                1 <= i < r.len() ==> #[trigger] r[i] == arr_remove_str(ns.drop_first(), s)[i - 1]);
        }
    }
}

/// Whether every segment of `path` from `i` on, except the last, may be
/// descended into as a table, auto-creating the absent ones.
pub open spec fn path_free(es: Entries, path: Seq<Seq<char>>, i: int) -> bool
    decreases path.len() - i,
{
    if i + 1 >= path.len() {
        true
    } else {
        table_slot_free(es, path[i]) && path_free(entries_at(es, path[i]), path, i + 1)
    }
}

/// Every path is free in the empty table.
pub proof fn lemma_path_free_empty(path: Seq<Seq<char>>, i: int)
    ensures
        path_free(Seq::empty(), path, i),
    decreases path.len() - i,
{
    if i + 1 < path.len() {
        let es = Seq::<(Seq<char>, Node)>::empty();
        assert(lookup(es, path[i]) is None);
        assert(entries_at(es, path[i]) =~= es);
        lemma_path_free_empty(path, i + 1);
    }
}

/// `es` with the node `n` bound at the end of `path`, descending from
/// segment `i` and auto-creating absent intermediate tables.
pub open spec fn insert_path(es: Entries, path: Seq<Seq<char>>, i: int, n: Node) -> Entries
    decreases path.len() - i,
{
    if i + 1 >= path.len() {
        set_key(es, path[i], n)
    } else {
        set_key(es, path[i], Node::Tab(insert_path(entries_at(es, path[i]), path, i + 1, n)))
    }
}

/// Whether every segment of `path` from `i` on, except the last, exists and
/// is a table: the condition for removal to navigate.
pub open spec fn rm_path_ok(es: Entries, path: Seq<Seq<char>>, i: int) -> bool
    decreases path.len() - i,
{
    if i + 1 >= path.len() {
        true
    } else {
        lookup(es, path[i]) matches Option::Some(n) && n is Tab && rm_path_ok(
            entries_at(es, path[i]),
            path,
            i + 1,
        )
    }
}

/// Whether the key at the end of `path` is bound, descending from `i`.
pub open spec fn path_target_has(es: Entries, path: Seq<Seq<char>>, i: int) -> bool
    decreases path.len() - i,
{
    if i + 1 >= path.len() {
        has_key(es, path[i])
    } else {
        path_target_has(entries_at(es, path[i]), path, i + 1)
    }
}

/// `es` with the key at the end of `path` unbound, descending from `i`.
pub open spec fn remove_path(es: Entries, path: Seq<Seq<char>>, i: int) -> Entries
    decreases path.len() - i,
{
    if i + 1 >= path.len() {
        remove_key(es, path[i])
    } else {
        set_key(es, path[i], Node::Tab(remove_path(entries_at(es, path[i]), path, i + 1)))
    }
}

/// `has_key` holds exactly when `lookup` finds something.
pub proof fn lemma_has_key_lookup(es: Entries, k: Seq<char>)
    ensures
        has_key(es, k) <==> lookup(es, k) is Some,
    decreases es.len(),
{
    if es.len() != 0 && es[0].0 != k {
        lemma_has_key_lookup(es.drop_first(), k);
    }
}

/// After `set_key(es, k, n)`, looking up `k` yields `n`.
pub proof fn lemma_lookup_set_same(es: Entries, k: Seq<char>, n: Node)
    ensures
        lookup(set_key(es, k, n), k) == Option::Some(n),
    decreases es.len(),
{
    if es.len() == 0 {
        let es2 = set_key(es, k, n);
        assert(es2[0].0 == k);
    } else if es[0].0 == k {
    } else {
        lemma_lookup_set_same(es.drop_first(), k, n);
        let es2 = seq![es[0]] + set_key(es.drop_first(), k, n);
        assert(es2.drop_first() =~= set_key(es.drop_first(), k, n));
    }
}

/// Binding `k` to the node it already holds changes nothing.
pub proof fn lemma_set_existing(es: Entries, k: Seq<char>, n: Node)
    requires
        lookup(es, k) == Option::Some(n),
    ensures
        set_key(es, k, n) == es,
    decreases es.len(),
{
    if es.len() != 0 {
        if es[0].0 == k {
            assert(set_key(es, k, n) =~= es);
        } else {
            lemma_set_existing(es.drop_first(), k, n);
            assert(set_key(es, k, n) =~= seq![es[0]] + es.drop_first());
            assert(seq![es[0]] + es.drop_first() =~= es);
        }
    }
}

/// Binding a key twice keeps only the second binding.
pub proof fn lemma_set_set_same(es: Entries, k: Seq<char>, a: Node, b: Node)
    ensures
        set_key(set_key(es, k, a), k, b) == set_key(es, k, b),
    decreases es.len(),
{
    if es.len() == 0 {
        assert(set_key(set_key(es, k, a), k, b) =~= set_key(es, k, b));
    } else if es[0].0 == k {
        let e1 = seq![(k, a)] + es.drop_first();
        assert(e1[0].0 == k);
        assert(e1.drop_first() =~= es.drop_first());
        assert(set_key(e1, k, b) =~= seq![(k, b)] + es.drop_first());
    } else {
        lemma_set_set_same(es.drop_first(), k, a, b);
        let e1 = seq![es[0]] + set_key(es.drop_first(), k, a);
        assert(e1[0] == es[0]);
        assert(e1.drop_first() =~= set_key(es.drop_first(), k, a));
        assert(set_key(e1, k, b) =~= seq![es[0]] + set_key(set_key(es.drop_first(), k, a), k, b));
        assert(set_key(es, k, b) =~= seq![es[0]] + set_key(es.drop_first(), k, b));
    }
}

/// The string items of `ns`, in order.
pub open spec fn strs_of(ns: Seq<Node>) -> Seq<Seq<char>>
    decreases ns.len(),
{
    if ns.len() == 0 {
        Seq::empty()
    } else {
        match ns[0] {
            Node::Str(s) => seq![s] + strs_of(ns.drop_first()),
            _ => strs_of(ns.drop_first()),
        }
    }
}

/// `strs_of` over a sequence extended at the end.
pub proof fn lemma_strs_of_snoc(ns: Seq<Node>, n: Node)
    ensures
        strs_of(ns.push(n)) == match n {
            Node::Str(s) => strs_of(ns).push(s),
            _ => strs_of(ns),
        },
    decreases ns.len(),
{
    let e = ns.push(n);
    if ns.len() == 0 {
        assert(e[0] == n);
        assert(e.drop_first() =~= Seq::<Node>::empty());
        assert(strs_of(e.drop_first()) =~= Seq::<Seq<char>>::empty());
        match n {
            Node::Str(s) => {
                assert(strs_of(e) == seq![s] + strs_of(e.drop_first()));
                assert(strs_of(e) =~= strs_of(ns).push(s));
            },
            _ => {
                assert(strs_of(e) =~= strs_of(ns));
            },
        }
    } else {
        lemma_strs_of_snoc(ns.drop_first(), n);
        assert(e[0] == ns[0]);
        assert(e.drop_first() =~= ns.drop_first().push(n));
        match n {
            Node::Str(s) => {
                match ns[0] {
                    Node::Str(s0) => {
                        assert(strs_of(e) == seq![s0] + strs_of(ns.drop_first()).push(s));
                        assert(strs_of(ns) == seq![s0] + strs_of(ns.drop_first()));
                        assert(strs_of(e) =~= strs_of(ns).push(s));
                    },
                    _ => {
                        assert(strs_of(e) == strs_of(ns.drop_first()).push(s));
                        assert(strs_of(ns) == strs_of(ns.drop_first()));
                    },
                }
            },
            _ => {
                match ns[0] {
                    Node::Str(s0) => {
                        assert(strs_of(e) == seq![s0] + strs_of(ns.drop_first()));
                        assert(strs_of(e) =~= strs_of(ns));
                    },
                    _ => {
                        assert(strs_of(e) == strs_of(ns.drop_first()));
                    },
                }
            },
        }
    }
}

/// The string nodes for a sequence of strings.
pub open spec fn strs_to_nodes(ss: Seq<Seq<char>>) -> Seq<Node> {
    ss.map_values(|s: Seq<char>| Node::Str(s))
}

/// The length of `strs_of(ns)` never exceeds that of `ns`.
pub proof fn lemma_strs_of_len(ns: Seq<Node>)
    ensures
        strs_of(ns).len() <= ns.len(),
    decreases ns.len(),
{
    if ns.len() != 0 {
        lemma_strs_of_len(ns.drop_first());
    }
}

/// The array states that removing a batch of strings walks through:
/// `rm_state(ns, names, i)` is `ns` after the first `i` names have each had
/// every equal occurrence removed.
pub open spec fn rm_state(ns: Seq<Node>, names: Seq<Seq<char>>, i: int) -> Seq<Node>
    decreases i,
{
    if i <= 0 {
        ns
    } else {
        arr_remove_str(rm_state(ns, names, i - 1), names[i - 1])
    }
}

/// Two nested `set_key` frames at the same section and key collapse to
/// one: re-binding the array at `sect`/`key` overwrites the earlier
/// binding.
pub proof fn lemma_frame_collapse(
    root0: Entries,
    sect: Seq<char>,
    ses0: Entries,
    key: Seq<char>,
    a: Seq<Node>,
    b: Seq<Node>,
)
    ensures
        set_key(
            set_key(root0, sect, Node::Tab(set_key(ses0, key, Node::Arr(a)))),
            sect,
            Node::Tab(set_key(set_key(ses0, key, Node::Arr(a)), key, Node::Arr(b))),
        ) == set_key(root0, sect, Node::Tab(set_key(ses0, key, Node::Arr(b)))),
{
    lemma_set_set_same(ses0, key, Node::Arr(a), Node::Arr(b));
    lemma_set_set_same(
        root0,
        sect,
        Node::Tab(set_key(ses0, key, Node::Arr(a))),
        Node::Tab(set_key(ses0, key, Node::Arr(b))),
    );
}

/// Reading the section and array back out of a frame yields what the
/// frame bound there.
pub proof fn lemma_frame_view(
    root0: Entries,
    sect: Seq<char>,
    ses0: Entries,
    key: Seq<char>,
    a: Seq<Node>,
)
    ensures
        entries_at(set_key(root0, sect, Node::Tab(set_key(ses0, key, Node::Arr(a)))), sect)
            == set_key(ses0, key, Node::Arr(a)),
        items_at(set_key(ses0, key, Node::Arr(a)), key) == a,
{
    lemma_lookup_set_same(root0, sect, Node::Tab(set_key(ses0, key, Node::Arr(a))));
    lemma_lookup_set_same(ses0, key, Node::Arr(a));
}

} // verus!
