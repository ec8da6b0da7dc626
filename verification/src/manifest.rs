//! The manifest document: loading, serializing, and verified navigation of
//! sections, arrays and nested tables.
use vstd::prelude::*;

use crate::model::{arr_has_str, arr_remove_str, array_slot_free, entries_at, has_key, insert_path, items_at, lemma_arr_remove_none, lemma_arr_remove_step, lemma_has_key_lookup, lemma_lookup_set_same, lemma_set_existing, lemma_set_set_same, lookup, path_free, path_target_has, remove_key, remove_path, rm_path_ok, set_key, table_slot_free, Entries, Node};
use crate::report::EditError;
use crate::store;
use crate::text::str_concat;
use vstd::pervasive::unreached;

verus! {

/// Whether `sect` is bound to a table of `root` that binds `key` to an
/// array: the state in which the array operations below may run.
pub open spec fn array_ready(root: Entries, sect: Seq<char>, key: Seq<char>) -> bool {
    &&& lookup(root, sect) matches Option::Some(n) && n is Tab
    &&& lookup(entries_at(root, sect), key) matches Option::Some(m) && m is Arr
}

/// A manifest document held in its format-preserving store.
pub struct Manifest {
    /// The underlying document.
    pub doc: toml_edit::DocumentMut,
}

impl View for Manifest {
    type V = Entries;

    open spec fn view(&self) -> Entries {
        store::doc_entries(self.doc)
    }
}

impl Manifest {
    /// Parses manifest text.  On success the document serializes back to
    /// exactly the given text, save for a leading byte-order mark, which
    /// is not kept; on failure the parser's own diagnostic is returned.
    pub fn load(text: &str) -> (r: Result<Manifest, String>)
        ensures
            r is Ok <==> store::parses_ok(text@),
            !(text@.len() > 0 && text@[0] == '\u{feff}') ==> (r matches Ok(m)
                ==> store::render(m.doc) == text@),
    {
        match store::parse_text(text) {
            Ok(doc) => Ok(Manifest { doc }),
            Err(e) => Err(store::error_text(&e)),
        }
    }

    /// Serializes the document to manifest text.
    pub fn serialize(&self) -> (r: String)
        ensures
            r@ == store::render(self.doc),
    {
        store::render_string(&self.doc)
    }

    /// The table bound to `name` at the root, if `name` is bound to a
    /// table; no auto-creation.
    pub fn get_section<'a>(&'a self, name: &str) -> (r: Option<&'a toml_edit::Table>)
        ensures
            r is Some <==> (lookup(self@, name@) matches Some(n) && n is Tab),
            r matches Some(t) ==> lookup(self@, name@) == Some(Node::Tab(store::table_entries(*t))),
    {
        let rt = store::root(&self.doc);
        proof {
            lemma_has_key_lookup(store::table_entries(*rt), name@);
        }
        match store::tbl_get(rt, name) {
            Some(it) => store::item_table(it),
            None => None,
        }
    }

    /// The package section, if present as a table.
    pub fn package<'a>(&'a self) -> (r: Option<&'a toml_edit::Table>)
        ensures
            r is Some <==> (lookup(self@, "package"@) matches Some(n) && n is Tab),
            r matches Some(t) ==> lookup(self@, "package"@) == Some(
                Node::Tab(store::table_entries(*t)),
            ),
    {
        self.get_section("package")
    }

    /// The string bound to `key` inside the section `sect`, if the section
    /// is a table and the key a string.
    pub fn section_str(&self, sect: &str, key: &str) -> (r: Option<String>)
        ensures
            r is Some <==> ((lookup(self@, sect@) matches Some(n) && n is Tab) && (lookup(
                entries_at(self@, sect@),
                key@,
            ) matches Some(m) && m is Str)),
            r matches Some(s) ==> lookup(entries_at(self@, sect@), key@) == Some(Node::Str(s@)),
    {
        match self.get_section(sect) {
            None => None,
            Some(t) => {
                proof {
                    lemma_has_key_lookup(store::table_entries(*t), key@);
                }
                match store::tbl_get(t, key) {
                    None => None,
                    Some(it) => store::item_str(it),
                }
            },
        }
    }

    /// The name the package section declares, if any.
    pub fn get_package_name(&self) -> (r: Option<String>)
        ensures
            r is Some <==> ((lookup(self@, "package"@) matches Some(n) && n is Tab) && (lookup(
                entries_at(self@, "package"@),
                "name"@,
            ) matches Some(m) && m is Str)),
            r matches Some(s) ==> lookup(entries_at(self@, "package"@), "name"@) == Some(
                Node::Str(s@),
            ),
    {
        self.section_str("package", "name")
    }

    /// The version the package section declares, if any.
    pub fn get_package_version(&self) -> (r: Option<String>)
        ensures
            r is Some <==> ((lookup(self@, "package"@) matches Some(n) && n is Tab) && (lookup(
                entries_at(self@, "package"@),
                "version"@,
            ) matches Some(m) && m is Str)),
            r matches Some(s) ==> lookup(entries_at(self@, "package"@), "version"@) == Some(
                Node::Str(s@),
            ),
    {
        self.section_str("package", "version")
    }

    /// Whether the section `sect`, taken as a table, binds `key`.  A
    /// missing or non-table section binds nothing.
    pub fn section_has_key(&self, sect: &str, key: &str) -> (r: bool)
        ensures
            r == ((lookup(self@, sect@) matches Some(n) && n is Tab) && has_key(
                entries_at(self@, sect@),
                key@,
            )),
    {
        match self.get_section(sect) {
            None => false,
            Some(t) => store::tbl_contains(t, key),
        }
    }

    /// The array bound to `key` inside the section `sect`: its string items
    /// in storage order and its full length.  Nothing if the section is not
    /// a table or the key not an array.
    pub fn section_array_strings(&self, sect: &str, key: &str) -> (r: Option<(Vec<String>, usize)>)
        ensures
            r is Some <==> array_ready(self@, sect@, key@),
            r matches Some(p) ==> {
                let ns = items_at(entries_at(self@, sect@), key@);
                crate::text::views_of(p.0@) == crate::model::strs_of(ns) && p.1 == ns.len()
            },
    {
        let t = match self.get_section(sect) {
            Some(t) => t,
            None => {
                return None;
            },
        };
        proof {
            lemma_has_key_lookup(store::table_entries(*t), key@);
        }
        let it = match store::tbl_get(t, key) {
            Some(it) => it,
            None => {
                return None;
            },
        };
        let a = match store::item_array(it) {
            Some(a) => a,
            None => {
                return None;
            },
        };
        let ghost ns = store::arr_nodes(*a);
        let n = store::arr_len(a);
        let mut v: Vec<String> = Vec::new();
        let mut i: usize = 0;
        while i < n
            invariant
                n == ns.len(),
                i <= n,
                ns == store::arr_nodes(*a),
                crate::text::views_of(v@) =~= crate::model::strs_of(ns.subrange(0, i as int)),
            decreases n - i,
        {
            proof {
                assert(ns.subrange(0, i + 1) =~= ns.subrange(0, i as int).push(ns[i as int]));
                crate::model::lemma_strs_of_snoc(ns.subrange(0, i as int), ns[i as int]);
            }
            match store::arr_str_at(a, i) {
                Some(s) => {
                    v.push(s);
                },
                None => {},
            }
            i += 1;
        }
        proof {
            assert(ns.subrange(0, n as int) =~= ns);
        }
        Some((v, n))
    }

    /// Makes sure `sect` exists as a table binding `key` to an array,
    /// creating the absent parts, and failing on a binding of the wrong
    /// kind.  On failure nothing is changed.
    pub(crate) fn ensure_section_array(&mut self, sect: &str, key: &str) -> (r: Result<
        (),
        EditError,
    >)
        ensures
            r is Ok <==> table_slot_free(old(self)@, sect@) && array_slot_free(
                entries_at(old(self)@, sect@),
                key@,
            ),
            r is Ok ==> final(self)@ == set_key(
                old(self)@,
                sect@,
                Node::Tab(
                    set_key(
                        entries_at(old(self)@, sect@),
                        key@,
                        Node::Arr(items_at(entries_at(old(self)@, sect@), key@)),
                    ),
                ),
            ),
            r is Ok ==> array_ready(final(self)@, sect@, key@),
            r matches Err(e) ==> final(self)@ == old(self)@ && e is TypeConflict,
    {
        let ghost root0 = self@;
        let ghost ses0 = entries_at(root0, sect@);
        let ghost ns0 = items_at(ses0, key@);
        // Check for conflicts before touching anything.
        {
            let rt = store::root(&self.doc);
            proof {
                lemma_has_key_lookup(store::table_entries(*rt), sect@);
            }
            match store::tbl_get(rt, sect) {
                None => {},
                Some(it) => {
                    match store::item_table(it) {
                        None => {
                            return Err(EditError::TypeConflict(str_concat(sect, " is not a table")));
                        },
                        Some(t2) => {
                            proof {
                                lemma_has_key_lookup(store::table_entries(*t2), key@);
                            }
                            match store::tbl_get(t2, key) {
                                None => {},
                                Some(it2) => {
                                    if store::item_array(it2).is_none() {
                                        return Err(
                                            EditError::TypeConflict(
                                                str_concat(key, " is not an array"),
                                            ),
                                        );
                                    }
                                },
                            }
                        },
                    }
                },
            }
        }
        // Create what is absent.
        let rt = store::root_mut(&mut self.doc);
        if !store::tbl_contains(rt, sect) {
            store::tbl_insert(rt, sect, store::mk_table_item());
            proof {
                lemma_lookup_set_same(root0, sect@, Node::Tab(Seq::empty()));
                lemma_has_key_lookup(store::table_entries(*rt), sect@);
            }
        }
        let it = match store::tbl_get_mut(rt, sect) {
            Some(it) => it,
            None => unreached(),
        };
        let t2 = match store::item_table_mut(it) {
            Some(t2) => t2,
            None => unreached(),
        };
        let ghost ses1 = store::table_entries(*t2);
        proof {
            assert(ses1 =~= ses0);
        }
        if !store::tbl_contains(t2, key) {
            store::tbl_insert(t2, key, store::mk_array_item());
            proof {
                lemma_has_key_lookup(ses0, key@);
                assert(items_at(ses0, key@) =~= Seq::<Node>::empty());
            }
        } else {
            proof {
                lemma_has_key_lookup(ses0, key@);
                lemma_set_existing(ses0, key@, Node::Arr(ns0));
            }
        }
        proof {
            lemma_lookup_set_same(ses0, key@, Node::Arr(ns0));
            lemma_lookup_set_same(root0, sect@, Node::Tab(set_key(ses0, key@, Node::Arr(ns0))));
            if !has_key(root0, sect@) {
                lemma_set_set_same(
                    root0,
                    sect@,
                    Node::Tab(Seq::empty()),
                    Node::Tab(set_key(ses0, key@, Node::Arr(ns0))),
                );
            }
        }
        Ok(())
    }

    /// Appends the string `val` at the end of the array at `sect`/`key`.
    pub(crate) fn section_array_push(&mut self, sect: &str, key: &str, val: &str)
        requires
            array_ready(old(self)@, sect@, key@),
        ensures
            final(self)@ == set_key(
                old(self)@,
                sect@,
                Node::Tab(
                    set_key(
                        entries_at(old(self)@, sect@),
                        key@,
                        Node::Arr(
                            items_at(entries_at(old(self)@, sect@), key@).push(Node::Str(val@)),
                        ),
                    ),
                ),
            ),
            array_ready(final(self)@, sect@, key@),
    {
        let ghost root0 = self@;
        let ghost ses0 = entries_at(root0, sect@);
        let ghost ns0 = items_at(ses0, key@);
        let rt = store::root_mut(&mut self.doc);
        proof {
            lemma_has_key_lookup(store::table_entries(*rt), sect@);
        }
        let it = match store::tbl_get_mut(rt, sect) {
            Some(it) => it,
            None => unreached(),
        };
        let t2 = match store::item_table_mut(it) {
            Some(t2) => t2,
            None => unreached(),
        };
        proof {
            lemma_has_key_lookup(store::table_entries(*t2), key@);
        }
        let it2 = match store::tbl_get_mut(t2, key) {
            Some(it2) => it2,
            None => unreached(),
        };
        let a = match store::item_array_mut(it2) {
            Some(a) => a,
            None => unreached(),
        };
        store::arr_push_str(a, val);
        proof {
            lemma_lookup_set_same(ses0, key@, Node::Arr(ns0.push(Node::Str(val@))));
            lemma_lookup_set_same(
                root0,
                sect@,
                Node::Tab(set_key(ses0, key@, Node::Arr(ns0.push(Node::Str(val@))))),
            );
        }
    }

    /// Removes the element at index `i` of the array at `sect`/`key`; the
    /// element must be a string.
    pub(crate) fn section_array_remove_at(&mut self, sect: &str, key: &str, i: usize)
        requires
            array_ready(old(self)@, sect@, key@),
            i < items_at(entries_at(old(self)@, sect@), key@).len(),
            items_at(entries_at(old(self)@, sect@), key@)[i as int] is Str,
        ensures
            final(self)@ == set_key(
                old(self)@,
                sect@,
                Node::Tab(
                    set_key(
                        entries_at(old(self)@, sect@),
                        key@,
                        Node::Arr(items_at(entries_at(old(self)@, sect@), key@).remove(i as int)),
                    ),
                ),
            ),
            array_ready(final(self)@, sect@, key@),
    {
        let ghost root0 = self@;
        let ghost ses0 = entries_at(root0, sect@);
        let ghost ns0 = items_at(ses0, key@);
        let rt = store::root_mut(&mut self.doc);
        proof {
            lemma_has_key_lookup(store::table_entries(*rt), sect@);
        }
        let it = match store::tbl_get_mut(rt, sect) {
            Some(it) => it,
            None => unreached(),
        };
        let t2 = match store::item_table_mut(it) {
            Some(t2) => t2,
            None => unreached(),
        };
        proof {
            lemma_has_key_lookup(store::table_entries(*t2), key@);
        }
        let it2 = match store::tbl_get_mut(t2, key) {
            Some(it2) => it2,
            None => unreached(),
        };
        let a = match store::item_array_mut(it2) {
            Some(a) => a,
            None => unreached(),
        };
        store::arr_remove_at(a, i);
        proof {
            lemma_lookup_set_same(ses0, key@, Node::Arr(ns0.remove(i as int)));
            lemma_lookup_set_same(
                root0,
                sect@,
                Node::Tab(set_key(ses0, key@, Node::Arr(ns0.remove(i as int)))),
            );
        }
    }

    /// The index of the first string item equal to `val` in the array at
    /// `sect`/`key`.
    pub(crate) fn section_array_find(&self, sect: &str, key: &str, val: &str) -> (r: Option<usize>)
        requires
            array_ready(self@, sect@, key@),
        ensures
            ({
                let ns = items_at(entries_at(self@, sect@), key@);
                match r {
                    Some(i) => i < ns.len() && ns[i as int] == Node::Str(val@) && (forall|j: int|
                        0 <= j < i ==> ns[j] != Node::Str(val@)),
                    None => !arr_has_str(ns, val@),
                }
            }),
    {
        let t = match self.get_section(sect) {
            Some(t) => t,
            None => unreached(),
        };
        proof {
            lemma_has_key_lookup(store::table_entries(*t), key@);
        }
        let it = match store::tbl_get(t, key) {
            Some(it) => it,
            None => unreached(),
        };
        let a = match store::item_array(it) {
            Some(a) => a,
            None => unreached(),
        };
        let ghost ns = store::arr_nodes(*a);
        let n = store::arr_len(a);
        let mut i: usize = 0;
        while i < n
            invariant
                n == ns.len(),
                i <= n,
                ns == store::arr_nodes(*a),
                ns == items_at(entries_at(self@, sect@), key@),
                forall|j: int| 0 <= j < i ==> ns[j] != Node::Str(val@),
            decreases n - i,
        {
            match store::arr_str_at(a, i) {
                Some(s) => {
                    if crate::text::str_eq(s.as_str(), val) {
                        return Some(i);
                    }
                },
                None => {},
            }
            i += 1;
        }
        None
    }

    /// Removes every string item equal to `val` from the array at
    /// `sect`/`key`; reports whether any was present.
    pub(crate) fn section_array_remove_val(&mut self, sect: &str, key: &str, val: &str) -> (r: bool)
        requires
            array_ready(old(self)@, sect@, key@),
        ensures
            final(self)@ == set_key(
                old(self)@,
                sect@,
                Node::Tab(
                    set_key(
                        entries_at(old(self)@, sect@),
                        key@,
                        Node::Arr(
                            arr_remove_str(items_at(entries_at(old(self)@, sect@), key@), val@),
                        ),
                    ),
                ),
            ),
            r == arr_has_str(items_at(entries_at(old(self)@, sect@), key@), val@),
            array_ready(final(self)@, sect@, key@),
    {
        let ghost root0 = self@;
        let ghost ses0 = entries_at(root0, sect@);
        let ghost ns0 = items_at(ses0, key@);
        proof {
            lemma_set_existing(ses0, key@, Node::Arr(ns0));
            lemma_set_existing(root0, sect@, Node::Tab(ses0));
        }
        let mut removed = false;
        loop
            invariant
                array_ready(self@, sect@, key@),
                self@ == set_key(
                    root0,
                    sect@,
                    Node::Tab(
                        set_key(ses0, key@, Node::Arr(items_at(entries_at(self@, sect@), key@))),
                    ),
                ),
                arr_remove_str(items_at(entries_at(self@, sect@), key@), val@) == arr_remove_str(
                    ns0,
                    val@,
                ),
                removed ==> arr_has_str(ns0, val@),
                !removed ==> items_at(entries_at(self@, sect@), key@) == ns0,
            ensures
                array_ready(self@, sect@, key@),
                self@ == set_key(
                    root0,
                    sect@,
                    Node::Tab(set_key(ses0, key@, Node::Arr(arr_remove_str(ns0, val@)))),
                ),
                removed == arr_has_str(ns0, val@),
            decreases items_at(entries_at(self@, sect@), key@).len(),
        {
            let ghost cur = items_at(entries_at(self@, sect@), key@);
            match self.section_array_find(sect, key, val) {
                None => {
                    proof {
                        lemma_arr_remove_none(cur, val@);
                        assert(cur == arr_remove_str(ns0, val@));
                        if !removed {
                            assert(!arr_has_str(ns0, val@));
                        }
                    }
                    break ;
                },
                Some(i) => {
                    proof {
                        lemma_arr_remove_step(cur, val@, i as int);
                    }
                    let ghost pre = self@;
                    self.section_array_remove_at(sect, key, i);
                    removed = true;
                    proof {
                        let ses_pre = entries_at(pre, sect@);
                        lemma_lookup_set_same(ses0, key@, Node::Arr(cur));
                        lemma_lookup_set_same(
                            root0,
                            sect@,
                            Node::Tab(set_key(ses0, key@, Node::Arr(cur))),
                        );
                        assert(ses_pre == set_key(ses0, key@, Node::Arr(cur)));
                        lemma_lookup_set_same(ses_pre, key@, Node::Arr(cur.remove(i as int)));
                        lemma_lookup_set_same(
                            pre,
                            sect@,
                            Node::Tab(set_key(ses_pre, key@, Node::Arr(cur.remove(i as int)))),
                        );
                        lemma_set_set_same(
                            ses0,
                            key@,
                            Node::Arr(cur),
                            Node::Arr(cur.remove(i as int)),
                        );
                        lemma_set_set_same(
                            root0,
                            sect@,
                            Node::Tab(set_key(ses0, key@, Node::Arr(cur))),
                            Node::Tab(set_key(ses0, key@, Node::Arr(cur.remove(i as int)))),
                        );
                    }
                },
            }
        }
        removed
    }

    /// Removes `key` from the section `sect` if bound there; fails if the
    /// section exists but is not a table.  Reports whether anything was
    /// removed; nothing is changed unless something was.
    pub(crate) fn remove_section_key(&mut self, sect: &str, key: &str) -> (r: Result<
        bool,
        EditError,
    >)
        ensures
            r is Err <==> (lookup(old(self)@, sect@) matches Some(n) && !(n is Tab)),
            r matches Err(e) ==> final(self)@ == old(self)@ && e is TypeConflict,
            r == Ok::<bool, EditError>(true) <==> ((lookup(old(self)@, sect@) matches Some(n)
                && n is Tab) && has_key(entries_at(old(self)@, sect@), key@)),
            r == Ok::<bool, EditError>(true) ==> final(self)@ == set_key(
                old(self)@,
                sect@,
                Node::Tab(remove_key(entries_at(old(self)@, sect@), key@)),
            ),
            r == Ok::<bool, EditError>(false) ==> final(self)@ == old(self)@,
    {
        let ghost root0 = self@;
        let ghost ses0 = entries_at(root0, sect@);
        {
            let rt = store::root(&self.doc);
            proof {
                lemma_has_key_lookup(store::table_entries(*rt), sect@);
            }
            match store::tbl_get(rt, sect) {
                None => {
                    return Ok(false);
                },
                Some(it) => {
                    match store::item_table(it) {
                        None => {
                            return Err(EditError::TypeConflict(str_concat(sect, " is not a table")));
                        },
                        Some(t2) => {
                            proof {
                                lemma_has_key_lookup(store::table_entries(*t2), key@);
                            }
                            if !store::tbl_contains(t2, key) {
                                return Ok(false);
                            }
                        },
                    }
                },
            }
        }
        let rt = store::root_mut(&mut self.doc);
        proof {
            lemma_has_key_lookup(store::table_entries(*rt), sect@);
        }
        let it = match store::tbl_get_mut(rt, sect) {
            Some(it) => it,
            None => unreached(),
        };
        let t2 = match store::item_table_mut(it) {
            Some(t2) => t2,
            None => unreached(),
        };
        store::tbl_remove(t2, key);
        proof {
            lemma_lookup_set_same(root0, sect@, Node::Tab(remove_key(ses0, key@)));
        }
        Ok(true)
    }

    /// Removes `key` from the document root; reports whether it was bound.
    pub(crate) fn remove_root_key(&mut self, key: &str) -> (r: bool)
        ensures
            r == has_key(old(self)@, key@),
            r ==> final(self)@ == remove_key(old(self)@, key@),
            !r ==> final(self)@ == old(self)@,
    {
        let rt = store::root_mut(&mut self.doc);
        if store::tbl_contains(rt, key) {
            store::tbl_remove(rt, key);
            true
        } else {
            false
        }
    }

    /// Whether the key at the end of the dotted `path` is bound, reading
    /// only; fails as removal would on a broken intermediate segment.
    pub(crate) fn query_at(&self, path: &Vec<String>) -> (r: Result<bool, EditError>)
        requires
            path@.len() >= 1,
        ensures
            r is Err <==> !rm_path_ok(self@, views_of_strs(path@), 0),
            r matches Err(e) ==> (e is NotFound || e is TypeConflict),
            r matches Ok(b) ==> b == path_target_has(self@, views_of_strs(path@), 0),
    {
        let rt = store::root(&self.doc);
        tab_path_has(rt, path, 0)
    }

    /// Binds `item` at the end of the dotted `path` from the document
    /// root, creating absent intermediate tables; fails, changing nothing,
    /// when an intermediate key holds something other than a table.
    pub(crate) fn insert_at(&mut self, path: &Vec<String>, item: toml_edit::Item) -> (r: Result<
        (),
        EditError,
    >)
        requires
            path@.len() >= 1,
        ensures
            r is Ok <==> path_free(old(self)@, views_of_strs(path@), 0),
            r is Ok ==> final(self)@ == insert_path(
                old(self)@,
                views_of_strs(path@),
                0,
                store::item_node(item),
            ),
            r matches Err(e) ==> final(self)@ == old(self)@ && e is TypeConflict,
    {
        {
            let rt = store::root(&self.doc);
            match tab_path_free(rt, path, 0) {
                None => {},
                Some(k) => {
                    return Err(
                        EditError::TypeConflict(
                            str_concat(str_concat("'", k.as_str()).as_str(), "' is not a table"),
                        ),
                    );
                },
            }
        }
        let rt = store::root_mut(&mut self.doc);
        tab_insert_path(rt, path, 0, item);
        Ok(())
    }

    /// Unbinds the key at the end of the dotted `path` from the document
    /// root; every intermediate segment must exist as a table.  Reports
    /// whether the key was bound; nothing changes unless it was.
    pub(crate) fn remove_at(&mut self, path: &Vec<String>) -> (r: Result<bool, EditError>)
        requires
            path@.len() >= 1,
        ensures
            r is Err <==> !rm_path_ok(old(self)@, views_of_strs(path@), 0),
            r matches Err(e) ==> final(self)@ == old(self)@ && (e is NotFound || e is TypeConflict),
            r matches Ok(b) ==> b == path_target_has(old(self)@, views_of_strs(path@), 0),
            r == Ok::<bool, EditError>(true) ==> final(self)@ == remove_path(
                old(self)@,
                views_of_strs(path@),
                0,
            ),
            r == Ok::<bool, EditError>(false) ==> final(self)@ == old(self)@,
    {
        let rt = store::root_mut(&mut self.doc);
        tab_remove_path(rt, path, 0)
    }
}

/// An array item holding the given strings, in order.
pub(crate) fn str_array_item(vals: &Vec<String>) -> (r: toml_edit::Item)
    ensures
        store::item_node(r) == Node::Arr(crate::model::strs_to_nodes(views_of_strs(vals@))),
{
    let mut it = store::mk_array_item();
    let mut i: usize = 0;
    proof {
        assert(crate::model::strs_to_nodes(views_of_strs(vals@.subrange(0, 0)))
            =~= Seq::<Node>::empty());
    }
    while i < vals.len()
        invariant
            i <= vals@.len(),
            store::item_node(it) == Node::Arr(
                crate::model::strs_to_nodes(views_of_strs(vals@.subrange(0, i as int))),
            ),
        decreases vals@.len() - i,
    {
        let a = match store::item_array_mut(&mut it) {
            Some(a) => a,
            None => unreached(),
        };
        store::arr_push_str(a, vals[i].as_str());
        proof {
            assert(vals@.subrange(0, i + 1) =~= vals@.subrange(0, i as int).push(vals@[i as int]));
            assert(crate::model::strs_to_nodes(views_of_strs(vals@.subrange(0, i + 1)))
                =~= crate::model::strs_to_nodes(
                views_of_strs(vals@.subrange(0, i as int)),
            ).push(Node::Str(vals@[i as int]@)));
        }
        i += 1;
    }
    proof {
        assert(vals@.subrange(0, vals@.len() as int) =~= vals@);
    }
    it
}

/// Loading well-formed manifest text and serializing it again, with no
/// mutation in between, reproduces the input byte for byte; only a
/// leading byte-order mark is not kept.
pub fn round_trip(text: &str) -> (r: Result<String, String>)
    ensures
        r is Ok <==> store::parses_ok(text@),
        !(text@.len() > 0 && text@[0] == '\u{feff}') ==> (r matches Ok(s) ==> s@ == text@),
{
    let m = Manifest::load(text)?;
    Ok(m.serialize())
}

/// Whether every segment of `path` from `i` on, except the last, can be
/// descended into as a table; reports an offending key otherwise.
fn tab_path_free(t: &toml_edit::Table, path: &Vec<String>, i: usize) -> (r: Option<String>)
    requires
        i < path@.len(),
    ensures
        r is None <==> path_free(store::table_entries(*t), views_of_strs(path@), i as int),
    decreases path@.len() - i,
{
    let ghost es = store::table_entries(*t);
    let ghost vp = views_of_strs(path@);
    if path.len() - i <= 1 {
        None
    } else {
        let key = path[i].as_str();
        proof {
            lemma_has_key_lookup(es, key@);
        }
        match store::tbl_get(t, key) {
            None => {
                proof {
                    assert(entries_at(es, vp[i as int]) =~= Seq::<(Seq<char>, Node)>::empty());
                    crate::model::lemma_path_free_empty(vp, i + 1);
                }
                None
            },
            Some(it) => {
                match store::item_table(it) {
                    None => Some(path[i].clone()),
                    Some(t2) => tab_path_free(t2, path, i + 1),
                }
            },
        }
    }
}

/// Binds `item` at the end of `path` below `t`, creating absent
/// intermediate tables.
fn tab_insert_path(t: &mut toml_edit::Table, path: &Vec<String>, i: usize, item: toml_edit::Item)
    requires
        i < path@.len(),
        path_free(store::table_entries(*old(t)), views_of_strs(path@), i as int),
    ensures
        store::table_entries(*final(t)) == insert_path(
            store::table_entries(*old(t)),
            views_of_strs(path@),
            i as int,
            store::item_node(item),
        ),
    decreases path@.len() - i,
{
    let ghost es0 = store::table_entries(*t);
    let ghost vp = views_of_strs(path@);
    let key = path[i].as_str();
    if path.len() - i <= 1 {
        store::tbl_insert(t, key, item);
    } else {
        proof {
            lemma_has_key_lookup(es0, key@);
        }
        let ghost was_absent = !has_key(es0, key@);
        if !store::tbl_contains(t, key) {
            store::tbl_insert(t, key, store::mk_table_item());
            proof {
                lemma_lookup_set_same(es0, key@, Node::Tab(Seq::empty()));
                lemma_has_key_lookup(store::table_entries(*t), key@);
                assert(entries_at(es0, key@) =~= Seq::<(Seq<char>, Node)>::empty());
            }
        }
        let it = match store::tbl_get_mut(t, key) {
            Some(it) => it,
            None => unreached(),
        };
        let t2 = match store::item_table_mut(it) {
            Some(t2) => t2,
            None => unreached(),
        };
        proof {
            assert(store::table_entries(*t2) =~= entries_at(es0, key@));
        }
        tab_insert_path(t2, path, i + 1, item);
        proof {
            if was_absent {
                lemma_set_set_same(
                    es0,
                    key@,
                    Node::Tab(Seq::empty()),
                    Node::Tab(
                        insert_path(entries_at(es0, key@), vp, i + 1, store::item_node(item)),
                    ),
                );
            }
        }
    }
}

/// Unbinds the key at the end of `path` below `t`; every intermediate
/// segment must exist as a table.  Reports whether the key was bound.
fn tab_remove_path(t: &mut toml_edit::Table, path: &Vec<String>, i: usize) -> (r: Result<
    bool,
    EditError,
>)
    requires
        i < path@.len(),
    ensures
        r is Err <==> !rm_path_ok(store::table_entries(*old(t)), views_of_strs(path@), i as int),
        r matches Err(e) ==> store::table_entries(*final(t)) == store::table_entries(*old(t)) && (
        e is NotFound || e is TypeConflict),
        r matches Ok(b) ==> b == path_target_has(
            store::table_entries(*old(t)),
            views_of_strs(path@),
            i as int,
        ),
        r == Ok::<bool, EditError>(true) ==> store::table_entries(*final(t)) == remove_path(
            store::table_entries(*old(t)),
            views_of_strs(path@),
            i as int,
        ),
        r == Ok::<bool, EditError>(false) ==> store::table_entries(*final(t))
            == store::table_entries(*old(t)),
    decreases path@.len() - i,
{
    let ghost es0 = store::table_entries(*t);
    let ghost vp = views_of_strs(path@);
    let key = path[i].as_str();
    proof {
        lemma_has_key_lookup(es0, key@);
    }
    if path.len() - i <= 1 {
        if store::tbl_contains(t, key) {
            store::tbl_remove(t, key);
            Ok(true)
        } else {
            Ok(false)
        }
    } else {
        match store::tbl_get_mut(t, key) {
            None => Err(
                EditError::NotFound(
                    str_concat(str_concat("Key '", key).as_str(), "' not found"),
                ),
            ),
            Some(it) => {
                match store::item_table_mut(it) {
                    None => {
                        proof {
                            lemma_set_existing(es0, key@, store::item_node(*it));
                        }
                        Err(
                            EditError::TypeConflict(
                                str_concat(str_concat("'", key).as_str(), "' is not a table"),
                            ),
                        )
                    },
                    Some(t2) => {
                        let ghost inner0 = store::table_entries(*t2);
                        let r = tab_remove_path(t2, path, i + 1);
                        proof {
                            match r {
                                Ok(true) => {},
                                _ => {
                                    lemma_set_existing(es0, key@, Node::Tab(inner0));
                                },
                            }
                        }
                        r
                    },
                }
            },
        }
    }
}


/// Whether the key at the end of `path` is bound, reading only; fails as
/// removal would when an intermediate segment is absent or not a table.
fn tab_path_has(t: &toml_edit::Table, path: &Vec<String>, i: usize) -> (r: Result<bool, EditError>)
    requires
        i < path@.len(),
    ensures
        r is Err <==> !rm_path_ok(store::table_entries(*t), views_of_strs(path@), i as int),
        r matches Err(e) ==> (e is NotFound || e is TypeConflict),
        r matches Ok(b) ==> b == path_target_has(store::table_entries(*t), views_of_strs(path@), i as int),
    decreases path@.len() - i,
{
    let ghost es = store::table_entries(*t);
    let key = path[i].as_str();
    proof {
        lemma_has_key_lookup(es, key@);
    }
    if path.len() - i <= 1 {
        Ok(store::tbl_contains(t, key))
    } else {
        match store::tbl_get(t, key) {
            None => Err(
                EditError::NotFound(str_concat(str_concat("Key '", key).as_str(), "' not found")),
            ),
            Some(it) => {
                match store::item_table(it) {
                    None => Err(
                        EditError::TypeConflict(
                            str_concat(str_concat("'", key).as_str(), "' is not a table"),
                        ),
                    ),
                    Some(t2) => tab_path_has(t2, path, i + 1),
                }
            },
        }
    }
}

/// The views of a sequence of strings, spelled for paths.
pub open spec fn views_of_strs(ss: Seq<String>) -> Seq<Seq<char>> {
    crate::text::views_of(ss)
}

} // verus!
