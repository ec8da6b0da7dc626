//! The shared logic of the list-valued fields: what one `add` batch does,
//! item by item, under a field's capacity and content rules.
use vstd::prelude::*;

use crate::text::{byte_len, char_alphanumeric, is_alnum_char, utf8_len, vec_contains_str, views_of};

verus! {

/// The domain rules of one list field.
pub struct ListRules {
    /// The most entries the array may hold, if capped.
    pub cap: Option<usize>,
    /// The most bytes one entry may have, if limited.
    pub max_len: Option<usize>,
    /// Whether entries are restricted to alphanumeric characters, hyphens
    /// and underscores.
    pub charset: bool,
}

/// What happened to one name of an `add` batch.
#[derive(PartialEq, Eq, Structural, Clone, Copy, Debug)]
pub enum ItemOutcome {
    /// The name was appended.
    Added,
    /// An equal entry already existed; nothing was appended.
    Duplicate,
    /// The name is over the length limit; it was rejected.
    TooLong,
    /// The name holds a character outside the allowed classes; it was
    /// rejected.
    BadChars,
    /// The array is at or over its capacity; processing stopped here.
    LimitStop,
}

/// Whether the character may appear in a restricted entry.
pub open spec fn entry_char_ok(c: char) -> bool {
    char_alphanumeric(c) || c == '-' || c == '_'
}

/// Whether every character of `s` may appear in a restricted entry.
pub open spec fn entry_chars_ok(s: Seq<char>) -> bool {
    forall|i: int| 0 <= i < s.len() ==> entry_char_ok(s[i])
}

/// The outcome of offering `name` to an array whose string entries are
/// `ss` and which holds `others` further entries, under `rules`: a
/// duplicate is skipped, then the capacity gate stops the batch, then the
/// content rules reject, and otherwise the name is appended.
pub open spec fn spec_verdict(
    ss: Seq<Seq<char>>,
    others: nat,
    name: Seq<char>,
    rules: ListRules,
) -> ItemOutcome {
    if ss.contains(name) {
        ItemOutcome::Duplicate
    } else if rules.cap matches Some(c) && ss.len() + others >= c {
        ItemOutcome::LimitStop
    } else if rules.max_len matches Some(m) && utf8_len(name) > m {
        ItemOutcome::TooLong
    } else if rules.charset && !entry_chars_ok(name) {
        ItemOutcome::BadChars
    } else {
        ItemOutcome::Added
    }
}

/// The names an `add` batch appends and the outcome of each processed
/// name, in input order.  Processing stops at the first `LimitStop`: names
/// after it get no outcome.
pub open spec fn spec_add(
    ss: Seq<Seq<char>>,
    others: nat,
    names: Seq<Seq<char>>,
    rules: ListRules,
) -> (Seq<Seq<char>>, Seq<ItemOutcome>)
    decreases names.len(),
{
    if names.len() == 0 {
        (Seq::empty(), Seq::empty())
    } else {
        let v = spec_verdict(ss, others, names[0], rules);
        if v is LimitStop {
            (Seq::empty(), seq![v])
        } else if v is Added {
            let r = spec_add(ss.push(names[0]), others, names.drop_first(), rules);
            (seq![names[0]] + r.0, seq![v] + r.1)
        } else {
            let r = spec_add(ss, others, names.drop_first(), rules);
            (r.0, seq![v] + r.1)
        }
    }
}

/// Whether every character of `name` may appear in a restricted entry,
/// executably.
pub fn entry_chars_check(name: &str) -> (r: bool)
    ensures
        r == entry_chars_ok(name@),
{
    let n = name.unicode_len();
    let mut i: usize = 0;
    while i < n
        invariant
            n == name@.len(),
            i <= n,
            forall|j: int| 0 <= j < i ==> entry_char_ok(name@[j]),
        decreases n - i,
    {
        let c = name.get_char(i);
        if !(is_alnum_char(c) || c == '-' || c == '_') {
            assert(!entry_char_ok(name@[i as int]));
            return false;
        }
        i += 1;
    }
    true
}

/// The outcome of offering `name`, executably.
pub fn verdict(current: &Vec<String>, others: usize, name: &str, rules: &ListRules) -> (r:
    ItemOutcome)
    ensures
        r == spec_verdict(views_of(current@), others as nat, name@, *rules),
{
    if vec_contains_str(current, name) {
        ItemOutcome::Duplicate
    } else {
        let capped = match rules.cap {
            Some(c) => current.len().saturating_add(others) >= c,
            None => false,
        };
        if capped {
            ItemOutcome::LimitStop
        } else {
            let too_long = match rules.max_len {
                Some(m) => byte_len(name) > m,
                None => false,
            };
            if too_long {
                ItemOutcome::TooLong
            } else if rules.charset && !entry_chars_check(name) {
                ItemOutcome::BadChars
            } else {
                ItemOutcome::Added
            }
        }
    }
}

/// Plans an `add` batch: the names of `names` from `i` on are offered one
/// after the other to the array whose string entries started as `current`.
pub fn plan_add(
    current: Vec<String>,
    others: usize,
    names: &Vec<String>,
    i: usize,
    rules: &ListRules,
) -> (r: (Vec<String>, Vec<ItemOutcome>))
    requires
        i <= names@.len(),
    ensures
        views_of(r.0@) == spec_add(
            views_of(current@),
            others as nat,
            views_of(names@).skip(i as int),
            *rules,
        ).0,
        r.1@ == spec_add(
            views_of(current@),
            others as nat,
            views_of(names@).skip(i as int),
            *rules,
        ).1,
    decreases names@.len() - i,
{
    let ghost ss = views_of(current@);
    let ghost rest = views_of(names@).skip(i as int);
    if i >= names.len() {
        let r: (Vec<String>, Vec<ItemOutcome>) = (Vec::new(), Vec::new());
        proof {
            assert(views_of(r.0@) =~= spec_add(ss, others as nat, rest, *rules).0);
            assert(r.1@ =~= spec_add(ss, others as nat, rest, *rules).1);
        }
        r
    } else {
        proof {
            assert(rest[0] == views_of(names@)[i as int]);
            assert(rest.drop_first() =~= views_of(names@).skip(i + 1));
        }
        let v = verdict(&current, others, names[i].as_str(), rules);
        match v {
            ItemOutcome::LimitStop => {
                let mut os: Vec<ItemOutcome> = Vec::new();
                os.push(ItemOutcome::LimitStop);
                let r = (Vec::new(), os);
                proof {
                    assert(views_of(r.0@) =~= spec_add(ss, others as nat, rest, *rules).0);
                    assert(r.1@ =~= spec_add(ss, others as nat, rest, *rules).1);
                }
                r
            },
            ItemOutcome::Added => {
                let name = names[i].clone();
                let ghost nv = name@;
                let mut cur2 = current;
                cur2.push(name);
                proof {
                    assert(views_of(cur2@) =~= ss.push(nv));
                }
                let (mut ap, mut os) = plan_add(cur2, others, names, i + 1, rules);
                ap.insert(0, names[i].clone());
                os.insert(0, ItemOutcome::Added);
                proof {
                    let sub = spec_add(ss.push(nv), others as nat, rest.drop_first(), *rules);
                    assert(views_of(ap@) =~= seq![nv] + sub.0);
                    assert(os@ =~= seq![ItemOutcome::Added] + sub.1);
                }
                (ap, os)
            },
            other => {
                let (ap, mut os) = plan_add(current, others, names, i + 1, rules);
                os.insert(0, other);
                proof {
                    let sub = spec_add(ss, others as nat, rest.drop_first(), *rules);
                    assert(os@ =~= seq![spec_verdict(ss, others as nat, rest[0], *rules)] + sub.1);
                }
                (ap, os)
            },
        }
    }
}

/// Offering a name that the array already holds yields a duplicate notice
/// and appends nothing: one occurrence stays one occurrence.
pub proof fn lemma_add_duplicate(
    ss: Seq<Seq<char>>,
    others: nat,
    name: Seq<char>,
    rules: ListRules,
)
    requires
        ss.contains(name),
    ensures
        spec_verdict(ss, others, name, rules) == ItemOutcome::Duplicate,
        spec_add(ss, others, seq![name], rules).0 == Seq::<Seq<char>>::empty(),
        spec_add(ss, others, seq![name], rules).1 == seq![ItemOutcome::Duplicate],
{
    let names = seq![name];
    assert(names.drop_first() =~= Seq::<Seq<char>>::empty());
    let e = spec_add(ss, others, names.drop_first(), rules);
    assert(e.0.len() == 0 && e.1.len() == 0);
    assert(spec_add(ss, others, names, rules).0 =~= Seq::<Seq<char>>::empty());
    assert(spec_add(ss, others, names, rules).1 =~= seq![ItemOutcome::Duplicate]);
}

/// Offering the same new name twice in one batch appends it once: the
/// second offer is reported as a duplicate.
pub proof fn lemma_add_idempotent(
    ss: Seq<Seq<char>>,
    others: nat,
    name: Seq<char>,
    rules: ListRules,
)
    requires
        spec_verdict(ss, others, name, rules) == ItemOutcome::Added,
    ensures
        spec_add(ss, others, seq![name, name], rules).0 == seq![name],
        spec_add(ss, others, seq![name, name], rules).1 == seq![
            ItemOutcome::Added,
            ItemOutcome::Duplicate,
        ],
{
    let names = seq![name, name];
    let ss2 = ss.push(name);
    assert(ss2.contains(name)) by {
        assert(ss2[ss.len() as int] == name);
    }
    assert(names.drop_first() =~= seq![name]);
    assert(seq![name].drop_first() =~= Seq::<Seq<char>>::empty());
    let e = spec_add(ss2, others, seq![name].drop_first(), rules);
    assert(seq![name].drop_first().len() == 0);
    assert(e.0.len() == 0 && e.1.len() == 0);
    let r1 = spec_add(ss2, others, seq![name], rules);
    assert(r1.0 =~= Seq::<Seq<char>>::empty());
    assert(r1.1 =~= seq![ItemOutcome::Duplicate]);
    assert(spec_add(ss, others, names, rules).0 =~= seq![name]);
    assert(spec_add(ss, others, names, rules).1 =~= seq![
        ItemOutcome::Added,
        ItemOutcome::Duplicate,
    ]);
}

/// A capped array at or over its capacity stops the batch at the first
/// name that is not a duplicate.
pub proof fn lemma_add_at_cap(
    ss: Seq<Seq<char>>,
    others: nat,
    name: Seq<char>,
    rules: ListRules,
    c: usize,
)
    requires
        rules.cap == Some(c),
        ss.len() + others >= c,
        !ss.contains(name),
    ensures
        spec_verdict(ss, others, name, rules) == ItemOutcome::LimitStop,
{
}

/// An `add` batch never grows a capped array beyond its capacity: what
/// ends in the array is bounded by the capacity, or by what was already
/// there.
pub proof fn lemma_add_capacity(
    ss: Seq<Seq<char>>,
    others: nat,
    names: Seq<Seq<char>>,
    rules: ListRules,
    c: usize,
)
    requires
        rules.cap == Some(c),
    ensures
        ss.len() + others + spec_add(ss, others, names, rules).0.len() <= if ss.len() + others >= c {
            (ss.len() + others) as int
        } else {
            c as int
        },
    decreases names.len(),
{
    if names.len() != 0 {
        let v = spec_verdict(ss, others, names[0], rules);
        if v is LimitStop {
        } else if v is Added {
            lemma_add_capacity(ss.push(names[0]), others, names.drop_first(), rules, c);
        } else {
            lemma_add_capacity(ss, others, names.drop_first(), rules, c);
        }
    }
}

/// Whether every name of a batch would be appended but for the capacity:
/// fresh against the array and each other, within the length limit, and
/// within the character classes.
pub open spec fn all_addable(ss: Seq<Seq<char>>, names: Seq<Seq<char>>, rules: ListRules) -> bool {
    &&& (forall|i: int| 0 <= i < names.len() ==> !ss.contains(#[trigger] names[i]))
    &&& (forall|i: int, j: int|
        0 <= i < j < names.len() ==> (#[trigger] names[i]) != (#[trigger] names[j]))
    &&& (forall|i: int|
        0 <= i < names.len() ==> (rules.max_len matches Some(mx) ==> utf8_len(
            #[trigger] names[i],
        ) <= mx))
    &&& (forall|i: int|
        0 <= i < names.len() ==> (rules.charset ==> entry_chars_ok(#[trigger] names[i])))
}

/// A capped batch of addable names fills the array exactly to its
/// capacity: the first `cap - old_len` names are appended in input order
/// (all of them if they fit), and when names are left over the batch
/// stops with one limit notice.
pub proof fn lemma_add_fills_to_cap(
    ss: Seq<Seq<char>>,
    others: nat,
    names: Seq<Seq<char>>,
    rules: ListRules,
    c: usize,
)
    requires
        rules.cap == Some(c),
        all_addable(ss, names, rules),
    ensures
        ({
            let room = if ss.len() + others >= c {
                0int
            } else {
                c - (ss.len() + others)
            };
            let k = if names.len() <= room {
                names.len() as int
            } else {
                room
            };
            &&& spec_add(ss, others, names, rules).0 == names.subrange(0, k)
            &&& (names.len() <= room ==> spec_add(ss, others, names, rules).1 == Seq::new(
                names.len(),
                |t: int| ItemOutcome::Added,
            ))
            &&& (names.len() > room ==> spec_add(ss, others, names, rules).1 == Seq::new(
                k as nat,
                |t: int| ItemOutcome::Added,
            ).push(ItemOutcome::LimitStop))
        }),
    decreases names.len(),
{
    let room = if ss.len() + others >= c {
        0int
    } else {
        c - (ss.len() + others)
    };
    let k = if names.len() <= room {
        names.len() as int
    } else {
        room
    };
    if names.len() == 0 {
        assert(spec_add(ss, others, names, rules).0 =~= names.subrange(0, 0));
        assert(spec_add(ss, others, names, rules).1 =~= Seq::new(0, |t: int| ItemOutcome::Added));
    } else {
        let n0 = names[0];
        if ss.len() + others >= c {
            assert(spec_verdict(ss, others, n0, rules) == ItemOutcome::LimitStop);
            assert(spec_add(ss, others, names, rules).0 =~= names.subrange(0, 0));
            assert(spec_add(ss, others, names, rules).1 =~= Seq::new(
                0,
                |t: int| ItemOutcome::Added,
            ).push(ItemOutcome::LimitStop));
        } else {
            assert(spec_verdict(ss, others, n0, rules) == ItemOutcome::Added);
            let ss2 = ss.push(n0);
            let rest = names.drop_first();
            assert(all_addable(ss2, rest, rules)) by {
                assert(forall|i: int| 0 <= i < rest.len() ==> #[trigger] rest[i] == names[i + 1]);
                assert forall|i: int| 0 <= i < rest.len() implies !ss2.contains(
                    #[trigger] rest[i],
                ) by {
                    assert(rest[i] == names[i + 1]);
                    assert(!ss.contains(names[i + 1]));
                    assert(names[i + 1] != names[0]);
                    if ss2.contains(rest[i]) {
                        let x = choose|x: int| 0 <= x < ss2.len() && ss2[x] == rest[i];
                        if x < ss.len() {
                            assert(ss[x] == names[i + 1]);
                            assert(ss.contains(names[i + 1]));
                        } else {
                            assert(ss2[x] == n0);
                        }
                    }
                }
            }
            lemma_add_fills_to_cap(ss2, others, rest, rules, c);
            let room2 = c - (ss2.len() + others);
            let k2 = if rest.len() <= room2 {
                rest.len() as int
            } else {
                room2
            };
            assert(spec_add(ss, others, names, rules).0 == seq![n0] + spec_add(
                ss2,
                others,
                rest,
                rules,
            ).0);
            assert(seq![n0] + rest.subrange(0, k2) =~= names.subrange(0, k));
            if names.len() <= room {
                assert(spec_add(ss, others, names, rules).1 =~= Seq::new(
                    names.len(),
                    |t: int| ItemOutcome::Added,
                ));
            } else {
                assert(seq![ItemOutcome::Added] + Seq::new(
                    k2 as nat,
                    |t: int| ItemOutcome::Added,
                ).push(ItemOutcome::LimitStop) =~= Seq::new(
                    k as nat,
                    |t: int| ItemOutcome::Added,
                ).push(ItemOutcome::LimitStop));
            }
        }
    }
}

} // verus!
