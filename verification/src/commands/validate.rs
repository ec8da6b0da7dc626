//! The validator: a read-only pass over the document against a fixed rule
//! set.  Base mode requires a name and a well-formed version; strict mode
//! adds the publishing gate: description and license required, keyword and
//! category limits enforced, and advisory warnings for recommended fields,
//! description length and license form.
use vstd::prelude::*;

use crate::manifest::Manifest;
use crate::model::{entries_at, has_key, items_at, lookup, strs_of, Entries, Node};
use crate::text::{byte_len, contains_sub, has_sub, lemma_views_push, split_char, split_on, str_concat, str_eq, utf8_len, views_of};

verus! {

/// Whether `c` is a decimal digit.
pub open spec fn is_digit(c: char) -> bool {
    '0' <= c && c <= '9'
}

/// The value of the decimal digit string `s`, most significant first.
pub open spec fn dec_value(s: Seq<char>) -> int
    decreases s.len(),
{
    if s.len() == 0 {
        0
    } else {
        dec_value(s.drop_last()) * 10 + (s.last() as u32 - 48)
    }
}

/// Whether every character of `s` is a decimal digit.
pub open spec fn all_digits(s: Seq<char>) -> bool {
    forall|i: int| 0 <= i < s.len() ==> is_digit(s[i])
}

/// Whether `s` is a decimal literal a 32-bit unsigned parser accepts: an
/// optional leading plus sign, then digits whose value fits.
pub open spec fn is_u32_literal(s: Seq<char>) -> bool {
    let d = if s.len() > 0 && s[0] == '+' {
        s.drop_first()
    } else {
        s
    };
    d.len() > 0 && all_digits(d) && dec_value(d) <= u32::MAX
}

/// Whether `v` is a plain three-part version: three dot-separated
/// non-negative integers, with no pre-release or build-metadata grammar.
pub open spec fn spec_valid_semver(v: Seq<char>) -> bool {
    let parts = split_on(v, '.');
    parts.len() == 3 && is_u32_literal(parts[0]) && is_u32_literal(parts[1]) && is_u32_literal(
        parts[2],
    )
}

/// The value of a digit string is never negative.
proof fn lemma_dec_nonneg(s: Seq<char>)
    requires
        all_digits(s),
    ensures
        dec_value(s) >= 0,
    decreases s.len(),
{
    if s.len() != 0 {
        assert(forall|i: int| 0 <= i < s.drop_last().len() ==> s.drop_last()[i] == s[i]);
        lemma_dec_nonneg(s.drop_last());
    }
}

/// Extending a digit string multiplies its value by ten and adds the new
/// digit, so the value never shrinks.
proof fn lemma_dec_mono(s: Seq<char>, i: int, j: int)
    requires
        0 <= i <= j <= s.len(),
        all_digits(s),
    ensures
        dec_value(s.subrange(0, i)) <= dec_value(s.subrange(0, j)),
    decreases j - i,
{
    if i < j {
        lemma_dec_mono(s, i, j - 1);
        let a = s.subrange(0, j - 1);
        let b = s.subrange(0, j);
        assert(b.drop_last() =~= a);
        assert(forall|t: int| 0 <= t < a.len() ==> a[t] == s[t]);
        assert(all_digits(a));
        lemma_dec_nonneg(a);
        assert(is_digit(b.last()));
        assert(dec_value(b) == dec_value(a) * 10 + (b.last() as u32 - 48));
        assert(dec_value(a) * 10 >= dec_value(a));
    }
}

/// Whether `s` parses as a 32-bit unsigned integer, executably.
pub fn parse_u32_ok(s: &str) -> (r: bool)
    ensures
        r == is_u32_literal(s@),
{
    let n = s.unicode_len();
    let start: usize = if n > 0 && s.get_char(0) == '+' {
        1
    } else {
        0
    };
    let ghost d = if s@.len() > 0 && s@[0] == '+' {
        s@.drop_first()
    } else {
        s@
    };
    proof {
        assert(d =~= s@.subrange(start as int, n as int));
    }
    if n == start {
        return false;
    }
    let mut acc: u64 = 0;
    let mut i: usize = start;
    while i < n
        invariant
            n == s@.len(),
            start <= i <= n,
            start < n,
            start <= 1,
            (s@.len() > 0 && s@[0] == '+') <==> start == 1,
            d == s@.subrange(start as int, n as int),
            forall|j: int| start <= j < i ==> is_digit(s@[j]),
            acc == dec_value(s@.subrange(start as int, i as int)),
            acc <= u32::MAX,
        decreases n - i,
    {
        let c = s.get_char(i);
        if !('0' <= c && c <= '9') {
            proof {
                if start == 1 {
                    assert(s@.drop_first() =~= s@.subrange(1, n as int));
                } else {
                    assert(s@.subrange(0, n as int) =~= s@);
                }
                assert(d[i - start] == s@[i as int]);
                assert(!is_digit(d[i - start]));
                assert(!all_digits(d)) by {
                    if all_digits(d) {
                        assert(is_digit(d[i - start]));
                    }
                }
            }
            return false;
        }
        let dv: u64 = (c as u32) as u64 - 48;
        acc = acc * 10 + dv;
        proof {
            let a = s@.subrange(start as int, i as int);
            let b = s@.subrange(start as int, i + 1);
            assert(b.drop_last() =~= a);
            assert(b.last() == s@[i as int]);
        }
        i += 1;
        if acc > u32::MAX as u64 {
            proof {
                if start == 1 {
                    assert(s@.drop_first() =~= s@.subrange(1, n as int));
                } else {
                    assert(s@.subrange(0, n as int) =~= s@);
                }
                assert(!is_u32_literal(s@)) by {
                    if is_u32_literal(s@) {
                        assert(all_digits(d));
                        assert(d.subrange(0, i - start) =~= s@.subrange(start as int, i as int));
                        lemma_dec_mono(d, i - start, d.len() as int);
                        assert(d.subrange(0, d.len() as int) =~= d);
                        assert(dec_value(s@.subrange(start as int, i as int)) == acc);
                        assert(dec_value(d) > u32::MAX);
                    }
                }
            }
            return false;
        }
    }
    proof {
        assert(s@.subrange(start as int, n as int) =~= d);
        assert(forall|t: int| 0 <= t < d.len() ==> #[trigger] d[t] == s@[t + start]);
    }
    true
}

/// Whether `v` is a plain three-part version, executably.
pub fn is_valid_semver(v: &str) -> (r: bool)
    ensures
        r == spec_valid_semver(v@),
{
    let parts = split_char(v, '.');
    if parts.len() != 3 {
        return false;
    }
    proof {
        assert(views_of(parts@)[0] == parts@[0]@);
        assert(views_of(parts@)[1] == parts@[1]@);
        assert(views_of(parts@)[2] == parts@[2]@);
    }
    parse_u32_ok(parts[0].as_str()) && parse_u32_ok(parts[1].as_str()) && parse_u32_ok(
        parts[2].as_str(),
    )
}

/// Whether `s` looks like a reasonable license expression: one of the
/// common identifiers, or a composite using an OR or AND combinator.
pub open spec fn spec_spdx_plausible(s: Seq<char>) -> bool {
    ||| s == "MIT"@
    ||| s == "Apache-2.0"@
    ||| s == "GPL-3.0"@
    ||| s == "BSD-3-Clause"@
    ||| s == "ISC"@
    ||| s == "MPL-2.0"@
    ||| s == "MIT OR Apache-2.0"@
    ||| s == "MIT AND Apache-2.0"@
    ||| has_sub(s, " OR "@)
    ||| has_sub(s, " AND "@)
}

/// Whether `s` looks like a reasonable license expression, executably.
pub fn spdx_plausible(s: &str) -> (r: bool)
    ensures
        r == spec_spdx_plausible(s@),
{
    str_eq(s, "MIT") || str_eq(s, "Apache-2.0") || str_eq(s, "GPL-3.0") || str_eq(
        s,
        "BSD-3-Clause",
    ) || str_eq(s, "ISC") || str_eq(s, "MPL-2.0") || str_eq(s, "MIT OR Apache-2.0") || str_eq(
        s,
        "MIT AND Apache-2.0",
    ) || contains_sub(s, " OR ") || contains_sub(s, " AND ")
}

/// The message reporting a required field as absent.
pub open spec fn msg_missing(f: Seq<char>) -> Seq<char> {
    "Missing '"@ + f + "' (required field)"@
}

/// The message recommending an absent field.
pub open spec fn msg_recommended(f: Seq<char>) -> Seq<char> {
    "Missing '"@ + f + "' field (recommended for crates.io)"@
}

/// The error for one required field, if it is absent.
pub open spec fn req_err(ses: Entries, f: Seq<char>) -> Seq<Seq<char>> {
    if !has_key(ses, f) {
        seq![msg_missing(f)]
    } else {
        Seq::empty()
    }
}

/// The warning for one recommended field, if it is absent.
pub open spec fn rec_warn(ses: Entries, f: Seq<char>) -> Seq<Seq<char>> {
    if !has_key(ses, f) {
        seq![msg_recommended(f)]
    } else {
        Seq::empty()
    }
}

/// The per-keyword length errors, in storage order.
pub open spec fn kw_long_errs(ss: Seq<Seq<char>>) -> Seq<Seq<char>>
    decreases ss.len(),
{
    if ss.len() == 0 {
        Seq::empty()
    } else {
        (if utf8_len(ss[0]) > 20 {
            seq!["Keyword '"@ + ss[0] + "' exceeds 20 characters"@]
        } else {
            Seq::empty()
        }) + kw_long_errs(ss.drop_first())
    }
}

/// `kw_long_errs` over a sequence extended at the end.
proof fn lemma_kw_long_snoc(ss: Seq<Seq<char>>, x: Seq<char>)
    ensures
        kw_long_errs(ss.push(x)) == kw_long_errs(ss) + (if utf8_len(x) > 20 {
            seq!["Keyword '"@ + x + "' exceeds 20 characters"@]
        } else {
            Seq::<Seq<char>>::empty()
        }),
    decreases ss.len(),
{
    let e = ss.push(x);
    if ss.len() == 0 {
        assert(e[0] == x);
        assert(e.drop_first() =~= Seq::<Seq<char>>::empty());
        assert(kw_long_errs(e.drop_first()) =~= Seq::<Seq<char>>::empty());
        assert(kw_long_errs(ss) =~= Seq::<Seq<char>>::empty());
        if utf8_len(x) > 20 {
            assert(kw_long_errs(e) =~= kw_long_errs(ss) + seq![
                "Keyword '"@ + x + "' exceeds 20 characters"@,
            ]);
        } else {
            assert(kw_long_errs(e) =~= kw_long_errs(ss));
        }
    } else {
        lemma_kw_long_snoc(ss.drop_first(), x);
        assert(e[0] == ss[0]);
        assert(e.drop_first() =~= ss.drop_first().push(x));
        assert(kw_long_errs(e.drop_first()) == kw_long_errs(ss.drop_first()) + (if utf8_len(x)
            > 20 {
            seq!["Keyword '"@ + x + "' exceeds 20 characters"@]
        } else {
            Seq::<Seq<char>>::empty()
        }));
        if utf8_len(x) > 20 {
            assert(kw_long_errs(e) =~= kw_long_errs(ss) + seq![
                "Keyword '"@ + x + "' exceeds 20 characters"@,
            ]);
        } else {
            assert(kw_long_errs(e) =~= kw_long_errs(ss));
        }
    }
}

/// The keyword errors: the count limit, then each over-long keyword.
pub open spec fn kw_errs(ses: Entries) -> Seq<Seq<char>> {
    let count = if lookup(ses, "keywords"@) matches Some(n) && n is Arr && items_at(
        ses,
        "keywords"@,
    ).len() > 5 {
        seq!["Too many keywords (max 5 for crates.io)"@]
    } else {
        Seq::<Seq<char>>::empty()
    };
    count + kw_long_errs(strs_of(items_at(ses, "keywords"@)))
}

/// The category errors: the count limit.
pub open spec fn cat_errs(ses: Entries) -> Seq<Seq<char>> {
    if lookup(ses, "categories"@) matches Some(n) && n is Arr && items_at(
        ses,
        "categories"@,
    ).len() > 5 {
        seq!["Too many categories (max 5 for crates.io)"@]
    } else {
        Seq::empty()
    }
}

/// The version-format error, if the version is a string and not a plain
/// three-part version.
pub open spec fn version_err(ses: Entries) -> Seq<Seq<char>> {
    match lookup(ses, "version"@) {
        Some(Node::Str(v)) => if !spec_valid_semver(v) {
            seq!["Invalid version format: '"@ + v + "'"@]
        } else {
            Seq::empty()
        },
        _ => Seq::empty(),
    }
}

/// The description-length warnings.
pub open spec fn desc_warns(ses: Entries) -> Seq<Seq<char>> {
    match lookup(ses, "description"@) {
        Some(Node::Str(d)) => (if utf8_len(d) > 160 {
            seq!["Description exceeds 160 characters (crates.io will truncate)"@]
        } else {
            Seq::<Seq<char>>::empty()
        }) + (if utf8_len(d) < 10 {
            seq!["Description is very short (consider expanding)"@]
        } else {
            Seq::<Seq<char>>::empty()
        }),
        _ => Seq::empty(),
    }
}

/// The license-form warning.
pub open spec fn license_warn(ses: Entries) -> Seq<Seq<char>> {
    match lookup(ses, "license"@) {
        Some(Node::Str(l)) => if !spec_spdx_plausible(l) {
            seq!["License '"@ + l + "' may not be a valid SPDX expression"@]
        } else {
            Seq::empty()
        },
        _ => Seq::empty(),
    }
}

/// Every error the validator reports, in report order.
pub open spec fn spec_errors(root: Entries, strict: bool) -> Seq<Seq<char>> {
    if !(lookup(root, "package"@) matches Some(n) && n is Tab) {
        seq!["Missing [package] section"@]
    } else {
        let ses = entries_at(root, "package"@);
        req_err(ses, "name"@) + req_err(ses, "version"@) + (if strict {
            req_err(ses, "description"@) + req_err(ses, "license"@) + kw_errs(ses) + cat_errs(ses)
        } else {
            Seq::empty()
        }) + version_err(ses)
    }
}

/// Every warning the validator reports, in report order.
pub open spec fn spec_warnings(root: Entries, strict: bool) -> Seq<Seq<char>> {
    if !(lookup(root, "package"@) matches Some(n) && n is Tab) {
        Seq::empty()
    } else if strict {
        let ses = entries_at(root, "package"@);
        rec_warn(ses, "repository"@) + rec_warn(ses, "readme"@) + rec_warn(ses, "keywords"@)
            + rec_warn(ses, "categories"@) + desc_warns(ses) + license_warn(ses)
    } else {
        Seq::empty()
    }
}

/// What the validator found: blocking errors and advisory warnings.  The
/// command succeeds exactly when `errors` is empty.
pub struct ValidationReport {
    /// The blocking errors, in report order.
    pub errors: Vec<String>,
    /// The advisory warnings, in report order.
    pub warnings: Vec<String>,
}

/// The error for one required field, executably.
fn check_required_field(m: &Manifest, f: &str, errors: &mut Vec<String>)
    ensures
        views_of(final(errors)@) == views_of(old(errors)@) + req_err(
            entries_at(m@, "package"@),
            f@,
        ),
{
    if !m.section_has_key("package", f) {
        let msg = str_concat(
            str_concat("Missing '", f).as_str(),
            "' (required field)",
        );
        errors.push(msg);
        assert(views_of(final(errors)@) =~= views_of(old(errors)@) + seq![msg_missing(f@)]);
    } else {
        assert(views_of(final(errors)@) =~= views_of(old(errors)@) + req_err(
            entries_at(m@, "package"@),
            f@,
        ));
    }
}

/// The warning for one recommended field, executably.
fn check_recommended(m: &Manifest, f: &str, warnings: &mut Vec<String>)
    ensures
        views_of(final(warnings)@) == views_of(old(warnings)@) + rec_warn(
            entries_at(m@, "package"@),
            f@,
        ),
{
    if !m.section_has_key("package", f) {
        let msg = str_concat(
            str_concat("Missing '", f).as_str(),
            "' field (recommended for crates.io)",
        );
        warnings.push(msg);
        assert(views_of(final(warnings)@) =~= views_of(old(warnings)@) + seq![
            msg_recommended(f@),
        ]);
    } else {
        assert(views_of(final(warnings)@) =~= views_of(old(warnings)@) + rec_warn(
            entries_at(m@, "package"@),
            f@,
        ));
    }
}

/// Validates the document.  Never mutates; the caller decides the exit
/// code from the error count.
#[verifier::rlimit(100)]
#[verifier::spinoff_prover]
pub fn handle(m: &Manifest, strict: bool) -> (r: ValidationReport)
    ensures
        views_of(r.errors@) == spec_errors(m@, strict),
        views_of(r.warnings@) == spec_warnings(m@, strict),
{
    let mut errors: Vec<String> = Vec::new();
    let mut warnings: Vec<String> = Vec::new();
    let ghost root = m@;
    let ghost ses = entries_at(root, "package"@);
    if m.package().is_none() {
        errors.push("Missing [package] section".to_owned());
        proof {
            assert(views_of(errors@) =~= spec_errors(root, strict));
            assert(views_of(warnings@) =~= spec_warnings(root, strict));
        }
        return ValidationReport { errors, warnings };
    }
    check_required_field(m, "name", &mut errors);
    check_required_field(m, "version", &mut errors);
    proof {
        assert(views_of(errors@) =~= req_err(ses, "name"@) + req_err(ses, "version"@));
    }
    let ghost base = req_err(ses, "name"@) + req_err(ses, "version"@);
    if strict {
        check_required_field(m, "description", &mut errors);
        check_required_field(m, "license", &mut errors);
        // Recommended fields.
        check_recommended(m, "repository", &mut warnings);
        check_recommended(m, "readme", &mut warnings);
        check_recommended(m, "keywords", &mut warnings);
        check_recommended(m, "categories", &mut warnings);
        proof {
            assert(views_of(warnings@) =~= rec_warn(ses, "repository"@) + rec_warn(ses, "readme"@)
                + rec_warn(ses, "keywords"@) + rec_warn(ses, "categories"@));
        }
        // Description length.
        let ghost w1 = views_of(warnings@);
        match m.section_str("package", "description") {
            Some(d) => {
                if byte_len(d.as_str()) > 160 {
                    warnings.push(
                        "Description exceeds 160 characters (crates.io will truncate)".to_owned(),
                    );
                }
                if byte_len(d.as_str()) < 10 {
                    warnings.push("Description is very short (consider expanding)".to_owned());
                }
                proof {
                    assert(views_of(warnings@) =~= w1 + desc_warns(ses));
                }
            },
            None => {
                proof {
                    assert(views_of(warnings@) =~= w1 + desc_warns(ses));
                }
            },
        }
        proof {
            assert(views_of(warnings@) =~= rec_warn(ses, "repository"@) + rec_warn(ses, "readme"@)
                + rec_warn(ses, "keywords"@) + rec_warn(ses, "categories"@) + desc_warns(ses));
        }
        // Keyword count and length.
        let ghost e1 = views_of(errors@);
        match m.section_array_strings("package", "keywords") {
            Some(p) => {
                let (kws, total) = p;
                if total > 5 {
                    errors.push("Too many keywords (max 5 for crates.io)".to_owned());
                }
                let ghost pre = views_of(errors@);
                let ghost kv = strs_of(items_at(ses, "keywords"@));
                let mut i: usize = 0;
                proof {
                    assert(kw_long_errs(kv.subrange(0, 0)) =~= Seq::<Seq<char>>::empty());
                    assert(pre + kw_long_errs(kv.subrange(0, 0)) =~= pre);
                }
                while i < kws.len()
                    invariant
                        kv == strs_of(items_at(ses, "keywords"@)),
                        kv == views_of(kws@),
                        i <= kws@.len(),
                        views_of(errors@) == pre + kw_long_errs(kv.subrange(0, i as int)),
                    decreases kws@.len() - i,
                {
                    proof {
                        assert(kv[i as int] == kws@[i as int]@);
                        assert(kv.subrange(0, i + 1) =~= kv.subrange(0, i as int).push(
                            kv[i as int],
                        ));
                        lemma_kw_long_snoc(kv.subrange(0, i as int), kv[i as int]);
                    }
                    if byte_len(kws[i].as_str()) > 20 {
                        let msg = str_concat(
                            str_concat("Keyword '", kws[i].as_str()).as_str(),
                            "' exceeds 20 characters",
                        );
                        let ghost prevv = errors@;
                        errors.push(msg);
                        proof {
                            lemma_views_push(prevv, msg);
                            assert(views_of(errors@) =~= pre + kw_long_errs(
                                kv.subrange(0, i + 1),
                            ));
                        }
                    } else {
                        proof {
                            assert(views_of(errors@) =~= pre + kw_long_errs(
                                kv.subrange(0, i + 1),
                            ));
                        }
                    }
                    i += 1;
                }
                proof {
                    assert(kv.subrange(0, kv.len() as int) =~= kv);
                    assert(views_of(errors@) =~= e1 + kw_errs(ses));
                }
            },
            None => {
                proof {
                    assert(items_at(ses, "keywords"@) =~= Seq::<Node>::empty());
                    assert(strs_of(items_at(ses, "keywords"@)) =~= Seq::<Seq<char>>::empty());
                    assert(views_of(errors@) =~= e1 + kw_errs(ses));
                }
            },
        }
        proof {
            assert(views_of(errors@) =~= base + req_err(ses, "description"@) + req_err(
                ses,
                "license"@,
            ) + kw_errs(ses));
        }
        // Category count.
        let ghost e2 = views_of(errors@);
        match m.section_array_strings("package", "categories") {
            Some(p) => {
                let (_cats, total) = p;
                if total > 5 {
                    errors.push("Too many categories (max 5 for crates.io)".to_owned());
                }
                proof {
                    assert(views_of(errors@) =~= e2 + cat_errs(ses));
                }
            },
            None => {
                proof {
                    assert(views_of(errors@) =~= e2 + cat_errs(ses));
                }
            },
        }
        // License form.
        let ghost w2 = views_of(warnings@);
        match m.section_str("package", "license") {
            Some(l) => {
                if !spdx_plausible(l.as_str()) {
                    warnings.push(
                        str_concat(
                            str_concat("License '", l.as_str()).as_str(),
                            "' may not be a valid SPDX expression",
                        ),
                    );
                }
                proof {
                    assert(views_of(warnings@) =~= w2 + license_warn(ses));
                }
            },
            None => {
                proof {
                    assert(views_of(warnings@) =~= w2 + license_warn(ses));
                }
            },
        }
        proof {
            assert(views_of(warnings@) =~= spec_warnings(root, true));
            assert(views_of(errors@) =~= base + (req_err(ses, "description"@) + req_err(
                ses,
                "license"@,
            ) + kw_errs(ses) + cat_errs(ses)));
        }
    }
    // Version format.
    let ghost e3 = views_of(errors@);
    match m.section_str("package", "version") {
        Some(v) => {
            if !is_valid_semver(v.as_str()) {
                errors.push(
                    str_concat(
                        str_concat("Invalid version format: '", v.as_str()).as_str(),
                        "'",
                    ),
                );
            }
            proof {
                assert(views_of(errors@) =~= e3 + version_err(ses));
            }
        },
        None => {
            proof {
                assert(views_of(errors@) =~= e3 + version_err(ses));
            }
        },
    }
    proof {
        assert(views_of(errors@) =~= spec_errors(root, strict));
        assert(views_of(warnings@) =~= spec_warnings(root, strict));
    }
    ValidationReport { errors, warnings }
}

/// The strict gate on the description: a package table without a
/// description fails strict validation with a message naming it, while
/// non-strict validation of the same document reports no error as long as
/// name and version are present and the version is well-formed.
pub proof fn lemma_strict_description_gate(root: Entries, v: Seq<char>)
    requires
        lookup(root, "package"@) matches Some(n) && n is Tab,
        !has_key(entries_at(root, "package"@), "description"@),
        has_key(entries_at(root, "package"@), "name"@),
        lookup(entries_at(root, "package"@), "version"@) == Some(Node::Str(v)),
        spec_valid_semver(v),
    ensures
        spec_errors(root, true).contains(msg_missing("description"@)),
        spec_errors(root, false) == Seq::<Seq<char>>::empty(),
{
    let ses = entries_at(root, "package"@);
    crate::model::lemma_has_key_lookup(ses, "version"@);
    assert(req_err(ses, "name"@) =~= Seq::<Seq<char>>::empty());
    assert(req_err(ses, "version"@) =~= Seq::<Seq<char>>::empty());
    assert(version_err(ses) =~= Seq::<Seq<char>>::empty());
    assert(spec_errors(root, false) =~= Seq::<Seq<char>>::empty());
    let e = spec_errors(root, true);
    let base = req_err(ses, "name"@) + req_err(ses, "version"@);
    assert(base.len() == 0);
    assert(req_err(ses, "description"@) == seq![msg_missing("description"@)]);
    assert(e[0] == msg_missing("description"@));
}

} // verus!
