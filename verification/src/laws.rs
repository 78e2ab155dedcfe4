//! The stated laws of resolution, proved once and for all inputs.

use vstd::prelude::*;

use crate::ParamDesc;
use crate::PatDesc;
use crate::ResolvedArg;
use crate::ResolvedPath;
use crate::TypeDesc;
use crate::args_match;
use crate::params;
use crate::rocket;
use crate::scan;

verus! {

/// How many captures of a list are path captures.
pub open spec fn count_path(args: Seq<ResolvedArg>) -> nat
    decreases args.len(),
{
    if args.len() == 0 {
        0
    } else {
        (if args[0].is_path() {
            1nat
        } else {
            0nat
        }) + count_path(args.drop_first())
    }
}

/// How many captures of a list are query captures.
pub open spec fn count_query(args: Seq<ResolvedArg>) -> nat
    decreases args.len(),
{
    if args.len() == 0 {
        0
    } else {
        (if args[0].is_query() {
            1nat
        } else {
            0nat
        }) + count_query(args.drop_first())
    }
}

/// Every capture is classified as exactly one of path or query, so the two
/// counts always add up to the length of the capture list.
pub proof fn lemma_classification_partitions(args: Seq<ResolvedArg>)
    ensures
        count_path(args) + count_query(args) == args.len(),
        forall|k: int| 0 <= k < args.len() ==> (args[k].is_path() <==> !args[k].is_query()),
    decreases args.len(),
{
    if args.len() > 0 {
        lemma_classification_partitions(args.drop_first());
    }
}

/// In a capture list that holds its names in order, every path capture
/// precedes every query capture: the two groups never merge or reorder.
pub proof fn lemma_path_precedes_query(
    args: Seq<ResolvedArg>,
    path_names: Seq<Seq<char>>,
    query_names: Seq<Seq<char>>,
)
    requires
        args_match(args, path_names, query_names),
    ensures
        forall|k: int| 0 <= k < path_names.len() ==> args[k].is_path(),
        forall|k: int| path_names.len() <= k < args.len() ==> args[k].is_query(),
{
    assert forall|k: int| path_names.len() <= k < args.len() implies args[k].is_query() by {
        assert(args[k] matches ResolvedArg::Query(n) && n@ == query_names[k - path_names.len()]);
    }
}

/// Resolution is a pure function of the raw text: any two resolved paths
/// that this dialect's contract admits for the same raw text agree on the
/// canonical text and, capture for capture, on classification and name.
pub proof fn lemma_resolution_deterministic(
    s: Seq<char>,
    rp1: ResolvedPath,
    rp2: ResolvedPath,
)
    requires
        rp1.path@ == rocket::spec_resolved(s).0 && args_match(
            rp1.args@,
            rocket::spec_resolved(s).1,
            rocket::spec_resolved(s).2,
        ),
        rp2.path@ == rocket::spec_resolved(s).0 && args_match(
            rp2.args@,
            rocket::spec_resolved(s).1,
            rocket::spec_resolved(s).2,
        ),
    ensures
        rp1.path@ == rp2.path@,
        rp1.args@.len() == rp2.args@.len(),
        forall|k: int|
            0 <= k < rp1.args@.len() ==> rp1.args@[k].name_view() == rp2.args@[k].name_view()
                && rp1.args@[k].is_path() == rp2.args@[k].is_path(),
{
    let pn = rocket::spec_resolved(s).1;
    let qn = rocket::spec_resolved(s).2;
    assert forall|k: int|
        0 <= k < rp1.args@.len() implies rp1.args@[k].name_view() == rp2.args@[k].name_view()
        && rp1.args@[k].is_path() == rp2.args@[k].is_path() by {
        if k < pn.len() {
            assert(rp1.args@[k] matches ResolvedArg::Path(n) && n@ == pn[k]);
            assert(rp2.args@[k] matches ResolvedArg::Path(n) && n@ == pn[k]);
        } else {
            assert(rp1.args@[k] matches ResolvedArg::Query(n) && n@ == qn[k - pn.len()]);
            assert(rp2.args@[k] matches ResolvedArg::Query(n) && n@ == qn[k - pn.len()]);
        }
    }
}

/// A two-element destructured tuple parameter flattens to exactly the two
/// element bindings, in declaration order.
pub proof fn lemma_tuple_flattening(ps: Vec<PatDesc>, ts: Vec<TypeDesc>)
    requires
        ps@.len() == 2,
        ts@.len() == 2,
        rocket::spec_flatten(ps[0], ts[0]) is Some,
        rocket::spec_flatten(ps[1], ts[1]) is Some,
    ensures
        ({
            let b0 = match rocket::spec_flatten(ps[0], ts[0]) {
                Some(b) => b,
                None => Seq::empty(),
            };
            let b1 = match rocket::spec_flatten(ps[1], ts[1]) {
                Some(b) => b,
                None => Seq::empty(),
            };
            rocket::spec_flatten(PatDesc::Tuple(ps), TypeDesc::Tuple(ts)) == Some(b0 + b1)
        }),
{
    let b0 = match rocket::spec_flatten(ps[0], ts[0]) {
        Some(b) => b,
        None => Seq::<(Seq<char>, Seq<char>, bool)>::empty(),
    };
    let b1 = match rocket::spec_flatten(ps[1], ts[1]) {
        Some(b) => b,
        None => Seq::<(Seq<char>, Seq<char>, bool)>::empty(),
    };
    assert(rocket::spec_flatten_list(ps, ts, 2) == Some(
        Seq::<(Seq<char>, Seq<char>, bool)>::empty(),
    ));
    assert(rocket::spec_flatten_list(ps, ts, 1) == Some(b1 + Seq::<
        (Seq<char>, Seq<char>, bool),
    >::empty()));
    assert(b1 + Seq::<(Seq<char>, Seq<char>, bool)>::empty() =~= b1);
    assert(rocket::spec_flatten_list(ps, ts, 0) == Some(b0 + b1));
}

/// A single parameter whose extraction wrapper carries three inner types
/// expands to exactly three bindings, in the inner types' declared order.
pub proof fn lemma_wrapper_expansion(ts: Vec<TypeDesc>)
    requires
        ts@.len() == 3,
        forall|k: int| 0 <= k < 3 ==> params::spec_ref_base(ts[k]) is Some,
        forall|k: int| 0 <= k < 3 ==> !(ts[k] is Tuple),
    ensures
        ({
            let id = |k: int|
                match params::spec_ref_base(ts[k]) {
                    Some(id) => id,
                    None => Seq::empty(),
                };
            crate::actix::spec_expand_args(ts, 0) == Some(seq![id(0), id(1), id(2)])
        }),
{
    let id = |k: int|
        match params::spec_ref_base(ts[k]) {
            Some(id) => id,
            None => Seq::<char>::empty(),
        };
    assert(crate::actix::spec_expand_args(ts, 3) == Some(Seq::<Seq<char>>::empty()));
    assert(crate::actix::spec_expand_args(ts, 2) == Some(seq![id(2)] + Seq::<Seq<char>>::empty()));
    assert(crate::actix::spec_expand_args(ts, 1) == Some(seq![id(1)] + (seq![id(2)] + Seq::<
        Seq<char>,
    >::empty())));
    assert(crate::actix::spec_expand_args(ts, 0) == Some(seq![id(0)] + (seq![id(1)] + (seq![
        id(2),
    ] + Seq::<Seq<char>>::empty()))));
    assert(seq![id(0)] + (seq![id(1)] + (seq![id(2)] + Seq::<Seq<char>>::empty())) =~= seq![
        id(0),
        id(1),
        id(2),
    ]);
}

/// Which captures of a scan, in appearance order, are anonymous.
pub open spec fn anon_flags(d: crate::Dialect, s: Seq<char>, i: int) -> Seq<bool>
    decreases s.len() - i,
        via anon_flags_decreases
{
    if i < 0 || i >= s.len() {
        Seq::empty()
    } else {
        match scan::match_end(d, s, i) {
            Some(j) => seq![scan::is_anon(d, s.subrange(i + 1, j))] + anon_flags(d, s, j + 1),
            None => anon_flags(d, s, i + 1),
        }
    }
}

#[via_fn]
proof fn anon_flags_decreases(d: crate::Dialect, s: Seq<char>, i: int) {
    scan::lemma_match_end_props(d, s, i);
}

/// How many of the flags are set.
pub open spec fn count_true(fl: Seq<bool>) -> nat
    decreases fl.len(),
{
    if fl.len() == 0 {
        0
    } else {
        (if fl[0] {
            1nat
        } else {
            0nat
        }) + count_true(fl.drop_first())
    }
}

/// Anonymous-capture naming is deterministic and order-dependent: with the
/// counter starting at `ctr`, the capture list has one name per capture,
/// the counter advances by exactly the number of anonymous captures, and an
/// anonymous capture with `m` anonymous captures before it is named
/// `arg<ctr + m>`, named captures in between notwithstanding.
pub proof fn lemma_anonymous_naming(d: crate::Dialect, s: Seq<char>, i: int, ctr: nat)
    ensures
        scan::scan(d, s, i, ctr).1.len() == anon_flags(d, s, i).len(),
        scan::scan(d, s, i, ctr).2 == ctr + count_true(anon_flags(d, s, i)),
        forall|k: int|
            0 <= k < anon_flags(d, s, i).len() && anon_flags(d, s, i)[k]
                ==> #[trigger] scan::scan(d, s, i, ctr).1[k] == "arg"@ + scan::dec_digits(
                (ctr + count_true(anon_flags(d, s, i).take(k))) as nat,
            ),
    decreases s.len() - i,
{
    if 0 <= i < s.len() {
        match scan::match_end(d, s, i) {
            Some(j) => {
                scan::lemma_match_end_props(d, s, i);
                let cap = s.subrange(i + 1, j);
                let a = scan::is_anon(d, cap);
                let ctr2: nat = if a {
                    ctr + 1
                } else {
                    ctr
                };
                lemma_anonymous_naming(d, s, j + 1, ctr2);
                let flags = anon_flags(d, s, i);
                let restf = anon_flags(d, s, j + 1);
                let names = scan::scan(d, s, i, ctr).1;
                let restn = scan::scan(d, s, j + 1, ctr2).1;
                assert(flags =~= seq![a] + restf);
                assert(names =~= seq![scan::cap_name(d, cap, ctr)] + restn);
                assert(flags.drop_first() =~= restf);
                assert(count_true(flags) == (if a {
                    1nat
                } else {
                    0nat
                }) + count_true(restf));
                assert forall|k: int|
                    0 <= k < flags.len() && flags[k] implies #[trigger] names[k] == "arg"@
                    + scan::dec_digits((ctr + count_true(flags.take(k))) as nat) by {
                    if k == 0 {
                        assert(flags.take(0) =~= Seq::<bool>::empty());
                        assert(count_true(flags.take(0)) == 0);
                        assert(names[0] == scan::cap_name(d, cap, ctr));
                    } else {
                        assert(flags[k] == restf[k - 1]);
                        assert(names[k] == restn[k - 1]);
                        assert(restn[k - 1] == "arg"@ + scan::dec_digits(
                            (ctr2 + count_true(restf.take(k - 1))) as nat,
                        ));
                        assert(flags.take(k) =~= seq![a] + restf.take(k - 1));
                        assert((seq![a] + restf.take(k - 1)).drop_first() =~= restf.take(k - 1));
                        assert(count_true(flags.take(k)) == (if a {
                            1nat
                        } else {
                            0nat
                        }) + count_true(restf.take(k - 1)));
                    }
                }
            },
            None => {
                lemma_anonymous_naming(d, s, i + 1, ctr);
            },
        }
    }
}

/// Two texts that agree from the given positions to their ends.
pub open spec fn suffix_eq(s1: Seq<char>, i1: int, s2: Seq<char>, i2: int) -> bool {
    &&& 0 <= i1 <= s1.len()
    &&& 0 <= i2 <= s2.len()
    &&& s1.len() - i1 == s2.len() - i2
    &&& forall|k: int| #![trigger s1[k]] i1 <= k < s1.len() ==> s1[k] == s2[k - i1 + i2]
}

/// If a found delimiter exists for one text, an equally placed one exists
/// for any text with the same suffix.
proof fn lemma_first_delim_shift(
    d: crate::Dialect,
    s1: Seq<char>,
    i1: int,
    s2: Seq<char>,
    i2: int,
    o: int,
)
    requires
        suffix_eq(s1, i1, s2, i2),
        0 <= o,
    ensures
        match scan::first_delim(d, s1, i1 + o) {
            Some(j) => scan::first_delim(d, s2, i2 + o) == Some(j - i1 + i2),
            None => scan::first_delim(d, s2, i2 + o) is None,
        },
    decreases s1.len() - i1 - o,
{
    if i1 + o < s1.len() {
        assert(s1[i1 + o] == s2[i2 + o]);
        if !scan::is_delim(d, s1[i1 + o]) {
            lemma_first_delim_shift(d, s1, i1, s2, i2, o + 1);
        }
    }
}

/// The scan reads only the suffix from its position on: two texts with the
/// same suffix scan to the same result.
proof fn lemma_scan_shift(
    d: crate::Dialect,
    s1: Seq<char>,
    i1: int,
    s2: Seq<char>,
    i2: int,
    ctr: nat,
)
    requires
        suffix_eq(s1, i1, s2, i2),
    ensures
        scan::scan(d, s1, i1, ctr) == scan::scan(d, s2, i2, ctr),
    decreases s1.len() - i1,
{
    if i1 < s1.len() {
        assert(s1[i1] == s2[i2]);
        if i1 + 1 < s1.len() {
            assert(s1[i1 + 1] == s2[i2 + 1]);
        }
        lemma_first_delim_shift(d, s1, i1, s2, i2, 2);
        match scan::match_end(d, s1, i1) {
            Some(j1) => {
                scan::lemma_match_end_props(d, s1, i1);
                let j2 = j1 - i1 + i2;
                assert(s1[j1] == s2[j2]);
                assert(scan::match_end(d, s2, i2) == Some(j2));
                assert forall|k: int|
                    0 <= k < j1 - i1 - 1 implies #[trigger] s1.subrange(i1 + 1, j1)[k]
                    == s2.subrange(i2 + 1, j2)[k] by {
                    assert(s1[i1 + 1 + k] == s2[i2 + 1 + k]);
                }
                assert(s1.subrange(i1 + 1, j1) =~= s2.subrange(i2 + 1, j2));
                assert(suffix_eq(s1, j1 + 1, s2, j2 + 1));
                let cap = s1.subrange(i1 + 1, j1);
                let ctr2: nat = if scan::is_anon(d, cap) {
                    ctr + 1
                } else {
                    ctr
                };
                lemma_scan_shift(d, s1, j1 + 1, s2, j2 + 1, ctr2);
            },
            None => {
                if i1 + 1 < s1.len() && s1[i1] == scan::open_delim(d) && scan::is_word(
                    s1[i1 + 1],
                ) {
                    match scan::first_delim(d, s1, i1 + 2) {
                        Some(j1) => {
                            scan::lemma_first_delim_props(d, s1, i1 + 2);
                            assert(s1[j1] == s2[j1 - i1 + i2]);
                        },
                        None => {},
                    }
                }
                assert(scan::match_end(d, s2, i2) is None);
                assert(suffix_eq(s1, i1 + 1, s2, i2 + 1));
                lemma_scan_shift(d, s1, i1 + 1, s2, i2 + 1, ctr);
            },
        }
    }
}

/// How many capture names the scan collects does not depend on where the
/// anonymous counter starts.
proof fn lemma_scan_names_len_ctr(d: crate::Dialect, s: Seq<char>, i: int, c1: nat, c2: nat)
    ensures
        scan::scan(d, s, i, c1).1.len() == scan::scan(d, s, i, c2).1.len(),
    decreases s.len() - i,
{
    if 0 <= i < s.len() {
        match scan::match_end(d, s, i) {
            Some(j) => {
                scan::lemma_match_end_props(d, s, i);
                let cap = s.subrange(i + 1, j);
                let a = scan::is_anon(d, cap);
                lemma_scan_names_len_ctr(
                    d,
                    s,
                    j + 1,
                    if a {
                        c1 + 1
                    } else {
                        c1
                    },
                    if a {
                        c2 + 1
                    } else {
                        c2
                    },
                );
            },
            None => {
                lemma_scan_names_len_ctr(d, s, i + 1, c1, c2);
            },
        }
    }
}

/// A text free of brace characters.
pub open spec fn no_brace(s: Seq<char>) -> bool {
    forall|k: int| 0 <= k < s.len() ==> s[k] != '{' && s[k] != '}'
}

/// A raw path whose text outside captures, and whose capture interiors,
/// hold no brace characters: on such a path every brace of the canonical
/// output delimits a placeholder.
pub open spec fn brace_clean(d: crate::Dialect, s: Seq<char>, i: int) -> bool
    decreases s.len() - i,
        via brace_clean_decreases
{
    if i < 0 || i >= s.len() {
        true
    } else {
        match scan::match_end(d, s, i) {
            Some(j) => no_brace(s.subrange(i + 1, j)) && brace_clean(d, s, j + 1),
            None => s[i] != '{' && s[i] != '}' && brace_clean(d, s, i + 1),
        }
    }
}

#[via_fn]
proof fn brace_clean_decreases(d: crate::Dialect, s: Seq<char>, i: int) {
    scan::lemma_match_end_props(d, s, i);
}

/// The decimal numeral holds digit characters only, and at least one.
proof fn lemma_digits_shape(n: nat)
    ensures
        scan::dec_digits(n).len() >= 1,
        forall|k: int|
            0 <= k < scan::dec_digits(n).len() ==> scan::is_word(#[trigger] scan::dec_digits(n)[k])
                && scan::dec_digits(n)[k] != '{' && scan::dec_digits(n)[k] != '}',
    decreases n,
{
    if n >= 10 {
        lemma_digits_shape(n / 10);
    }
}

/// The name a capture receives is never empty, starts with a word
/// character, is not the anonymous marker, and, when the interior held no
/// braces, holds none either; under the brace dialect it also holds no
/// colon.
proof fn lemma_cap_name_shape(d: crate::Dialect, cap: Seq<char>, ctr: nat)
    requires
        cap.len() >= 1,
        scan::is_word(cap[0]),
        no_brace(cap),
    ensures
        scan::cap_name(d, cap, ctr).len() >= 1,
        scan::is_word(scan::cap_name(d, cap, ctr)[0]),
        no_brace(scan::cap_name(d, cap, ctr)),
        scan::cap_name(d, cap, ctr) != seq!['_'],
        d is Actix ==> forall|k: int|
            0 <= k < scan::cap_name(d, cap, ctr).len() ==> #[trigger] scan::cap_name(
                d,
                cap,
                ctr,
            )[k] != ':',
    decreases cap.len(),
{
    reveal_strlit("arg");
    if scan::is_anon(d, cap) {
        lemma_digits_shape(ctr);
        let nm = "arg"@ + scan::dec_digits(ctr);
        assert(nm[0] == 'a');
        assert forall|k: int| 0 <= k < nm.len() implies nm[k] != '{' && nm[k] != '}' && nm[k]
            != ':' by {
            if k >= 3 {
                assert(nm[k] == scan::dec_digits(ctr)[k - 3]);
                assert(scan::is_word(scan::dec_digits(ctr)[k - 3]));
            }
        }
        assert(nm.len() >= 4);
    } else {
        lemma_raw_name_shape(d, cap);
        if d is Actix {
            scan::lemma_first_at_props(cap, ':', 0);
        }
    }
}

/// The raw name part keeps the interior's first character, stays nonempty,
/// and holds no characters beyond those of the interior's kind.
proof fn lemma_raw_name_shape(d: crate::Dialect, cap: Seq<char>)
    requires
        cap.len() >= 1,
        scan::is_word(cap[0]),
        no_brace(cap),
    ensures
        scan::raw_name(d, cap).len() >= 1,
        scan::is_word(scan::raw_name(d, cap)[0]),
        no_brace(scan::raw_name(d, cap)),
    decreases cap.len(),
{
    match d {
        crate::Dialect::Actix => {
            scan::lemma_first_at_props(cap, ':', 0);
        },
        crate::Dialect::Rocket => {
            assert(cap[0] != '.');
            let tail = cap.subrange(1, cap.len() as int);
            lemma_strip_nobrace(d, tail);
            assert(scan::raw_name(d, cap) =~= seq![cap[0]] + scan::raw_name(d, tail));
        },
    }
}

/// Removing `..` pairs introduces no brace characters.
proof fn lemma_strip_nobrace(d: crate::Dialect, cap: Seq<char>)
    requires
        d is Rocket,
        no_brace(cap),
    ensures
        no_brace(scan::raw_name(d, cap)),
    decreases cap.len(),
{
    if cap.len() >= 2 && cap[0] == '.' && cap[1] == '.' {
        lemma_strip_nobrace(d, cap.subrange(2, cap.len() as int));
    } else if cap.len() >= 1 {
        lemma_strip_nobrace(d, cap.subrange(1, cap.len() as int));
    }
}

/// How many placeholders a canonical text holds: the captures a brace scan
/// of it finds.
pub open spec fn placeholder_count(s: Seq<char>) -> nat {
    scan::scan(crate::Dialect::Actix, s, 0, 0).1.len()
}

/// A leading non-brace character leaves the placeholder count unchanged.
proof fn lemma_count_literal_prepend(c: char, t: Seq<char>)
    requires
        c != '{',
    ensures
        placeholder_count(seq![c] + t) == placeholder_count(t),
{
    let s = seq![c] + t;
    let d = crate::Dialect::Actix;
    assert(s[0] == c);
    assert(scan::match_end(d, s, 0) is None);
    assert(suffix_eq(s, 1, t, 0));
    lemma_scan_shift(d, s, 1, t, 0, 0);
}

/// A leading well-formed placeholder raises the placeholder count by one.
proof fn lemma_count_placeholder_prepend(nm: Seq<char>, t: Seq<char>)
    requires
        nm.len() >= 1,
        scan::is_word(nm[0]),
        no_brace(nm),
    ensures
        placeholder_count(seq!['{'] + nm + seq!['}'] + t) == 1 + placeholder_count(t),
{
    let s = seq!['{'] + nm + seq!['}'] + t;
    let d = crate::Dialect::Actix;
    let j = 1 + nm.len() as int;
    assert(s[0] == '{');
    assert(s[1] == nm[0]);
    assert(s[j] == '}');
    assert forall|k: int| 2 <= k < j implies !scan::is_delim(d, s[k]) by {
        assert(s[k] == nm[k - 1]);
    }
    scan::lemma_first_delim_exact(d, s, 2, j);
    assert(scan::match_end(d, s, 0) == Some(j));
    let cap = s.subrange(1, j);
    assert(cap =~= nm);
    let ctr2: nat = if scan::is_anon(d, cap) {
        1
    } else {
        0
    };
    assert(suffix_eq(s, j + 1, t, 0));
    lemma_scan_shift(d, s, j + 1, t, 0, ctr2);
    lemma_scan_names_len_ctr(d, t, 0, ctr2, 0);
}

/// For a raw path whose literal text and capture interiors hold no braces,
/// the canonical output holds exactly one `{name}` placeholder per capture,
/// and the capture list one entry per capture, in appearance order.
pub proof fn lemma_canonical_placeholder_count(d: crate::Dialect, s: Seq<char>, i: int, ctr: nat)
    requires
        brace_clean(d, s, i),
    ensures
        placeholder_count(scan::scan(d, s, i, ctr).0) == scan::scan(d, s, i, ctr).1.len(),
    decreases s.len() - i,
{
    let out = scan::scan(d, s, i, ctr).0;
    if 0 <= i < s.len() {
        match scan::match_end(d, s, i) {
            Some(j) => {
                scan::lemma_match_end_props(d, s, i);
                let cap = s.subrange(i + 1, j);
                assert(cap[0] == s[i + 1]);
                let nm = scan::cap_name(d, cap, ctr);
                lemma_cap_name_shape(d, cap, ctr);
                let ctr2: nat = if scan::is_anon(d, cap) {
                    ctr + 1
                } else {
                    ctr
                };
                lemma_canonical_placeholder_count(d, s, j + 1, ctr2);
                let rest0 = scan::scan(d, s, j + 1, ctr2).0;
                lemma_count_placeholder_prepend(nm, rest0);
                assert(out =~= seq!['{'] + nm + seq!['}'] + rest0);
            },
            None => {
                lemma_canonical_placeholder_count(d, s, i + 1, ctr);
                let rest0 = scan::scan(d, s, i + 1, ctr).0;
                lemma_count_literal_prepend(s[i], rest0);
                assert(out =~= seq![s[i]] + rest0);
            },
        }
    } else {
        assert(out =~= Seq::<char>::empty());
        assert(placeholder_count(out) == 0);
    }
}

/// A leading non-brace character adds no capture to a brace rescan.
proof fn lemma_rescan_literal_prepend(c: char, t: Seq<char>, ctr: nat)
    requires
        c != '{',
    ensures
        scan::scan(crate::Dialect::Actix, seq![c] + t, 0, ctr) == (
            seq![c] + scan::scan(crate::Dialect::Actix, t, 0, ctr).0,
            scan::scan(crate::Dialect::Actix, t, 0, ctr).1,
            scan::scan(crate::Dialect::Actix, t, 0, ctr).2,
        ),
{
    let d = crate::Dialect::Actix;
    let s = seq![c] + t;
    assert(s[0] == c);
    assert(scan::match_end(d, s, 0) is None);
    assert(suffix_eq(s, 1, t, 0));
    lemma_scan_shift(d, s, 1, t, 0, ctr);
}

/// A leading canonical placeholder rescans as exactly its own capture,
/// under its own name, leaving the counter alone.
proof fn lemma_rescan_placeholder_prepend(nm: Seq<char>, t: Seq<char>, ctr: nat)
    requires
        nm.len() >= 1,
        scan::is_word(nm[0]),
        no_brace(nm),
        nm != seq!['_'],
        forall|k: int| 0 <= k < nm.len() ==> nm[k] != ':',
    ensures
        scan::scan(crate::Dialect::Actix, seq!['{'] + nm + seq!['}'] + t, 0, ctr) == (
            seq!['{'] + nm + seq!['}'] + scan::scan(crate::Dialect::Actix, t, 0, ctr).0,
            seq![nm] + scan::scan(crate::Dialect::Actix, t, 0, ctr).1,
            scan::scan(crate::Dialect::Actix, t, 0, ctr).2,
        ),
{
    let s = seq!['{'] + nm + seq!['}'] + t;
    let d = crate::Dialect::Actix;
    let j = 1 + nm.len() as int;
    assert(s[0] == '{');
    assert(s[1] == nm[0]);
    assert(s[j] == '}');
    assert forall|k: int| 2 <= k < j implies !scan::is_delim(d, s[k]) by {
        assert(s[k] == nm[k - 1]);
    }
    scan::lemma_first_delim_exact(d, s, 2, j);
    assert(scan::match_end(d, s, 0) == Some(j));
    let cap = s.subrange(1, j);
    assert(cap =~= nm);
    scan::lemma_first_at_props(nm, ':', 0);
    assert(scan::first_at(nm, ':', 0) is None) by {
        match scan::first_at(nm, ':', 0) {
            Some(k) => {
                assert(nm[k] == ':');
            },
            None => {},
        }
    }
    assert(scan::raw_name(d, nm) == nm);
    assert(!scan::is_anon(d, nm));
    assert(scan::cap_name(d, nm, ctr) == nm);
    assert(suffix_eq(s, j + 1, t, 0));
    lemma_scan_shift(d, s, j + 1, t, 0, ctr);
}

/// Normalization is idempotent for the brace dialect: scanning the
/// canonical output again leaves the text unchanged and finds exactly the
/// same captures, under the same names, whatever the counter.
pub proof fn lemma_rescan_fixed_point(d: crate::Dialect, s: Seq<char>, i: int, ctr: nat, rc: nat)
    requires
        brace_clean(d, s, i),
        d is Actix,
    ensures
        scan::scan(d, scan::scan(d, s, i, ctr).0, 0, rc) == (
            scan::scan(d, s, i, ctr).0,
            scan::scan(d, s, i, ctr).1,
            rc,
        ),
    decreases s.len() - i,
{
    let out = scan::scan(d, s, i, ctr).0;
    if 0 <= i < s.len() {
        match scan::match_end(d, s, i) {
            Some(j) => {
                scan::lemma_match_end_props(d, s, i);
                let cap = s.subrange(i + 1, j);
                assert(cap[0] == s[i + 1]);
                let nm = scan::cap_name(d, cap, ctr);
                lemma_cap_name_shape(d, cap, ctr);
                let ctr2: nat = if scan::is_anon(d, cap) {
                    ctr + 1
                } else {
                    ctr
                };
                lemma_rescan_fixed_point(d, s, j + 1, ctr2, rc);
                let rest0 = scan::scan(d, s, j + 1, ctr2).0;
                lemma_rescan_placeholder_prepend(nm, rest0, rc);
                assert(out =~= seq!['{'] + nm + seq!['}'] + rest0);
                assert(scan::scan(d, out, 0, rc).0 =~= out);
                assert(scan::scan(d, out, 0, rc).1 =~= scan::scan(d, s, i, ctr).1);
            },
            None => {
                lemma_rescan_fixed_point(d, s, i + 1, ctr, rc);
                let rest0 = scan::scan(d, s, i + 1, ctr).0;
                lemma_rescan_literal_prepend(s[i], rest0, rc);
                assert(out =~= seq![s[i]] + rest0);
                assert(scan::scan(d, out, 0, rc).0 =~= out);
            },
        }
    } else {
        assert(out =~= Seq::<char>::empty());
    }
}

/// Idempotence at the brace dialect's entry point: resolving a canonical
/// path again returns it unchanged, with the same captures.
pub proof fn lemma_actix_normalization_idempotent(s: Seq<char>)
    requires
        brace_clean(crate::Dialect::Actix, s, 0),
    ensures
        crate::actix::spec_resolved(crate::actix::spec_resolved(s).0)
            == crate::actix::spec_resolved(s),
{
    lemma_rescan_fixed_point(crate::Dialect::Actix, s, 0, 0, 0);
}

/// The placeholder-count law at the brace dialect's entry point.
pub proof fn lemma_actix_canonical_count(s: Seq<char>)
    requires
        brace_clean(crate::Dialect::Actix, s, 0),
    ensures
        placeholder_count(crate::actix::spec_resolved(s).0) == crate::actix::spec_resolved(
            s,
        ).1.len(),
{
    lemma_canonical_placeholder_count(crate::Dialect::Actix, s, 0, 0);
}

/// The placeholder-count law at the angle dialect's entry point, for a raw
/// path without a query separator.
pub proof fn lemma_rocket_canonical_count(s: Seq<char>)
    requires
        scan::first_at(s, '?', 0) is None,
        brace_clean(crate::Dialect::Rocket, s, 0),
    ensures
        placeholder_count(rocket::spec_resolved(s).0) == rocket::spec_resolved(s).1.len(),
{
    lemma_canonical_placeholder_count(crate::Dialect::Rocket, s, 0, 0);
}

} // verus!
