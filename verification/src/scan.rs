//! The placeholder scanner: finds dialect-specific captures in a raw path,
//! rewrites each to the canonical `{name}` form, and collects the capture
//! names in order of appearance.
//!
//! A capture starts at a dialect's opening delimiter, its first interior
//! character is a word character, the rest of the interior is free of both
//! delimiters, and it ends at the dialect's closing delimiter. Scanning is
//! left to right; text outside captures is copied unchanged.

use vstd::prelude::*;

use crate::Dialect;
use crate::strutil;

verus! {

/// A word character: an ASCII letter, a digit, or an underscore.
pub open spec fn is_word(c: char) -> bool {
    ('a' <= c && c <= 'z') || ('A' <= c && c <= 'Z') || ('0' <= c && c <= '9') || c == '_'
}

fn is_word_char(c: char) -> (r: bool)
    ensures
        r == is_word(c),
{
    ('a' <= c && c <= 'z') || ('A' <= c && c <= 'Z') || ('0' <= c && c <= '9') || c == '_'
}

/// The capture-opening delimiter of a dialect.
pub open spec fn open_delim(d: Dialect) -> char {
    match d {
        Dialect::Actix => '{',
        Dialect::Rocket => '<',
    }
}

/// The capture-closing delimiter of a dialect.
pub open spec fn close_delim(d: Dialect) -> char {
    match d {
        Dialect::Actix => '}',
        Dialect::Rocket => '>',
    }
}

/// Whether a character is one of the dialect's two delimiters.
pub open spec fn is_delim(d: Dialect, c: char) -> bool {
    c == open_delim(d) || c == close_delim(d)
}

/// The first position at or after `i` holding one of the dialect's delimiters.
pub open spec fn first_delim(d: Dialect, s: Seq<char>, i: int) -> Option<int>
    decreases s.len() - i,
{
    if i < 0 || i >= s.len() {
        None
    } else if is_delim(d, s[i]) {
        Some(i)
    } else {
        first_delim(d, s, i + 1)
    }
}

/// A found delimiter lies in range, is a delimiter, and nothing before it is one.
pub proof fn lemma_first_delim_props(d: Dialect, s: Seq<char>, i: int)
    ensures
        first_delim(d, s, i) matches Some(j) ==> i <= j < s.len() && is_delim(d, s[j]) && (forall|
            k: int,
        |
            i <= k < j ==> !is_delim(d, s[k])),
        0 <= i && first_delim(d, s, i) is None ==> forall|k: int|
            i <= k < s.len() ==> !is_delim(d, s[k]),
    decreases s.len() - i,
{
    if 0 <= i < s.len() && !is_delim(d, s[i]) {
        lemma_first_delim_props(d, s, i + 1);
    }
}

/// If a delimiter stands at `j` and none before it from `i` on, the scan finds `j`.
pub proof fn lemma_first_delim_exact(d: Dialect, s: Seq<char>, i: int, j: int)
    requires
        0 <= i <= j < s.len(),
        is_delim(d, s[j]),
        forall|k: int| i <= k < j ==> !is_delim(d, s[k]),
    ensures
        first_delim(d, s, i) == Some(j),
    decreases j - i,
{
    if i < j {
        lemma_first_delim_exact(d, s, i + 1, j);
    }
}

/// The first position at or after `i` holding the character `ch`.
pub open spec fn first_at(s: Seq<char>, ch: char, i: int) -> Option<int>
    decreases s.len() - i,
{
    if i < 0 || i >= s.len() {
        None
    } else if s[i] == ch {
        Some(i)
    } else {
        first_at(s, ch, i + 1)
    }
}

/// A found character lies in range and nothing before it matches.
pub proof fn lemma_first_at_props(s: Seq<char>, ch: char, i: int)
    ensures
        first_at(s, ch, i) matches Some(j) ==> i <= j < s.len() && s[j] == ch && (forall|k: int|
            i <= k < j ==> s[k] != ch),
        0 <= i && first_at(s, ch, i) is None ==> forall|k: int| i <= k < s.len() ==> s[k] != ch,
    decreases s.len() - i,
{
    if 0 <= i < s.len() && s[i] != ch {
        lemma_first_at_props(s, ch, i + 1);
    }
}

/// Where a capture starting at `i` ends: the position of its closing
/// delimiter, or `None` if no capture starts at `i`.
pub open spec fn match_end(d: Dialect, s: Seq<char>, i: int) -> Option<int> {
    if 0 <= i && i + 1 < s.len() && s[i] == open_delim(d) && is_word(s[i + 1]) {
        match first_delim(d, s, i + 2) {
            Some(j) => if s[j] == close_delim(d) {
                Some(j)
            } else {
                None
            },
            None => None,
        }
    } else {
        None
    }
}

/// A capture's end lies at least two places past its start, within the text.
pub proof fn lemma_match_end_props(d: Dialect, s: Seq<char>, i: int)
    ensures
        match_end(d, s, i) matches Some(j) ==> i + 2 <= j < s.len(),
{
    lemma_first_delim_props(d, s, i + 2);
}

/// The decimal digit character for `n % 10`.
pub open spec fn digit_char(n: nat) -> char {
    ((48 + (n % 10)) as u32) as char
}

/// The decimal numeral of `n`, as characters.
pub open spec fn dec_digits(n: nat) -> Seq<char>
    decreases n,
{
    if n < 10 {
        seq![digit_char(n)]
    } else {
        dec_digits(n / 10).push(digit_char(n % 10))
    }
}

/// The decimal numeral of `n`.
pub fn digits_of(n: usize) -> (r: Vec<char>)
    ensures
        r@ == dec_digits(n as nat),
    decreases n,
{
    if n < 10 {
        let c: char = ((48 + n as u8)) as char;
        let mut v: Vec<char> = Vec::new();
        v.push(c);
        assert(v@ =~= seq![digit_char(n as nat)]);
        v
    } else {
        assert(n / 10 < n) by (nonlinear_arith)
            requires
                n >= 10,
        ;
        let mut v = digits_of(n / 10);
        let c: char = ((48 + (n % 10) as u8)) as char;
        v.push(c);
        assert(v@ =~= dec_digits((n / 10) as nat).push(digit_char(n as nat % 10)));
        v
    }
}

/// The name part of a raw capture interior: for the brace dialect the text
/// before the first colon (an inline constraint is discarded); for the angle
/// dialect the interior with every `..` pair removed.
pub open spec fn raw_name(d: Dialect, cap: Seq<char>) -> Seq<char>
    decreases cap.len(),
{
    match d {
        Dialect::Actix => match first_at(cap, ':', 0) {
            Some(k) => cap.subrange(0, k),
            None => cap,
        },
        Dialect::Rocket => if cap.len() >= 2 && cap[0] == '.' && cap[1] == '.' {
            raw_name(d, cap.subrange(2, cap.len() as int))
        } else if cap.len() >= 1 {
            seq![cap[0]] + raw_name(d, cap.subrange(1, cap.len() as int))
        } else {
            Seq::empty()
        },
    }
}

/// Whether a capture interior is the anonymous marker.
pub open spec fn is_anon(d: Dialect, cap: Seq<char>) -> bool {
    raw_name(d, cap) == seq!['_']
}

/// The canonical name a capture receives: a synthetic `arg<N>` name for an
/// anonymous capture, its own name part otherwise.
pub open spec fn cap_name(d: Dialect, cap: Seq<char>, ctr: nat) -> Seq<char> {
    if is_anon(d, cap) {
        "arg"@ + dec_digits(ctr)
    } else {
        raw_name(d, cap)
    }
}

/// The scan of `s` from position `i` with anonymous-capture counter `ctr`:
/// the canonical text, the canonical capture names in order, and the counter
/// after the scan.
pub open spec fn scan(d: Dialect, s: Seq<char>, i: int, ctr: nat) -> (Seq<char>, Seq<Seq<char>>, nat)
    decreases s.len() - i,
        via scan_decreases
{
    if i < 0 || i >= s.len() {
        (Seq::empty(), Seq::empty(), ctr)
    } else {
        match match_end(d, s, i) {
            Some(j) => {
                let cap = s.subrange(i + 1, j);
                let nm = cap_name(d, cap, ctr);
                let c2 = if is_anon(d, cap) {
                    (ctr + 1) as nat
                } else {
                    ctr
                };
                let rest = scan(d, s, j + 1, c2);
                (seq!['{'] + nm + seq!['}'] + rest.0, seq![nm] + rest.1, rest.2)
            },
            None => {
                let rest = scan(d, s, i + 1, ctr);
                (seq![s[i]] + rest.0, rest.1, rest.2)
            },
        }
    }
}

#[via_fn]
proof fn scan_decreases(d: Dialect, s: Seq<char>, i: int, ctr: nat) {
    lemma_match_end_props(d, s, i);
}

/// The counter never falls, and rises at most by the width of what was scanned.
pub proof fn lemma_scan_ctr(d: Dialect, s: Seq<char>, i: int, ctr: nat)
    ensures
        ctr <= scan(d, s, i, ctr).2 <= ctr + if 0 <= i < s.len() {
            s.len() - i
        } else {
            0
        },
    decreases s.len() - i,
{
    if 0 <= i < s.len() {
        match match_end(d, s, i) {
            Some(j) => {
                lemma_match_end_props(d, s, i);
                let cap = s.subrange(i + 1, j);
                let c2 = if is_anon(d, cap) {
                    (ctr + 1) as nat
                } else {
                    ctr
                };
                lemma_scan_ctr(d, s, j + 1, c2);
            },
            None => {
                lemma_scan_ctr(d, s, i + 1, ctr);
            },
        }
    }
}

/// The first position at or after `from` holding one of the dialect's delimiters.
fn find_delim(d: Dialect, v: &Vec<char>, from: usize) -> (r: Option<usize>)
    ensures
        match r {
            Some(j) => first_delim(d, v@, from as int) == Some(j as int),
            None => first_delim(d, v@, from as int) is None,
        },
{
    let open: char = match d {
        Dialect::Actix => '{',
        Dialect::Rocket => '<',
    };
    let close: char = match d {
        Dialect::Actix => '}',
        Dialect::Rocket => '>',
    };
    let mut i = from;
    while i < v.len()
        invariant
            from <= i,
            open == open_delim(d),
            close == close_delim(d),
            first_delim(d, v@, from as int) == first_delim(d, v@, i as int),
        decreases v.len() - i,
    {
        let c = v[i];
        if c == open || c == close {
            return Some(i);
        }
        assert(first_delim(d, v@, i as int) == first_delim(d, v@, i + 1));
        i = i + 1;
    }
    None
}

/// The first position at or after `from` holding the character `ch`.
pub(crate) fn find_char(v: &Vec<char>, ch: char, from: usize) -> (r: Option<usize>)
    ensures
        match r {
            Some(j) => first_at(v@, ch, from as int) == Some(j as int),
            None => first_at(v@, ch, from as int) is None,
        },
{
    let mut i = from;
    while i < v.len()
        invariant
            from <= i,
            first_at(v@, ch, from as int) == first_at(v@, ch, i as int),
        decreases v.len() - i,
    {
        if v[i] == ch {
            return Some(i);
        }
        assert(first_at(v@, ch, i as int) == first_at(v@, ch, i + 1));
        i = i + 1;
    }
    None
}

/// A copy of the characters from `a` (inclusive) to `b` (exclusive).
pub(crate) fn subvec(v: &Vec<char>, a: usize, b: usize) -> (r: Vec<char>)
    requires
        a <= b <= v@.len(),
    ensures
        r@ == v@.subrange(a as int, b as int),
{
    let mut r: Vec<char> = Vec::new();
    let mut i = a;
    while i < b
        invariant
            a <= i <= b <= v@.len(),
            r@ =~= v@.subrange(a as int, i as int),
        decreases b - i,
    {
        r.push(v[i]);
        assert(r@ =~= v@.subrange(a as int, i + 1));
        i = i + 1;
    }
    r
}

/// The name part of a raw capture interior.
fn raw_name_of(d: Dialect, cap: &Vec<char>) -> (r: Vec<char>)
    ensures
        r@ == raw_name(d, cap@),
{
    match d {
        Dialect::Actix => {
            match find_char(cap, ':', 0) {
                Some(k) => {
                    proof {
                        lemma_first_at_props(cap@, ':', 0);
                    }
                    subvec(cap, 0, k)
                },
                None => {
                    proof {
                        lemma_first_at_props(cap@, ':', 0);
                    }
                    subvec(cap, 0, cap.len())
                },
            }
        },
        Dialect::Rocket => {
            let mut r: Vec<char> = Vec::new();
            let mut i: usize = 0;
            assert(cap@.subrange(0, cap@.len() as int) =~= cap@);
            while i < cap.len()
                invariant
                    i <= cap@.len(),
                    raw_name(d, cap@) == r@ + raw_name(d, cap@.subrange(i as int, cap@.len() as int)),
                    d == Dialect::Rocket,
                decreases cap@.len() - i,
            {
                let ghost tail = cap@.subrange(i as int, cap@.len() as int);
                if cap[i] == '.' && i + 1 < cap.len() && cap[i + 1] == '.' {
                    assert(tail.subrange(2, tail.len() as int) =~= cap@.subrange(
                        i + 2,
                        cap@.len() as int,
                    ));
                    i = i + 2;
                } else {
                    assert(tail.subrange(1, tail.len() as int) =~= cap@.subrange(
                        i + 1,
                        cap@.len() as int,
                    ));
                    r.push(cap[i]);
                    assert(raw_name(d, cap@) =~= r@ + raw_name(
                        d,
                        cap@.subrange(i + 1, cap@.len() as int),
                    ));
                    i = i + 1;
                }
            }
            assert(cap@.subrange(i as int, cap@.len() as int).len() == 0);
            assert(raw_name(d, cap@) =~= r@);
            r
        },
    }
}

/// Whether a name part is the anonymous marker.
fn is_anon_name(rn: &Vec<char>) -> (r: bool)
    ensures
        r == (rn@ == seq!['_']),
{
    if rn.len() == 1 && rn[0] == '_' {
        assert(rn@ =~= seq!['_']);
        true
    } else {
        assert(rn@ != seq!['_']) by {
            if rn@.len() == 1 {
                assert(rn@[0] != '_');
            }
        }
        false
    }
}

/// The result of one scan: the canonical text, the capture names in order,
/// and the anonymous-capture counter after the scan.
pub struct Scanned {
    pub text: Vec<char>,
    pub names: Vec<String>,
    pub counter: usize,
}

/// The views of a list of names.
pub open spec fn names_view(names: Seq<String>) -> Seq<Seq<char>> {
    names.map_values(|n: String| n@)
}

/// Scan `v`, rewriting every capture to `{name}` and collecting the names.
pub fn scan_path(d: Dialect, v: &Vec<char>, ctr0: usize) -> (r: Scanned)
    requires
        ctr0 + v@.len() <= usize::MAX,
    ensures
        r.text@ == scan(d, v@, 0, ctr0 as nat).0,
        names_view(r.names@) == scan(d, v@, 0, ctr0 as nat).1,
        r.counter == scan(d, v@, 0, ctr0 as nat).2,
{
    let ghost total = scan(d, v@, 0, ctr0 as nat);
    let mut out: Vec<char> = Vec::new();
    let mut names: Vec<String> = Vec::new();
    let mut ctr: usize = ctr0;
    let mut i: usize = 0;
    while i < v.len()
        invariant
            i <= v@.len(),
            ctr0 <= ctr,
            ctr - ctr0 <= i,
            ctr0 + v@.len() <= usize::MAX,
            total == scan(d, v@, 0, ctr0 as nat),
            ({
                let rest = scan(d, v@, i as int, ctr as nat);
                total.0 == out@ + rest.0 && total.1 == names_view(names@) + rest.1 && total.2
                    == rest.2
            }),
        decreases v@.len() - i,
    {
        let ghost rest = scan(d, v@, i as int, ctr as nat);
        let open: char = match d {
            Dialect::Actix => '{',
            Dialect::Rocket => '<',
        };
        let close: char = match d {
            Dialect::Actix => '}',
            Dialect::Rocket => '>',
        };
        let mut matched: Option<usize> = None;
        if v[i] == open && i + 1 < v.len() && is_word_char(v[i + 1]) {
            match find_delim(d, v, i + 2) {
                Some(j) => {
                    proof {
                        lemma_first_delim_props(d, v@, i + 2);
                    }
                    if v[j] == close {
                        matched = Some(j);
                    }
                },
                None => {},
            }
        }
        match matched {
            Some(j) => {
                assert(match_end(d, v@, i as int) == Some(j as int));
                proof {
                    lemma_match_end_props(d, v@, i as int);
                }
                let cap = subvec(v, i + 1, j);
                let rn = raw_name_of(d, &cap);
                let anon = is_anon_name(&rn);
                let nm: Vec<char> = if anon {
                    let mut n: Vec<char> = Vec::new();
                    n.push('a');
                    n.push('r');
                    n.push('g');
                    let mut ds = digits_of(ctr);
                    n.append(&mut ds);
                    proof {
                        reveal_strlit("arg");
                        assert(n@ =~= "arg"@ + dec_digits(ctr as nat));
                    }
                    n
                } else {
                    rn
                };
                assert(nm@ == cap_name(d, cap@, ctr as nat));
                let nm_s = crate::strutil::string_of(&nm);
                out.push('{');
                let mut nm2 = nm;
                let ghost nm_view = nm2@;
                out.append(&mut nm2);
                out.push('}');
                names.push(nm_s);
                if anon {
                    ctr = ctr + 1;
                }
                i = j + 1;
                proof {
                    let rest2 = scan(d, v@, i as int, ctr as nat);
                    assert(rest.0 =~= seq!['{'] + nm_view + seq!['}'] + rest2.0);
                    assert(total.0 =~= out@ + rest2.0);
                    assert(rest.1 =~= seq![nm_view] + rest2.1);
                    assert(names_view(names@) =~= names_view(names@.drop_last()) + seq![
                        names@.last()@,
                    ]);
                    assert(total.1 =~= names_view(names@) + rest2.1);
                }
            },
            None => {
                assert(match_end(d, v@, i as int) is None) by {
                    lemma_first_delim_props(d, v@, i + 2);
                }
                out.push(v[i]);
                i = i + 1;
                proof {
                    let rest2 = scan(d, v@, i as int, ctr as nat);
                    assert(rest.0 =~= seq![v@[i - 1]] + rest2.0);
                    assert(total.0 =~= out@ + rest2.0);
                    assert(total.1 =~= names_view(names@) + rest2.1);
                }
            },
        }
    }
    proof {
        let rest = scan(d, v@, i as int, ctr as nat);
        assert(rest.0 =~= Seq::<char>::empty());
        assert(total.0 =~= out@);
        assert(total.1 =~= names_view(names@));
    }
    Scanned { text: out, names, counter: ctr }
}

} // verus!
