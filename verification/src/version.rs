//! Reading the Rust toolchain version reported by `rustc --version`, and the
//! minimum version that the tool asks for.

use vstd::prelude::*;
use crate::text::{
    chars_of, char_rows, dec, is_digit, is_ws, lemma_dec_digits, lemma_split_nonempty,
    lemma_words_nonempty, parse_u32, parse_u32_spec, split_chars, split_on, split_words, words,
};

verus! {

/// Lowest supported major version of the Rust toolchain.
pub const MIN_RUST_MAJOR: u32 = 1;

/// Lowest supported minor version (with `MIN_RUST_MAJOR`): edition 2021.
pub const MIN_RUST_MINOR: u32 = 56;

/// The `(major, minor)` pair read from a `rustc X.Y.Z ...` banner: the
/// second whitespace-separated word is split on `.`, and its first two
/// pieces must both read as `u32`.
pub open spec fn rustc_version_spec(s: Seq<char>) -> Option<(u32, u32)> {
    let ws = words(s);
    if ws.len() < 2 {
        None
    } else {
        let parts = split_on(ws[1], '.');
        if parts.len() < 2 {
            None
        } else {
            match (parse_u32_spec(parts[0]), parse_u32_spec(parts[1])) {
                (Some(major), Some(minor)) => Some((major, minor)),
                _ => None,
            }
        }
    }
}

/// A toolchain version meets the minimum.
pub open spec fn meets_minimum(major: u32, minor: u32) -> bool {
    major > MIN_RUST_MAJOR || (major == MIN_RUST_MAJOR && minor >= MIN_RUST_MINOR)
}

/// Versions are ordered major first, then minor: a version at or above one
/// that meets the minimum meets it too.
pub proof fn lemma_meets_minimum_monotone(major1: u32, minor1: u32, major2: u32, minor2: u32)
    requires
        meets_minimum(major1, minor1),
        major1 < major2 || (major1 == major2 && minor1 <= minor2),
    ensures
        meets_minimum(major2, minor2),
{
}

/// The minimum is 1.56: 1.56 meets it, 1.55 does not, no 0.x release does,
/// and every 2.x release does.
pub proof fn lemma_minimum_is_1_56(minor: u32)
    ensures
        meets_minimum(1, 56),
        !meets_minimum(1, 55),
        !meets_minimum(0, minor),
        meets_minimum(2, minor),
{
}

/// A toolchain meets the minimum exactly when its `(major, minor)` is at or
/// above `(1, 56)` in the order that compares majors first.
pub proof fn lemma_meets_minimum_lexicographic(major: u32, minor: u32)
    ensures
        meets_minimum(major, minor) <==> (major > 1 || (major == 1 && minor >= 56)),
{
}

/// Parse "rustc X.Y.Z ..." into `(X, Y)`.
pub fn parse_rustc_version(s: &str) -> (r: Option<(u32, u32)>)
    ensures
        r == rustc_version_spec(s@),
{
    let cs = chars_of(s);
    let ws = split_words(&cs);
    if ws.len() < 2 {
        return None;
    }
    assert(char_rows(ws@)[1] == ws@[1]@);
    let parts = split_chars(&ws[1], '.');
    if parts.len() < 2 {
        return None;
    }
    assert(char_rows(parts@)[0] == parts@[0]@);
    assert(char_rows(parts@)[1] == parts@[1]@);
    let major = match parse_u32(&parts[0]) {
        Some(v) => v,
        None => {
            return None;
        },
    };
    let minor = match parse_u32(&parts[1]) {
        Some(v) => v,
        None => {
            return None;
        },
    };
    Some((major, minor))
}

/// What `rustc --version` said about the toolchain.
#[derive(Debug, Clone, Copy, PartialEq, Eq, Structural)]
pub enum RustVersionCheck {
    /// The version was read and meets the minimum.
    Supported { major: u32, minor: u32 },
    /// The version was read and is older than the minimum.
    TooOld { major: u32, minor: u32 },
    /// The output does not hold a version in the expected shape.
    Unrecognized,
}

/// How `doctor` classifies the output of `rustc --version`.
pub open spec fn rust_version_check_spec(version_output: Seq<char>) -> RustVersionCheck {
    match rustc_version_spec(version_output) {
        Some((major, minor)) => if meets_minimum(major, minor) {
            RustVersionCheck::Supported { major, minor }
        } else {
            RustVersionCheck::TooOld { major, minor }
        },
        None => RustVersionCheck::Unrecognized,
    }
}

/// Classifies the output of `rustc --version` against the minimum version.
pub fn check_rust_version_output(version_output: &str) -> (r: RustVersionCheck)
    ensures
        r == rust_version_check_spec(version_output@),
{
    match parse_rustc_version(version_output) {
        Some((major, minor)) => {
            if major > MIN_RUST_MAJOR || (major == MIN_RUST_MAJOR && minor >= MIN_RUST_MINOR) {
                RustVersionCheck::Supported { major, minor }
            } else {
                RustVersionCheck::TooOld { major, minor }
            }
        },
        None => RustVersionCheck::Unrecognized,
    }
}

// ---------------------------------------------------------------------------
// Read-back of a rendered version banner
// ---------------------------------------------------------------------------

/// No character of `s` is whitespace.
pub open spec fn no_ws(s: Seq<char>) -> bool {
    forall|i: int| 0 <= i < s.len() ==> !is_ws(#[trigger] s[i])
}

/// No character of `s` is `sep`.
pub open spec fn no_sep(s: Seq<char>, sep: char) -> bool {
    forall|i: int| 0 <= i < s.len() ==> #[trigger] s[i] != sep
}

/// Words of a concatenation, when the two parts meet at whitespace.
pub proof fn lemma_words_concat(p: Seq<char>, t: Seq<char>)
    requires
        p.len() == 0 || t.len() == 0 || is_ws(p.last()) || is_ws(t[0]),
    ensures
        words(p + t) == words(p) + words(t),
    decreases t.len(),
{
    if t.len() == 0 {
        assert(p + t =~= p);
        assert(words(p) + words(t) =~= words(p));
    } else {
        let t2 = t.drop_last();
        let c = t.last();
        lemma_words_concat(p, t2);
        assert((p + t).drop_last() =~= p + t2);
        assert((p + t).last() == c);
        if !is_ws(c) {
            if t2.len() > 0 {
                assert((p + t)[(p + t).len() - 2] == t2.last());
                assert(t[t.len() - 2] == t2.last());
                if !is_ws(t2.last()) {
                    lemma_words_nonempty(t2);
                }
            } else {
                assert(t2 =~= Seq::<char>::empty());
                assert(p + t2 =~= p);
                if p.len() > 0 {
                    assert((p + t)[(p + t).len() - 2] == p.last());
                }
            }
        }
        assert(words(p + t) =~= words(p) + words(t));
    }
}

/// A non-empty run without whitespace is one word.
pub proof fn lemma_words_single(w: Seq<char>)
    requires
        w.len() > 0,
        no_ws(w),
    ensures
        words(w) == seq![w],
    decreases w.len(),
{
    let w2 = w.drop_last();
    if w2.len() == 0 {
        assert(words(w2) =~= Seq::<Seq<char>>::empty());
        assert(seq![w.last()] =~= w);
    } else {
        lemma_words_single(w2);
        assert(w[w.len() - 2] == w2.last());
        assert(w2.push(w.last()) =~= w);
    }
}

/// A text that is all whitespace has no words.
pub proof fn lemma_words_blank(s: Seq<char>)
    requires
        forall|i: int| 0 <= i < s.len() ==> is_ws(#[trigger] s[i]),
    ensures
        words(s) == Seq::<Seq<char>>::empty(),
    decreases s.len(),
{
    if s.len() > 0 {
        lemma_words_blank(s.drop_last());
        assert(is_ws(s[s.len() - 1]));
    }
}

/// Pieces of a concatenation around one separator.
pub proof fn lemma_split_concat(p: Seq<char>, sep: char, t: Seq<char>)
    ensures
        split_on(p.push(sep) + t, sep) == split_on(p, sep) + split_on(t, sep),
    decreases t.len(),
{
    lemma_split_nonempty(t, sep);
    if t.len() == 0 {
        assert(p.push(sep) + t =~= p.push(sep));
        assert((p.push(sep)).drop_last() =~= p);
        assert(split_on(p, sep) + split_on(t, sep) =~= split_on(p, sep).push(seq![]));
    } else {
        let t2 = t.drop_last();
        lemma_split_concat(p, sep, t2);
        lemma_split_nonempty(t2, sep);
        assert((p.push(sep) + t).drop_last() =~= p.push(sep) + t2);
        assert((p.push(sep) + t).last() == t.last());
        assert(split_on(p.push(sep) + t, sep) =~= split_on(p, sep) + split_on(t, sep));
    }
}

/// A run without the separator is one piece.
pub proof fn lemma_split_single(w: Seq<char>, sep: char)
    requires
        no_sep(w, sep),
    ensures
        split_on(w, sep) == seq![w],
    decreases w.len(),
{
    if w.len() > 0 {
        lemma_split_single(w.drop_last(), sep);
        assert(w.drop_last().push(w.last()) =~= w);
    } else {
        assert(w =~= Seq::<char>::empty());
    }
}

/// Decimal text reads back as its value.
pub proof fn lemma_parse_dec(n: u32)
    ensures
        parse_u32_spec(dec(n as nat)) == Some(n),
        no_ws(dec(n as nat)),
        no_sep(dec(n as nat), '.'),
{
    lemma_dec_digits(n as nat);
    let d = dec(n as nat);
    assert(is_digit(d[0]));
    assert forall|i: int| 0 <= i < d.len() implies !is_ws(#[trigger] d[i]) by {
        assert(is_digit(d[i]));
    }
    assert forall|i: int| 0 <= i < d.len() implies #[trigger] d[i] != '.' by {
        assert(is_digit(d[i]));
    }
}

/// A banner `rustc M.m.p` followed by anything that starts with whitespace
/// (such as ` (hash date)`) reads back as `(M, m)`.
pub proof fn lemma_rustc_banner_read_back(major: u32, minor: u32, patch: u32, tail: Seq<char>)
    requires
        tail.len() == 0 || is_ws(tail[0]),
    ensures
        rustc_version_spec("rustc "@ + dec(major as nat) + "."@ + dec(minor as nat) + "."@ + dec(
            patch as nat,
        ) + tail) == Some((major, minor)),
{
    reveal_strlit("rustc ");
    reveal_strlit(".");
    let a = dec(major as nat);
    let b = dec(minor as nat);
    let c = dec(patch as nat);
    lemma_parse_dec(major);
    lemma_parse_dec(minor);
    lemma_parse_dec(patch);
    let x = a + "."@ + b + "."@ + c;
    assert(no_ws(x)) by {
        assert forall|i: int| 0 <= i < x.len() implies !is_ws(#[trigger] x[i]) by {
            if i < a.len() {
                assert(x[i] == a[i]);
            } else if i == a.len() {
                assert(x[i] == '.');
            } else if i < a.len() + 1 + b.len() {
                assert(x[i] == b[i - a.len() - 1]);
            } else if i == a.len() + 1 + b.len() {
                assert(x[i] == '.');
            } else {
                assert(x[i] == c[i - a.len() - 2 - b.len()]);
            }
        }
    }
    let rustc_word = seq!['r', 'u', 's', 't', 'c'];
    assert("rustc "@ =~= rustc_word.push(' '));
    assert(no_ws(rustc_word));
    lemma_words_single(rustc_word);
    lemma_words_single(x);
    assert(words(seq![' ']) =~= Seq::<Seq<char>>::empty()) by {
        assert(seq![' '].drop_last() =~= Seq::<char>::empty());
        assert((' ' as u32) == 0x20);
        assert(is_ws(seq![' '].last()));
        assert(words(Seq::<char>::empty()) =~= Seq::<Seq<char>>::empty());
    }
    lemma_words_concat(rustc_word, seq![' ']);
    assert(rustc_word + seq![' '] =~= "rustc "@);
    lemma_words_concat(x, tail);
    let full = "rustc "@ + a + "."@ + b + "."@ + c + tail;
    assert(full =~= "rustc "@ + (x + tail));
    lemma_words_concat("rustc "@, x + tail);
    assert(words(full) =~= seq![rustc_word, x] + words(tail));
    assert(words(full)[1] == x);
    // pieces of the version word
    lemma_split_single(a, '.');
    lemma_split_single(b, '.');
    lemma_split_single(c, '.');
    lemma_split_concat(b, '.', c);
    assert(b + "."@ + c =~= b.push('.') + c);
    lemma_split_concat(a, '.', b + "."@ + c);
    assert(x =~= a.push('.') + (b + "."@ + c));
    assert(split_on(x, '.') =~= seq![a, b, c]);
}

/// A banner `rustc M.m.p ...` is classified by its `(M, m)` alone: supported
/// when `(M, m)` is at or above `(1, 56)` comparing majors first, too old
/// otherwise, and never unrecognized.
pub proof fn lemma_banner_classification(major: u32, minor: u32, patch: u32, tail: Seq<char>)
    requires
        tail.len() == 0 || is_ws(tail[0]),
    ensures
        rust_version_check_spec(
            "rustc "@ + dec(major as nat) + "."@ + dec(minor as nat) + "."@ + dec(patch as nat)
                + tail,
        ) == (if major > 1 || (major == 1 && minor >= 56) {
            RustVersionCheck::Supported { major, minor }
        } else {
            RustVersionCheck::TooOld { major, minor }
        }),
{
    lemma_rustc_banner_read_back(major, minor, patch, tail);
    lemma_meets_minimum_lexicographic(major, minor);
}

} // verus!
