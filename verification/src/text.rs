//! Character-level text helpers shared by the parsers and renderers:
//! whitespace, trimming, splitting, decimal digits.

use vstd::prelude::*;
use vstd::utf8::{decode_utf8, encode_utf8, encode_utf8_decode_utf8, is_char_boundary};

verus! {

// ---------------------------------------------------------------------------
// Specifications
// ---------------------------------------------------------------------------

/// The Unicode `White_Space` property, which `char::is_whitespace` tests.
pub open spec fn is_ws(c: char) -> bool {
    let u = c as u32;
    ||| 0x09 <= u <= 0x0d
    ||| u == 0x20
    ||| u == 0x85
    ||| u == 0xa0
    ||| u == 0x1680
    ||| 0x2000 <= u <= 0x200a
    ||| u == 0x2028
    ||| u == 0x2029
    ||| u == 0x202f
    ||| u == 0x205f
    ||| u == 0x3000
}

/// `s` without its leading whitespace.
pub open spec fn trim_start(s: Seq<char>) -> Seq<char>
    decreases s.len(),
{
    if s.len() > 0 && is_ws(s[0]) {
        trim_start(s.drop_first())
    } else {
        s
    }
}

/// `s` without its trailing whitespace.
pub open spec fn trim_end(s: Seq<char>) -> Seq<char>
    decreases s.len(),
{
    if s.len() > 0 && is_ws(s.last()) {
        trim_end(s.drop_last())
    } else {
        s
    }
}

/// `s` without leading and trailing whitespace (`str::trim`).
pub open spec fn trim(s: Seq<char>) -> Seq<char> {
    trim_end(trim_start(s))
}

/// The maximal runs of non-whitespace characters of `s`, in order
/// (`str::split_whitespace`), described one character at a time.
pub open spec fn words(s: Seq<char>) -> Seq<Seq<char>>
    decreases s.len(),
{
    if s.len() == 0 {
        seq![]
    } else {
        let prev = words(s.drop_last());
        let c = s.last();
        if is_ws(c) {
            prev
        } else if s.len() > 1 && !is_ws(s[s.len() - 2]) {
            prev.update(prev.len() - 1, prev.last().push(c))
        } else {
            prev.push(seq![c])
        }
    }
}

/// The pieces of `s` between occurrences of `sep` (`str::split` on a
/// character), described one character at a time: an empty text has one
/// empty piece, a separator opens a new piece, any other character extends
/// the last piece.
pub open spec fn split_on(s: Seq<char>, sep: char) -> Seq<Seq<char>>
    decreases s.len(),
{
    if s.len() == 0 {
        seq![seq![]]
    } else {
        let prev = split_on(s.drop_last(), sep);
        let c = s.last();
        if c == sep {
            prev.push(seq![])
        } else {
            prev.update(prev.len() - 1, prev.last().push(c))
        }
    }
}

/// An ASCII decimal digit.
pub open spec fn is_digit(c: char) -> bool {
    48 <= (c as u32) <= 57
}

/// The value of an ASCII decimal digit.
pub open spec fn digit_value(c: char) -> nat {
    ((c as u32) - 48) as nat
}

/// Every character of `s` is an ASCII decimal digit.
pub open spec fn all_digits(s: Seq<char>) -> bool {
    forall|i: int| 0 <= i < s.len() ==> #[trigger] is_digit(s[i])
}

/// The number written by the decimal digits `s` (most significant first).
pub open spec fn digits_value(s: Seq<char>) -> nat
    decreases s.len(),
{
    if s.len() == 0 {
        0
    } else {
        digits_value(s.drop_last()) * 10 + digit_value(s.last())
    }
}

/// What `s.parse::<u32>()` gives: an optional `+`, then at least one decimal
/// digit, with a value that fits in 32 bits.
pub open spec fn parse_u32_spec(s: Seq<char>) -> Option<u32> {
    let d = if s.len() > 0 && s[0] == '+' {
        s.drop_first()
    } else {
        s
    };
    if d.len() > 0 && all_digits(d) && digits_value(d) <= u32::MAX {
        Some(digits_value(d) as u32)
    } else {
        None
    }
}

/// The character of a decimal digit value.
pub open spec fn digit_char(d: nat) -> char {
    if d == 0 {
        '0'
    } else if d == 1 {
        '1'
    } else if d == 2 {
        '2'
    } else if d == 3 {
        '3'
    } else if d == 4 {
        '4'
    } else if d == 5 {
        '5'
    } else if d == 6 {
        '6'
    } else if d == 7 {
        '7'
    } else if d == 8 {
        '8'
    } else {
        '9'
    }
}

/// The decimal text of `n` without leading zeros (`{}` on an integer).
pub open spec fn dec(n: nat) -> Seq<char>
    decreases n,
{
    if n < 10 {
        seq![digit_char(n)]
    } else {
        dec(n / 10).push(digit_char(n % 10))
    }
}

/// The decimal text of `n` padded with zeros to two digits (`{:02}`).
pub open spec fn dec2(n: nat) -> Seq<char> {
    if n < 10 {
        seq!['0'] + dec(n)
    } else {
        dec(n)
    }
}

/// The views of a vector of character vectors.
pub open spec fn char_rows(v: Seq<Vec<char>>) -> Seq<Seq<char>> {
    v.map_values(|w: Vec<char>| w@)
}

/// The views of a vector of strings.
pub open spec fn string_rows(v: Seq<String>) -> Seq<Seq<char>> {
    v.map_values(|w: String| w@)
}

/// The smaller of two lengths.
pub open spec fn min_len(a: nat, b: nat) -> nat {
    if a < b {
        a
    } else {
        b
    }
}

/// Slicing the first `n` bytes (or all of them, if fewer) of the UTF-8 text
/// `s` does not panic: the cut falls on a character boundary, and the
/// length fits in `usize`.
pub open spec fn byte_prefix_ok(s: Seq<char>, n: nat) -> bool {
    let b = encode_utf8(s);
    &&& b.len() <= usize::MAX
    &&& is_char_boundary(b, min_len(b.len(), n) as int)
}

/// The text held by the first `n` bytes (or all of them, if fewer) of the
/// UTF-8 encoding of `s` (`&s[..s.len().min(n)]`).
pub open spec fn byte_prefix(s: Seq<char>, n: nat) -> Seq<char> {
    let b = encode_utf8(s);
    decode_utf8(b.subrange(0, min_len(b.len(), n) as int))
}

/// The first `n` characters of `s`, or all of them if fewer
/// (`s.chars().take(n)`).
pub open spec fn char_prefix(s: Seq<char>, n: nat) -> Seq<char> {
    s.take(min_len(s.len(), n) as int)
}

// ---------------------------------------------------------------------------
// Lemmas
// ---------------------------------------------------------------------------

/// Where `trim_start` cuts: the index of the first character that is not
/// whitespace (or the length, when there is none).
proof fn lemma_trim_start_index(s: Seq<char>) -> (i: int)
    ensures
        0 <= i <= s.len(),
        trim_start(s) == s.subrange(i, s.len() as int),
        forall|k: int| 0 <= k < i ==> is_ws(#[trigger] s[k]),
        i < s.len() ==> !is_ws(s[i]),
    decreases s.len(),
{
    if s.len() > 0 && is_ws(s[0]) {
        let t = s.drop_first();
        let i0 = lemma_trim_start_index(t);
        assert(t.subrange(i0, t.len() as int) =~= s.subrange(i0 + 1, s.len() as int));
        assert forall|k: int| 0 <= k < i0 + 1 implies is_ws(#[trigger] s[k]) by {
            if k > 0 {
                assert(s[k] == t[k - 1]);
            }
        }
        i0 + 1
    } else {
        assert(s.subrange(0, s.len() as int) =~= s);
        0
    }
}

/// Where `trim_end` cuts: one past the last character that is not
/// whitespace (or 0, when there is none).
proof fn lemma_trim_end_index(s: Seq<char>) -> (j: int)
    ensures
        0 <= j <= s.len(),
        trim_end(s) == s.subrange(0, j),
        forall|k: int| j <= k < s.len() ==> is_ws(#[trigger] s[k]),
        j > 0 ==> !is_ws(s[j - 1]),
    decreases s.len(),
{
    if s.len() > 0 && is_ws(s.last()) {
        let t = s.drop_last();
        let j0 = lemma_trim_end_index(t);
        assert(t.subrange(0, j0) =~= s.subrange(0, j0));
        assert forall|k: int| j0 <= k < s.len() implies is_ws(#[trigger] s[k]) by {
            if k < s.len() - 1 {
                assert(s[k] == t[k]);
            }
        }
        j0
    } else {
        assert(s.subrange(0, s.len() as int) =~= s);
        s.len() as int
    }
}

/// Trimming removes whitespace at both ends and nothing else: the result is
/// a contiguous part of `s`, everything cut off before and after it is
/// whitespace, and it neither starts nor ends with whitespace.
pub proof fn lemma_trim_shape(s: Seq<char>)
    ensures
        exists|i: int, j: int|
            #![trigger s.subrange(i, j)]
            0 <= i <= j <= s.len() && trim(s) == s.subrange(i, j) && (forall|k: int|
                0 <= k < i ==> is_ws(#[trigger] s[k])) && (forall|k: int|
                j <= k < s.len() ==> is_ws(#[trigger] s[k])),
        trim(s).len() > 0 ==> !is_ws(trim(s)[0]) && !is_ws(trim(s).last()),
{
    let n = s.len() as int;
    let i = lemma_trim_start_index(s);
    let t = s.subrange(i, n);
    let j0 = lemma_trim_end_index(t);
    let j = i + j0;
    assert(t.subrange(0, j0) =~= s.subrange(i, j));
    assert forall|k: int| j <= k < s.len() implies is_ws(#[trigger] s[k]) by {
        assert(s[k] == t[k - i]);
    }
    if j0 > 0 {
        assert(trim(s)[0] == s[i]);
        assert(trim(s).last() == t[j0 - 1]);
    }
    assert(0 <= i <= j <= s.len() && trim(s) == s.subrange(i, j));
}

/// A text whose last character is not whitespace has at least one word.
pub proof fn lemma_words_nonempty(s: Seq<char>)
    requires
        s.len() > 0,
        !is_ws(s.last()),
    ensures
        words(s).len() > 0,
    decreases s.len(),
{
    if s.len() > 1 && !is_ws(s[s.len() - 2]) {
        lemma_words_nonempty(s.drop_last());
    }
}

/// Splitting always gives at least one piece.
pub proof fn lemma_split_nonempty(s: Seq<char>, sep: char)
    ensures
        split_on(s, sep).len() > 0,
    decreases s.len(),
{
    if s.len() > 0 {
        lemma_split_nonempty(s.drop_last(), sep);
    }
}

/// The value of a prefix of a run of digits is at most the value of the run.
pub proof fn lemma_digits_value_prefix(s: Seq<char>, k: int)
    requires
        0 <= k <= s.len(),
    ensures
        digits_value(s.take(k)) <= digits_value(s),
    decreases s.len(),
{
    if k < s.len() {
        lemma_digits_value_prefix(s.drop_last(), k);
        assert(s.drop_last().take(k) =~= s.take(k));
    } else {
        assert(s.take(k) =~= s);
    }
}

/// Every character of a decimal text is a digit, and the text is not empty.
pub proof fn lemma_dec_digits(n: nat)
    ensures
        dec(n).len() > 0,
        all_digits(dec(n)),
        digits_value(dec(n)) == n,
    decreases n,
{
    lemma_digit_char(n % 10);
    if n >= 10 {
        lemma_dec_digits(n / 10);
        assert(dec(n).drop_last() =~= dec(n / 10));
        assert(dec(n).last() == digit_char(n % 10));
        assert(n == (n / 10) * 10 + n % 10);
        assert forall|i: int| 0 <= i < dec(n).len() implies #[trigger] is_digit(dec(n)[i]) by {
            if i < dec(n).len() - 1 {
                assert(dec(n)[i] == dec(n / 10)[i]);
            }
        }
    } else {
        assert(dec(n).drop_last() =~= Seq::<char>::empty());
        assert(digits_value(Seq::<char>::empty()) == 0);
    }
}

/// Decimal text has no leading zero: it is `0` for zero, and starts with
/// another digit otherwise.
pub proof fn lemma_dec_no_leading_zero(n: nat)
    ensures
        n == 0 ==> dec(n) == seq!['0'],
        n > 0 ==> dec(n)[0] != '0',
    decreases n,
{
    if n >= 10 {
        lemma_dec_no_leading_zero(n / 10);
        lemma_dec_digits(n / 10);
        assert(dec(n)[0] == dec(n / 10)[0]);
    }
}

/// Below 100, the two-digit text is two digits that read back as the number.
pub proof fn lemma_dec2_two_digits(n: nat)
    requires
        n < 100,
    ensures
        dec2(n).len() == 2,
        all_digits(dec2(n)),
        digits_value(dec2(n)) == n,
{
    lemma_dec_digits(n);
    if n < 10 {
        assert(dec(n) =~= seq![digit_char(n)]);
        lemma_digit_char(n);
        assert(dec2(n).drop_last() =~= seq!['0']);
        assert(seq!['0'].drop_last() =~= Seq::<char>::empty());
        assert(digits_value(Seq::<char>::empty()) == 0);
        assert(('0' as u32) == 48);
        assert(digit_value('0') == 0);
        assert(digits_value(seq!['0']) == 0);
        assert forall|i: int| 0 <= i < dec2(n).len() implies #[trigger] is_digit(dec2(n)[i]) by {
            if i == 1 {
                assert(dec2(n)[1] == digit_char(n));
            }
        }
    } else {
        assert(n / 10 < 10);
        assert(dec(n / 10) =~= seq![digit_char(n / 10)]);
    }
}

/// The character of a digit value is a digit with that value.
pub proof fn lemma_digit_char(d: nat)
    requires
        d < 10,
    ensures
        is_digit(digit_char(d)),
        digit_value(digit_char(d)) == d,
{
}

// ---------------------------------------------------------------------------
// Executable helpers
// ---------------------------------------------------------------------------

/// Appends one character to a `String` (std `String::push`).
/// Claims that the new contents are the old ones followed by `c`.
#[verifier::external_body]
pub(crate) fn push_char(s: &mut String, c: char)
    ensures
        final(s)@ == old(s)@.push(c),
{
    s.push(c);
}

/// The characters of `s`, in order.
pub fn chars_of(s: &str) -> (r: Vec<char>)
    ensures
        r@ == s@,
{
    let mut r: Vec<char> = Vec::new();
    for c in it: s.chars()
        invariant
            r@ == it.seq().take(it.index() as int),
            it.seq() == s@,
    {
        r.push(c);
    }
    r
}

/// Appends the characters of `v` to `s`.
pub fn push_chars(s: &mut String, v: &Vec<char>)
    ensures
        final(s)@ == old(s)@ + v@,
{
    let n = v.len();
    let mut i: usize = 0;
    while i < n
        invariant
            n == v@.len(),
            i <= n,
            s@ == old(s)@ + v@.take(i as int),
        decreases n - i,
    {
        push_char(s, v[i]);
        i = i + 1;
        assert(v@.take(i as int) =~= v@.take((i - 1) as int).push(v@[i - 1]));
    }
    assert(v@.take(n as int) =~= v@);
}

/// A `String` holding the characters of `v`.
pub fn string_of(v: &Vec<char>) -> (r: String)
    ensures
        r@ == v@,
{
    let mut r = String::new();
    push_chars(&mut r, v);
    assert(r@ =~= v@);
    r
}

/// Whether two character vectors hold the same text.
pub fn same_chars(a: &Vec<char>, b: &Vec<char>) -> (r: bool)
    ensures
        r == (a@ == b@),
{
    if a.len() != b.len() {
        return false;
    }
    let n = a.len();
    let mut i: usize = 0;
    while i < n
        invariant
            n == a@.len(),
            n == b@.len(),
            i <= n,
            forall|j: int| 0 <= j < i ==> a@[j] == b@[j],
        decreases n - i,
    {
        if a[i] != b[i] {
            return false;
        }
        i = i + 1;
    }
    assert(a@ =~= b@);
    true
}

/// Whether two texts are equal.
pub fn same_text(a: &str, b: &str) -> (r: bool)
    ensures
        r == (a@ == b@),
{
    same_chars(&chars_of(a), &chars_of(b))
}

/// Whether `c` is whitespace (`char::is_whitespace`).
pub fn is_whitespace(c: char) -> (r: bool)
    ensures
        r == is_ws(c),
{
    let u = c as u32;
    (0x09 <= u && u <= 0x0d) || u == 0x20 || u == 0x85 || u == 0xa0 || u == 0x1680 || (0x2000
        <= u && u <= 0x200a) || u == 0x2028 || u == 0x2029 || u == 0x202f || u == 0x205f || u
        == 0x3000
}

/// `v` without leading and trailing whitespace.
pub fn trim_chars(v: &Vec<char>) -> (r: Vec<char>)
    ensures
        r@ == trim(v@),
{
    let n = v.len();
    let mut i: usize = 0;
    assert(v@.subrange(0, n as int) =~= v@);
    while i < n && is_whitespace(v[i])
        invariant
            n == v@.len(),
            i <= n,
            trim_start(v@) == trim_start(v@.subrange(i as int, n as int)),
        decreases n - i,
    {
        assert(v@.subrange(i as int, n as int).drop_first() =~= v@.subrange(i + 1, n as int));
        i = i + 1;
    }
    assert(trim_start(v@) == v@.subrange(i as int, n as int));
    let mut j: usize = n;
    while j > i && is_whitespace(v[j - 1])
        invariant
            n == v@.len(),
            i <= j <= n,
            trim(v@) == trim_end(v@.subrange(i as int, j as int)),
        decreases j,
    {
        assert(v@.subrange(i as int, j as int).drop_last() =~= v@.subrange(i as int, j - 1));
        j = j - 1;
    }
    let mut r: Vec<char> = Vec::new();
    let mut k: usize = i;
    while k < j
        invariant
            n == v@.len(),
            i <= k <= j <= n,
            r@ == v@.subrange(i as int, k as int),
        decreases j - k,
    {
        r.push(v[k]);
        k = k + 1;
        assert(r@ =~= v@.subrange(i as int, k as int));
    }
    r
}

/// `s` without leading and trailing whitespace, as characters.
pub fn trim_text(s: &str) -> (r: Vec<char>)
    ensures
        r@ == trim(s@),
{
    trim_chars(&chars_of(s))
}

/// The character of a decimal digit.
pub fn digit_to_char(d: u64) -> (c: char)
    requires
        d < 10,
    ensures
        c == digit_char(d as nat),
{
    if d == 0 {
        '0'
    } else if d == 1 {
        '1'
    } else if d == 2 {
        '2'
    } else if d == 3 {
        '3'
    } else if d == 4 {
        '4'
    } else if d == 5 {
        '5'
    } else if d == 6 {
        '6'
    } else if d == 7 {
        '7'
    } else if d == 8 {
        '8'
    } else {
        '9'
    }
}

/// Appends the decimal text of `n`.
pub fn push_dec(s: &mut String, n: u64)
    ensures
        final(s)@ == old(s)@ + dec(n as nat),
    decreases n,
{
    if n >= 10 {
        push_dec(s, n / 10);
    }
    push_char(s, digit_to_char(n % 10));
    assert(s@ =~= old(s)@ + dec(n as nat));
}

/// Appends the decimal text of `n`, zero-padded to two digits.
pub fn push_dec2(s: &mut String, n: u64)
    ensures
        final(s)@ == old(s)@ + dec2(n as nat),
{
    if n < 10 {
        push_char(s, '0');
    }
    push_dec(s, n);
    assert(s@ =~= old(s)@ + dec2(n as nat));
}

/// The whitespace-separated words of `v` (`str::split_whitespace`).
pub fn split_words(v: &Vec<char>) -> (r: Vec<Vec<char>>)
    ensures
        char_rows(r@) == words(v@),
{
    let n = v.len();
    let mut done: Vec<Vec<char>> = Vec::new();
    let mut cur: Vec<char> = Vec::new();
    let mut in_word = false;
    let mut i: usize = 0;
    assert(v@.take(0) =~= Seq::<char>::empty());
    while i < n
        invariant
            n == v@.len(),
            i <= n,
            in_word == (i > 0 && !is_ws(v@[i - 1])),
            !in_word ==> cur@.len() == 0,
            words(v@.take(i as int)) == (if in_word {
                char_rows(done@).push(cur@)
            } else {
                char_rows(done@)
            }),
        decreases n - i,
    {
        let c = v[i];
        assert(v@.take(i + 1).drop_last() =~= v@.take(i as int));
        assert(v@.take(i + 1).last() == c);
        if is_whitespace(c) {
            if in_word {
                let ghost old_done = done@;
                let w = cur;
                cur = Vec::new();
                done.push(w);
                assert(char_rows(done@) =~= char_rows(old_done).push(w@));
                in_word = false;
            }
        } else {
            let ghost old_cur = cur@;
            let ghost prev = words(v@.take(i as int));
            if in_word {
                assert(v@.take(i + 1)[i - 1] == v@[i - 1]);
                assert(prev == char_rows(done@).push(old_cur));
                assert(words(v@.take(i + 1)) == prev.update(prev.len() - 1, old_cur.push(c)));
            } else {
                assert(words(v@.take(i + 1)) == prev.push(seq![c]));
                assert(old_cur.push(c) =~= seq![c]);
            }
            cur.push(c);
            assert(cur@ == old_cur.push(c));
            assert(words(v@.take(i + 1)) =~= char_rows(done@).push(cur@));
            in_word = true;
        }
        i = i + 1;
    }
    assert(v@.take(n as int) =~= v@);
    if in_word {
        let ghost old_done = done@;
        done.push(cur);
        assert(char_rows(done@) =~= char_rows(old_done).push(done@.last()@));
    }
    done
}

/// The pieces of `v` between occurrences of `sep` (`str::split`).
pub fn split_chars(v: &Vec<char>, sep: char) -> (r: Vec<Vec<char>>)
    ensures
        char_rows(r@) == split_on(v@, sep),
{
    let n = v.len();
    let mut done: Vec<Vec<char>> = Vec::new();
    let mut cur: Vec<char> = Vec::new();
    let mut i: usize = 0;
    assert(v@.take(0) =~= Seq::<char>::empty());
    assert(char_rows(done@).push(cur@) =~= seq![Seq::<char>::empty()]);
    while i < n
        invariant
            n == v@.len(),
            i <= n,
            split_on(v@.take(i as int), sep) == char_rows(done@).push(cur@),
        decreases n - i,
    {
        let c = v[i];
        assert(v@.take(i + 1).drop_last() =~= v@.take(i as int));
        assert(v@.take(i + 1).last() == c);
        let ghost old_done = done@;
        let ghost old_cur = cur@;
        if c == sep {
            let w = cur;
            cur = Vec::new();
            done.push(w);
            assert(char_rows(done@) =~= char_rows(old_done).push(old_cur));
        } else {
            cur.push(c);
        }
        i = i + 1;
        assert(split_on(v@.take(i as int), sep) =~= char_rows(done@).push(cur@));
    }
    assert(v@.take(n as int) =~= v@);
    let ghost old_done = done@;
    done.push(cur);
    assert(char_rows(done@) =~= char_rows(old_done).push(done@.last()@));
    done
}

/// Appends the first `n` bytes (or all, if fewer) of `s`.
pub fn push_byte_prefix(r: &mut String, s: &str, n: usize)
    requires
        byte_prefix_ok(s@, n as nat),
    ensures
        final(r)@ == old(r)@ + byte_prefix(s@, n as nat),
{
    let len = s.len();
    let m = if len < n {
        len
    } else {
        n
    };
    let (a, _rest) = s.split_at(m);
    proof {
        encode_utf8_decode_utf8(a@);
    }
    r.append(a);
}

/// Appends the first `n` characters (or all, if fewer) of `s`.
pub fn push_char_prefix(r: &mut String, s: &str, n: usize)
    ensures
        final(r)@ == old(r)@ + char_prefix(s@, n as nat),
{
    let cs = chars_of(s);
    let m = if cs.len() < n {
        cs.len()
    } else {
        n
    };
    let mut i: usize = 0;
    while i < m
        invariant
            m <= cs@.len(),
            m == min_len(cs@.len(), n as nat),
            cs@ == s@,
            i <= m,
            r@ == old(r)@ + cs@.take(i as int),
        decreases m - i,
    {
        push_char(r, cs[i]);
        i = i + 1;
        assert(cs@.take(i as int) =~= cs@.take(i - 1).push(cs@[i - 1]));
    }
}

/// Reads a `u32` as `str::parse::<u32>` does.
pub fn parse_u32(s: &Vec<char>) -> (r: Option<u32>)
    ensures
        r == parse_u32_spec(s@),
{
    let n = s.len();
    let start: usize = if n > 0 && s[0] == '+' {
        1
    } else {
        0
    };
    let ghost d = if s@.len() > 0 && s@[0] == '+' {
        s@.drop_first()
    } else {
        s@
    };
    assert(d =~= s@.subrange(start as int, n as int));
    if start == n {
        return None;
    }
    let ghost expected = if d.len() > 0 && all_digits(d) && digits_value(d) <= u32::MAX {
        Some(digits_value(d) as u32)
    } else {
        None
    };
    assert(parse_u32_spec(s@) == expected);
    let mut acc: u64 = 0;
    let mut i: usize = start;
    while i < n
        invariant
            n == s@.len(),
            d.len() > 0,
            parse_u32_spec(s@) == expected,
            expected == (if d.len() > 0 && all_digits(d) && digits_value(d) <= u32::MAX {
                Some(digits_value(d) as u32)
            } else {
                None
            }),
            start <= i <= n,
            d == s@.subrange(start as int, n as int),
            all_digits(d.take(i - start)),
            acc == digits_value(d.take(i - start)),
            acc <= u32::MAX,
        decreases n - i,
    {
        let u = s[i] as u32;
        assert(d[i - start] == s@[i as int]);
        if !(48 <= u && u <= 57) {
            assert(!is_digit(d[i - start]));
            return None;
        }
        let dv = (u - 48) as u64;
        assert(d.take(i - start + 1).drop_last() =~= d.take(i - start));
        assert(d.take(i - start + 1).last() == d[i - start]);
        assert(digit_value(d[i - start]) == dv);
        acc = acc * 10 + dv;
        i = i + 1;
        assert(all_digits(d.take(i - start))) by {
            assert forall|k: int| 0 <= k < d.take(i - start).len() implies #[trigger] is_digit(
                d.take(i - start)[k],
            ) by {
                if k < i - start - 1 {
                    assert(d.take(i - start)[k] == d.take(i - start - 1)[k]);
                }
            }
        }
        if acc > 0xffff_ffff {
            proof {
                if all_digits(d) {
                    lemma_digits_value_prefix(d, i - start);
                }
            }
            return None;
        }
    }
    assert(d.take(n - start) =~= d);
    Some(acc as u32)
}

} // verus!
