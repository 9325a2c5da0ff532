//! Configuration files: which directory entries are configuration files,
//! the order in which they are checked, and the syntax check of each file.

use vstd::prelude::*;
use vstd::utf8::{char_is_scalar, encode_scalar, encode_utf8};
use crate::text::chars_of;

verus! {

// ---------------------------------------------------------------------------
// File names
// ---------------------------------------------------------------------------

/// Kind of configuration file, by extension.
#[derive(Debug, Clone, Copy, PartialEq, Eq, Structural)]
pub enum ConfigFormat {
    Json,
    Toml,
}

/// Position of the last `.` in a file name.
pub open spec fn last_dot(name: Seq<u8>) -> Option<int>
    decreases name.len(),
{
    if name.len() == 0 {
        None
    } else if name.last() == 46 {
        Some(name.len() - 1)
    } else {
        last_dot(name.drop_last())
    }
}

/// The extension of a file name, as `Path::extension` gives it: the bytes
/// after the last `.`, unless there is no `.`, the only `.` starts the
/// name, or the name is `..`.
pub open spec fn extension_of(name: Seq<u8>) -> Option<Seq<u8>> {
    if name == seq![46u8, 46u8] {
        None
    } else {
        match last_dot(name) {
            None => None,
            Some(i) => if i == 0 {
                None
            } else {
                Some(name.subrange(i + 1, name.len() as int))
            },
        }
    }
}

/// The configuration kind of a file name: extension `json` or `toml`.
pub open spec fn config_format_spec(name: Seq<u8>) -> Option<ConfigFormat> {
    match extension_of(name) {
        Some(ext) => if ext == seq![106u8, 115u8, 111u8, 110u8] {
            Some(ConfigFormat::Json)
        } else if ext == seq![116u8, 111u8, 109u8, 108u8] {
            Some(ConfigFormat::Toml)
        } else {
            None
        },
        None => None,
    }
}

/// A file name is that of a configuration file.
pub open spec fn is_config_name(name: Seq<u8>) -> bool {
    config_format_spec(name) is Some
}

/// The last `.` lies inside the name.
pub proof fn lemma_last_dot_range(name: Seq<u8>)
    ensures
        last_dot(name) matches Some(i) ==> 0 <= i < name.len() && name[i] == 46,
    decreases name.len(),
{
    if name.len() > 0 && name.last() != 46 {
        lemma_last_dot_range(name.drop_last());
    }
}

/// The last `.` of `stem` followed by `.` and a dot-free extension is the one
/// before the extension.
proof fn lemma_last_dot_before_ext(stem: Seq<u8>, ext: Seq<u8>)
    requires
        forall|k: int| 0 <= k < ext.len() ==> #[trigger] ext[k] != 46,
    ensures
        last_dot(stem + seq![46u8] + ext) == Some(stem.len() as int),
    decreases ext.len(),
{
    let name = stem + seq![46u8] + ext;
    if ext.len() == 0 {
        assert(name.last() == 46);
    } else {
        lemma_last_dot_before_ext(stem, ext.drop_last());
        assert(name.drop_last() =~= stem + seq![46u8] + ext.drop_last());
        assert(name.last() == ext.last());
    }
}

/// A name made of a non-empty stem, a `.` and `json` (or `toml`) is a JSON
/// (or TOML) configuration file name.
pub proof fn lemma_config_name_of_stem(stem: Seq<u8>)
    requires
        stem.len() > 0,
    ensures
        config_format_spec(stem + seq![46u8, 106u8, 115u8, 111u8, 110u8]) == Some(
            ConfigFormat::Json,
        ),
        config_format_spec(stem + seq![46u8, 116u8, 111u8, 109u8, 108u8]) == Some(
            ConfigFormat::Toml,
        ),
{
    let json = seq![106u8, 115u8, 111u8, 110u8];
    let toml = seq![116u8, 111u8, 109u8, 108u8];
    lemma_last_dot_before_ext(stem, json);
    lemma_last_dot_before_ext(stem, toml);
    let a = stem + seq![46u8] + json;
    let b = stem + seq![46u8] + toml;
    assert(a =~= stem + seq![46u8, 106u8, 115u8, 111u8, 110u8]);
    assert(b =~= stem + seq![46u8, 116u8, 111u8, 109u8, 108u8]);
    assert(a.subrange(stem.len() + 1int, a.len() as int) =~= json);
    assert(b.subrange(stem.len() + 1int, b.len() as int) =~= toml);
    assert(a != seq![46u8, 46u8]) by {
        assert(a.len() != 2);
    }
    assert(b != seq![46u8, 46u8]) by {
        assert(b.len() != 2);
    }
}

/// Only names that end in `.json` or `.toml`, after at least one other
/// byte, are configuration file names.
pub proof fn lemma_config_name_suffix(name: Seq<u8>)
    requires
        is_config_name(name),
    ensures
        name.len() >= 6,
        name.subrange(name.len() - 5, name.len() as int) == seq![46u8, 106u8, 115u8, 111u8, 110u8]
            || name.subrange(name.len() - 5, name.len() as int) == seq![
            46u8,
            116u8,
            111u8,
            109u8,
            108u8,
        ],
{
    lemma_last_dot_range(name);
    let i = last_dot(name)->0;
    let ext = name.subrange(i + 1, name.len() as int);
    assert(ext.len() == 4);
    let tail = name.subrange(name.len() - 5, name.len() as int);
    assert(tail =~= seq![46u8] + ext);
}

/// Position of the last `.` in `name`.
fn find_last_dot(name: &[u8]) -> (r: Option<usize>)
    ensures
        match last_dot(name@) {
            Some(i) => r == Some(i as usize),
            None => r is None,
        },
        r matches Some(i) ==> i < name@.len(),
        last_dot(name@) matches Some(i) ==> 0 <= i < name@.len(),
{
    proof {
        lemma_last_dot_range(name@);
    }
    let mut j: usize = name.len();
    assert(name@.take(j as int) =~= name@);
    while j > 0
        invariant
            j <= name@.len(),
            last_dot(name@) == last_dot(name@.take(j as int)),
        decreases j,
    {
        assert(name@.take(j as int).drop_last() =~= name@.take(j - 1));
        if name[j - 1] == 46 {
            return Some(j - 1);
        }
        j = j - 1;
    }
    None
}

/// Whether the bytes `name[from..]` are exactly `want`.
fn tail_is(name: &[u8], from: usize, want: &[u8]) -> (r: bool)
    requires
        from <= name@.len(),
    ensures
        r == (name@.subrange(from as int, name@.len() as int) == want@),
{
    let n = name.len();
    if n - from != want.len() {
        return false;
    }
    let mut k: usize = 0;
    while k < want.len()
        invariant
            from <= n,
            n == name@.len(),
            n - from == want@.len(),
            k <= want@.len(),
            forall|q: int| 0 <= q < k ==> name@[from + q] == want@[q],
        decreases want@.len() - k,
    {
        if name[from + k] != want[k] {
            assert(name@.subrange(from as int, n as int)[k as int] != want@[k as int]);
            return false;
        }
        k = k + 1;
    }
    assert(name@.subrange(from as int, n as int) =~= want@);
    true
}

/// The configuration kind of a file name, from its extension.
pub fn config_format(name: &[u8]) -> (r: Option<ConfigFormat>)
    ensures
        r == config_format_spec(name@),
{
    if name.len() == 2 && name[0] == 46 && name[1] == 46 {
        assert(name@ =~= seq![46u8, 46u8]);
        return None;
    }
    assert(name@ != seq![46u8, 46u8]) by {
        if name@ == seq![46u8, 46u8] {
            assert(name@.len() == 2 && name@[0] == 46 && name@[1] == 46);
        }
    }
    let dot = match find_last_dot(name) {
        Some(i) => i,
        None => {
            return None;
        },
    };
    if dot == 0 {
        return None;
    }
    let json: [u8; 4] = [106, 115, 111, 110];
    let toml: [u8; 4] = [116, 111, 109, 108];
    assert(json@ =~= seq![106u8, 115u8, 111u8, 110u8]);
    assert(toml@ =~= seq![116u8, 111u8, 109u8, 108u8]);
    let json_ext = json.as_slice();
    let toml_ext = toml.as_slice();
    if tail_is(name, dot + 1, json_ext) {
        Some(ConfigFormat::Json)
    } else if tail_is(name, dot + 1, toml_ext) {
        Some(ConfigFormat::Toml)
    } else {
        None
    }
}

// ---------------------------------------------------------------------------
// Order of checking
// ---------------------------------------------------------------------------

/// Byte-wise lexicographic order, the order of file names in a directory
/// (`OsStr` compares bytes).
pub open spec fn bytes_le(a: Seq<u8>, b: Seq<u8>) -> bool
    decreases a.len(),
{
    if a.len() == 0 {
        true
    } else if b.len() == 0 {
        false
    } else if a[0] != b[0] {
        a[0] < b[0]
    } else {
        bytes_le(a.drop_first(), b.drop_first())
    }
}

/// Any two byte strings are ordered one way or the other.
pub proof fn lemma_bytes_le_total(a: Seq<u8>, b: Seq<u8>)
    ensures
        bytes_le(a, b) || bytes_le(b, a),
    decreases a.len(),
{
    if a.len() > 0 && b.len() > 0 && a[0] == b[0] {
        lemma_bytes_le_total(a.drop_first(), b.drop_first());
    }
}

/// The order is reflexive.
pub proof fn lemma_bytes_le_refl(a: Seq<u8>)
    ensures
        bytes_le(a, a),
    decreases a.len(),
{
    if a.len() > 0 {
        lemma_bytes_le_refl(a.drop_first());
    }
}

/// The order is transitive.
pub proof fn lemma_bytes_le_trans(a: Seq<u8>, b: Seq<u8>, c: Seq<u8>)
    requires
        bytes_le(a, b),
        bytes_le(b, c),
    ensures
        bytes_le(a, c),
    decreases a.len(),
{
    if a.len() > 0 && b.len() > 0 && c.len() > 0 && a[0] == b[0] && b[0] == c[0] {
        lemma_bytes_le_trans(a.drop_first(), b.drop_first(), c.drop_first());
    }
}

/// Whether `a` comes no later than `b` in byte-wise order.
pub fn bytes_le_exec(a: &[u8], b: &[u8]) -> (r: bool)
    ensures
        r == bytes_le(a@, b@),
{
    let mut i: usize = 0;
    assert(a@.skip(0) =~= a@);
    assert(b@.skip(0) =~= b@);
    while i < a.len() && i < b.len() && a[i] == b[i]
        invariant
            i <= a@.len(),
            i <= b@.len(),
            bytes_le(a@, b@) == bytes_le(a@.skip(i as int), b@.skip(i as int)),
        decreases a@.len() - i,
    {
        assert(a@.skip(i as int).drop_first() =~= a@.skip(i + 1));
        assert(b@.skip(i as int).drop_first() =~= b@.skip(i + 1));
        i = i + 1;
    }
    if i == a.len() {
        true
    } else if i == b.len() {
        false
    } else {
        a[i] < b[i]
    }
}

/// The indices of `names` in order are sorted by name.
pub open spec fn sorted_by_name(names: Seq<Vec<u8>>, order: Seq<usize>) -> bool {
    forall|i: int, j: int|
        0 <= i < j < order.len() ==> bytes_le(
            #[trigger] names[order[i] as int]@,
            #[trigger] names[order[j] as int]@,
        )
}

/// The indices of the configuration files among `names`, each once, in the
/// order in which `validate` checks them: by name.
pub fn order_config_files(names: &Vec<Vec<u8>>) -> (order: Vec<usize>)
    ensures
        order@.no_duplicates(),
        forall|k: usize|
            order@.contains(k) <==> (k < names@.len() && is_config_name(#[trigger] names@[k as int]@)),
        sorted_by_name(names@, order@),
{
    let n = names.len();
    let mut order: Vec<usize> = Vec::new();
    let mut k: usize = 0;
    while k < n
        invariant
            n == names@.len(),
            k <= n,
            order@.no_duplicates(),
            forall|q: int| 0 <= q < order@.len() ==> order@[q] < k,
            forall|m: usize|
                order@.contains(m) <==> (m < k && is_config_name(#[trigger] names@[m as int]@)),
            sorted_by_name(names@, order@),
        decreases n - k,
    {
        if config_format(names[k].as_slice()).is_some() {
            let mut p: usize = 0;
            while p < order.len() && bytes_le_exec(names[order[p]].as_slice(), names[k].as_slice())
                invariant
                    n == names@.len(),
                    k < n,
                    p <= order@.len(),
                    forall|q: int| 0 <= q < order@.len() ==> order@[q] < k,
                    forall|q: int| 0 <= q < p ==> bytes_le(#[trigger] names@[order@[q] as int]@, names@[k as int]@),
                decreases order@.len() - p,
            {
                p = p + 1;
            }
            let ghost old_order = order@;
            proof {
                if p < old_order.len() {
                    lemma_bytes_le_total(names@[old_order[p as int] as int]@, names@[k as int]@);
                }
            }
            order.insert(p, k);
            assert forall|i: int, j: int| 0 <= i < j < order@.len() implies bytes_le(
                #[trigger] names@[order@[i] as int]@,
                #[trigger] names@[order@[j] as int]@,
            ) by {
                if j < p {
                    assert(order@[i] == old_order[i] && order@[j] == old_order[j]);
                } else if j == p {
                    assert(order@[i] == old_order[i]);
                } else if i > p {
                    assert(order@[i] == old_order[i - 1] && order@[j] == old_order[j - 1]);
                } else if i == p {
                    assert(order@[j] == old_order[j - 1]);
                    if j - 1 > p {
                        assert(bytes_le(names@[old_order[p as int] as int]@, names@[old_order[j - 1] as int]@));
                    } else {
                        lemma_bytes_le_refl(names@[old_order[p as int] as int]@);
                    }
                    lemma_bytes_le_trans(names@[k as int]@, names@[old_order[p as int] as int]@, names@[old_order[j - 1] as int]@);
                } else {
                    assert(order@[i] == old_order[i] && order@[j] == old_order[j - 1]);
                }
            }
            assert forall|m: usize| order@.contains(m) <==> (m < k + 1 && is_config_name(#[trigger] names@[m as int]@)) by {
                if order@.contains(m) {
                    let q = choose|q: int| 0 <= q < order@.len() && order@[q] == m;
                    if q != p {
                        if q < p {
                            assert(old_order[q] == m);
                        } else {
                            assert(old_order[q - 1] == m);
                        }
                        assert(old_order.contains(m));
                    }
                }
                if m < k && is_config_name(names@[m as int]@) {
                    assert(old_order.contains(m));
                    let q = choose|q: int| 0 <= q < old_order.len() && old_order[q] == m;
                    if q < p {
                        assert(order@[q] == m);
                    } else {
                        assert(order@[q + 1] == m);
                    }
                }
                if m == k && is_config_name(names@[m as int]@) {
                    assert(order@[p as int] == m);
                }
            }
            assert(order@.no_duplicates()) by {
                assert forall|i: int, j: int| 0 <= i < j < order@.len() implies order@[i] != order@[j] by {
                    if i == p {
                        assert(order@[j] == old_order[j - 1]);
                    } else if j == p {
                        assert(order@[i] == old_order[i]);
                    } else {
                        let oi = if i < p { i } else { i - 1 };
                        let oj = if j < p { j } else { j - 1 };
                        assert(order@[i] == old_order[oi] && order@[j] == old_order[oj]);
                    }
                }
            }
            assert forall|q: int| 0 <= q < order@.len() implies order@[q] < k + 1 by {
                if q < p {
                    assert(order@[q] == old_order[q]);
                } else if q > p {
                    assert(order@[q] == old_order[q - 1]);
                }
            }
        } else {
            assert forall|m: usize| order@.contains(m) <==> (m < k + 1 && is_config_name(#[trigger] names@[m as int]@)) by {
                if order@.contains(m) {
                    let q = choose|q: int| 0 <= q < order@.len() && order@[q] == m;
                }
            }
        }
        k = k + 1;
    }
    order
}

/// Number of configuration file names among `names`.
pub open spec fn config_count(names: Seq<Vec<u8>>) -> nat
    decreases names.len(),
{
    if names.len() == 0 {
        0
    } else {
        config_count(names.drop_last()) + (if is_config_name(names.last()@) {
            1nat
        } else {
            0nat
        })
    }
}

/// Every name is looked at: the count is the number of configuration file
/// names that the list holds, whatever their place in it.
pub proof fn lemma_config_count_is_filter(names: Seq<Vec<u8>>)
    ensures
        config_count(names) == names.filter(|n: Vec<u8>| is_config_name(n@)).len(),
    decreases names.len(),
{
    reveal(Seq::filter);
    if names.len() > 0 {
        lemma_config_count_is_filter(names.drop_last());
    }
}

/// Adding a name to the list adds one to the count when it is a
/// configuration file name, and nothing otherwise.
pub proof fn lemma_config_count_push(names: Seq<Vec<u8>>, name: Vec<u8>)
    ensures
        config_count(names.push(name)) == config_count(names) + (if is_config_name(name@) {
            1nat
        } else {
            0nat
        }),
{
    lemma_config_count_is_filter(names);
    lemma_config_count_is_filter(names.push(name));
    names.lemma_filter_len_push(|n: Vec<u8>| is_config_name(n@), name);
}

/// How many of `names` are configuration files (`doctor`'s count).
pub fn count_config_files(names: &Vec<Vec<u8>>) -> (r: usize)
    ensures
        r == config_count(names@),
{
    let n = names.len();
    let mut count: usize = 0;
    let mut i: usize = 0;
    while i < n
        invariant
            n == names@.len(),
            i <= n,
            count <= i,
            count == config_count(names@.take(i as int)),
        decreases n - i,
    {
        assert(names@.take(i + 1).drop_last() =~= names@.take(i as int));
        if config_format(names[i].as_slice()).is_some() {
            count = count + 1;
        }
        i = i + 1;
    }
    assert(names@.take(n as int) =~= names@);
    count
}

// ---------------------------------------------------------------------------
// Syntax check of one file
// ---------------------------------------------------------------------------

/// A syntax error reported by the JSON parser.
#[derive(Debug, Clone, PartialEq, Eq)]
pub struct JsonSyntaxError {
    pub line: usize,
    pub column: usize,
    pub message: String,
}

/// A syntax error reported by the TOML parser: the byte range of the error
/// in the document when known, what went wrong, and the full report.
#[derive(Debug, Clone, PartialEq, Eq)]
pub struct TomlSyntaxError {
    pub span: Option<(usize, usize)>,
    pub message: String,
    pub display: String,
}

/// What the JSON parser reports for a document: `None` when it is valid
/// JSON, else the line, column and text of the error.
pub uninterp spec fn json_parse_outcome(text: Seq<char>) -> Option<(usize, usize, Seq<char>)>;

/// What the TOML parser reports for a document: `None` when it is valid
/// TOML, else the byte range (when known), the message and the full report.
pub uninterp spec fn toml_parse_outcome(text: Seq<char>) -> Option<
    (Option<(usize, usize)>, Seq<char>, Seq<char>),
>;

/// Parses `content` with `serde_json::from_str::<serde_json::Value>`.
/// Claims only that the outcome is a function of the text: `Ok` when the
/// parser accepts it, else the error's `line()`, `column()` and `Display`
/// text, all named by `json_parse_outcome`.
#[verifier::external_body]
fn parse_json_document(content: &str) -> (r: Result<(), JsonSyntaxError>)
    ensures
        match r {
            Ok(_) => json_parse_outcome(content@) is None,
            Err(e) => json_parse_outcome(content@) == Some((e.line, e.column, e.message@)),
        },
{
    match serde_json::from_str::<serde_json::Value>(content) {
        Ok(_) => Ok(()),
        Err(e) => Err(JsonSyntaxError { line: e.line(), column: e.column(), message: e.to_string() }),
    }
}

/// Parses `content` with `toml::from_str::<toml::Value>`.
/// Claims only that the outcome is a function of the text: `Ok` when the
/// parser accepts it, else the error's `span()`, `message()` and `Display`
/// text, all named by `toml_parse_outcome`. Nothing is claimed of where the
/// span lies in the text.
#[verifier::external_body]
fn parse_toml_document(content: &str) -> (r: Result<(), TomlSyntaxError>)
    ensures
        match r {
            Ok(_) => toml_parse_outcome(content@) is None,
            Err(e) => toml_parse_outcome(content@) == Some((e.span, e.message@, e.display@)),
        },
{
    match toml::from_str::<toml::Value>(content) {
        Ok(_) => Ok(()),
        Err(e) => Err(TomlSyntaxError {
            span: e.span().map(|r| (r.start, r.end)),
            message: e.message().to_string(),
            display: e.to_string(),
        }),
    }
}

/// Result of checking one configuration file.
#[derive(Debug, Clone, PartialEq, Eq)]
pub enum ConfigCheck {
    /// The file parses.
    Valid,
    /// The file is not valid JSON.
    InvalidJson { line: usize, column: usize, message: String },
    /// The file is not valid TOML; the line is known when the parser gave a
    /// position.
    InvalidToml { line: Option<usize>, message: String },
}

/// The value of a `ConfigCheck`, with texts as character sequences.
pub enum CheckView {
    Valid,
    InvalidJson { line: usize, column: usize, message: Seq<char> },
    InvalidToml { line: Option<usize>, message: Seq<char> },
}

impl View for ConfigCheck {
    type V = CheckView;

    open spec fn view(&self) -> CheckView {
        match self {
            ConfigCheck::Valid => CheckView::Valid,
            ConfigCheck::InvalidJson { line, column, message } => CheckView::InvalidJson {
                line: *line,
                column: *column,
                message: message@,
            },
            ConfigCheck::InvalidToml { line, message } => CheckView::InvalidToml {
                line: *line,
                message: message@,
            },
        }
    }
}

/// The check of a JSON document, from what the parser reported.
pub open spec fn json_check_spec(outcome: Option<(usize, usize, Seq<char>)>) -> CheckView {
    match outcome {
        None => CheckView::Valid,
        Some((line, column, message)) => CheckView::InvalidJson { line, column, message },
    }
}

/// Turns the JSON parser's outcome into the check of the file.
pub fn json_report(outcome: Result<(), JsonSyntaxError>) -> (r: ConfigCheck)
    ensures
        r@ == (match outcome {
            Ok(_) => CheckView::Valid,
            Err(e) => CheckView::InvalidJson { line: e.line, column: e.column, message: e.message@ },
        }),
{
    match outcome {
        Ok(_) => ConfigCheck::Valid,
        Err(e) => ConfigCheck::InvalidJson { line: e.line, column: e.column, message: e.message },
    }
}

/// Checks that `content` is valid JSON.
pub fn validate_json(content: &str) -> (r: ConfigCheck)
    ensures
        r@ == json_check_spec(json_parse_outcome(content@)),
{
    json_report(parse_json_document(content))
}

/// The line (counting from 1) on which byte `offset` of the UTF-8 text `s`
/// lies: one more than the newlines before it. `None` when the offset is
/// not a character boundary of `s`.
pub open spec fn line_of_offset(s: Seq<char>, offset: nat) -> Option<nat>
    decreases s.len(),
{
    if offset == 0 {
        Some(1)
    } else if s.len() == 0 {
        None
    } else {
        let w = encode_scalar(s[0] as u32).len();
        if offset < w {
            None
        } else {
            match line_of_offset(s.drop_first(), (offset - w) as nat) {
                Some(l) => Some(if s[0] == '\n' {
                    l + 1
                } else {
                    l
                }),
                None => None,
            }
        }
    }
}

/// Only newlines start lines: the byte offset just past the first `k`
/// characters of `s` (the length of their UTF-8 encoding) lies on the line
/// one past the number of `'\n'` among those characters.
pub proof fn lemma_line_counts_newlines(s: Seq<char>, k: int)
    requires
        0 <= k <= s.len(),
    ensures
        line_of_offset(s, encode_utf8(s.take(k)).len()) == Some(
            1 + s.take(k).filter(|c: char| c == '\n').len(),
        ),
    decreases k,
{
    let is_nl = |c: char| c == '\n';
    if k == 0 {
        assert(s.take(0) =~= Seq::<char>::empty());
        reveal(Seq::filter);
        assert(Seq::<char>::empty().filter(is_nl) =~= Seq::<char>::empty());
    } else {
        let rest = s.drop_first();
        let head = s.take(k);
        assert(head.drop_first() =~= rest.take(k - 1));
        assert(head[0] == s[0]);
        lemma_line_counts_newlines(rest, k - 1);
        let w = encode_scalar(s[0] as u32).len();
        assert(encode_utf8(head).len() == w + encode_utf8(rest.take(k - 1)).len());
        assert(w >= 1);
        assert(head =~= seq![s[0]] + rest.take(k - 1));
        Seq::filter_distributes_over_add(seq![s[0]], rest.take(k - 1), is_nl);
        reveal(Seq::filter);
        assert(seq![s[0]].drop_last() =~= Seq::<char>::empty());
        assert(Seq::<char>::empty().filter(is_nl) =~= Seq::<char>::empty());
        assert(seq![s[0]].filter(is_nl).len() == (if s[0] == '\n' {
            1int
        } else {
            0int
        }));
    }
}

/// Number of bytes of the UTF-8 encoding of `c`.
fn utf8_width(c: char) -> (w: usize)
    ensures
        w == encode_scalar(c as u32).len(),
        1 <= w <= 4,
{
    let u = c as u32;
    proof {
        char_is_scalar(c);
    }
    if u <= 0x7f {
        1
    } else if u <= 0x7ff {
        2
    } else if u <= 0xffff {
        3
    } else {
        4
    }
}

/// The line on which byte `offset` of `s` lies, if it is a character
/// boundary.
pub fn line_of_byte_offset(s: &Vec<char>, offset: usize) -> (r: Option<usize>)
    requires
        s@.len() < usize::MAX,
    ensures
        match line_of_offset(s@, offset as nat) {
            Some(l) => r == Some(l as usize) && l <= usize::MAX,
            None => r is None,
        },
{
    let n = s.len();
    let mut i: usize = 0;
    let mut off: usize = 0;
    let mut line: usize = 1;
    assert(s@.skip(0) =~= s@);
    while off < offset
        invariant
            n == s@.len(),
            n < usize::MAX,
            i <= n,
            off <= offset,
            1 <= line <= i + 1,
            line_of_offset(s@, offset as nat) == (match line_of_offset(s@.skip(i as int), (offset - off) as nat) {
                Some(l) => Some((l + line - 1) as nat),
                None => None,
            }),
        decreases offset - off,
    {
        if i == n {
            return None;
        }
        let c = s[i];
        let w = utf8_width(c);
        assert(s@.skip(i as int).drop_first() =~= s@.skip(i + 1));
        assert(s@.skip(i as int)[0] == c);
        if offset - off < w {
            return None;
        }
        off = off + w;
        if c == '\n' {
            line = line + 1;
        }
        i = i + 1;
    }
    Some(line)
}

/// The TOML error position can be turned into a line: the span starts on a
/// character boundary, and the text has fewer than `usize::MAX` characters.
pub open spec fn toml_error_locatable(content: Seq<char>, outcome: Result<(), TomlSyntaxError>) -> bool {
    match outcome {
        Err(e) => match e.span {
            Some((start, _)) => content.len() < usize::MAX && line_of_offset(content, start as nat) is Some,
            None => true,
        },
        Ok(_) => true,
    }
}

/// The check of a TOML document, from what the parser reported: with a
/// position, the line of its start and the bare message; without one, the
/// full report.
pub open spec fn toml_check_spec(content: Seq<char>, outcome: Option<(Option<(usize, usize)>, Seq<char>, Seq<char>)>) -> CheckView {
    match outcome {
        None => CheckView::Valid,
        Some((Some((start, _)), message, _)) => CheckView::InvalidToml {
            line: Some(line_of_offset(content, start as nat).unwrap() as usize),
            message,
        },
        Some((None, _, display)) => CheckView::InvalidToml { line: None, message: display },
    }
}

/// The TOML parser's outcome as the value `toml_parse_outcome` names.
pub open spec fn toml_outcome_of(outcome: Result<(), TomlSyntaxError>) -> Option<(Option<(usize, usize)>, Seq<char>, Seq<char>)> {
    match outcome {
        Ok(_) => None,
        Err(e) => Some((e.span, e.message@, e.display@)),
    }
}

/// Turns the TOML parser's outcome into the check of the file.
pub fn toml_report(content: &str, outcome: Result<(), TomlSyntaxError>) -> (r: ConfigCheck)
    requires
        toml_error_locatable(content@, outcome),
    ensures
        r@ == toml_check_spec(content@, toml_outcome_of(outcome)),
{
    match outcome {
        Ok(_) => ConfigCheck::Valid,
        Err(e) => match e.span {
            Some((start, _)) => {
                let cs = chars_of(content);
                let line = line_of_byte_offset(&cs, start);
                ConfigCheck::InvalidToml { line, message: e.message }
            },
            None => ConfigCheck::InvalidToml { line: None, message: e.display },
        },
    }
}

/// Checks that `content` is valid TOML. `None` when the parser's error
/// position is not a character boundary of the text (where slicing the text
/// there would panic).
pub fn validate_toml(content: &str) -> (r: Option<ConfigCheck>)
    ensures
        match toml_parse_outcome(content@) {
            Some((Some((start, _)), _, _)) => if content@.len() < usize::MAX && line_of_offset(
                content@,
                start as nat,
            ) is Some {
                r is Some && r->Some_0@ == toml_check_spec(content@, toml_parse_outcome(content@))
            } else {
                r is None
            },
            _ => r is Some && r->Some_0@ == toml_check_spec(content@, toml_parse_outcome(content@)),
        },
{
    let outcome = parse_toml_document(content);
    let locatable = match &outcome {
        Ok(_) => true,
        Err(e) => match e.span {
            Some((start, _)) => {
                let cs = chars_of(content);
                if cs.len() < usize::MAX {
                    line_of_byte_offset(&cs, start).is_some()
                } else {
                    false
                }
            },
            None => true,
        },
    };
    if locatable {
        Some(toml_report(content, outcome))
    } else {
        None
    }
}

} // verus!
