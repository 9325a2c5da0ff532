//! The services that an attestor can be registered for, and the check of a
//! `--services` list.

use vstd::prelude::*;
use crate::text::{
    chars_of, lemma_split_nonempty, split_chars, split_on, string_of, string_rows, char_rows, trim,
    trim_chars,
    same_chars,
};

verus! {

/// The complete set of valid service names for `register --services`.
pub open spec fn valid_services() -> Seq<Seq<char>> {
    seq!["deposits"@, "withdrawals"@, "quotes"@, "kyc"@]
}

/// A valid service name.
pub open spec fn is_valid_service(name: Seq<char>) -> bool {
    valid_services().contains(name)
}

/// The entries of a comma-separated list, trimmed, that are neither empty
/// nor valid service names, in order.
pub open spec fn unknown_among(pieces: Seq<Seq<char>>) -> Seq<Seq<char>>
    decreases pieces.len(),
{
    if pieces.len() == 0 {
        seq![]
    } else {
        let rest = unknown_among(pieces.drop_last());
        let p = trim(pieces.last());
        if p.len() > 0 && !is_valid_service(p) {
            rest.push(p)
        } else {
            rest
        }
    }
}

/// The unknown entries of the `--services` text `s`.
pub open spec fn unknown_services_spec(s: Seq<char>) -> Seq<Seq<char>> {
    unknown_among(split_on(s, ','))
}

/// `parts` joined with `sep` between them (`join`).
pub open spec fn join(parts: Seq<Seq<char>>, sep: Seq<char>) -> Seq<char>
    decreases parts.len(),
{
    if parts.len() == 0 {
        seq![]
    } else if parts.len() == 1 {
        parts[0]
    } else {
        join(parts.drop_last(), sep) + sep + parts.last()
    }
}

/// The error that `register` reports for unknown services.
pub open spec fn unknown_services_message(unknown: Seq<Seq<char>>) -> Seq<char> {
    "error: unknown service(s): "@ + join(unknown, ", "@) + "\n  valid services: "@ + join(
        valid_services(),
        ", "@,
    )
}

/// The valid service names, in their documented order.
pub fn valid_service_names() -> (r: Vec<String>)
    ensures
        string_rows(r@) == valid_services(),
{
    let r = vec![
        String::from_str("deposits"),
        String::from_str("withdrawals"),
        String::from_str("quotes"),
        String::from_str("kyc"),
    ];
    assert(string_rows(r@) =~= valid_services());
    r
}

/// Whether `name` is a valid service name.
pub fn is_valid_service_name(name: &Vec<char>) -> (r: bool)
    ensures
        r == is_valid_service(name@),
{
    let names = valid_service_names();
    let mut i: usize = 0;
    while i < names.len()
        invariant
            string_rows(names@) == valid_services(),
            i <= names@.len(),
            forall|j: int| 0 <= j < i ==> valid_services()[j] != name@,
        decreases names@.len() - i,
    {
        assert(string_rows(names@)[i as int] == names@[i as int]@);
        if same_chars(&chars_of(names[i].as_str()), name) {
            assert(valid_services()[i as int] == name@);
            return true;
        }
        i = i + 1;
    }
    assert(!valid_services().contains(name@)) by {
        if valid_services().contains(name@) {
            let j = choose|j: int| 0 <= j < valid_services().len() && valid_services()[j] == name@;
            assert(valid_services()[j] != name@);
        }
    }
    false
}

/// `parts` joined with `sep` between them.
pub fn join_strings(parts: &Vec<String>, sep: &str) -> (r: String)
    ensures
        r@ == join(string_rows(parts@), sep@),
{
    let mut r = String::new();
    let n = parts.len();
    let mut i: usize = 0;
    assert(string_rows(parts@).take(0) =~= Seq::<Seq<char>>::empty());
    while i < n
        invariant
            n == parts@.len(),
            i <= n,
            r@ == join(string_rows(parts@).take(i as int), sep@),
        decreases n - i,
    {
        if i > 0 {
            r.append(sep);
        }
        r.append(parts[i].as_str());
        assert(string_rows(parts@).take(i + 1).drop_last() =~= string_rows(parts@).take(i as int));
        assert(string_rows(parts@)[i as int] == parts@[i as int]@);
        if i == 0 {
            assert(r@ =~= join(string_rows(parts@).take(1), sep@));
        }
        i = i + 1;
    }
    assert(string_rows(parts@).take(n as int) =~= string_rows(parts@));
    r
}

/// The entries of the `--services` text that are neither empty nor valid
/// service names, trimmed, in order.
pub fn unknown_services(services: &str) -> (r: Vec<String>)
    ensures
        string_rows(r@) == unknown_services_spec(services@),
{
    let cs = chars_of(services);
    let pieces = split_chars(&cs, ',');
    let n = pieces.len();
    let mut out: Vec<String> = Vec::new();
    let mut i: usize = 0;
    assert(char_rows(pieces@).take(0) =~= Seq::<Seq<char>>::empty());
    while i < n
        invariant
            n == pieces@.len(),
            char_rows(pieces@) == split_on(services@, ','),
            i <= n,
            string_rows(out@) == unknown_among(char_rows(pieces@).take(i as int)),
        decreases n - i,
    {
        let p = trim_chars(&pieces[i]);
        assert(char_rows(pieces@).take(i + 1).drop_last() =~= char_rows(pieces@).take(i as int));
        assert(char_rows(pieces@)[i as int] == pieces@[i as int]@);
        if p.len() > 0 && !is_valid_service_name(&p) {
            let ghost before = string_rows(out@);
            out.push(string_of(&p));
            assert(string_rows(out@) =~= before.push(p@));
        }
        i = i + 1;
    }
    assert(char_rows(pieces@).take(n as int) =~= char_rows(pieces@));
    out
}

/// Checks the `--services` of `register`: `Ok` when there is no list or
/// every entry is empty or a valid service, else the error to report.
pub fn check_services(services: Option<&str>) -> (r: Result<(), String>)
    ensures
        match services {
            None => r is Ok,
            Some(s) => if unknown_services_spec(s@).len() == 0 {
                r is Ok
            } else {
                r is Err && r->Err_0@ == unknown_services_message(unknown_services_spec(s@))
            },
        },
{
    match services {
        None => Ok(()),
        Some(s) => {
            let unknown = unknown_services(s);
            if unknown.len() == 0 {
                Ok(())
            } else {
                let mut msg = String::from_str("error: unknown service(s): ");
                let listed = join_strings(&unknown, ", ");
                msg.append(listed.as_str());
                msg.append("\n  valid services: ");
                let valid = join_strings(&valid_service_names(), ", ");
                msg.append(valid.as_str());
                Err(msg)
            }
        },
    }
}

/// A `--services` list is accepted exactly when each of its comma-separated
/// entries, trimmed, is empty or a valid service name.
pub proof fn lemma_services_accepted(pieces: Seq<Seq<char>>)
    ensures
        unknown_among(pieces).len() == 0 <==> forall|i: int|
            0 <= i < pieces.len() ==> (trim(#[trigger] pieces[i]).len() == 0 || is_valid_service(
                trim(pieces[i]),
            )),
    decreases pieces.len(),
{
    if pieces.len() > 0 {
        let init = pieces.drop_last();
        lemma_services_accepted(init);
        let last = pieces.len() - 1;
        let p = trim(pieces[last]);
        assert(pieces.last() == pieces[last]);
        if p.len() > 0 && !is_valid_service(p) {
            assert(unknown_among(pieces).len() > 0);
        } else {
            assert(unknown_among(pieces) == unknown_among(init));
            if unknown_among(init).len() == 0 {
                assert forall|i: int| 0 <= i < pieces.len() implies (trim(#[trigger] pieces[i]).len() == 0
                    || is_valid_service(trim(pieces[i]))) by {
                    if i < last {
                        assert(init[i] == pieces[i]);
                    }
                }
            } else {
                let i = choose|i: int| 0 <= i < init.len() && !(trim(#[trigger] init[i]).len() == 0
                    || is_valid_service(trim(init[i])));
                assert(init[i] == pieces[i]);
            }
        }
    }
}

/// The unknown entries are exactly the trimmed entries that are neither
/// empty nor valid service names, each kept once, in the order given.
pub proof fn lemma_unknown_among_is_filter(pieces: Seq<Seq<char>>)
    ensures
        unknown_among(pieces) == pieces.map_values(|p: Seq<char>| trim(p)).filter(
            |p: Seq<char>| p.len() > 0 && !is_valid_service(p),
        ),
    decreases pieces.len(),
{
    reveal(Seq::filter);
    if pieces.len() > 0 {
        lemma_unknown_among_is_filter(pieces.drop_last());
        assert(pieces.map_values(|p: Seq<char>| trim(p)).drop_last() =~= pieces.drop_last().map_values(
            |p: Seq<char>| trim(p),
        ));
    }
}

/// Joining with `sep` a text whose last piece is extended by one character
/// extends the joined text by that character.
proof fn lemma_join_extend_last(parts: Seq<Seq<char>>, sep: Seq<char>, c: char)
    requires
        parts.len() > 0,
    ensures
        join(parts.update(parts.len() - 1, parts.last().push(c)), sep) == join(parts, sep).push(c),
{
    let q = parts.update(parts.len() - 1, parts.last().push(c));
    if parts.len() > 1 {
        assert(q.drop_last() =~= parts.drop_last());
        assert(join(q, sep) =~= join(parts, sep).push(c));
    }
}

/// Splitting loses nothing: the pieces hold no separator, and joined back
/// with the separator they give the text again.
pub proof fn lemma_split_then_join(s: Seq<char>, sep: char)
    ensures
        join(split_on(s, sep), seq![sep]) == s,
        forall|i: int| 0 <= i < split_on(s, sep).len() ==> !(#[trigger] split_on(s, sep)[i]).contains(
            sep,
        ),
    decreases s.len(),
{
    if s.len() > 0 {
        let prev = split_on(s.drop_last(), sep);
        lemma_split_then_join(s.drop_last(), sep);
        lemma_split_nonempty(s.drop_last(), sep);
        let c = s.last();
        if c == sep {
            assert(prev.push(seq![]).drop_last() =~= prev);
            assert(join(prev.push(seq![]), seq![sep]) =~= s);
            assert forall|i: int| 0 <= i < split_on(s, sep).len() implies !(#[trigger] split_on(
                s,
                sep,
            )[i]).contains(sep) by {
                if i < prev.len() {
                    assert(split_on(s, sep)[i] == prev[i]);
                } else {
                    assert(split_on(s, sep)[i] =~= Seq::<char>::empty());
                }
            }
        } else {
            lemma_join_extend_last(prev, seq![sep], c);
            assert(s.drop_last().push(c) =~= s);
            let last = prev.last().push(c);
            assert forall|i: int| 0 <= i < split_on(s, sep).len() implies !(#[trigger] split_on(
                s,
                sep,
            )[i]).contains(sep) by {
                if i < prev.len() - 1 {
                    assert(split_on(s, sep)[i] == prev[i]);
                } else {
                    assert(split_on(s, sep)[i] == last);
                    assert(!prev[prev.len() - 1].contains(sep));
                    if last.contains(sep) {
                        let k = choose|k: int| 0 <= k < last.len() && last[k] == sep;
                        if k < last.len() - 1 {
                            assert(prev.last()[k] == sep);
                        }
                    }
                }
            }
        }
    }
}

} // verus!
