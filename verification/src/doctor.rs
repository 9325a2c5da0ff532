//! The decisions behind `doctor`'s environment checks, on what the checks
//! read from the system.

use vstd::prelude::*;
use crate::text::{chars_of, same_chars, trim, trim_text};

verus! {

/// The rustup target that contract builds need.
pub const WASM_TARGET: &'static str = "wasm32-unknown-unknown";

/// `needle` occurs in `hay` (`str::contains`).
pub open spec fn contains_text(hay: Seq<char>, needle: Seq<char>) -> bool {
    exists|i: int| 0 <= i <= hay.len() - needle.len() && #[trigger] hay.subrange(i, i + needle.len()) == needle
}

/// Whether `nd` occurs in `h` at position `i`.
fn matches_at(h: &Vec<char>, nd: &Vec<char>, i: usize) -> (r: bool)
    requires
        i + nd@.len() <= h.len(),
    ensures
        r == (h@.subrange(i as int, i + nd@.len()) == nd@),
{
    let mut j: usize = 0;
    while j < nd.len()
        invariant
            i + nd@.len() <= h.len(),
            j <= nd@.len(),
            forall|q: int| 0 <= q < j ==> h@[i + q] == nd@[q],
        decreases nd@.len() - j,
    {
        if h[i + j] != nd[j] {
            assert(h@.subrange(i as int, i + nd@.len())[j as int] != nd@[j as int]);
            return false;
        }
        j = j + 1;
    }
    assert(h@.subrange(i as int, i + nd@.len()) =~= nd@);
    true
}

/// Whether `needle` occurs in `hay`.
pub fn text_contains(hay: &str, needle: &str) -> (r: bool)
    ensures
        r == contains_text(hay@, needle@),
{
    let h = chars_of(hay);
    let nd = chars_of(needle);
    if nd.len() > h.len() {
        return false;
    }
    let last = h.len() - nd.len();
    let mut i: usize = 0;
    loop
        invariant
            h@ == hay@,
            nd@ == needle@,
            last == h.len() - nd@.len(),
            i <= last,
            forall|k: int| 0 <= k < i ==> #[trigger] h@.subrange(k, k + nd@.len()) != nd@,
        decreases last - i,
    {
        if matches_at(&h, &nd, i) {
            return true;
        }
        if i == last {
            return false;
        }
        i = i + 1;
    }
}

/// Whether the listing of installed rustup targets includes the WASM target.
pub fn has_wasm_target(installed_targets: &str) -> (r: bool)
    ensures
        r == contains_text(installed_targets@, WASM_TARGET@),
{
    text_contains(installed_targets, WASM_TARGET)
}

/// The HTTP status that `curl` prints when no response came back.
pub const NO_RESPONSE_STATUS: &'static str = "000";

/// Whether the HTTP status that `curl` printed, trimmed, shows a response.
pub fn network_responded(curl_status: &str) -> (r: bool)
    ensures
        r == (trim(curl_status@) != NO_RESPONSE_STATUS@),
{
    let t = trim_text(curl_status);
    !same_chars(&t, &chars_of(NO_RESPONSE_STATUS))
}

/// Directory of the soroban CLI identities under the home directory.
pub open spec fn identity_dir_spec(home: Seq<char>) -> Seq<char> {
    home + "/.config/soroban/identity"@
}

/// Directory of the soroban CLI identities under `home`.
pub fn soroban_identity_dir(home: &str) -> (r: String)
    ensures
        r@ == identity_dir_spec(home@),
{
    let mut r = String::from_str(home);
    r.append("/.config/soroban/identity");
    r
}

/// Where the wallet for signing comes from.
#[derive(Debug, Clone, Copy, PartialEq, Eq, Structural)]
pub enum WalletSource {
    /// A secret key setting is present.
    SecretKey,
    /// A soroban identity directory exists.
    SorobanIdentity,
    /// No wallet is configured.
    Missing,
}

/// The wallet source: a secret key setting wins over an identity directory.
pub fn wallet_source(secret_key_set: bool, identity_dir_exists: bool) -> (r: WalletSource)
    ensures
        r == (if secret_key_set {
            WalletSource::SecretKey
        } else if identity_dir_exists {
            WalletSource::SorobanIdentity
        } else {
            WalletSource::Missing
        }),
{
    if secret_key_set {
        WalletSource::SecretKey
    } else if identity_dir_exists {
        WalletSource::SorobanIdentity
    } else {
        WalletSource::Missing
    }
}

} // verus!
