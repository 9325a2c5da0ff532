//! Session operations against the Soroban contract, the settings they read,
//! and the checks on Stellar addresses and secret keys.

use vstd::prelude::*;
use vstd::utf8::encode_utf8;
use crate::text::chars_of;

verus! {

/// RPC endpoint used when neither `SOROBAN_RPC_URL` nor `ANCHORKIT_RPC_URL` is set.
pub const DEFAULT_RPC_URL: &'static str = "https://soroban-testnet.stellar.org";

/// Network passphrase used when `SOROBAN_NETWORK_PASSPHRASE` is not set.
pub const DEFAULT_NETWORK_PASSPHRASE: &'static str = "Test SDF Network ; September 2015";

/// Error when no contract id setting is present.
pub const CONTRACT_ID_MISSING: &'static str = "SOROBAN_CONTRACT_ID or ANCHORKIT_CONTRACT_ID not set";

/// Error when no secret key setting is present.
pub const SECRET_KEY_MISSING: &'static str =
    "STELLAR_SECRET_KEY, SOROBAN_SECRET_KEY, or ANCHORKIT_SECRET_KEY not set";

/// Error for a well-formed secret key: deriving its address is not available.
pub const DERIVATION_UNAVAILABLE: &'static str = "Address derivation from secret key not yet implemented.\n\
             Please provide initiator address explicitly with --initiator flag.";

/// Error for a secret key that is not in the `S...` form of 56 bytes.
pub const INVALID_SECRET_KEY: &'static str = "Invalid secret key format";

/// Prefix of the error for an initiator that is not a Stellar address.
pub const INVALID_ADDRESS_PREFIX: &'static str = "Invalid Stellar address: ";

/// Error of session creation: the contract cannot be invoked yet.
pub const SESSION_CREATE_UNAVAILABLE: &'static str = "Session creation via RPC not yet fully implemented.\n\
         This requires Soroban SDK transaction building and signing integration.\n\
         Please use the Rust API directly for now or wait for full RPC client implementation.";

/// Error of session lookup: the contract cannot be queried yet.
pub const SESSION_FETCH_UNAVAILABLE: &'static str = "Session fetch via RPC not yet fully implemented.\n\
         This requires Soroban SDK transaction building and deserialization.\n\
         Please use the Rust API directly for now or wait for full RPC client implementation.";

/// Error of session listing: sessions are not enumerable on-chain.
pub const SESSION_LIST_UNAVAILABLE: &'static str = "Session enumeration not implemented in current contract.\n\
         Sessions are not enumerable on-chain. To enable this, the contract would need:\n\
         - An on-chain iterator method, OR\n\
         - Event log replay to rebuild session list, OR\n\
         - A sessions-list storage entry (additional cost)\n\
         \n\
         As a workaround, use 'anchorkit session get <SESSION_ID>' for known session IDs.";

/// Session data structure returned from contract
#[derive(Debug, Clone, PartialEq, Eq)]
pub struct SessionData {
    pub session_id: u64,
    pub initiator: String,
    pub created_at: u64,
    pub nonce: u64,
    pub operation_count: u64,
    pub expires_at: u64,
}

/// Result wrapper for RPC responses
#[derive(Debug, Clone, PartialEq, Eq)]
pub struct RpcResponse<T> {
    pub result: Option<T>,
    pub error: Option<RpcError>,
}

/// RPC error response
#[derive(Debug, Clone, PartialEq, Eq)]
pub struct RpcError {
    pub code: i32,
    pub message: String,
}

/// The first setting that is present, in order of precedence.
pub open spec fn first_present(a: Option<String>, b: Option<String>) -> Option<Seq<char>> {
    match a {
        Some(x) => Some(x@),
        None => match b {
            Some(y) => Some(y@),
            None => None,
        },
    }
}

/// RPC URL from `SOROBAN_RPC_URL`, else `ANCHORKIT_RPC_URL`, else the testnet default.
/// The arguments are the values of those two settings, where present.
pub fn get_rpc_url(soroban_rpc_url: Option<String>, anchorkit_rpc_url: Option<String>) -> (r: String)
    ensures
        r@ == (match first_present(soroban_rpc_url, anchorkit_rpc_url) {
            Some(u) => u,
            None => DEFAULT_RPC_URL@,
        }),
{
    match soroban_rpc_url {
        Some(u) => u,
        None => match anchorkit_rpc_url {
            Some(u) => u,
            None => String::from_str(DEFAULT_RPC_URL),
        },
    }
}

/// Contract id from `SOROBAN_CONTRACT_ID`, else `ANCHORKIT_CONTRACT_ID`.
pub fn get_contract_id(soroban_contract_id: Option<String>, anchorkit_contract_id: Option<String>) -> (r: Result<String, String>)
    ensures
        match first_present(soroban_contract_id, anchorkit_contract_id) {
            Some(id) => r is Ok && r->Ok_0@ == id,
            None => r is Err && r->Err_0@ == CONTRACT_ID_MISSING@,
        },
{
    match soroban_contract_id {
        Some(id) => Ok(id),
        None => match anchorkit_contract_id {
            Some(id) => Ok(id),
            None => Err(String::from_str(CONTRACT_ID_MISSING)),
        },
    }
}

/// Network passphrase from `SOROBAN_NETWORK_PASSPHRASE`, else the testnet one.
pub fn get_network_passphrase(passphrase: Option<String>) -> (r: String)
    ensures
        r@ == (match passphrase {
            Some(p) => p@,
            None => DEFAULT_NETWORK_PASSPHRASE@,
        }),
{
    match passphrase {
        Some(p) => p,
        None => String::from_str(DEFAULT_NETWORK_PASSPHRASE),
    }
}

/// Secret key from `STELLAR_SECRET_KEY`, else `SOROBAN_SECRET_KEY`, else
/// `ANCHORKIT_SECRET_KEY`.
pub fn get_secret_key(
    stellar_secret_key: Option<String>,
    soroban_secret_key: Option<String>,
    anchorkit_secret_key: Option<String>,
) -> (r: Result<String, String>)
    ensures
        match stellar_secret_key {
            Some(k) => r is Ok && r->Ok_0 == k,
            None => match soroban_secret_key {
                Some(k) => r is Ok && r->Ok_0 == k,
                None => match anchorkit_secret_key {
                    Some(k) => r is Ok && r->Ok_0 == k,
                    None => r is Err && r->Err_0@ == SECRET_KEY_MISSING@,
                },
            },
        },
{
    match stellar_secret_key {
        Some(k) => Ok(k),
        None => match soroban_secret_key {
            Some(k) => Ok(k),
            None => match anchorkit_secret_key {
                Some(k) => Ok(k),
                None => Err(String::from_str(SECRET_KEY_MISSING)),
            },
        },
    }
}

/// An ASCII letter or digit.
pub open spec fn is_ascii_alnum(c: char) -> bool {
    let u = c as u32;
    (48 <= u <= 57) || (65 <= u <= 90) || (97 <= u <= 122)
}

/// A Stellar account (`G...`) or contract (`C...`) address: 55 or 56 ASCII
/// letters and digits.
pub open spec fn stellar_address_spec(a: Seq<char>) -> bool {
    &&& a.len() > 0
    &&& (a[0] == 'G' || a[0] == 'C')
    &&& (a.len() == 55 || a.len() == 56)
    &&& forall|i: int| 0 <= i < a.len() ==> #[trigger] is_ascii_alnum(a[i])
}

/// Whether `c` is an ASCII letter or digit (`char::is_ascii_alphanumeric`).
pub fn is_ascii_alphanumeric(c: char) -> (r: bool)
    ensures
        r == is_ascii_alnum(c),
{
    let u = c as u32;
    (48 <= u && u <= 57) || (65 <= u && u <= 90) || (97 <= u && u <= 122)
}

/// Check if address is valid Stellar format
pub fn is_valid_stellar_address(addr: &str) -> (r: bool)
    ensures
        r == stellar_address_spec(addr@),
{
    let cs = chars_of(addr);
    let n = cs.len();
    if n == 0 || !(cs[0] == 'G' || cs[0] == 'C') || !(n == 55 || n == 56) {
        return false;
    }
    let mut i: usize = 0;
    while i < n
        invariant
            n == cs@.len(),
            cs@ == addr@,
            n > 0,
            cs@[0] == 'G' || cs@[0] == 'C',
            n == 55 || n == 56,
            i <= n,
            forall|j: int| 0 <= j < i ==> #[trigger] is_ascii_alnum(cs@[j]),
        decreases n - i,
    {
        if !is_ascii_alphanumeric(cs[i]) {
            return false;
        }
        i = i + 1;
    }
    true
}

/// A secret key in the `S...` form of 56 bytes.
pub open spec fn secret_key_shape(k: Seq<char>) -> bool {
    k.len() > 0 && k[0] == 'S' && byte_len(k) == 56
}

/// The length in bytes of the UTF-8 text `k`, as `str::len` reports it.
pub open spec fn byte_len(k: Seq<char>) -> usize {
    encode_utf8(k).len() as usize
}

/// Derive Stellar address from secret key: the argument is what
/// `get_secret_key` gave. Derivation itself is not available, so every
/// outcome is an error, which tells a missing key, a key of the wrong shape
/// and a well-formed key apart.
pub fn derive_address_from_secret_key(secret_key: Result<String, String>) -> (r: Result<String, String>)
    ensures
        r is Err,
        secret_key is Err ==> r->Err_0 == secret_key->Err_0,
        secret_key is Ok ==> r->Err_0@ == (if secret_key_shape(secret_key->Ok_0@) {
            DERIVATION_UNAVAILABLE@
        } else {
            INVALID_SECRET_KEY@
        }),
{
    let key = match secret_key {
        Ok(k) => k,
        Err(e) => {
            return Err(e);
        },
    };
    let cs = chars_of(key.as_str());
    if cs.len() > 0 && cs[0] == 'S' && key.as_str().len() == 56 {
        Err(String::from_str(DERIVATION_UNAVAILABLE))
    } else {
        Err(String::from_str(INVALID_SECRET_KEY))
    }
}

/// The initiator that a session would be created for: the given address, or
/// else the one derived from the secret key; it must be a Stellar address.
pub open spec fn resolved_initiator_spec(initiator_addr: Option<String>, secret_key: Result<String, String>) -> Result<Seq<char>, Seq<char>> {
    match initiator_addr {
        Some(a) => if stellar_address_spec(a@) {
            Ok(a@)
        } else {
            Err(INVALID_ADDRESS_PREFIX@ + a@)
        },
        None => match secret_key {
            Err(e) => Err(e@),
            Ok(k) => Err(if secret_key_shape(k@) {
                DERIVATION_UNAVAILABLE@
            } else {
                INVALID_SECRET_KEY@
            }),
        },
    }
}

/// The error text or value of a result of strings, as character sequences.
pub open spec fn result_view(r: Result<String, String>) -> Result<Seq<char>, Seq<char>> {
    match r {
        Ok(v) => Ok(v@),
        Err(e) => Err(e@),
    }
}

/// Resolves and checks the session initiator (first step of session creation).
pub fn resolve_initiator(initiator_addr: Option<String>, secret_key: Result<String, String>) -> (r: Result<String, String>)
    ensures
        result_view(r) == resolved_initiator_spec(initiator_addr, secret_key),
{
    let initiator = match initiator_addr {
        Some(addr) => addr,
        None => {
            return derive_address_from_secret_key(secret_key);
        },
    };
    if !is_valid_stellar_address(initiator.as_str()) {
        let mut msg = String::from_str(INVALID_ADDRESS_PREFIX);
        msg.append(initiator.as_str());
        return Err(msg);
    }
    Ok(initiator)
}

/// Create a session on the blockchain
///
/// Invokes contract method: create_session(initiator_address)
/// Returns the session ID created. The initiator is checked first; the
/// invocation itself is not available, so a valid initiator gives
/// `SESSION_CREATE_UNAVAILABLE`.
pub fn create_session_rpc(initiator_addr: Option<String>, secret_key: Result<String, String>) -> (r: Result<u64, String>)
    ensures
        r is Err,
        r->Err_0@ == (match resolved_initiator_spec(initiator_addr, secret_key) {
            Ok(_) => SESSION_CREATE_UNAVAILABLE@,
            Err(e) => e,
        }),
{
    match resolve_initiator(initiator_addr, secret_key) {
        Ok(_) => Err(String::from_str(SESSION_CREATE_UNAVAILABLE)),
        Err(e) => Err(e),
    }
}

/// Creates a session through the RPC client.
pub fn create_session_on_chain(initiator: Option<String>, secret_key: Result<String, String>) -> (r: Result<u64, String>)
    ensures
        r is Err,
        r->Err_0@ == (match resolved_initiator_spec(initiator, secret_key) {
            Ok(_) => SESSION_CREATE_UNAVAILABLE@,
            Err(e) => e,
        }),
{
    create_session_rpc(initiator, secret_key)
}

/// Fetch a session from the blockchain
///
/// Invokes contract method: get_session(session_id); not available yet.
pub fn get_session_rpc(session_id: u64) -> (r: Result<SessionData, String>)
    ensures
        r is Err,
        r->Err_0@ == SESSION_FETCH_UNAVAILABLE@,
{
    Err(String::from_str(SESSION_FETCH_UNAVAILABLE))
}

/// List active sessions
///
/// Sessions are not enumerable on-chain in the current contract.
pub fn list_sessions_rpc(limit: u64) -> (r: Result<Vec<SessionData>, String>)
    ensures
        r is Err,
        r->Err_0@ == SESSION_LIST_UNAVAILABLE@,
{
    Err(String::from_str(SESSION_LIST_UNAVAILABLE))
}

} // verus!
