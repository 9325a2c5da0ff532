use anchorkit::rpc::{
    create_session_on_chain, create_session_rpc, derive_address_from_secret_key,
    get_contract_id, get_network_passphrase, get_rpc_url, get_secret_key, get_session_rpc,
    list_sessions_rpc, resolve_initiator, CONTRACT_ID_MISSING, DERIVATION_UNAVAILABLE,
    INVALID_SECRET_KEY, SECRET_KEY_MISSING, SESSION_CREATE_UNAVAILABLE,
    SESSION_FETCH_UNAVAILABLE, SESSION_LIST_UNAVAILABLE,
};

const ACCOUNT: &str = "GBRPYHIL2CI3C65PL7DH65O6PXARPG63G2GQRFDW6XQVFVVL6UUEZFX";
const SECRET: &str = "SBRPYHIL2CI3C65PL7DH65O6PXARPG63G2GQRFDW6XQVFVVL6UUEZFXA";

#[test]
fn test_get_rpc_url_default() {
    assert!(get_rpc_url(None, None).contains("testnet"));
    assert_eq!(get_rpc_url(None, None), "https://soroban-testnet.stellar.org");
}

#[test]
fn rpc_url_prefers_soroban_setting() {
    assert_eq!(get_rpc_url(Some("a".to_string()), Some("b".to_string())), "a");
    assert_eq!(get_rpc_url(None, Some("b".to_string())), "b");
}

#[test]
fn contract_id_settings() {
    assert_eq!(get_contract_id(Some("C1".to_string()), Some("C2".to_string())), Ok("C1".to_string()));
    assert_eq!(get_contract_id(None, Some("C2".to_string())), Ok("C2".to_string()));
    assert_eq!(get_contract_id(None, None), Err(CONTRACT_ID_MISSING.to_string()));
    assert_eq!(CONTRACT_ID_MISSING, "SOROBAN_CONTRACT_ID or ANCHORKIT_CONTRACT_ID not set");
}

#[test]
fn network_passphrase_default() {
    assert_eq!(get_network_passphrase(None), "Test SDF Network ; September 2015");
    assert_eq!(get_network_passphrase(Some("x".to_string())), "x");
}

#[test]
fn secret_key_precedence() {
    let k = |s: &str| Some(s.to_string());
    assert_eq!(get_secret_key(k("a"), k("b"), k("c")), Ok("a".to_string()));
    assert_eq!(get_secret_key(None, k("b"), k("c")), Ok("b".to_string()));
    assert_eq!(get_secret_key(None, None, k("c")), Ok("c".to_string()));
    assert_eq!(get_secret_key(None, None, None), Err(SECRET_KEY_MISSING.to_string()));
}

#[test]
fn derivation_errors() {
    assert_eq!(SECRET.len(), 56);
    assert_eq!(
        derive_address_from_secret_key(Ok(SECRET.to_string())),
        Err(DERIVATION_UNAVAILABLE.to_string())
    );
    assert!(DERIVATION_UNAVAILABLE.starts_with("Address derivation from secret key not yet implemented.\nPlease provide"));
    assert_eq!(
        derive_address_from_secret_key(Ok("SHORT".to_string())),
        Err(INVALID_SECRET_KEY.to_string())
    );
    assert_eq!(
        derive_address_from_secret_key(Ok(ACCOUNT.to_string() + "A")),
        Err(INVALID_SECRET_KEY.to_string())
    );
    assert_eq!(
        derive_address_from_secret_key(Err("missing".to_string())),
        Err("missing".to_string())
    );
}

#[test]
fn derivation_counts_bytes() {
    // 55 characters but 56 bytes: the shape check counts bytes.
    let key = "S".to_string() + &"A".repeat(53) + "é";
    assert_eq!(key.chars().count(), 55);
    assert_eq!(key.len(), 56);
    assert_eq!(derive_address_from_secret_key(Ok(key)), Err(DERIVATION_UNAVAILABLE.to_string()));
}

#[test]
fn initiator_resolution() {
    assert_eq!(resolve_initiator(Some(ACCOUNT.to_string()), Err("x".to_string())), Ok(ACCOUNT.to_string()));
    assert_eq!(
        resolve_initiator(Some("bad".to_string()), Ok(SECRET.to_string())),
        Err("Invalid Stellar address: bad".to_string())
    );
    assert_eq!(
        resolve_initiator(None, Ok(SECRET.to_string())),
        Err(DERIVATION_UNAVAILABLE.to_string())
    );
}

#[test]
fn session_creation_is_not_available() {
    assert_eq!(
        create_session_rpc(Some(ACCOUNT.to_string()), Err("x".to_string())),
        Err(SESSION_CREATE_UNAVAILABLE.to_string())
    );
    assert!(SESSION_CREATE_UNAVAILABLE.starts_with("Session creation via RPC not yet fully implemented.\nThis requires"));
    assert_eq!(
        create_session_on_chain(Some("nope".to_string()), Err("x".to_string())),
        Err("Invalid Stellar address: nope".to_string())
    );
    assert_eq!(
        create_session_on_chain(None, Err(SECRET_KEY_MISSING.to_string())),
        Err(SECRET_KEY_MISSING.to_string())
    );
}

#[test]
fn session_queries_are_not_available() {
    assert_eq!(get_session_rpc(7), Err(SESSION_FETCH_UNAVAILABLE.to_string()));
    assert_eq!(list_sessions_rpc(100).unwrap_err(), SESSION_LIST_UNAVAILABLE.to_string());
    assert!(SESSION_LIST_UNAVAILABLE.ends_with("for known session IDs."));
}
