use anchorkit::rpc::is_valid_stellar_address;

#[test]
fn test_valid_stellar_address_account() {
    let addr = "GBRPYHIL2CI3C65PL7DH65O6PXARPG63G2GQRFDW6XQVFVVL6UUEZFX";
    assert!(is_valid_stellar_address(addr));
}

#[test]
fn test_valid_stellar_address_contract() {
    let addr = "CCRMFG54GGSZHHF5FVMHB4GKTNQYF5RHG4JWAJWGPFM2Y76XXQM4C6J";
    assert!(is_valid_stellar_address(addr));
}

#[test]
fn test_invalid_stellar_address_wrong_prefix() {
    let addr = "MBRPYHIL2CI3C65PL7DH65O6PXARPG63G2GQRFDW6XQVFVVL6UUEZFX";
    assert!(!is_valid_stellar_address(addr));
}

#[test]
fn test_invalid_stellar_address_too_short() {
    let addr = "GBRPYHIL2CI3C65PL7DH65O6PXARPG63G2GQRFDW6XQVFVVL6";
    assert!(!is_valid_stellar_address(addr));
}

#[test]
fn stellar_address_of_56_characters_is_valid() {
    let addr = "GBRPYHIL2CI3C65PL7DH65O6PXARPG63G2GQRFDW6XQVFVVL6UUEZFXA";
    assert_eq!(addr.len(), 56);
    assert!(is_valid_stellar_address(addr));
}

#[test]
fn stellar_address_of_57_characters_is_invalid() {
    let addr = "GBRPYHIL2CI3C65PL7DH65O6PXARPG63G2GQRFDW6XQVFVVL6UUEZFXAB";
    assert!(!is_valid_stellar_address(addr));
}

#[test]
fn stellar_address_with_symbol_is_invalid() {
    let addr = "GBRPYHIL2CI3C65PL7DH65O6PXARPG63G2GQRFDW6XQVFVVL6UUEZF-";
    assert!(!is_valid_stellar_address(addr));
}

#[test]
fn stellar_address_empty_is_invalid() {
    assert!(!is_valid_stellar_address(""));
}

#[test]
fn stellar_address_with_non_ascii_is_invalid() {
    let addr = "GBRPYHIL2CI3C65PL7DH65O6PXARPG63G2GQRFDW6XQVFVVL6UUEZFé";
    assert!(!is_valid_stellar_address(addr));
}
