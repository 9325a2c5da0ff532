use anchorkit::doctor::{
    has_wasm_target, network_responded, soroban_identity_dir, text_contains, wallet_source,
    WalletSource,
};
use anchorkit::register::{check_services, unknown_services, valid_service_names};

#[test]
fn wasm_target_detection() {
    assert!(has_wasm_target("wasm32-unknown-unknown\nx86_64-unknown-linux-gnu\n"));
    assert!(!has_wasm_target("x86_64-unknown-linux-gnu\nwasm32-wasi\n"));
    assert!(!has_wasm_target(""));
    assert!(text_contains("abc", ""));
    assert!(text_contains("abc", "bc"));
    assert!(!text_contains("ab", "abc"));
}

#[test]
fn network_status() {
    assert!(!network_responded("000"));
    assert!(!network_responded("  000\n"));
    assert!(network_responded("200"));
    assert!(network_responded("0000"));
    assert!(network_responded(""));
}

#[test]
fn wallet_detection() {
    assert_eq!(soroban_identity_dir("/home/u"), "/home/u/.config/soroban/identity");
    assert_eq!(wallet_source(true, true), WalletSource::SecretKey);
    assert_eq!(wallet_source(false, true), WalletSource::SorobanIdentity);
    assert_eq!(wallet_source(false, false), WalletSource::Missing);
}

#[test]
fn service_names() {
    assert_eq!(valid_service_names(), vec!["deposits", "withdrawals", "quotes", "kyc"]);
}

#[test]
fn services_accepted() {
    assert_eq!(check_services(None), Ok(()));
    assert_eq!(check_services(Some("deposits,quotes")), Ok(()));
    assert_eq!(check_services(Some(" kyc , withdrawals ,, ")), Ok(()));
    assert_eq!(check_services(Some("")), Ok(()));
}

#[test]
fn services_rejected() {
    assert_eq!(unknown_services("deposits, loans ,Quotes,,kyc"), vec!["loans", "Quotes"]);
    assert_eq!(
        check_services(Some("deposits, loans ,Quotes")),
        Err("error: unknown service(s): loans, Quotes\n  valid services: deposits, withdrawals, quotes, kyc".to_string())
    );
    assert_eq!(
        check_services(Some("x")),
        Err("error: unknown service(s): x\n  valid services: deposits, withdrawals, quotes, kyc".to_string())
    );
}

#[test]
fn services_trim_unicode_whitespace() {
    assert_eq!(unknown_services("\u{3000}kyc\u{a0}, z\t"), Vec::<String>::new().into_iter().chain(["z".to_string()]).collect::<Vec<_>>());
}
