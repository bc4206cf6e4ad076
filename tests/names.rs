use archid_registry::contract::{migrate, reply, CONTRACT_NAME};
use archid_registry::error::ContractError;
use archid_registry::validate::{
    format_name, get_name_body, get_subdomain_prefix, make_subdomain_key, validate_name,
    validate_subdomain,
};

#[test]
fn name_formatting() {
    assert_eq!(format_name("simpletest".to_string()), "simpletest.arch");
    assert_eq!(get_name_body("simpletest.arch".to_string()), "simpletest");
    assert_eq!(make_subdomain_key("dapp", "simpletest.arch"), "dapp.simpletest.arch");
}

#[test]
fn subdomain_prefix() {
    assert_eq!(get_subdomain_prefix("simpletest.arch".to_string()), None);
    assert_eq!(
        get_subdomain_prefix("dapp.simpletest.arch".to_string()),
        Some(vec!["dapp".to_string(), "simpletest".to_string()])
    );
    assert_eq!(get_subdomain_prefix("a.b.c.arch".to_string()), None);
}

#[test]
fn name_validation() {
    assert_eq!(validate_name("abc.arch"), Ok(()));
    assert_eq!(
        validate_name("ab.arch"),
        Err(ContractError::NameTooShort { length: 7, min_length: 3 })
    );
    assert_eq!(validate_name("a_b-9.arch"), Ok(()));
    assert_eq!(validate_name("ab!.arch"), Err(ContractError::InvalidCharacter { c: '!' }));
    assert_eq!(validate_name("\u{e9}\u{e9}.arch"), Err(ContractError::InvalidCharacter { c: '\u{e9}' }));
    assert_eq!(validate_subdomain("app"), Ok(()));
    assert_eq!(validate_subdomain("ap"), Err(ContractError::NameTooShort { length: 2, min_length: 3 }));
    assert_eq!(
        validate_subdomain(&"x".repeat(65)),
        Err(ContractError::NameTooLong { length: 65, max_length: 64 })
    );
    assert_eq!(validate_subdomain("a.b"), Err(ContractError::InvalidCharacter { c: '.' }));
}

#[test]
fn migration_rules() {
    assert_eq!(migrate(CONTRACT_NAME, "0.0.9"), Ok(()));
    assert_eq!(migrate(CONTRACT_NAME, "0.1.0"), Err(ContractError::InvalidInput));
    assert_eq!(migrate(CONTRACT_NAME, "0.2.0"), Err(ContractError::InvalidInput));
    assert_eq!(migrate("crates.io:other", "0.0.1"), Err(ContractError::InvalidInput));
}

#[test]
fn replies() {
    assert_eq!(reply(true), Ok(()));
    assert_eq!(reply(false), Err(ContractError::Unauthorized));
}
