use evm_pvp::errors::Error;
use evm_pvp::network::{Network, Networks};

fn sample() -> Network {
    Network::new(
        "mainnet".to_string(),
        Some(1),
        "https://rpc.example".to_string(),
        Some(20),
        Some("operator-token".to_string()),
    )
}

#[test]
fn create_then_load_returns_equal_fields() {
    let mut reg = Networks::new();
    reg.add_network(sample()).unwrap();
    let n = reg.load(&"mainnet".to_string()).unwrap();
    assert_eq!(n.name, "mainnet");
    assert_eq!(n.chain_id, Some(1));
    assert_eq!(n.rpc_url, "https://rpc.example");
    assert_eq!(n.gas_price, Some(20));
    assert_eq!(n.credentials, Some("operator-token".to_string()));
}

#[test]
fn duplicate_names_are_rejected() {
    let mut reg = Networks::new();
    reg.add_network(sample()).unwrap();
    assert_eq!(reg.add_network(sample()).unwrap_err(), Error::AlreadyExists);
    assert_eq!(reg.get_networks().len(), 1);
}

#[test]
fn remove_missing_network_is_not_found() {
    let mut reg = Networks::new();
    assert_eq!(reg.remove_network(&"mainnet".to_string()).unwrap_err(), Error::NotFound);
    reg.add_network(sample()).unwrap();
    reg.remove_network(&"mainnet".to_string()).unwrap();
    assert!(reg.load(&"mainnet".to_string()).is_none());
}

#[test]
fn chain_id_and_gas_price_are_adjustable() {
    let mut reg = Networks::new();
    reg.add_network(sample()).unwrap();
    reg.update_chain_id(&"mainnet".to_string(), 5).unwrap();
    reg.update_gas_price(&"mainnet".to_string(), 77).unwrap();
    let n = reg.load(&"mainnet".to_string()).unwrap();
    assert_eq!(n.chain_id, Some(5));
    assert_eq!(n.gas_price, Some(77));
    assert_eq!(n.rpc_url, "https://rpc.example");
    assert_eq!(
        reg.update_chain_id(&"ghost".to_string(), 5).unwrap_err(),
        Error::NotFound
    );
}
