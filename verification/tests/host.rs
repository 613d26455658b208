use fxswap::serial::{address_from_bytes, address_to_bytes};
use fxswap::types::address::Address;
use soroban_sdk::testutils::Address as _;
use soroban_sdk::xdr::{FromXdr, ToXdr};
use soroban_sdk::{Bytes, Env, String};

/// The address of the host as the library holds it, through its serial form.
fn held(e: &Env, address: &soroban_sdk::Address) -> Address {
    let serial: Vec<u8> = address.clone().to_xdr(e).iter().collect();
    address_from_bytes(&serial).unwrap()
}

/// The address of the library as the host holds it, through its serial form.
fn hosted(e: &Env, address: &Address) -> soroban_sdk::Address {
    let serial = Bytes::from_slice(e, &address_to_bytes(address));
    soroban_sdk::Address::from_xdr(e, &serial).unwrap()
}

fn some_addresses(e: &Env) -> Vec<soroban_sdk::Address> {
    let mut addresses: Vec<soroban_sdk::Address> = Vec::new();
    for _ in 0..6 {
        addresses.push(soroban_sdk::Address::generate(e));
    }
    for address in [
        Address::contract(0, 0),
        Address::contract(0, 1),
        Address::contract(1, 0),
        Address::contract(u128::MAX, u128::MAX),
        Address::contract(1 << 127, 0),
        Address::account(0, 0),
        Address::account(0, 256),
        Address::account(255, 0),
        Address::account(1 << 127, 5),
        Address::account(u128::MAX, u128::MAX),
    ] {
        addresses.push(hosted(e, &address));
    }
    addresses.push(soroban_sdk::Address::from_string(&String::from_str(
        e,
        "CBKZFI26PDCZUJ5HYYKVB5BWCNYUSNA5LVL4R2JTRVSOB4XEP7Y34OPN",
    )));
    addresses
}

#[test]
fn host_addresses_go_through_the_serial_form_and_back() {
    let e = Env::default();
    for address in some_addresses(&e) {
        let mine = held(&e, &address);
        assert_eq!(hosted(&e, &mine), address);
        assert_eq!(held(&e, &hosted(&e, &mine)), mine);
    }
    let account = hosted(&e, &Address::account(3, 4));
    let contract = hosted(&e, &Address::contract(3, 4));
    assert_ne!(account, contract);
    assert_eq!(held(&e, &account), Address::account(3, 4));
    assert_eq!(held(&e, &contract), Address::contract(3, 4));
}

#[test]
fn host_orders_addresses_as_the_library_does() {
    let e = Env::default();
    let addresses = some_addresses(&e);
    for a in &addresses {
        for b in &addresses {
            let (mine_a, mine_b) = (held(&e, a), held(&e, b));
            assert_eq!(mine_a.precedes(&mine_b), a < b);
            assert_eq!(mine_a == mine_b, a == b);
        }
    }
}

#[test]
fn host_map_lists_keys_as_unique_addresses_does() {
    let e = Env::default();
    let addresses = some_addresses(&e);
    let mut map: soroban_sdk::Map<soroban_sdk::Address, bool> = soroban_sdk::Map::new(&e);
    let mut positions: Vec<fxswap::types::position::Position> = Vec::new();
    for address in addresses.iter().chain(addresses.iter().rev()) {
        map.set(address.clone(), true);
        positions.push(fxswap::types::position::Position {
            address: held(&e, address),
            is_valid: true,
        });
    }
    let keys: Vec<Address> = map.keys().iter().map(|key| held(&e, &key)).collect();
    assert_eq!(fxswap::roster::unique_addresses(&positions), keys);
}
