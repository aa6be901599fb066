use stake_accounts::{derive_stake_account_addresses, total_balance, Address, StakeAccountDiscovery};

fn key(b: u8) -> Address {
    Address::new([b; 32])
}

fn run(discovery: &mut StakeAccountDiscovery, balances: &[u64]) -> usize {
    let mut probes = 0;
    while let Some(address) = discovery.next_probe() {
        let expected = derive_stake_account_addresses(&key(1), probes + 1, &key(2));
        assert_eq!(address, expected[probes]);
        discovery.record_balance(balances[probes]);
        probes += 1;
    }
    probes
}

#[test]
fn discovery_with_explicit_count() {
    let mut discovery = StakeAccountDiscovery::new(key(1), key(2), Some(5));
    assert!(discovery.next_probe().is_none());
    assert_eq!(run(&mut discovery, &[0, 0, 0]), 0);
    assert!(discovery.is_done());
    assert_eq!(discovery.count(), 5);
    assert_eq!(discovery.addresses(), derive_stake_account_addresses(&key(1), 5, &key(2)));
}

#[test]
fn discovery_probing_stops_at_first_empty() {
    let mut discovery = StakeAccountDiscovery::new(key(1), key(2), None);
    let probes = run(&mut discovery, &[10, 20, 30, 0, 40]);
    assert_eq!(probes, 4);
    assert_eq!(discovery.count(), 3);
    assert_eq!(discovery.addresses(), derive_stake_account_addresses(&key(1), 3, &key(2)));
}

#[test]
fn discovery_of_empty_family() {
    let mut discovery = StakeAccountDiscovery::new(key(1), key(2), None);
    assert_eq!(run(&mut discovery, &[0, 5]), 1);
    assert_eq!(discovery.count(), 0);
    assert!(discovery.addresses().is_empty());
}

#[test]
fn discovery_ignores_balances_after_it_stops() {
    let mut discovery = StakeAccountDiscovery::new(key(1), key(2), None);
    discovery.record_balance(7);
    discovery.record_balance(0);
    discovery.record_balance(9);
    assert!(discovery.is_done());
    assert_eq!(discovery.count(), 1);
}

#[test]
fn total_balance_is_exact() {
    assert_eq!(total_balance(&vec![]), 0);
    assert_eq!(total_balance(&vec![10, 20, 30]), 60);
    assert_eq!(
        total_balance(&vec![u64::MAX, u64::MAX, 1]),
        2 * u64::MAX as u128 + 1
    );
}
