use address_reads::amount::{Amount, AmountError, Policy, MAX_MONEY};
use address_reads::balance::{address_balance, apply_balance_change};
use address_reads::finalized_read::{next_read_step, HeightRange, QueryError, ReadStep, FINALIZED_STATE_QUERY_RETRIES};
use address_reads::location::{OutputLocation, TransactionLocation};
use address_reads::location_map::LocationMap;
use address_reads::transparent::{
    transaction_location, Address, LockScript, NetworkKind, OrderedUtxo, Output, TransactionHash, Utxo,
};
use address_reads::tx_id::{address_tx_ids, apply_tx_id_changes, TxIdMap};
use address_reads::utxo::{
    address_utxos, apply_utxo_changes, finalized_address_utxos, referenced_tx_ids, AddressUtxos, UtxoMap,
};

fn tx(height: u32, index: u16) -> TransactionLocation {
    TransactionLocation::from_parts(height, index)
}

fn out_loc(height: u32, index: u16, output_index: u32) -> OutputLocation {
    OutputLocation { transaction_location: tx(height, index), output_index }
}

fn output(value: u64, tag: u8) -> Output {
    Output { value, lock_script: LockScript::PublicKeyHash([tag; 20]) }
}

fn hash(tag: u8) -> TransactionHash {
    TransactionHash([tag; 32])
}

fn utxo_map(entries: Vec<(OutputLocation, Output)>) -> UtxoMap {
    LocationMap::from_ascending(entries).expect("ascending entries")
}

fn tx_map(entries: Vec<(TransactionLocation, TransactionHash)>) -> TxIdMap {
    LocationMap::from_ascending(entries).expect("ascending entries")
}

fn amount(value: i64, policy: Policy) -> Amount {
    Amount::new(value, policy).expect("amount in range")
}

#[test]
fn balance_scenario_hundred_minus_thirty() {
    let r = apply_balance_change(amount(100, Policy::NonNegative), amount(-30, Policy::NegativeAllowed)).unwrap();
    assert_eq!(r.value(), 70);
    assert_eq!(r.policy(), Policy::NonNegative);
}

#[test]
fn balance_exactly_zero_is_allowed() {
    let r = apply_balance_change(amount(30, Policy::NonNegative), amount(-30, Policy::NegativeAllowed)).unwrap();
    assert_eq!(r.value(), 0);
}

#[test]
fn balance_below_zero_fails() {
    let r = apply_balance_change(amount(10, Policy::NonNegative), amount(-30, Policy::NegativeAllowed));
    assert_eq!(r, Err(AmountError::Constraint { value: -20, policy: Policy::NonNegative }));
}

#[test]
fn balance_above_max_money_fails() {
    let r = apply_balance_change(amount(MAX_MONEY, Policy::NonNegative), amount(1, Policy::NegativeAllowed));
    assert_eq!(r, Err(AmountError::Constraint { value: MAX_MONEY + 1, policy: Policy::NegativeAllowed }));
}

#[test]
fn amount_policies_bound_values() {
    assert_eq!(Amount::new(-1, Policy::NonNegative), Err(AmountError::Constraint { value: -1, policy: Policy::NonNegative }));
    assert!(Amount::new(-1, Policy::NegativeAllowed).is_ok());
    assert!(Amount::new(-MAX_MONEY - 1, Policy::NegativeAllowed).is_err());
    assert!(Amount::new(MAX_MONEY, Policy::NonNegative).is_ok());
    let a = amount(-5, Policy::NegativeAllowed);
    assert!(a.constrain(Policy::NonNegative).is_err());
    assert_eq!(amount(5, Policy::NegativeAllowed).checked_add(amount(7, Policy::NegativeAllowed)).unwrap().value(), 12);
}

#[test]
fn utxo_scenario_spent_finalized_output_is_removed() {
    let loc1 = out_loc(1, 0, 0);
    let loc2 = out_loc(2, 0, 0);
    let r = apply_utxo_changes(utxo_map(vec![(loc1, output(5, 1))]), utxo_map(vec![(loc2, output(6, 2))]), vec![loc1]);
    assert_eq!(r.to_vec(), vec![(loc2, output(6, 2))]);
}

#[test]
fn utxo_created_and_spent_in_chain_is_excluded() {
    let loc1 = out_loc(1, 0, 0);
    let loc2 = out_loc(3, 1, 2);
    let r = apply_utxo_changes(utxo_map(vec![(loc1, output(5, 1))]), utxo_map(vec![(loc2, output(6, 2))]), vec![loc2]);
    assert_eq!(r.to_vec(), vec![(loc1, output(5, 1))]);
}

#[test]
fn utxo_created_overrides_finalized_on_same_location() {
    let loc1 = out_loc(4, 0, 1);
    let r = apply_utxo_changes(utxo_map(vec![(loc1, output(5, 1))]), utxo_map(vec![(loc1, output(9, 3))]), vec![]);
    assert_eq!(r.to_vec(), vec![(loc1, output(9, 3))]);
}

#[test]
fn utxo_overlap_gives_same_result_as_without_duplicate() {
    let a = out_loc(1, 0, 0);
    let b = out_loc(2, 3, 1);
    let c = out_loc(2, 3, 4);
    let with_dup = apply_utxo_changes(
        utxo_map(vec![(a, output(1, 1)), (b, output(2, 2))]),
        utxo_map(vec![(b, output(2, 2)), (c, output(3, 3))]),
        vec![a],
    );
    let without = apply_utxo_changes(
        utxo_map(vec![(a, output(1, 1))]),
        utxo_map(vec![(b, output(2, 2)), (c, output(3, 3))]),
        vec![a],
    );
    assert_eq!(with_dup.to_vec(), without.to_vec());
    assert_eq!(with_dup.to_vec(), vec![(b, output(2, 2)), (c, output(3, 3))]);
}

#[test]
fn utxo_merge_interleaves_in_ledger_order() {
    let r = apply_utxo_changes(
        utxo_map(vec![(out_loc(1, 0, 0), output(1, 1)), (out_loc(5, 0, 0), output(5, 5))]),
        utxo_map(vec![(out_loc(3, 0, 0), output(3, 3)), (out_loc(7, 0, 0), output(7, 7))]),
        vec![out_loc(9, 9, 9)],
    );
    let keys: Vec<u32> = r.to_vec().iter().map(|(l, _)| l.transaction_location.height).collect();
    assert_eq!(keys, vec![1, 3, 5, 7]);
}

#[test]
fn tx_id_scenario_chain_overlaps_finalized() {
    let loc1 = tx(1, 0);
    let loc2 = tx(2, 0);
    let r = apply_tx_id_changes(tx_map(vec![(loc1, hash(1))]), tx_map(vec![(loc1, hash(1)), (loc2, hash(2))]));
    assert_eq!(r.to_vec(), vec![(loc1, hash(1)), (loc2, hash(2))]);
}

#[test]
fn tx_id_chain_value_wins() {
    let loc1 = tx(1, 0);
    let r = apply_tx_id_changes(tx_map(vec![(loc1, hash(1))]), tx_map(vec![(loc1, hash(8))]));
    assert_eq!(r.to_vec(), vec![(loc1, hash(8))]);
    assert_eq!(r.get(&loc1), Some(hash(8)));
    assert_eq!(r.get(&tx(1, 1)), None);
}

#[test]
fn tx_id_empty_inputs() {
    let r = apply_tx_id_changes(LocationMap::new(), LocationMap::new());
    assert_eq!(r.len(), 0);
}

#[test]
fn from_ascending_rejects_unordered_and_duplicate_keys() {
    assert!(LocationMap::from_ascending(vec![(tx(2, 0), hash(1)), (tx(1, 0), hash(2))]).is_none());
    assert!(LocationMap::from_ascending(vec![(tx(2, 0), hash(1)), (tx(2, 0), hash(2))]).is_none());
    assert!(LocationMap::from_ascending(vec![(tx(2, 0), hash(1)), (tx(2, 1), hash(2))]).is_some());
}

#[test]
fn location_order_is_height_then_index() {
    let m = LocationMap::from_ascending(vec![
        (out_loc(1, 9, 9), output(1, 1)),
        (out_loc(2, 0, 0), output(1, 1)),
        (out_loc(2, 0, 1), output(1, 1)),
        (out_loc(2, 1, 0), output(1, 1)),
    ]);
    assert!(m.is_some());
    assert!(m.unwrap().contains_key(&out_loc(2, 0, 1)));
}

#[test]
fn transaction_location_of_ordered_utxo() {
    let u = OrderedUtxo { utxo: Utxo { output: output(1, 1), height: 42, from_coinbase: false }, tx_index_in_block: 7 };
    assert_eq!(transaction_location(&u), tx(42, 7));
}

#[test]
fn finalized_read_range() {
    let (m, range) = finalized_address_utxos(Some(3), LocationMap::new(), Some(3));
    assert_eq!(m.len(), 0);
    assert_eq!(range, Some(HeightRange { start: 3, end: 3 }));
    let (_, range) = finalized_address_utxos(Some(3), LocationMap::new(), Some(4));
    assert_eq!(range, Some(HeightRange { start: 3, end: 4 }));
    let (_, range) = finalized_address_utxos(None, LocationMap::new(), None);
    assert_eq!(range, None);
}

#[test]
fn read_step_decisions() {
    assert_eq!(next_read_step(1, 3, Some(5), Some(5)), ReadStep::Certified(Some(HeightRange { start: 5, end: 5 })));
    assert_eq!(next_read_step(1, 3, None, None), ReadStep::Certified(None));
    assert_eq!(next_read_step(1, 3, None, Some(0)), ReadStep::Retry);
    assert_eq!(next_read_step(2, 3, Some(5), Some(6)), ReadStep::Retry);
    assert_eq!(next_read_step(3, 3, Some(5), Some(6)), ReadStep::Exhausted);
}

fn run_protocol(tips: &[(Option<u32>, Option<u32>)]) -> (ReadStep, u32) {
    let mut attempt: u32 = 1;
    loop {
        let (start, end) = tips[(attempt - 1) as usize];
        match next_read_step(attempt, FINALIZED_STATE_QUERY_RETRIES, start, end) {
            ReadStep::Retry => attempt += 1,
            step => return (step, attempt),
        }
    }
}

#[test]
fn retry_succeeds_on_the_attempt_that_stabilizes() {
    let tips = [(Some(1), Some(2)), (Some(2), Some(3)), (Some(3), Some(3))];
    assert_eq!(run_protocol(&tips), (ReadStep::Certified(Some(HeightRange { start: 3, end: 3 })), 3));
    let tips = [(Some(1), Some(1)), (Some(2), Some(3)), (Some(3), Some(4))];
    assert_eq!(run_protocol(&tips), (ReadStep::Certified(Some(HeightRange { start: 1, end: 1 })), 1));
}

#[test]
fn retry_exhausts_after_bound_attempts() {
    let tips = [(Some(1), Some(2)), (Some(2), Some(3)), (Some(3), Some(4)), (Some(4), Some(4))];
    assert_eq!(run_protocol(&tips), (ReadStep::Exhausted, FINALIZED_STATE_QUERY_RETRIES));
}

#[test]
fn address_utxos_iterates_in_ledger_order() {
    let a = out_loc(5, 0, 0);
    let b = out_loc(2, 1, 3);
    let c = out_loc(2, 1, 0);
    let result = address_utxos(
        &NetworkKind::Testnet,
        Some(HeightRange { start: 4, end: 4 }),
        utxo_map(vec![(c, output(1, 1)), (a, output(2, 2))]),
        utxo_map(vec![(b, output(3, 3))]),
        vec![],
        tx_map(vec![(tx(2, 1), hash(21)), (tx(3, 0), hash(30))]),
        tx_map(vec![(tx(5, 0), hash(50))]),
    )
    .unwrap();
    let items = result.utxos();
    let locs: Vec<OutputLocation> = items.iter().map(|i| i.2).collect();
    assert_eq!(locs, vec![c, b, a]);
    assert_eq!(items[0].1, hash(21));
    assert_eq!(items[1].1, hash(21));
    assert_eq!(items[2].1, hash(50));
    assert_eq!(items[0].0, Address::PayToPublicKeyHash { network_kind: NetworkKind::Testnet, pub_key_hash: [1; 20] });
    assert_eq!(items[2].3, output(2, 2));
}

#[test]
fn address_utxos_rejects_a_raced_read() {
    let r = address_utxos(
        &NetworkKind::Mainnet,
        Some(HeightRange { start: 4, end: 5 }),
        LocationMap::new(),
        LocationMap::new(),
        vec![],
        LocationMap::new(),
        LocationMap::new(),
    );
    assert!(matches!(r, Err(QueryError::TipChanged { range: HeightRange { start: 4, end: 5 } })));
}

#[test]
fn address_utxos_reports_missing_transaction_id() {
    let r = address_utxos(
        &NetworkKind::Mainnet,
        Some(HeightRange { start: 4, end: 4 }),
        utxo_map(vec![(out_loc(3, 2, 0), output(1, 1))]),
        LocationMap::new(),
        vec![],
        LocationMap::new(),
        LocationMap::new(),
    );
    assert!(matches!(r, Err(QueryError::MissingTransactionId { location }) if location == tx(3, 2)));
}

#[test]
fn address_utxos_on_empty_store_uses_chain_only() {
    let r = address_utxos(
        &NetworkKind::Regtest,
        None,
        utxo_map(vec![(out_loc(1, 0, 0), output(1, 1))]),
        utxo_map(vec![(out_loc(2, 0, 0), output(2, 2))]),
        vec![],
        tx_map(vec![(tx(1, 0), hash(1))]),
        tx_map(vec![(tx(2, 0), hash(2))]),
    )
    .unwrap();
    let items = r.utxos();
    assert_eq!(items.len(), 1);
    assert_eq!(items[0].2, out_loc(2, 0, 0));
    assert_eq!(items[0].1, hash(2));
}

#[test]
fn referenced_tx_ids_keeps_only_referenced() {
    let utxos = utxo_map(vec![(out_loc(1, 0, 0), output(1, 1)), (out_loc(1, 0, 1), output(1, 1)), (out_loc(4, 0, 0), output(1, 1))]);
    let ids = tx_map(vec![(tx(1, 0), hash(1)), (tx(2, 0), hash(2)), (tx(4, 0), hash(4))]);
    let r = referenced_tx_ids(&utxos, &ids).unwrap();
    assert_eq!(r.to_vec(), vec![(tx(1, 0), hash(1)), (tx(4, 0), hash(4))]);
}

#[test]
fn address_utxos_new_and_script_hash_address() {
    let loc = out_loc(1, 0, 0);
    let out = Output { value: 3, lock_script: LockScript::ScriptHash([9; 20]) };
    let a = AddressUtxos::new(&NetworkKind::Mainnet, utxo_map(vec![(loc, out)]), tx_map(vec![(tx(1, 0), hash(1))]));
    let items = a.utxos();
    assert_eq!(items, vec![(Address::PayToScriptHash { network_kind: NetworkKind::Mainnet, script_hash: [9; 20] }, hash(1), loc, out)]);
}

#[test]
fn address_balance_query_cases() {
    let fin = amount(100, Policy::NonNegative);
    let change = amount(-30, Policy::NegativeAllowed);
    let certified = Some(HeightRange { start: 9, end: 9 });
    assert_eq!(address_balance(certified, fin, change).unwrap().value(), 70);
    assert_eq!(address_balance(None, fin, amount(30, Policy::NegativeAllowed)).unwrap().value(), 30);
    assert_eq!(
        address_balance(None, fin, change),
        Err(QueryError::Amount { error: AmountError::Constraint { value: -30, policy: Policy::NonNegative } })
    );
    let raced = HeightRange { start: 9, end: 10 };
    assert_eq!(address_balance(Some(raced), fin, change), Err(QueryError::TipChanged { range: raced }));
}

#[test]
fn address_tx_ids_query_cases() {
    let fin = || tx_map(vec![(tx(1, 0), hash(1))]);
    let chain = || tx_map(vec![(tx(2, 0), hash(2))]);
    let r = address_tx_ids(Some(HeightRange { start: 3, end: 3 }), fin(), chain()).unwrap();
    assert_eq!(r.to_vec(), vec![(tx(1, 0), hash(1)), (tx(2, 0), hash(2))]);
    let r = address_tx_ids(None, fin(), chain()).unwrap();
    assert_eq!(r.to_vec(), vec![(tx(2, 0), hash(2))]);
    let raced = HeightRange { start: 3, end: 4 };
    assert!(matches!(address_tx_ids(Some(raced), fin(), chain()), Err(QueryError::TipChanged { range }) if range == raced));
}

#[test]
fn address_heights_full_range_skips_genesis() {
    let r = address_reads::utxo::address_heights_full_range();
    assert_eq!(r, HeightRange { start: 1, end: address_reads::utxo::MAX_HEIGHT });
    assert_eq!(address_reads::utxo::MAX_HEIGHT, 499_999_999);
}

#[test]
fn same_contents_iterate_in_the_same_order() {
    let a = (out_loc(7, 0, 0), output(7, 7));
    let b = (out_loc(2, 5, 1), output(2, 2));
    let c = (out_loc(2, 5, 0), output(3, 3));
    let first = apply_utxo_changes(utxo_map(vec![a]), utxo_map(vec![c, b]), vec![]);
    let second = apply_utxo_changes(utxo_map(vec![c, b]), utxo_map(vec![a]), vec![]);
    let ids = || tx_map(vec![(tx(2, 5), hash(25)), (tx(7, 0), hash(70))]);
    let x = AddressUtxos::new(&NetworkKind::Mainnet, first, ids()).utxos();
    let y = AddressUtxos::new(&NetworkKind::Mainnet, second, ids()).utxos();
    assert_eq!(x, y);
    let locs: Vec<OutputLocation> = x.iter().map(|i| i.2).collect();
    assert_eq!(locs, vec![c.0, b.0, a.0]);
}
