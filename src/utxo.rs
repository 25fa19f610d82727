//! Unspent transparent outputs of addresses across the finalized and
//! non-finalized regions.

use vstd::prelude::*;

use crate::location::{lemma_output_order, LedgerKey, OutputLocation, TransactionLocation};
use crate::location_map::{lemma_map_of_keys, lemma_map_of_push, map_of, strictly_ascending, LocationMap};
use crate::finalized_read::{tip_range, HeightRange, QueryError};
use crate::transparent::{address_of, Address, NetworkKind, Output, TransactionHash};
use crate::tx_id::{apply_tx_id_changes, TxIdMap};

verus! {

/// The largest block height.
pub const MAX_HEIGHT: u32 = 499_999_999;

/// The lowest height in any address index.
///
/// The genesis coinbase transactions are ignored by a consensus rule, so
/// they are not included in any address indexes.
pub const MIN_ADDRESS_HEIGHT: u32 = 1;

/// The full range of address heights.
pub fn address_heights_full_range() -> (r: HeightRange)
    ensures
        r == (HeightRange { start: MIN_ADDRESS_HEIGHT, end: MAX_HEIGHT }),
{
    HeightRange { start: MIN_ADDRESS_HEIGHT, end: MAX_HEIGHT }
}

/// Unspent outputs keyed by output location.
pub type UtxoMap = LocationMap<OutputLocation, Output>;

/// Combines finalized outputs with the outputs a non-finalized chain created,
/// then removes the outputs that chain spent.
///
/// A created output replaces a finalized one at the same location.
pub fn apply_utxo_changes(
    finalized_utxos: UtxoMap,
    created_chain_utxos: UtxoMap,
    spent_chain_utxos: Vec<OutputLocation>,
) -> (r: UtxoMap)
    requires
        finalized_utxos.wf(),
        created_chain_utxos.wf(),
    ensures
        r.wf(),
        r@ == finalized_utxos@.union_prefer_right(created_chain_utxos@).remove_keys(spent_chain_utxos@.to_set()),
{
    let combined = finalized_utxos.union_prefer_right(&created_chain_utxos);
    combined.remove_keys(&spent_chain_utxos)
}

/// Pairs the outputs read from the finalized store with the range of finalized
/// tips observed before (`start_tip`) and after (`end_tip`) the read.
///
/// The range is `None` when either observation saw an empty store.
pub fn finalized_address_utxos(
    start_tip: Option<u32>,
    finalized_utxos: UtxoMap,
    end_tip: Option<u32>,
) -> (r: (UtxoMap, Option<HeightRange>))
    ensures
        r.0 == finalized_utxos,
        r.1 == tip_range(start_tip, end_tip),
{
    let range = match (start_tip, end_tip) {
        (Some(start), Some(end)) => Some(HeightRange { start, end }),
        _ => None,
    };
    (finalized_utxos, range)
}

/// The transaction locations of the outputs in `utxos`.
pub open spec fn referenced_locations(utxos: Map<OutputLocation, Output>) -> Set<TransactionLocation> {
    Set::new(|t: TransactionLocation| exists|o: OutputLocation| #[trigger] utxos.contains_key(o) && o.transaction_location == t)
}

spec fn referenced_prefix(s: Seq<(OutputLocation, Output)>, n: int) -> Set<TransactionLocation> {
    Set::new(|t: TransactionLocation| exists|x: int| 0 <= x < n && #[trigger] s[x].0.transaction_location == t)
}

/// The ids of the transactions that created the outputs in `utxos`.
///
/// Fails with the first transaction location that has no id in `tx_ids`.
pub fn referenced_tx_ids(utxos: &UtxoMap, tx_ids: &TxIdMap) -> (r: Result<TxIdMap, QueryError>)
    requires
        utxos.wf(),
        tx_ids.wf(),
    ensures
        r is Ok <==> ids_cover(utxos@, tx_ids@),
        r matches Ok(m) ==> m.wf() && m@ == tx_ids@.restrict(referenced_locations(utxos@)),
        r matches Err(e) ==> e matches QueryError::MissingTransactionId { location }
            && referenced_locations(utxos@).contains(location) && !tx_ids@.contains_key(location),
{
    let ghost u = utxos.seq();
    let mut out: Vec<(TransactionLocation, TransactionHash)> = Vec::new();
    let n = utxos.len();
    let mut i: usize = 0;
    proof {
        assert(referenced_prefix(u, 0) =~= Set::empty());
        assert(tx_ids@.restrict(Set::empty()) =~= Map::empty());
    }
    while i < n
        invariant
            n == u.len(),
            u == utxos.seq(),
            utxos.wf(),
            tx_ids.wf(),
            i <= n,
            strictly_ascending(out@),
            map_of(out@) == tx_ids@.restrict(referenced_prefix(u, i as int)),
            forall|x: int| 0 <= x < i ==> tx_ids@.contains_key(#[trigger] u[x].0.transaction_location),
            i > 0 ==> out@.len() > 0 && out@.last().0 == u[i - 1].0.transaction_location,
            i == 0 ==> out@.len() == 0,
        decreases n - i,
    {
        let (loc, _out) = utxos.entry(i);
        let t = loc.transaction_location();
        let ghost prev = out@;
        proof {
            assert(u[i as int].0 == loc);
        }
        if out.len() > 0 && out[out.len() - 1].0.same_place(&t) {
            proof {
                TransactionLocation::lemma_rank_injective(prev.last().0, t);
                assert(referenced_prefix(u, i + 1) =~= referenced_prefix(u, i as int));
            }
        } else {
            match tx_ids.get(&t) {
                None => {
                    proof {
                        lemma_map_of_keys(u);
                        assert(utxos@.contains_key(loc));
                    }
                    return Err(QueryError::MissingTransactionId { location: t });
                },
                Some(h) => {
                    proof {
                        if i > 0 {
                            lemma_output_order(u[i - 1].0, u[i as int].0);
                            assert(u[i - 1].0.rank() < u[i as int].0.rank());
                            assert forall|x: int| 0 <= x < prev.len() implies #[trigger] prev[x].0.rank() < t.rank() by {
                                if x < prev.len() - 1 {
                                    assert(prev[x].0.rank() < prev[prev.len() - 1].0.rank());
                                }
                            }
                        }
                        lemma_map_of_push(prev, (t, h));
                        assert(referenced_prefix(u, i + 1) =~= referenced_prefix(u, i as int).insert(t));
                        assert(tx_ids@.restrict(referenced_prefix(u, i as int).insert(t))
                            =~= tx_ids@.restrict(referenced_prefix(u, i as int)).insert(t, h));
                    }
                    out.push((t, h));
                },
            }
        }
        i = i + 1;
    }
    proof {
        lemma_map_of_keys(u);
        assert(referenced_prefix(u, n as int) =~= referenced_locations(utxos@)) by {
            assert forall|t: TransactionLocation| referenced_locations(utxos@).contains(t)
                implies referenced_prefix(u, n as int).contains(t) by {
                let o = choose|o: OutputLocation| #[trigger] utxos@.contains_key(o) && o.transaction_location == t;
                let x = choose|x: int| 0 <= x < u.len() && u[x].0 == o;
                assert(u[x].0.transaction_location == t);
            }
            assert forall|t: TransactionLocation| referenced_prefix(u, n as int).contains(t)
                implies referenced_locations(utxos@).contains(t) by {
                let x = choose|x: int| 0 <= x < n && #[trigger] u[x].0.transaction_location == t;
                assert(utxos@.contains_key(u[x].0));
            }
        }
        assert forall|o: OutputLocation| #[trigger] utxos@.contains_key(o) implies tx_ids@.contains_key(o.transaction_location) by {
            let x = choose|x: int| 0 <= x < u.len() && u[x].0 == o;
        }
    }
    match LocationMap::from_ascending(out) {
        Some(m) => Ok(m),
        None => {
            assert(false);
            Err(QueryError::MissingTransactionId { location: TransactionLocation { height: 0, index: 0 } })
        },
    }
}

/// The unspent outputs of a set of addresses, with the id of each output's
/// transaction.
pub struct AddressUtxos {
    utxos: UtxoMap,
    tx_ids: TxIdMap,
    network: NetworkKind,
}

/// Every output's transaction has an id in `tx_ids`.
pub open spec fn ids_cover(utxos: Map<OutputLocation, Output>, tx_ids: Map<TransactionLocation, TransactionHash>) -> bool {
    forall|o: OutputLocation| #[trigger] utxos.contains_key(o) ==> tx_ids.contains_key(o.transaction_location)
}

impl AddressUtxos {
    #[verifier::type_invariant]
    spec fn inv(&self) -> bool {
        &&& self.utxos.wf()
        &&& self.tx_ids.wf()
        &&& ids_cover(self.utxos@, self.tx_ids@)
    }

    /// The unspent outputs.
    pub closed spec fn spec_utxos(&self) -> UtxoMap {
        self.utxos
    }

    /// The transaction ids.
    pub closed spec fn spec_tx_ids(&self) -> TxIdMap {
        self.tx_ids
    }

    /// The network the addresses belong to.
    pub closed spec fn spec_network(&self) -> NetworkKind {
        self.network
    }

    /// Creates a set of address outputs.
    pub fn new(network: &NetworkKind, utxos: UtxoMap, tx_ids: TxIdMap) -> (r: Self)
        requires
            utxos.wf(),
            tx_ids.wf(),
            ids_cover(utxos@, tx_ids@),
        ensures
            r.spec_utxos() == utxos,
            r.spec_tx_ids() == tx_ids,
            r.spec_network() == *network,
    {
        AddressUtxos { utxos, tx_ids, network: *network }
    }

    /// Each unspent output with the address it pays to, its transaction id,
    /// and its location, in ascending ledger order across all addresses.
    pub fn utxos(&self) -> (r: Vec<(Address, TransactionHash, OutputLocation, Output)>)
        ensures
            r@.len() == self.spec_utxos().seq().len(),
            forall|i: int| 0 <= i < r@.len() ==> {
                let (loc, out) = #[trigger] self.spec_utxos().seq()[i];
                &&& r@[i].0 == address_of(out.lock_script, self.spec_network())
                &&& r@[i].1 == self.spec_tx_ids()@[loc.transaction_location]
                &&& r@[i].2 == loc
                &&& r@[i].3 == out
            },
            forall|i: int, j: int| 0 <= i < j < r@.len() ==> (#[trigger] r@[i].2).rank() < (#[trigger] r@[j].2).rank(),
    {
        proof {
            use_type_invariant(self);
        }
        let mut r: Vec<(Address, TransactionHash, OutputLocation, Output)> = Vec::new();
        let n = self.utxos.len();
        let mut i: usize = 0;
        while i < n
            invariant
                n == self.utxos.seq().len(),
                i <= n,
                self.utxos.wf(),
                self.tx_ids.wf(),
                ids_cover(self.utxos@, self.tx_ids@),
                r@.len() == i,
                forall|x: int| 0 <= x < i ==> {
                    let (loc, out) = #[trigger] self.utxos.seq()[x];
                    &&& r@[x].0 == address_of(out.lock_script, self.network)
                    &&& r@[x].1 == self.tx_ids@[loc.transaction_location]
                    &&& r@[x].2 == loc
                    &&& r@[x].3 == out
                },
            decreases n - i,
        {
            let (loc, out) = self.utxos.entry(i);
            proof {
                crate::location_map::lemma_map_of_keys(self.utxos.seq());
                assert(self.utxos@.contains_key(loc));
            }
            let tx_id = match self.tx_ids.get(&loc.transaction_location()) {
                Some(h) => h,
                None => {
                    assert(false);
                    return r;
                }
            };
            r.push((out.address(self.network), tx_id, loc, out));
            i = i + 1;
        }
        proof {
            assert forall|a: int, b: int| 0 <= a < b < r@.len() implies (#[trigger] r@[a].2).rank() < (#[trigger] r@[b].2).rank() by {
                assert(r@[a].2 == self.utxos.seq()[a].0);
                assert(r@[b].2 == self.utxos.seq()[b].0);
            }
        }
        r
    }
}

/// An output present with the same value in both the finalized and the
/// created outputs (a block seen by both regions) merges as if it were in
/// only one of them.
pub proof fn lemma_overlap_tolerance(
    finalized: Map<OutputLocation, Output>,
    created: Map<OutputLocation, Output>,
    spent: Set<OutputLocation>,
    loc: OutputLocation,
)
    requires
        finalized.contains_key(loc),
        created.contains_key(loc),
        finalized[loc] == created[loc],
    ensures
        finalized.union_prefer_right(created).remove_keys(spent)
            == finalized.remove(loc).union_prefer_right(created).remove_keys(spent),
        finalized.union_prefer_right(created).remove_keys(spent)
            == finalized.union_prefer_right(created.remove(loc)).remove_keys(spent),
{
    assert(finalized.union_prefer_right(created) =~= finalized.remove(loc).union_prefer_right(created));
    assert(finalized.union_prefer_right(created) =~= finalized.union_prefer_right(created.remove(loc)));
}

/// The finalized part a query builds on: none when the store was empty.
pub open spec fn finalized_part<K, V>(m: Map<K, V>, range: Option<HeightRange>) -> Map<K, V> {
    if range is Some { m } else { Map::empty() }
}

/// The unspent outputs of a set of addresses across both regions.
///
/// `finalized_tip_range` is the range certified for the finalized read (`None`
/// when the store was empty, and then only non-finalized data is used). A
/// range whose ends differ means the read raced the writer, and the query
/// fails so that it can be retried. Otherwise the outputs are merged as in
/// [`apply_utxo_changes`], the ids as in [`apply_tx_id_changes`], and the ids
/// are cut down to the transactions that the outputs reference.
pub fn address_utxos(
    network: &NetworkKind,
    finalized_tip_range: Option<HeightRange>,
    finalized_utxos: UtxoMap,
    created_chain_utxos: UtxoMap,
    spent_chain_utxos: Vec<OutputLocation>,
    finalized_tx_ids: TxIdMap,
    chain_tx_ids: TxIdMap,
) -> (r: Result<AddressUtxos, QueryError>)
    requires
        finalized_utxos.wf(),
        created_chain_utxos.wf(),
        finalized_tx_ids.wf(),
        chain_tx_ids.wf(),
    ensures
        ({
            let utxos = finalized_part(finalized_utxos@, finalized_tip_range)
                .union_prefer_right(created_chain_utxos@)
                .remove_keys(spent_chain_utxos@.to_set());
            let ids = finalized_part(finalized_tx_ids@, finalized_tip_range).union_prefer_right(chain_tx_ids@);
            match finalized_tip_range {
                Some(h) if h.start != h.end => r == Err::<AddressUtxos, QueryError>(QueryError::TipChanged { range: h }),
                _ => {
                    &&& r is Ok <==> ids_cover(utxos, ids)
                    &&& r matches Ok(a) ==> {
                        &&& a.spec_utxos()@ == utxos
                        &&& a.spec_tx_ids()@ == ids.restrict(referenced_locations(utxos))
                        &&& a.spec_network() == *network
                    }
                    &&& r matches Err(e) ==> e matches QueryError::MissingTransactionId { location }
                        && referenced_locations(utxos).contains(location) && !ids.contains_key(location)
                }
            }
        }),
{
    let (base, base_ids) = match finalized_tip_range {
        Some(h) => {
            if h.start != h.end {
                return Err(QueryError::TipChanged { range: h });
            }
            (finalized_utxos, finalized_tx_ids)
        },
        None => (LocationMap::new(), LocationMap::new()),
    };
    let utxos = apply_utxo_changes(base, created_chain_utxos, spent_chain_utxos);
    let all_ids = apply_tx_id_changes(base_ids, chain_tx_ids);
    match referenced_tx_ids(&utxos, &all_ids) {
        Ok(tx_ids) => {
            proof {
                assert forall|o: OutputLocation| #[trigger] utxos@.contains_key(o) implies tx_ids@.contains_key(o.transaction_location) by {
                    assert(referenced_locations(utxos@).contains(o.transaction_location));
                }
            }
            Ok(AddressUtxos::new(network, utxos, tx_ids))
        },
        Err(e) => Err(e),
    }
}

} // verus!
