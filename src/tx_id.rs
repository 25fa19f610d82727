//! Transaction ids of addresses across the finalized and non-finalized regions.

use vstd::prelude::*;

use crate::location::{LedgerKey, TransactionLocation};
use crate::finalized_read::{HeightRange, QueryError};
use crate::location_map::LocationMap;
use crate::transparent::TransactionHash;

verus! {

/// Transaction ids keyed by transaction location.
pub type TxIdMap = LocationMap<TransactionLocation, TransactionHash>;

/// Combines finalized and non-finalized transaction ids.
///
/// Every location of either input appears once; where both hold a location,
/// the non-finalized id wins.
pub fn apply_tx_id_changes(finalized_tx_ids: TxIdMap, chain_tx_ids: TxIdMap) -> (r: TxIdMap)
    requires
        finalized_tx_ids.wf(),
        chain_tx_ids.wf(),
    ensures
        r.wf(),
        r@ == finalized_tx_ids@.union_prefer_right(chain_tx_ids@),
        forall|k: TransactionLocation| #[trigger] r@.contains_key(k)
            <==> finalized_tx_ids@.contains_key(k) || chain_tx_ids@.contains_key(k),
        forall|k: TransactionLocation| #[trigger] chain_tx_ids@.contains_key(k) ==> r@[k] == chain_tx_ids@[k],
        forall|k: TransactionLocation| finalized_tx_ids@.contains_key(k) && !chain_tx_ids@.contains_key(k)
            ==> #[trigger] r@[k] == finalized_tx_ids@[k],
        forall|i: int, j: int| 0 <= i < r.seq().len() && 0 <= j < r.seq().len()
            && #[trigger] r.seq()[i].0 == #[trigger] r.seq()[j].0 ==> i == j,
{
    let r = finalized_tx_ids.union_prefer_right(&chain_tx_ids);
    proof {
        assert forall|i: int, j: int| 0 <= i < r.seq().len() && 0 <= j < r.seq().len()
            && #[trigger] r.seq()[i].0 == #[trigger] r.seq()[j].0 implies i == j by {
            if i < j {
                assert(r.seq()[i].0.rank() < r.seq()[j].0.rank());
            } else if j < i {
                assert(r.seq()[j].0.rank() < r.seq()[i].0.rank());
            }
        }
    }
    r
}

/// The transaction ids of a set of addresses across both regions.
///
/// `finalized_tip_range` is the range certified for the finalized read (`None`
/// when the store was empty, and then only non-finalized ids are used). A
/// range whose ends differ means the read raced the writer.
pub fn address_tx_ids(
    finalized_tip_range: Option<HeightRange>,
    finalized_tx_ids: TxIdMap,
    chain_tx_ids: TxIdMap,
) -> (r: Result<TxIdMap, QueryError>)
    requires
        finalized_tx_ids.wf(),
        chain_tx_ids.wf(),
    ensures
        match finalized_tip_range {
            Some(h) if h.start != h.end => r == Err::<TxIdMap, QueryError>(QueryError::TipChanged { range: h }),
            Some(_) => r matches Ok(m) && m.wf() && m@ == finalized_tx_ids@.union_prefer_right(chain_tx_ids@),
            None => r matches Ok(m) && m.wf() && m@ == chain_tx_ids@,
        },
{
    match finalized_tip_range {
        Some(h) => {
            if h.start != h.end {
                return Err(QueryError::TipChanged { range: h });
            }
            Ok(apply_tx_id_changes(finalized_tx_ids, chain_tx_ids))
        },
        None => {
            let r = apply_tx_id_changes(LocationMap::new(), chain_tx_ids);
            assert(r@ =~= chain_tx_ids@);
            Ok(r)
        },
    }
}

} // verus!
