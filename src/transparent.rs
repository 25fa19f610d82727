//! Transparent outputs, their addresses, and the network they belong to.

use vstd::prelude::*;

use crate::location::TransactionLocation;

verus! {

/// The kind of network an address belongs to.
#[derive(Clone, Copy, Debug, PartialEq, Eq, Structural, Hash)]
pub enum NetworkKind {
    Mainnet,
    Testnet,
    Regtest,
}

/// A transparent address.
#[derive(Clone, Copy, Debug, PartialEq, Eq, Hash)]
pub enum Address {
    /// Pays to the hash of a script.
    PayToScriptHash { network_kind: NetworkKind, script_hash: [u8; 20] },
    /// Pays to the hash of a public key.
    PayToPublicKeyHash { network_kind: NetworkKind, pub_key_hash: [u8; 20] },
}

/// The condition that encumbers an output.
#[derive(Clone, Copy, Debug, PartialEq, Eq, Hash)]
pub enum LockScript {
    ScriptHash([u8; 20]),
    PublicKeyHash([u8; 20]),
}

/// A transparent output: a value in zatoshis and the condition that locks it.
#[derive(Clone, Copy, Debug, PartialEq, Eq, Hash)]
pub struct Output {
    pub value: u64,
    pub lock_script: LockScript,
}

/// A transaction identifier.
#[derive(Clone, Copy, Debug, PartialEq, Eq, Hash)]
pub struct TransactionHash(pub [u8; 32]);

/// An output together with where and how it was created.
#[derive(Clone, Copy, Debug, PartialEq, Eq, Hash)]
pub struct Utxo {
    pub output: Output,
    pub height: u32,
    pub from_coinbase: bool,
}

/// A [`Utxo`] together with its transaction's index in its block.
#[derive(Clone, Copy, Debug, PartialEq, Eq, Hash)]
pub struct OrderedUtxo {
    pub utxo: Utxo,
    pub tx_index_in_block: usize,
}

/// The address that `lock_script` pays to on `network`.
pub open spec fn address_of(lock_script: LockScript, network: NetworkKind) -> Address {
    match lock_script {
        LockScript::ScriptHash(h) => Address::PayToScriptHash { network_kind: network, script_hash: h },
        LockScript::PublicKeyHash(h) => Address::PayToPublicKeyHash { network_kind: network, pub_key_hash: h },
    }
}

impl Output {
    /// The address this output pays to on `network`.
    pub fn address(&self, network: NetworkKind) -> (r: Address)
        ensures
            r == address_of(self.lock_script, network),
    {
        match self.lock_script {
            LockScript::ScriptHash(h) => Address::PayToScriptHash { network_kind: network, script_hash: h },
            LockScript::PublicKeyHash(h) => Address::PayToPublicKeyHash { network_kind: network, pub_key_hash: h },
        }
    }
}

/// The location of the transaction that created `ordered_utxo`.
pub fn transaction_location(ordered_utxo: &OrderedUtxo) -> (r: TransactionLocation)
    requires
        ordered_utxo.tx_index_in_block <= u16::MAX,
    ensures
        r.height == ordered_utxo.utxo.height,
        r.index == ordered_utxo.tx_index_in_block,
{
    TransactionLocation::from_parts(ordered_utxo.utxo.height, ordered_utxo.tx_index_in_block as u16)
}

} // verus!
