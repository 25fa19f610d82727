//! Shielded and unified Zcash addresses, and their conversion from
//! `zcash_address` values.

use vstd::prelude::*;

use orchard::Address as OrchardAddress;
use sapling_crypto::PaymentAddress as SaplingPaymentAddress;
use zcash_address::unified::Address as UnifiedAddress;
use zcash_address::unified::Container;
use zcash_address::unified::Receiver as UnifiedReceiver;
use zcash_address::Network as ZcashNetwork;
use zcash_address::ToAddress;
use zcash_address::ZcashAddress;

use crate::transparent::NetworkKind;

verus! {

#[verifier::external_type_specification]
pub struct ExNetworkType(ZcashNetwork);

#[verifier::external_type_specification]
#[verifier::external_body]
pub struct ExUnifiedAddress(UnifiedAddress);

#[verifier::external_type_specification]
#[verifier::external_body]
pub struct ExOrchardAddress(OrchardAddress);

#[verifier::external_type_specification]
#[verifier::external_body]
pub struct ExSaplingPaymentAddress(SaplingPaymentAddress);

/// The network kind of `network`.
pub open spec fn network_kind_of(network: ZcashNetwork) -> NetworkKind {
    match network {
        ZcashNetwork::Main => NetworkKind::Mainnet,
        ZcashNetwork::Test => NetworkKind::Testnet,
        ZcashNetwork::Regtest => NetworkKind::Regtest,
    }
}

impl NetworkKind {
    /// The network kind of a decoded address's network.
    pub fn from_zcash_address(network: ZcashNetwork) -> (r: NetworkKind)
        ensures
            r == network_kind_of(network),
    {
        match network {
            ZcashNetwork::Main => NetworkKind::Mainnet,
            ZcashNetwork::Test => NetworkKind::Testnet,
            ZcashNetwork::Regtest => NetworkKind::Regtest,
        }
    }

    /// The network an address of this kind is encoded for.
    pub fn to_zcash_address(self) -> (r: ZcashNetwork)
        ensures
            network_kind_of(r) == self,
    {
        match self {
            NetworkKind::Mainnet => ZcashNetwork::Main,
            NetworkKind::Testnet => ZcashNetwork::Test,
            NetworkKind::Regtest => ZcashNetwork::Regtest,
        }
    }
}

/// Do these 43 bytes encode a valid Orchard raw payment address?
pub uninterp spec fn orchard_receiver_valid(bytes: Seq<u8>) -> bool;

/// The Orchard address that valid raw bytes decode to.
pub uninterp spec fn orchard_address_of(bytes: Seq<u8>) -> OrchardAddress;

/// The Sapling payment address that valid bytes decode to.
pub uninterp spec fn sapling_address_of(bytes: Seq<u8>) -> SaplingPaymentAddress;

/// Do these 43 bytes encode a valid Sapling payment address?
pub uninterp spec fn sapling_address_valid(bytes: Seq<u8>) -> bool;

/// The receivers of a unified address, in preference order.
pub uninterp spec fn unified_items(unified_address: UnifiedAddress) -> Seq<Receiver>;

/// The 43-byte encoding of a Sapling payment address.
pub uninterp spec fn sapling_bytes(address: SaplingPaymentAddress) -> Seq<u8>;

/// The string encoding of the Sapling address `bytes` on `network`.
pub uninterp spec fn sapling_encoding(network: NetworkKind, bytes: Seq<u8>) -> Seq<char>;

/// Relies on `OrchardAddress::from_raw_address_bytes`: it parses the raw
/// encoding, and fails exactly on the byte strings that are not valid.
#[verifier::external_body]
fn parse_orchard_receiver(data: &[u8; 43]) -> (r: Option<OrchardAddress>)
    ensures
        r is Some <==> orchard_receiver_valid(data@),
        r matches Some(a) ==> a == orchard_address_of(data@),
{
    OrchardAddress::from_raw_address_bytes(data).into()
}

/// Relies on `SaplingPaymentAddress::from_bytes`: it parses the
/// encoding, and fails exactly on the byte strings that are not valid.
#[verifier::external_body]
fn parse_sapling_address(data: &[u8; 43]) -> (r: Option<SaplingPaymentAddress>)
    ensures
        r is Some <==> sapling_address_valid(data@),
        r matches Some(a) ==> a == sapling_address_of(data@),
{
    SaplingPaymentAddress::from_bytes(data)
}

/// Relies on `SaplingPaymentAddress::to_bytes` for the encoding of
/// an address.
#[verifier::external_body]
fn sapling_address_bytes(address: &SaplingPaymentAddress) -> (r: [u8; 43])
    ensures
        r@ == sapling_bytes(*address),
{
    address.to_bytes()
}

/// Relies on `ZcashAddress::from_sapling` and `ZcashAddress::encode` for the
/// string encoding of a Sapling address.
#[verifier::external_body]
fn encode_sapling_address(network: ZcashNetwork, data: [u8; 43]) -> (r: String)
    ensures
        r@ == sapling_encoding(network_kind_of(network), data@),
{
    ZcashAddress::from_sapling(network, data).encode()
}

/// Relies on `unified::Container::items`: the receivers of a unified address
/// in preference order, each moved into a [`Receiver`].
#[verifier::external_body]
fn unified_receivers(unified_address: &UnifiedAddress) -> (r: Vec<Receiver>)
    ensures
        r@ == unified_items(*unified_address),
{
    unified_address
        .items()
        .into_iter()
        .map(|item| match item {
            UnifiedReceiver::Orchard(data) => Receiver::Orchard(data),
            UnifiedReceiver::Sapling(data) => Receiver::Sapling(data),
            UnifiedReceiver::P2pkh(data) => Receiver::P2pkh(data),
            UnifiedReceiver::P2sh(data) => Receiver::P2sh(data),
            UnifiedReceiver::Unknown { typecode, data } => Receiver::Unknown { typecode, data },
        })
        .collect()
}

/// One receiver of a unified address.
pub enum Receiver {
    Orchard([u8; 43]),
    Sapling([u8; 43]),
    P2pkh([u8; 20]),
    P2sh([u8; 20]),
    Unknown { typecode: u32, data: Vec<u8> },
}

/// Why an encoded address was rejected.
#[derive(Clone, Copy, Debug, PartialEq, Eq, Structural, Hash)]
pub enum AddressError {
    /// A Sapling address whose bytes are not a valid payment address.
    InvalidSapling,
    /// A unified address with an Orchard receiver that is not valid.
    InvalidOrchardReceiver,
    /// A unified address with a Sapling receiver that is not valid.
    InvalidSaplingReceiver,
    /// A unified address with a receiver of an unknown type.
    UnsupportedReceiver,
}

/// The error that `r` makes its unified address fail with, if any.
pub open spec fn receiver_error(r: Receiver) -> Option<AddressError> {
    match r {
        Receiver::Orchard(data) => if orchard_receiver_valid(data@) {
            None
        } else {
            Some(AddressError::InvalidOrchardReceiver)
        },
        Receiver::Sapling(data) => if sapling_address_valid(data@) {
            None
        } else {
            Some(AddressError::InvalidSaplingReceiver)
        },
        Receiver::Unknown { .. } => Some(AddressError::UnsupportedReceiver),
        _ => None,
    }
}

/// A shielded or unified Zcash address.
pub enum Address {
    /// A Sapling address.
    Sapling { network: NetworkKind, address: SaplingPaymentAddress },
    /// A unified address, with its shielded receivers.
    Unified {
        network: NetworkKind,
        unified_address: UnifiedAddress,
        orchard: Option<OrchardAddress>,
        sapling: Option<SaplingPaymentAddress>,
    },
}

/// The Orchard address decoded from the last Orchard receiver in `rs`.
pub open spec fn last_orchard(rs: Seq<Receiver>) -> Option<OrchardAddress>
    decreases rs.len(),
{
    if rs.len() == 0 {
        None
    } else {
        match rs.last() {
            Receiver::Orchard(d) => Some(orchard_address_of(d@)),
            _ => last_orchard(rs.drop_last()),
        }
    }
}

/// The Sapling address decoded from the last Sapling receiver in `rs`.
pub open spec fn last_sapling(rs: Seq<Receiver>) -> Option<SaplingPaymentAddress>
    decreases rs.len(),
{
    if rs.len() == 0 {
        None
    } else {
        match rs.last() {
            Receiver::Sapling(d) => Some(sapling_address_of(d@)),
            _ => last_sapling(rs.drop_last()),
        }
    }
}

/// Checks the receivers of a unified address and keeps its shielded ones.
///
/// Every Orchard and Sapling receiver must be valid and no receiver may be of
/// an unknown type; otherwise the first receiver that breaks this decides the
/// error.
pub fn shielded_receivers(receivers: &Vec<Receiver>) -> (r: Result<
    (Option<OrchardAddress>, Option<SaplingPaymentAddress>),
    AddressError,
>)
    ensures
        r is Ok <==> forall|i: int| 0 <= i < receivers@.len() ==> receiver_error(#[trigger] receivers@[i]) is None,
        r matches Err(e) ==> exists|i: int| 0 <= i < receivers@.len()
            && receiver_error(#[trigger] receivers@[i]) == Some(e)
            && forall|j: int| 0 <= j < i ==> receiver_error(#[trigger] receivers@[j]) is None,
        r matches Ok((o, s)) ==> o == last_orchard(receivers@) && s == last_sapling(receivers@),
{
    let mut orchard: Option<OrchardAddress> = None;
    let mut sapling: Option<SaplingPaymentAddress> = None;
    let mut i: usize = 0;
    while i < receivers.len()
        invariant
            i <= receivers@.len(),
            forall|j: int| 0 <= j < i ==> receiver_error(#[trigger] receivers@[j]) is None,
            orchard == last_orchard(receivers@.take(i as int)),
            sapling == last_sapling(receivers@.take(i as int)),
        decreases receivers@.len() - i,
    {
        match &receivers[i] {
            Receiver::Orchard(data) => {
                orchard = parse_orchard_receiver(data);
                if orchard.is_none() {
                    return Err(AddressError::InvalidOrchardReceiver);
                }
            },
            Receiver::Sapling(data) => {
                sapling = parse_sapling_address(data);
                if sapling.is_none() {
                    return Err(AddressError::InvalidSaplingReceiver);
                }
            },
            Receiver::Unknown { .. } => {
                return Err(AddressError::UnsupportedReceiver);
            },
            _ => {},
        }
        proof {
            assert(receiver_error(receivers@[i as int]) is None);
            assert(receivers@.take(i as int + 1).drop_last() =~= receivers@.take(i as int));
        }
        i = i + 1;
    }
    assert(receivers@.take(i as int) =~= receivers@);
    Ok((orchard, sapling))
}

impl Address {
    /// A Sapling address on `network`, if `data` is a valid payment address.
    pub fn try_from_sapling(network: ZcashNetwork, data: [u8; 43]) -> (r: Result<Address, AddressError>)
        ensures
            r is Ok <==> sapling_address_valid(data@),
            r matches Ok(a) ==> a == (Address::Sapling {
                network: network_kind_of(network),
                address: sapling_address_of(data@),
            }),
            r matches Err(e) ==> e == AddressError::InvalidSapling,
    {
        let network = NetworkKind::from_zcash_address(network);
        match parse_sapling_address(&data) {
            Some(address) => Ok(Address::Sapling { network, address }),
            None => Err(AddressError::InvalidSapling),
        }
    }

    /// A unified address on `network`, if every receiver it holds is valid
    /// and of a known type; otherwise the first receiver that is not decides
    /// the error.
    pub fn try_from_unified(network: ZcashNetwork, unified_address: UnifiedAddress) -> (r: Result<Address, AddressError>)
        ensures
            ({
                let items = unified_items(unified_address);
                &&& r is Ok <==> forall|i: int| 0 <= i < items.len() ==> receiver_error(#[trigger] items[i]) is None
                &&& r matches Err(e) ==> exists|i: int| 0 <= i < items.len()
                    && receiver_error(#[trigger] items[i]) == Some(e)
                    && forall|j: int| 0 <= j < i ==> receiver_error(#[trigger] items[j]) is None
                &&& r matches Ok(a) ==> a matches Address::Unified { network: n, unified_address: u, orchard: o, sapling: s }
                    && n == network_kind_of(network)
                    && u == unified_address
                    && o == last_orchard(items)
                    && s == last_sapling(items)
            }),
    {
        let network = NetworkKind::from_zcash_address(network);
        let receivers = unified_receivers(&unified_address);
        match shielded_receivers(&receivers) {
            Ok((orchard, sapling)) => Ok(Address::Unified { network, unified_address, orchard, sapling }),
            Err(e) => Err(e),
        }
    }

    /// The network of the address.
    pub open spec fn spec_network(&self) -> NetworkKind {
        match self {
            Address::Sapling { network, .. } => *network,
            Address::Unified { network, .. } => *network,
        }
    }

    /// The network of the address.
    pub fn network(&self) -> (r: NetworkKind)
        ensures
            r == self.spec_network(),
    {
        match self {
            Address::Sapling { network, .. } => *network,
            Address::Unified { network, .. } => *network,
        }
    }

    /// Whether the address pays to a script hash: never, for shielded and
    /// unified addresses.
    pub fn is_script_hash(&self) -> (r: bool)
        ensures
            !r,
    {
        false
    }

    /// The encoding of a Sapling address; `None` for a unified address.
    pub fn payment_address(&self) -> (r: Option<String>)
        ensures
            match self {
                Address::Sapling { network, address } => r matches Some(s)
                    && s@ == sapling_encoding(*network, sapling_bytes(*address)),
                Address::Unified { .. } => r is None,
            },
    {
        match self {
            Address::Sapling { address, network } => {
                let data = sapling_address_bytes(address);
                Some(encode_sapling_address(network.to_zcash_address(), data))
            },
            Address::Unified { .. } => None,
        }
    }
}

} // verus!
