//! What a contract call receives from the Stellar host besides its own
//! arguments: the addresses that authorized it and the ledger it runs in.

use vstd::prelude::*;

verus! {

/// Which kind of Stellar entity an address names.
#[derive(Clone, Copy, Debug, PartialEq, Eq, Hash, Structural)]
pub enum AddressKind {
    /// A classic account, named by its ed25519 public key.
    Account,
    /// A deployed contract, named by its contract id.
    Contract,
}

/// A Stellar address: its kind and its 32-byte key, split in two halves.
#[derive(Clone, Copy, Debug, PartialEq, Eq, Hash, Structural)]
pub struct Address {
    pub kind: AddressKind,
    pub key_hi: u128,
    pub key_lo: u128,
}

/// The host's side of a contract call.
pub struct Invocation {
    /// The addresses whose authorization the call carries.
    pub signers: Vec<Address>,
    /// The sequence number of the ledger the call runs in.
    pub ledger_sequence: u32,
}

impl Invocation {
    /// `require_auth` on `a` succeeds in this call.
    pub open spec fn authorizes(&self, a: Address) -> bool {
        self.signers@.contains(a)
    }

    /// Whether `a` authorized this call.
    pub fn is_authorized_by(&self, a: Address) -> (r: bool)
        ensures
            r == self.authorizes(a),
    {
        let n = self.signers.len();
        let mut i: usize = 0;
        while i < n
            invariant
                n == self.signers@.len(),
                i <= n,
                forall|j: int| 0 <= j < i ==> self.signers@[j] != a,
            decreases n - i,
        {
            if self.signers[i] == a {
                return true;
            }
            i = i + 1;
        }
        false
    }
}

/// The time to live, in ledgers, of a storage entry that had `ttl` left
/// when the contract asked the host to extend it: the host extends an entry
/// only if it has fewer than `threshold` ledgers left, and then to
/// `extend_to` ledgers.
pub open spec fn ttl_after_extension(ttl: int, threshold: u32, extend_to: u32) -> int {
    if ttl < threshold {
        extend_to as int
    } else {
        ttl
    }
}

/// Why a contract call took no effect.
#[derive(Clone, Copy, Debug, PartialEq, Eq)]
pub enum Failure<E> {
    /// The contract returned one of its own errors.
    Contract(E),
    /// The host refused the call: the contract required this address's
    /// authorization, and the call does not carry it.
    MissingAuth(Address),
}

} // verus!
