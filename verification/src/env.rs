//! The ledger context of an invocation: ledger sequence, timestamp and which
//! addresses have authorized it.
use vstd::prelude::*;

verus! {

/// An account or contract on the ledger, identified by a number.
#[derive(Clone, Copy, PartialEq, Eq, Structural, Debug, Hash)]
pub struct Address(pub u64);

impl crate::table::TableKey for Address {
    fn key_eq(&self, other: &Self) -> (r: bool) {
        self.0 == other.0
    }
}

/// What a contract sees of the ledger during one invocation.
#[derive(Debug)]
pub struct Env {
    /// Ledger sequence number.
    pub sequence: u32,
    /// Ledger close time, in seconds.
    pub timestamp: u64,
    /// Every address counts as having authorized the invocation.
    pub mock_all_auths: bool,
    /// The addresses that authorized the invocation.
    pub signers: Vec<Address>,
}

impl Env {
    /// Whether `addr` has authorized the invocation.
    pub open spec fn authorizes(&self, addr: Address) -> bool {
        self.mock_all_auths || self.signers@.contains(addr)
    }

    /// A fresh ledger at sequence 0 and time 0 that nobody has authorized.
    pub fn new() -> (r: Env)
        ensures
            r.sequence == 0,
            r.timestamp == 0,
            !r.mock_all_auths,
            r.signers@ == Seq::<Address>::empty(),
    {
        Env { sequence: 0, timestamp: 0, mock_all_auths: false, signers: Vec::new() }
    }

    /// Checks that `addr` has authorized the invocation.
    pub fn require_auth(&self, addr: Address) -> (r: bool)
        ensures
            r == self.authorizes(addr),
    {
        if self.mock_all_auths {
            return true;
        }
        let mut i: usize = 0;
        while i < self.signers.len()
            invariant
                i <= self.signers@.len(),
                forall|j: int| 0 <= j < i ==> self.signers@[j] != addr,
            decreases self.signers@.len() - i,
        {
            if self.signers[i].0 == addr.0 {
                assert(self.signers@[i as int] == addr);
                return true;
            }
            i = i + 1;
        }
        false
    }

    /// The context of a call that this invocation makes into another
    /// contract: the same ledger, with the calling contract authorized as the
    /// direct invoker.
    pub fn with_invoker(&self, contract: Address) -> (r: Env)
        ensures
            r.sequence == self.sequence,
            r.timestamp == self.timestamp,
            r.mock_all_auths == self.mock_all_auths,
            r.signers@ == self.signers@.push(contract),
            forall|a: Address| r.authorizes(a) <==> (self.authorizes(a) || a == contract),
    {
        let mut signers: Vec<Address> = Vec::new();
        let mut i: usize = 0;
        while i < self.signers.len()
            invariant
                i <= self.signers@.len(),
                signers@ == self.signers@.subrange(0, i as int),
            decreases self.signers@.len() - i,
        {
            signers.push(self.signers[i]);
            i = i + 1;
        }
        signers.push(contract);
        assert(self.signers@.subrange(0, self.signers@.len() as int) == self.signers@);
        let r = Env {
            sequence: self.sequence,
            timestamp: self.timestamp,
            mock_all_auths: self.mock_all_auths,
            signers,
        };
        assert forall|a: Address| r.authorizes(a) <==> (self.authorizes(a) || a == contract) by {
            if r.signers@.contains(a) {
                let j = choose|j: int| 0 <= j < r.signers@.len() && r.signers@[j] == a;
                if j < self.signers@.len() {
                    assert(self.signers@[j] == a);
                }
            }
            if self.signers@.contains(a) {
                let j = choose|j: int| 0 <= j < self.signers@.len() && self.signers@[j] == a;
                assert(r.signers@[j] == a);
            }
            if a == contract {
                assert(r.signers@[self.signers@.len() as int] == a);
            }
        }
        r
    }
}

} // verus!
