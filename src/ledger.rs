//! Balances of accounts and the all-or-nothing commit of a set of writes.
//!
//! A ledger is an arena of writes read last-write-first; a commit stages
//! every write of a batch on a copy and adopts the copy only when every
//! write succeeded, so a failed batch leaves the ledger exactly as it was.
use vstd::prelude::*;
use crate::types::{AssetId, Balance, Error};

verus! {

/// Holder of balances.
#[derive(PartialEq, Eq, Structural, Clone, Copy, Debug)]
pub enum Account {
    /// A trader or liquidity provider.
    User(u64),
    /// The hub pool's own account.
    Hub,
    /// The account of the stable pool with this share asset.
    Subpool(AssetId),
}

/// One write to the ledger.
#[derive(PartialEq, Eq, Structural, Clone, Copy, Debug)]
pub enum LedgerOp {
    Transfer { asset: AssetId, from: Account, to: Account, amount: Balance },
    Mint { asset: AssetId, to: Account, amount: Balance },
    Burn { asset: AssetId, from: Account, amount: Balance },
}

/// Balances as a total function of asset and account.
pub type Balances = Map<(AssetId, Account), Balance>;

/// Balance of `(asset, account)` in an arena of writes: its latest write,
/// or zero.
pub open spec fn lookup(s: Seq<(AssetId, Account, Balance)>, asset: AssetId, account: Account) -> Balance
    decreases s.len(),
{
    if s.len() == 0 {
        0
    } else if s.last().0 == asset && s.last().1 == account {
        s.last().2
    } else {
        lookup(s.drop_last(), asset, account)
    }
}

/// Effect of one write, `None` when a balance would fall below zero or
/// exceed the balance type.
pub open spec fn apply_op(m: Balances, op: LedgerOp) -> Option<Balances> {
    match op {
        LedgerOp::Transfer { asset, from, to, amount } => if m[(asset, from)] < amount {
            None
        } else if from == to {
            Some(m)
        } else if m[(asset, to)] + amount > u128::MAX {
            None
        } else {
            Some(
                m.insert((asset, from), (m[(asset, from)] - amount) as u128).insert(
                    (asset, to),
                    (m[(asset, to)] + amount) as u128,
                ),
            )
        },
        LedgerOp::Mint { asset, to, amount } => if m[(asset, to)] + amount > u128::MAX {
            None
        } else {
            Some(m.insert((asset, to), (m[(asset, to)] + amount) as u128))
        },
        LedgerOp::Burn { asset, from, amount } => if m[(asset, from)] < amount {
            None
        } else {
            Some(m.insert((asset, from), (m[(asset, from)] - amount) as u128))
        },
    }
}

/// Effect of the first `i` writes of `ops`, in order.
pub open spec fn apply_ops(m: Balances, ops: Seq<LedgerOp>, i: nat) -> Option<Balances>
    decreases i,
{
    if i == 0 || i > ops.len() {
        Some(m)
    } else {
        match apply_ops(m, ops, (i - 1) as nat) {
            Some(m1) => apply_op(m1, ops[i - 1]),
            None => None,
        }
    }
}

/// Balances of every asset for every account.
#[derive(Clone, Debug)]
pub struct Ledger {
    writes: Vec<(AssetId, Account, Balance)>,
}

proof fn lemma_apply_ops_none(m: Balances, ops: Seq<LedgerOp>, i: nat, j: nat)
    requires
        i <= j <= ops.len(),
        apply_ops(m, ops, i) is None,
    ensures
        apply_ops(m, ops, j) is None,
    decreases j,
{
    if i < j {
        lemma_apply_ops_none(m, ops, i, (j - 1) as nat);
    }
}

impl Ledger {
    /// The balances the ledger holds.
    pub closed spec fn view(&self) -> Balances {
        Map::new(|k: (AssetId, Account)| true, |k: (AssetId, Account)| lookup(self.writes@, k.0, k.1))
    }

    /// A ledger in which every balance is zero.
    pub fn new() -> (r: Ledger)
        ensures
            forall|k: (AssetId, Account)| #[trigger] r.view()[k] == 0,
    {
        Ledger { writes: Vec::new() }
    }

    /// Balance of `account` in `asset`.
    pub fn free_balance(&self, asset: AssetId, account: Account) -> (r: Balance)
        ensures
            r == self.view()[(asset, account)],
    {
        let mut i: usize = self.writes.len();
        assert(self.writes@.take(i as int) =~= self.writes@);
        while i > 0
            invariant
                i <= self.writes@.len(),
                lookup(self.writes@, asset, account) == lookup(self.writes@.take(i as int), asset, account),
            decreases i,
        {
            let (a, who, v) = self.writes[i - 1];
            assert(self.writes@.take(i as int).drop_last() =~= self.writes@.take(i - 1));
            if a == asset && who == account {
                return v;
            }
            i = i - 1;
        }
        proof {
            assert(self.writes@.take(0) =~= Seq::<(AssetId, Account, Balance)>::empty());
        }
        0
    }

    fn set(&mut self, asset: AssetId, account: Account, value: Balance)
        ensures
            final(self).view() == old(self).view().insert((asset, account), value),
    {
        self.writes.push((asset, account, value));
        proof {
            assert(final(self).writes@.drop_last() =~= old(self).writes@);
            assert(final(self).view() =~= old(self).view().insert((asset, account), value));
        }
    }

    fn apply(&mut self, op: LedgerOp) -> (r: bool)
        ensures
            r <==> apply_op(old(self).view(), op) is Some,
            r ==> Some(final(self).view()) == apply_op(old(self).view(), op),
    {
        match op {
            LedgerOp::Transfer { asset, from, to, amount } => {
                let fb = self.free_balance(asset, from);
                if fb < amount {
                    return false;
                }
                if from == to {
                    return true;
                }
                let tb = self.free_balance(asset, to);
                if tb > u128::MAX - amount {
                    return false;
                }
                self.set(asset, from, fb - amount);
                self.set(asset, to, tb + amount);
                true
            },
            LedgerOp::Mint { asset, to, amount } => {
                let tb = self.free_balance(asset, to);
                if tb > u128::MAX - amount {
                    return false;
                }
                self.set(asset, to, tb + amount);
                true
            },
            LedgerOp::Burn { asset, from, amount } => {
                let fb = self.free_balance(asset, from);
                if fb < amount {
                    return false;
                }
                self.set(asset, from, fb - amount);
                true
            },
        }
    }

    /// Applies every write of `ops` in order, or none of them: when one
    /// would overdraw or overflow a balance the ledger is left unchanged and
    /// `BalanceTooLow` is returned.
    pub fn commit(&mut self, ops: &Vec<LedgerOp>) -> (r: Result<(), Error>)
        ensures
            match apply_ops(old(self).view(), ops@, ops@.len()) {
                Some(m) => r is Ok && final(self).view() == m,
                None => r == Err::<(), Error>(Error::BalanceTooLow) && final(self).view() == old(self).view(),
            },
    {
        let mut copy: Vec<(AssetId, Account, Balance)> = Vec::new();
        let mut k: usize = 0;
        while k < self.writes.len()
            invariant
                k <= self.writes@.len(),
                copy@ == self.writes@.take(k as int),
            decreases self.writes@.len() - k,
        {
            copy.push(self.writes[k]);
            assert(copy@ =~= self.writes@.take(k + 1));
            k = k + 1;
        }
        assert(copy@ =~= self.writes@);
        let mut staged = Ledger { writes: copy };
        let mut i: usize = 0;
        while i < ops.len()
            invariant
                i <= ops@.len(),
                apply_ops(self.view(), ops@, i as nat) == Some(staged.view()),
            decreases ops@.len() - i,
        {
            if !staged.apply(ops[i]) {
                proof {
                    lemma_apply_ops_none(self.view(), ops@, (i + 1) as nat, ops@.len());
                }
                return Err(Error::BalanceTooLow);
            }
            i = i + 1;
        }
        *self = staged;
        Ok(())
    }
}

} // verus!
