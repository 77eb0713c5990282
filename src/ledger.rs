//! Token balances of one transaction, replayed instruction by instruction so
//! that the balances immediately before any instruction can be read.
use vstd::prelude::*;
use vstd::string::*;
use crate::tree::RawInstruction;

verus! {

/// The token program, whose transfers, mints and burns move balances.
pub const TOKEN_PROGRAM_ID: &'static str = "TokenkegQfeZyiNwAJbNbGKPFXCWuBvf9Ss623VQ5DA";

pub const OP_TRANSFER: u8 = 3;

pub const OP_MINT_TO: u8 = 7;

pub const OP_BURN: u8 = 8;

pub const OP_TRANSFER_CHECKED: u8 = 12;

/// A declared balance before the transaction ran.
pub struct TokenBalance {
    pub account: String,
    pub mint: String,
    pub amount: u64,
}

#[derive(Clone, Copy, PartialEq, Eq, Structural, Debug)]
pub enum LedgerError {
    /// A debit larger than the balance it is taken from.
    Underflow { account_slot: usize },
    /// A credit that would not fit in 64 bits.
    Overflow { account_slot: usize },
}

/// How an instruction moves balances: the accounts (as positions in its
/// account list) to debit and to credit, and the amount.
#[derive(Clone, Copy, PartialEq, Eq, Structural, Debug)]
pub struct Effect {
    pub debit: Option<usize>,
    pub credit: Option<usize>,
    pub amount: u64,
}

/// Little-endian value of the eight bytes of `b` from `off`.
pub open spec fn le_u64(b: Seq<u8>, off: int) -> int {
    b[off] as int + b[off + 1] as int * 0x100 + b[off + 2] as int * 0x10000 + b[off + 3] as int
        * 0x1000000 + b[off + 4] as int * 0x100000000 + b[off + 5] as int * 0x10000000000 + b[off
        + 6] as int * 0x1000000000000 + b[off + 7] as int * 0x100000000000000
}

/// The balance movement of an instruction, when it has one.
pub open spec fn effect_spec(ins: RawInstruction) -> Option<Effect> {
    let d = ins.data@;
    let n = ins.accounts@.len();
    if ins.program_id@ != TOKEN_PROGRAM_ID@ || d.len() < 9 {
        None
    } else {
        let amount = le_u64(d, 1) as u64;
        if d[0] == OP_TRANSFER && n >= 2 {
            Some(Effect { debit: Some(0), credit: Some(1), amount })
        } else if d[0] == OP_TRANSFER_CHECKED && n >= 3 {
            Some(Effect { debit: Some(0), credit: Some(2), amount })
        } else if d[0] == OP_MINT_TO && n >= 2 {
            Some(Effect { debit: None, credit: Some(1), amount })
        } else if d[0] == OP_BURN && n >= 1 {
            Some(Effect { debit: Some(0), credit: None, amount })
        } else {
            None
        }
    }
}

/// Reads a little-endian `u64` at `off`.
pub fn read_u64_le(b: &Vec<u8>, off: usize) -> (r: u64)
    requires
        off + 8 <= b.len(),
    ensures
        r as int == le_u64(b@, off as int),
{
    let b0 = b[off] as u64;
    let b1 = b[off + 1] as u64;
    let b2 = b[off + 2] as u64;
    let b3 = b[off + 3] as u64;
    let b4 = b[off + 4] as u64;
    let b5 = b[off + 5] as u64;
    let b6 = b[off + 6] as u64;
    let b7 = b[off + 7] as u64;
    assert(b0 <= 0xff && b1 <= 0xff && b2 <= 0xff && b3 <= 0xff && b4 <= 0xff && b5 <= 0xff && b6 <= 0xff && b7 <= 0xff);
    b0 + b1 * 0x100 + b2 * 0x10000 + b3 * 0x1000000 + b4 * 0x100000000 + b5 * 0x10000000000 + b6
        * 0x1000000000000 + b7 * 0x100000000000000
}

/// Recognizes a balance-moving instruction.
pub fn effect_of(ins: &RawInstruction) -> (r: Option<Effect>)
    ensures
        r == effect_spec(*ins),
{
    let token = String::from_str(TOKEN_PROGRAM_ID);
    if ins.program_id != token || ins.data.len() < 9 {
        return None;
    }
    let amount = read_u64_le(&ins.data, 1);
    let n = ins.accounts.len();
    let op = ins.data[0];
    if op == OP_TRANSFER && n >= 2 {
        Some(Effect { debit: Some(0), credit: Some(1), amount })
    } else if op == OP_TRANSFER_CHECKED && n >= 3 {
        Some(Effect { debit: Some(0), credit: Some(2), amount })
    } else if op == OP_MINT_TO && n >= 2 {
        Some(Effect { debit: None, credit: Some(1), amount })
    } else if op == OP_BURN && n >= 1 {
        Some(Effect { debit: Some(0), credit: None, amount })
    } else {
        None
    }
}

pub open spec fn strings(v: Seq<String>) -> Seq<Seq<char>> {
    v.map_values(|s: String| s@)
}

/// First slot at or after `i` that holds account `a`, or -1.
pub open spec fn find_from(accounts: Seq<Seq<char>>, a: Seq<char>, i: int) -> int
    decreases accounts.len() - i,
{
    if i < 0 || i >= accounts.len() {
        -1
    } else if accounts[i] == a {
        i
    } else {
        find_from(accounts, a, i + 1)
    }
}

pub open spec fn find(accounts: Seq<Seq<char>>, a: Seq<char>) -> int {
    find_from(accounts, a, 0)
}

/// Takes `amt` from the balance of `a`; accounts the ledger does not hold are
/// not tracked.
pub open spec fn debit_spec(accounts: Seq<Seq<char>>, amounts: Seq<u64>, a: Seq<char>, amt: u64) -> Option<Seq<u64>> {
    let i = find(accounts, a);
    if i < 0 {
        Some(amounts)
    } else if amounts[i] >= amt {
        Some(amounts.update(i, (amounts[i] - amt) as u64))
    } else {
        None
    }
}

pub open spec fn credit_spec(accounts: Seq<Seq<char>>, amounts: Seq<u64>, a: Seq<char>, amt: u64) -> Option<Seq<u64>> {
    let i = find(accounts, a);
    if i < 0 {
        Some(amounts)
    } else if amounts[i] + amt <= u64::MAX {
        Some(amounts.update(i, (amounts[i] + amt) as u64))
    } else {
        None
    }
}

/// Balances after one instruction, or `None` when it would take a balance
/// below zero or past 64 bits.
pub open spec fn apply_spec(accounts: Seq<Seq<char>>, amounts: Seq<u64>, ins: RawInstruction) -> Option<Seq<u64>> {
    match effect_spec(ins) {
        None => Some(amounts),
        Some(e) => {
            let after_debit = match e.debit {
                Some(k) => debit_spec(accounts, amounts, ins.accounts@[k as int]@, e.amount),
                None => Some(amounts),
            };
            match after_debit {
                None => None,
                Some(am) => match e.credit {
                    Some(k) => credit_spec(accounts, am, ins.accounts@[k as int]@, e.amount),
                    None => Some(am),
                },
            }
        },
    }
}

/// Balances after the instructions `ins`, in order, starting from `seed`.
pub open spec fn replay(accounts: Seq<Seq<char>>, seed: Seq<u64>, ins: Seq<RawInstruction>) -> Option<Seq<u64>>
    decreases ins.len(),
{
    if ins.len() == 0 {
        Some(seed)
    } else {
        match replay(accounts, seed, ins.drop_last()) {
            None => None,
            Some(am) => apply_spec(accounts, am, ins.last()),
        }
    }
}

/// Balance of (`a`, `m`) in a ledger state.
pub open spec fn lookup(accounts: Seq<Seq<char>>, mints: Seq<Seq<char>>, amounts: Seq<u64>, a: Seq<char>, m: Seq<char>) -> Option<u64> {
    let i = find(accounts, a);
    if i >= 0 && mints[i] == m {
        Some(amounts[i])
    } else {
        None
    }
}

/// Balance of (`a`, `m`) immediately before instruction `i` of `ins` runs.
pub open spec fn balance_before_spec(
    accounts: Seq<Seq<char>>,
    mints: Seq<Seq<char>>,
    seed: Seq<u64>,
    ins: Seq<RawInstruction>,
    i: int,
    a: Seq<char>,
    m: Seq<char>,
) -> Option<Option<u64>> {
    match replay(accounts, seed, ins.take(i)) {
        None => None,
        Some(am) => Some(lookup(accounts, mints, am, a, m)),
    }
}

/// The ledger of one transaction: account, mint and current amount, slot by slot.
pub struct BalanceTracker {
    pub accounts: Vec<String>,
    pub mints: Vec<String>,
    pub amounts: Vec<u64>,
}

impl BalanceTracker {
    /// One account, mint and amount per slot.
    pub open spec fn wf(&self) -> bool {
        self.accounts@.len() == self.mints@.len() && self.mints@.len() == self.amounts@.len()
    }

    pub open spec fn account_keys(&self) -> Seq<Seq<char>> {
        strings(self.accounts@)
    }

    pub open spec fn mint_keys(&self) -> Seq<Seq<char>> {
        strings(self.mints@)
    }

    /// Seeds the ledger from the declared balances before execution.
    pub fn new(pre: &Vec<TokenBalance>) -> (r: BalanceTracker)
        ensures
            r.wf(),
            r.accounts@.len() == pre@.len(),
            forall|i: int|
                0 <= i < pre@.len() ==> r.accounts@[i]@ == (#[trigger] pre@[i]).account@
                    && r.mints@[i]@ == pre@[i].mint@ && r.amounts@[i] == pre@[i].amount,
    {
        let mut accounts: Vec<String> = Vec::new();
        let mut mints: Vec<String> = Vec::new();
        let mut amounts: Vec<u64> = Vec::new();
        let mut i: usize = 0;
        while i < pre.len()
            invariant
                i <= pre@.len(),
                accounts@.len() == i && mints@.len() == i && amounts@.len() == i,
                forall|j: int|
                    0 <= j < i ==> accounts@[j]@ == (#[trigger] pre@[j]).account@ && mints@[j]@
                        == pre@[j].mint@ && amounts@[j] == pre@[j].amount,
            decreases pre@.len() - i,
        {
            accounts.push(pre[i].account.clone());
            mints.push(pre[i].mint.clone());
            amounts.push(pre[i].amount);
            i += 1;
        }
        BalanceTracker { accounts, mints, amounts }
    }

    /// Slot that holds account `a`, if any.
    pub fn find(&self, a: &String) -> (r: Option<usize>)
        ensures
            match r {
                Some(i) => find(self.account_keys(), a@) == i as int && i < self.accounts@.len(),
                None => find(self.account_keys(), a@) == -1,
            },
    {
        let mut i: usize = 0;
        while i < self.accounts.len()
            invariant
                i <= self.accounts@.len(),
                find(self.account_keys(), a@) == find_from(self.account_keys(), a@, i as int),
            decreases self.accounts@.len() - i,
        {
            if self.accounts[i] == *a {
                return Some(i);
            }
            i += 1;
        }
        None
    }

    /// Balance of (`account`, `mint`) at the current replay position: it
    /// reflects every instruction applied so far and nothing later.
    pub fn balance_before(&self, account: &String, mint: &String) -> (r: Option<u64>)
        requires
            self.wf(),
        ensures
            r == lookup(self.account_keys(), self.mint_keys(), self.amounts@, account@, mint@),
    {
        match self.find(account) {
            Some(i) => {
                if self.mints[i] == *mint {
                    Some(self.amounts[i])
                } else {
                    None
                }
            },
            None => None,
        }
    }

    /// Applies one instruction's balance movement. An instruction that moves
    /// no balance leaves the ledger as it is; one that would take a balance
    /// below zero or past 64 bits is reported and leaves it as it is too.
    pub fn update_balance(&mut self, ins: &RawInstruction) -> (r: Result<(), LedgerError>)
        requires
            old(self).wf(),
        ensures
            final(self).wf(),
            final(self).accounts == old(self).accounts,
            final(self).mints == old(self).mints,
            match apply_spec(old(self).account_keys(), old(self).amounts@, *ins) {
                Some(am) => r is Ok && final(self).amounts@ == am,
                None => r is Err && final(self).amounts@ == old(self).amounts@,
            },
    {
        let e = match effect_of(ins) {
            None => return Ok(()),
            Some(e) => e,
        };
        let mut debit_slot: Option<usize> = None;
        if let Some(k) = e.debit {
            if let Some(i) = self.find(&ins.accounts[k]) {
                if self.amounts[i] < e.amount {
                    return Err(LedgerError::Underflow { account_slot: i });
                }
                debit_slot = Some(i);
            }
        }
        let mut credit_slot: Option<usize> = None;
        if let Some(k) = e.credit {
            if let Some(i) = self.find(&ins.accounts[k]) {
                let current = match debit_slot {
                    Some(d) => if d == i {
                        self.amounts[i] - e.amount
                    } else {
                        self.amounts[i]
                    },
                    None => self.amounts[i],
                };
                if current > u64::MAX - e.amount {
                    return Err(LedgerError::Overflow { account_slot: i });
                }
                credit_slot = Some(i);
            }
        }
        if let Some(i) = debit_slot {
            let v = self.amounts[i] - e.amount;
            self.amounts.set(i, v);
        }
        if let Some(i) = credit_slot {
            let v = self.amounts[i] + e.amount;
            self.amounts.set(i, v);
        }
        Ok(())
    }
}

/// What a balance read before instruction `i` sees depends only on the
/// instructions before `i`: changing any instruction at `i` or later does
/// not change it.
pub proof fn lemma_balance_before_ignores_later(
    accounts: Seq<Seq<char>>,
    mints: Seq<Seq<char>>,
    seed: Seq<u64>,
    ins: Seq<RawInstruction>,
    other: Seq<RawInstruction>,
    i: int,
    a: Seq<char>,
    m: Seq<char>,
)
    requires
        0 <= i <= ins.len(),
        i <= other.len(),
        forall|j: int| 0 <= j < i ==> ins[j] == other[j],
    ensures
        balance_before_spec(accounts, mints, seed, ins, i, a, m) == balance_before_spec(
            accounts,
            mints,
            seed,
            other,
            i,
            a,
            m,
        ),
{
    assert(ins.take(i) =~= other.take(i));
}

} // verus!
