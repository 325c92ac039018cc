//! A small demonstration ledger: hashed blocks of transactions, a wallet
//! of balances, a fee-ordered transaction pool and voting nodes.
//!
//! Block hashes come from SHA-256 over a canonical rendering of the
//! block's contents; the rendering itself is verified, the digest is
//! named and trusted.

use sha2::{Digest, Sha256};
use vstd::prelude::*;

verus! {

use vstd::string::StringExecFns;

/// The SHA-256 digest of a string's bytes.  The digest is a pure
/// function of its input, so it can be named without being restated.
pub uninterp spec fn sha256_of(s: Seq<char>) -> Seq<u8>;

/// The lowercase hex rendering of the SHA-256 digest of a string: what a
/// block stores as its hash.
pub open spec fn sha256_hex_of(s: Seq<char>) -> Seq<char> {
    hex_of(sha256_of(s))
}

/// Relies on sha2's `Sha256`: hashing the string's UTF-8 bytes gives a
/// 32-byte digest that depends on the input alone.
#[verifier::external_body]
fn sha256_bytes(s: &str) -> (r: Vec<u8>)
    ensures
        r@ == sha256_of(s@),
        r@.len() == 32,
{
    let mut hasher = Sha256::new();
    hasher.update(s.as_bytes());
    hasher.finalize().to_vec()
}

/// The lowercase hex digit character for `0 <= d <= 15`.
pub open spec fn hex_digit(d: int) -> char {
    if d < 10 {
        digit_char(d)
    } else if d == 10 {
        'a'
    } else if d == 11 {
        'b'
    } else if d == 12 {
        'c'
    } else if d == 13 {
        'd'
    } else if d == 14 {
        'e'
    } else {
        'f'
    }
}

/// Lowercase hex rendering of a byte string, two digits per byte.
pub open spec fn hex_of(bytes: Seq<u8>) -> Seq<char>
    decreases bytes.len(),
{
    if bytes.len() == 0 {
        Seq::empty()
    } else {
        hex_of(bytes.drop_last()) + seq![hex_digit(bytes.last() as int / 16),
            hex_digit(bytes.last() as int % 16)]
    }
}

fn hex_digit_str(d: u64) -> (r: &'static str)
    requires
        d < 16,
    ensures
        r@ == seq![hex_digit(d as int)],
{
    if d < 10 {
        digit_str(d)
    } else {
        proof {
            reveal_strlit("a");
            reveal_strlit("b");
            reveal_strlit("c");
            reveal_strlit("d");
            reveal_strlit("e");
            reveal_strlit("f");
            assert("a"@ =~= seq![hex_digit(10)]);
            assert("b"@ =~= seq![hex_digit(11)]);
            assert("c"@ =~= seq![hex_digit(12)]);
            assert("d"@ =~= seq![hex_digit(13)]);
            assert("e"@ =~= seq![hex_digit(14)]);
            assert("f"@ =~= seq![hex_digit(15)]);
        }
        if d == 10 {
            "a"
        } else if d == 11 {
            "b"
        } else if d == 12 {
            "c"
        } else if d == 13 {
            "d"
        } else if d == 14 {
            "e"
        } else {
            "f"
        }
    }
}

/// Renders a byte string in lowercase hex.
fn hex_string(bytes: &Vec<u8>) -> (r: String)
    ensures
        r@ == hex_of(bytes@),
{
    let mut r = String::new();
    let n = bytes.len();
    let mut i: usize = 0;
    while i < n
        invariant
            0 <= i <= n,
            n == bytes@.len(),
            r@ == hex_of(bytes@.take(i as int)),
        decreases n - i,
    {
        let b: u64 = bytes[i] as u64;
        r.append(hex_digit_str(b / 16));
        r.append(hex_digit_str(b % 16));
        proof {
            assert(bytes@.take(i + 1 as int).drop_last() =~= bytes@.take(i as int));
            assert(bytes@.take(i + 1 as int).last() == bytes@[i as int]);
            assert(r@ =~= hex_of(bytes@.take(i + 1 as int)));
        }
        i = i + 1;
    }
    proof {
        assert(bytes@.take(n as int) =~= bytes@);
    }
    r
}

/// The hex digest of a string: the verified rendering of the trusted
/// raw digest.
fn sha256_hex(s: &str) -> (r: String)
    ensures
        r@ == sha256_hex_of(s@),
{
    let digest = sha256_bytes(s);
    hex_string(&digest)
}

/// The decimal digit character for `0 <= d <= 9`.
pub open spec fn digit_char(d: int) -> char {
    if d == 0 {
        '0'
    } else if d == 1 {
        '1'
    } else if d == 2 {
        '2'
    } else if d == 3 {
        '3'
    } else if d == 4 {
        '4'
    } else if d == 5 {
        '5'
    } else if d == 6 {
        '6'
    } else if d == 7 {
        '7'
    } else if d == 8 {
        '8'
    } else {
        '9'
    }
}

/// The decimal rendering of a non-negative number, most significant
/// digit first.
pub open spec fn dec_rep(n: int) -> Seq<char>
    decreases n,
{
    if n < 10 {
        seq![digit_char(n)]
    } else {
        dec_rep(n / 10).push(digit_char(n % 10))
    }
}

fn digit_str(d: u64) -> (r: &'static str)
    requires
        d < 10,
    ensures
        r@ == seq![digit_char(d as int)],
{
    proof {
        reveal_strlit("0");
        reveal_strlit("1");
        reveal_strlit("2");
        reveal_strlit("3");
        reveal_strlit("4");
        reveal_strlit("5");
        reveal_strlit("6");
        reveal_strlit("7");
        reveal_strlit("8");
        reveal_strlit("9");
        assert("0"@ =~= seq![digit_char(0)]);
        assert("1"@ =~= seq![digit_char(1)]);
        assert("2"@ =~= seq![digit_char(2)]);
        assert("3"@ =~= seq![digit_char(3)]);
        assert("4"@ =~= seq![digit_char(4)]);
        assert("5"@ =~= seq![digit_char(5)]);
        assert("6"@ =~= seq![digit_char(6)]);
        assert("7"@ =~= seq![digit_char(7)]);
        assert("8"@ =~= seq![digit_char(8)]);
        assert("9"@ =~= seq![digit_char(9)]);
    }
    if d == 0 {
        "0"
    } else if d == 1 {
        "1"
    } else if d == 2 {
        "2"
    } else if d == 3 {
        "3"
    } else if d == 4 {
        "4"
    } else if d == 5 {
        "5"
    } else if d == 6 {
        "6"
    } else if d == 7 {
        "7"
    } else if d == 8 {
        "8"
    } else {
        "9"
    }
}

/// Renders `n` in decimal.
pub fn decimal_string(n: u64) -> (r: String)
    ensures
        r@ == dec_rep(n as int),
    decreases n,
{
    if n < 10 {
        String::from_str(digit_str(n))
    } else {
        let prefix = decimal_string(n / 10);
        let r = prefix.concat(digit_str(n % 10));
        proof {
            assert(r@ =~= dec_rep(n as int));
        }
        r
    }
}

/// A transfer of coins between two named parties, with a miner fee.
#[derive(Debug)]
pub struct Transaction {
    /// Sender's name.
    pub from: String,
    /// Recipient's name.
    pub to: String,
    /// Coins transferred to the recipient.
    pub amount: u64,
    /// Fee paid on top by the sender.
    pub fee: u64,
}

/// The one-line rendering `display` produces for a transaction.
pub open spec fn tx_display(t: Transaction) -> Seq<char> {
    "Transaction: "@ + t.from@ + " -> "@ + t.to@ + " | Amount: "@ + dec_rep(t.amount as int)
        + " | Fee: "@ + dec_rep(t.fee as int)
}

/// The canonical rendering of a transaction inside a block's hash
/// preimage: sender, recipient, amount and fee, plainly concatenated.
pub open spec fn tx_blob(t: Transaction) -> Seq<char> {
    t.from@ + t.to@ + dec_rep(t.amount as int) + dec_rep(t.fee as int)
}

/// The concatenated renderings of a sequence of transactions.
pub open spec fn txs_blob(s: Seq<Transaction>) -> Seq<char>
    decreases s.len(),
{
    if s.len() == 0 {
        Seq::empty()
    } else {
        txs_blob(s.drop_last()) + tx_blob(s.last())
    }
}

/// The full hash preimage of a block: its transactions, the previous
/// block's hash, and the block number.
pub open spec fn block_payload(txs: Seq<Transaction>, previous_hash: Seq<char>,
    block_number: int) -> Seq<char> {
    txs_blob(txs) + previous_hash + dec_rep(block_number)
}

impl Transaction {
    /// A new transfer of `amount` coins from `from` to `to`, paying
    /// `fee` on top.
    pub fn new(from: String, to: String, amount: u64, fee: u64) -> (t: Transaction)
        ensures
            t == (Transaction { from, to, amount, fee }),
    {
        Transaction { from, to, amount, fee }
    }

    /// One-line human-readable rendering.
    pub fn display(&self) -> (r: String)
        ensures
            r@ == tx_display(*self),
    {
        let mut r = String::from_str("Transaction: ");
        r.append(self.from.as_str());
        r.append(" -> ");
        r.append(self.to.as_str());
        r.append(" | Amount: ");
        let amount = decimal_string(self.amount);
        r.append(amount.as_str());
        r.append(" | Fee: ");
        let fee = decimal_string(self.fee);
        r.append(fee.as_str());
        r
    }
}

/// One block of the chain: its transactions, the link to its
/// predecessor, and its own hash over both.
#[derive(Debug)]
pub struct Block {
    /// The transactions sealed in this block.
    pub transactions: Vec<Transaction>,
    /// Hash of the preceding block.
    pub previous_hash: String,
    /// Hash of this block's payload.
    pub hash: String,
    /// Position of this block in the chain.
    pub block_number: u64,
}

impl Block {
    /// Builds a block and seals it with its computed hash.
    pub fn new(transactions: Vec<Transaction>, previous_hash: String, block_number: u64)
        -> (b: Block)
        ensures
            b.transactions@ == transactions@,
            b.previous_hash == previous_hash,
            b.block_number == block_number,
            b.hash@ == sha256_hex_of(block_payload(transactions@, previous_hash@,
                block_number as int)),
    {
        let mut block = Block { transactions, previous_hash, hash: String::new(),
            block_number };
        let h = block.calculate_hash();
        block.hash = h;
        block
    }

    /// The SHA-256 hex digest of this block's payload; the stored hash
    /// field plays no part in it.
    pub fn calculate_hash(&self) -> (r: String)
        ensures
            r@ == sha256_hex_of(block_payload(self.transactions@, self.previous_hash@,
                self.block_number as int)),
    {
        let mut data = String::new();
        let n = self.transactions.len();
        let mut i: usize = 0;
        while i < n
            invariant
                0 <= i <= n,
                n == self.transactions@.len(),
                data@ == txs_blob(self.transactions@.take(i as int)),
            decreases n - i,
        {
            let tx = &self.transactions[i];
            data.append(tx.from.as_str());
            data.append(tx.to.as_str());
            let amount = decimal_string(tx.amount);
            data.append(amount.as_str());
            let fee = decimal_string(tx.fee);
            data.append(fee.as_str());
            proof {
                assert(self.transactions@.take(i + 1 as int).drop_last()
                    =~= self.transactions@.take(i as int));
                assert(self.transactions@.take(i + 1 as int).last()
                    == self.transactions@[i as int]);
                assert(data@ =~= txs_blob(self.transactions@.take(i + 1 as int)));
            }
            i = i + 1;
        }
        proof {
            assert(self.transactions@.take(n as int) =~= self.transactions@);
        }
        data.append(self.previous_hash.as_str());
        let number = decimal_string(self.block_number);
        data.append(number.as_str());
        proof {
            assert(data@ =~= block_payload(self.transactions@, self.previous_hash@,
                self.block_number as int));
        }
        sha256_hex(data.as_str())
    }
}

/// One named account and its coin balance.
#[derive(Debug)]
pub struct BalanceEntry {
    /// Account holder's name.
    pub name: String,
    /// Coins held.
    pub amount: u64,
}

/// Index of the first entry named `name`, or `-1` when none matches.
pub open spec fn balance_index(s: Seq<BalanceEntry>, name: Seq<char>) -> int
    decreases s.len(),
{
    if s.len() == 0 {
        -1
    } else if s[0].name@ == name {
        0
    } else {
        let rest = balance_index(s.drop_first(), name);
        if rest == -1 {
            -1
        } else {
            rest + 1
        }
    }
}

/// What `balance_index` returns: either no entry matches, or the result
/// is the position of the first matching entry.
pub proof fn lemma_balance_index_props(s: Seq<BalanceEntry>, name: Seq<char>)
    ensures
        balance_index(s, name) == -1 ==> forall|j: int|
            0 <= j < s.len() ==> (#[trigger] s[j]).name@ != name,
        balance_index(s, name) != -1 ==> 0 <= balance_index(s, name) < s.len()
            && s[balance_index(s, name)].name@ == name && forall|j: int|
            0 <= j < balance_index(s, name) ==> (#[trigger] s[j]).name@ != name,
    decreases s.len(),
{
    if s.len() > 0 && s[0].name@ != name {
        lemma_balance_index_props(s.drop_first(), name);
        assert(forall|j: int|
            1 <= j < s.len() ==> #[trigger] s[j] == s.drop_first()[j - 1]);
    }
}

/// Two ledgers with the same names in the same positions agree on every
/// first-match lookup.
pub proof fn lemma_balance_index_same_names(s1: Seq<BalanceEntry>, s2: Seq<BalanceEntry>,
    name: Seq<char>)
    requires
        s1.len() == s2.len(),
        forall|j: int| 0 <= j < s1.len() ==> (#[trigger] s1[j]).name@ == s2[j].name@,
    ensures
        balance_index(s1, name) == balance_index(s2, name),
    decreases s1.len(),
{
    if s1.len() > 0 {
        lemma_balance_index_same_names(s1.drop_first(), s2.drop_first(), name);
        assert(forall|j: int|
            1 <= j < s1.len() ==> #[trigger] s1[j] == s1.drop_first()[j - 1]);
        assert(forall|j: int|
            1 <= j < s2.len() ==> #[trigger] s2[j] == s2.drop_first()[j - 1]);
    }
}

/// No two entries share a name.
pub open spec fn balances_wf(s: Seq<BalanceEntry>) -> bool {
    forall|i: int, j: int|
        0 <= i < j < s.len() ==> (#[trigger] s[i]).name@ != (#[trigger] s[j]).name@
}

/// Total number of coins across all accounts.
pub open spec fn total_coins(s: Seq<BalanceEntry>) -> int
    decreases s.len(),
{
    if s.len() == 0 {
        0
    } else {
        total_coins(s.drop_last()) + s.last().amount
    }
}

pub proof fn lemma_total_coins_nonneg(s: Seq<BalanceEntry>)
    ensures
        0 <= total_coins(s),
    decreases s.len(),
{
    if s.len() > 0 {
        lemma_total_coins_nonneg(s.drop_last());
    }
}

/// No single account holds more than the whole supply.
pub proof fn lemma_total_coins_element(s: Seq<BalanceEntry>, i: int)
    requires
        0 <= i < s.len(),
    ensures
        s[i].amount <= total_coins(s),
    decreases s.len(),
{
    lemma_total_coins_nonneg(s.drop_last());
    if i < s.len() - 1 {
        lemma_total_coins_element(s.drop_last(), i);
    }
}

/// Replacing one entry shifts the total by the difference in amounts.
pub proof fn lemma_total_coins_update(s: Seq<BalanceEntry>, i: int, e: BalanceEntry)
    requires
        0 <= i < s.len(),
    ensures
        total_coins(s.update(i, e)) == total_coins(s) - s[i].amount + e.amount,
    decreases s.len(),
{
    if i == s.len() - 1 {
        assert(s.update(i, e).drop_last() =~= s.drop_last());
    } else {
        assert(s.update(i, e).drop_last() =~= s.drop_last().update(i, e));
        lemma_total_coins_update(s.drop_last(), i, e);
    }
}

/// The ledger after taking `x` coins from the account named `name`; a
/// missing account leaves the ledger untouched.
pub open spec fn debit(s: Seq<BalanceEntry>, name: Seq<char>, x: int) -> Seq<BalanceEntry> {
    let i = balance_index(s, name);
    if i == -1 {
        s
    } else {
        s.update(i, BalanceEntry { name: s[i].name, amount: (s[i].amount - x) as u64 })
    }
}

/// The ledger after giving `x` coins to the account named by the string
/// `name`, creating the account when it does not exist yet.
pub open spec fn credit(s: Seq<BalanceEntry>, name: String, x: int) -> Seq<BalanceEntry> {
    let i = balance_index(s, name@);
    if i == -1 {
        s.push(BalanceEntry { name: name, amount: x as u64 })
    } else {
        s.update(i, BalanceEntry { name: s[i].name, amount: (s[i].amount + x) as u64 })
    }
}

/// The ledger after one transaction: the sender pays amount plus fee,
/// the recipient receives the amount.
pub open spec fn apply_tx(s: Seq<BalanceEntry>, t: Transaction) -> Seq<BalanceEntry> {
    credit(debit(s, t.from@, t.amount + t.fee), t.to, t.amount as int)
}

/// The ledger after a sequence of transactions, applied in order.
pub open spec fn apply_txs(s: Seq<BalanceEntry>, txs: Seq<Transaction>) -> Seq<BalanceEntry>
    decreases txs.len(),
{
    if txs.len() == 0 {
        s
    } else {
        apply_txs(apply_tx(s, txs[0]), txs.drop_first())
    }
}

/// The sender named by `t` exists and can cover amount plus fee.
pub open spec fn spec_valid_tx_on(s: Seq<BalanceEntry>, t: Transaction) -> bool {
    let i = balance_index(s, t.from@);
    i != -1 && s[i].amount >= t.amount + t.fee
}

/// Every transaction in `txs` is covered at the moment it applies.
pub open spec fn txs_processable(s: Seq<BalanceEntry>, txs: Seq<Transaction>) -> bool
    decreases txs.len(),
{
    if txs.len() == 0 {
        true
    } else {
        spec_valid_tx_on(s, txs[0]) && txs_processable(apply_tx(s, txs[0]),
            txs.drop_first())
    }
}

/// Applying a covered transaction keeps names unique, burns exactly the
/// fee, and never grows an account past the supply.
pub proof fn lemma_apply_tx_props(s: Seq<BalanceEntry>, t: Transaction)
    requires
        balances_wf(s),
        total_coins(s) <= 0xFFFFFFFFFFFFFFFF,
        spec_valid_tx_on(s, t),
        t.amount + t.fee <= 0xFFFFFFFFFFFFFFFF,
    ensures
        balances_wf(apply_tx(s, t)),
        total_coins(apply_tx(s, t)) == total_coins(s) - t.fee,
{
    let si = balance_index(s, t.from@);
    lemma_balance_index_props(s, t.from@);
    let d = debit(s, t.from@, t.amount + t.fee);
    lemma_total_coins_update(s, si, BalanceEntry { name: s[si].name,
        amount: (s[si].amount - (t.amount + t.fee)) as u64 });
    lemma_total_coins_nonneg(s);
    lemma_balance_index_same_names(s, d, t.to@);
    let ri = balance_index(d, t.to@);
    lemma_balance_index_props(d, t.to@);
    if ri == -1 {
        assert(apply_tx(s, t).drop_last() =~= d);
    } else {
        lemma_total_coins_element(d, ri);
        lemma_total_coins_update(d, ri, BalanceEntry { name: d[ri].name,
            amount: (d[ri].amount + t.amount) as u64 });
    }
}

/// Account balances, keyed by name; no two entries share a name.
#[derive(Debug)]
pub struct Wallet {
    /// All accounts, in insertion order.
    pub balances: Vec<BalanceEntry>,
}

fn find_account(balances: &Vec<BalanceEntry>, name: &String) -> (r: Option<usize>)
    ensures
        match r {
            Some(i) => balance_index(balances@, name@) == i as int,
            None => balance_index(balances@, name@) == -1,
        },
{
    proof {
        lemma_balance_index_props(balances@, name@);
    }
    let n = balances.len();
    let mut i: usize = 0;
    while i < n
        invariant
            0 <= i <= n,
            n == balances@.len(),
            forall|j: int| 0 <= j < i ==> (#[trigger] balances@[j]).name@ != name@,
        decreases n - i,
    {
        if balances[i].name == *name {
            proof {
                lemma_balance_index_props(balances@, name@);
            }
            return Some(i);
        }
        i = i + 1;
    }
    proof {
        lemma_balance_index_props(balances@, name@);
    }
    None
}

impl Wallet {
    /// Unique account names, and a total supply that fits in a `u64`, so
    /// that crediting a covered transfer can never overflow.
    pub open spec fn wf(self) -> bool {
        balances_wf(self.balances@) && total_coins(self.balances@) <= 0xFFFFFFFFFFFFFFFF
    }

    /// The balance of the account named `name`, or zero when absent.
    pub open spec fn spec_balance(self, name: Seq<char>) -> int {
        let i = balance_index(self.balances@, name);
        if i == -1 {
            0
        } else {
            self.balances@[i].amount as int
        }
    }

    /// The demonstration wallet: four accounts with 180 coins between
    /// them.
    pub fn new() -> (w: Wallet)
        ensures
            w.wf(),
            w.balances@.len() == 4,
            w.balances@[0].name@ == "Alice"@ && w.balances@[0].amount == 100,
            w.balances@[1].name@ == "Bob"@ && w.balances@[1].amount == 50,
            w.balances@[2].name@ == "Charlie"@ && w.balances@[2].amount == 20,
            w.balances@[3].name@ == "Dave"@ && w.balances@[3].amount == 10,
            total_coins(w.balances@) == 180,
    {
        let mut balances: Vec<BalanceEntry> = Vec::new();
        balances.push(BalanceEntry { name: String::from_str("Alice"), amount: 100 });
        balances.push(BalanceEntry { name: String::from_str("Bob"), amount: 50 });
        balances.push(BalanceEntry { name: String::from_str("Charlie"), amount: 20 });
        balances.push(BalanceEntry { name: String::from_str("Dave"), amount: 10 });
        proof {
            reveal_strlit("Alice");
            reveal_strlit("Bob");
            reveal_strlit("Charlie");
            reveal_strlit("Dave");
            assert(balances@.drop_last() =~= balances@.take(3));
            assert(balances@.take(3).drop_last() =~= balances@.take(2));
            assert(balances@.take(2).drop_last() =~= balances@.take(1));
            assert(balances@.take(1).drop_last() =~= Seq::<BalanceEntry>::empty());
            assert(total_coins(Seq::<BalanceEntry>::empty()) == 0);
            assert(total_coins(balances@.take(1)) == 100);
            assert(total_coins(balances@.take(2)) == 150);
            assert(total_coins(balances@.take(3)) == 170);
            assert(total_coins(balances@) == 180);
            assert("Alice"@.len() == 5);
            assert("Bob"@.len() == 3);
            assert("Charlie"@.len() == 7);
            assert("Dave"@.len() == 4);
            assert(balances@[0].name@ != balances@[1].name@);
            assert(balances@[0].name@ != balances@[2].name@);
            assert(balances@[0].name@ != balances@[3].name@);
            assert(balances@[1].name@ != balances@[2].name@);
            assert(balances@[1].name@ != balances@[3].name@);
            assert(balances@[2].name@ != balances@[3].name@);
        }
        Wallet { balances }
    }

    /// Whether the sender exists and can cover amount plus fee.
    pub fn validate_transaction(&self, transaction: &Transaction) -> (ok: bool)
        requires
            transaction.amount + transaction.fee <= 0xFFFFFFFFFFFFFFFF,
        ensures
            ok == spec_valid_tx_on(self.balances@, *transaction),
    {
        let total_cost = transaction.amount + transaction.fee;
        match find_account(&self.balances, &transaction.from) {
            Some(i) => {
                proof {
                    lemma_balance_index_props(self.balances@, transaction.from@);
                }
                self.balances[i].amount >= total_cost
            },
            None => false,
        }
    }

    /// Applies one covered transaction: the sender pays amount plus fee,
    /// the recipient (created on first use) receives the amount.
    pub fn process_transaction(&mut self, transaction: &Transaction)
        requires
            old(self).wf(),
            spec_valid_tx_on(old(self).balances@, *transaction),
            transaction.amount + transaction.fee <= 0xFFFFFFFFFFFFFFFF,
        ensures
            final(self).balances@ == apply_tx(old(self).balances@, *transaction),
            final(self).wf(),
            total_coins(final(self).balances@) == total_coins(old(self).balances@)
                - transaction.fee,
    {
        let ghost s0 = self.balances@;
        proof {
            lemma_apply_tx_props(s0, *transaction);
            lemma_balance_index_props(s0, transaction.from@);
        }
        let cost = transaction.amount + transaction.fee;
        let si = match find_account(&self.balances, &transaction.from) {
            Some(i) => i,
            None => {
                proof {
                    assert(false);
                }
                0
            },
        };
        let mut sender = self.balances.remove(si);
        sender.amount = sender.amount - cost;
        self.balances.insert(si, sender);
        proof {
            assert(self.balances@ =~= debit(s0, transaction.from@,
                transaction.amount + transaction.fee));
            lemma_total_coins_update(s0, si as int, self.balances@[si as int]);
            lemma_total_coins_nonneg(s0);
            lemma_balance_index_same_names(s0, self.balances@, transaction.to@);
        }
        let ghost d = self.balances@;
        match find_account(&self.balances, &transaction.to) {
            Some(ri) => {
                proof {
                    lemma_balance_index_props(d, transaction.to@);
                    lemma_total_coins_element(d, ri as int);
                }
                let mut recipient = self.balances.remove(ri);
                recipient.amount = recipient.amount + transaction.amount;
                self.balances.insert(ri, recipient);
                proof {
                    assert(self.balances@ =~= apply_tx(s0, *transaction));
                }
            },
            None => {
                self.balances.push(BalanceEntry { name: transaction.to.clone(),
                    amount: transaction.amount });
                proof {
                    assert(self.balances@ =~= apply_tx(s0, *transaction));
                }
            },
        }
    }

    /// The balance of the account named `name`, or zero when absent.
    pub fn get_balance(&self, name: &str) -> (b: u64)
        ensures
            b as int == self.spec_balance(name@),
    {
        let key: String = name.to_owned();
        match find_account(&self.balances, &key) {
            Some(i) => {
                proof {
                    lemma_balance_index_props(self.balances@, name@);
                }
                self.balances[i].amount
            },
            None => 0,
        }
    }
}


/// The chain invariant `is_valid` checks: every block after the genesis
/// carries the hash of its own payload and links to its predecessor.
pub open spec fn chain_ok(blocks: Seq<Block>) -> bool {
    forall|i: int|
        1 <= i < blocks.len() ==> {
            &&& (#[trigger] blocks[i]).hash@ == sha256_hex_of(block_payload(
                blocks[i].transactions@, blocks[i].previous_hash@,
                blocks[i].block_number as int))
            &&& blocks[i].previous_hash@ == blocks[i - 1].hash@
        }
}

/// The chain of blocks and the wallet its transactions settle against.
#[derive(Debug)]
pub struct Blockchain {
    /// All blocks, genesis first.
    pub blocks: Vec<Block>,
    /// Current account balances.
    pub wallet: Wallet,
}

impl Blockchain {
    /// A genesis block is always present and the wallet is sound.
    pub open spec fn wf(self) -> bool {
        self.blocks@.len() >= 1 && self.wallet.wf()
    }

    /// A fresh chain: the demonstration wallet and a genesis block with
    /// no transactions, linked to the placeholder hash `"0"`.
    pub fn new() -> (b: Blockchain)
        ensures
            b.wf(),
            b.blocks@.len() == 1,
            b.blocks@[0].transactions@.len() == 0,
            b.blocks@[0].previous_hash@ == "0"@,
            b.blocks@[0].block_number == 0,
            b.blocks@[0].hash@ == sha256_hex_of(block_payload(Seq::empty(), "0"@, 0)),
            b.wallet.balances@.len() == 4,
            total_coins(b.wallet.balances@) == 180,
            chain_ok(b.blocks@),
    {
        let genesis_block = Block::new(Vec::new(), String::from_str("0"), 0);
        let mut blocks: Vec<Block> = Vec::new();
        blocks.push(genesis_block);
        Blockchain { blocks, wallet: Wallet::new() }
    }

    /// Seals `transactions` into a new block if the block is non-empty
    /// and every transaction is covered by the current balances, and
    /// settles them against the wallet.  Returns whether a block was
    /// added.
    pub fn add_block(&mut self, transactions: Vec<Transaction>) -> (ok: bool)
        requires
            old(self).wf(),
            forall|j: int|
                0 <= j < transactions@.len() ==> (#[trigger] transactions@[j]).amount
                    + transactions@[j].fee <= 0xFFFFFFFFFFFFFFFF,
            (forall|j: int|
                0 <= j < transactions@.len() ==> spec_valid_tx_on(old(self).wallet.balances@,
                    #[trigger] transactions@[j])) ==> txs_processable(
                old(self).wallet.balances@, transactions@),
        ensures
            final(self).wf(),
            ok == (transactions@.len() > 0 && forall|j: int|
                0 <= j < transactions@.len() ==> spec_valid_tx_on(old(self).wallet.balances@,
                    #[trigger] transactions@[j])),
            !ok ==> *final(self) == *old(self),
            ok ==> {
                &&& final(self).wallet.balances@ == apply_txs(old(self).wallet.balances@,
                    transactions@)
                &&& final(self).blocks@.len() == old(self).blocks@.len() + 1
                &&& final(self).blocks@.drop_last() == old(self).blocks@
                &&& final(self).blocks@.last().transactions@ == transactions@
                &&& final(self).blocks@.last().previous_hash@ == old(self).blocks@.last()
                    .hash@
                &&& final(self).blocks@.last().block_number == old(self).blocks@.len()
                &&& final(self).blocks@.last().hash@ == sha256_hex_of(block_payload(
                    transactions@, old(self).blocks@.last().hash@,
                    old(self).blocks@.len() as int))
            },
    {
        let ghost w0 = self.wallet.balances@;
        let n = transactions.len();
        if n == 0 {
            return false;
        }
        let mut i: usize = 0;
        while i < n
            invariant
                0 <= i <= n,
                n == transactions@.len(),
                *self == *old(self),
                old(self).wf(),
                self.wallet.balances@ == w0,
                forall|j: int|
                    0 <= j < n ==> (#[trigger] transactions@[j]).amount
                        + transactions@[j].fee <= 0xFFFFFFFFFFFFFFFF,
                forall|j: int|
                    0 <= j < i ==> spec_valid_tx_on(w0, #[trigger] transactions@[j]),
            decreases n - i,
        {
            if !self.wallet.validate_transaction(&transactions[i]) {
                return false;
            }
            i = i + 1;
        }
        let latest_block_hash = self.blocks[self.blocks.len() - 1].hash.clone();
        let block_number = self.blocks.len() as u64;
        let ghost b0 = self.blocks@;
        proof {
            assert(transactions@.take(0) =~= Seq::<Transaction>::empty());
            assert(transactions@.skip(0) =~= transactions@);
        }
        let mut i: usize = 0;
        while i < n
            invariant
                0 <= i <= n,
                n == transactions@.len(),
                self.blocks@ == b0,
                self.wallet.wf(),
                old(self).wf(),
                w0 == old(self).wallet.balances@,
                self.wallet.balances@ == apply_txs(w0, transactions@.take(i as int)),
                txs_processable(self.wallet.balances@, transactions@.skip(i as int)),
                forall|j: int|
                    0 <= j < n ==> (#[trigger] transactions@[j]).amount
                        + transactions@[j].fee <= 0xFFFFFFFFFFFFFFFF,
            decreases n - i,
        {
            proof {
                assert(transactions@.skip(i as int)[0] == transactions@[i as int]);
                assert(transactions@.skip(i + 1 as int) =~= transactions@.skip(
                    i as int).drop_first());
            }
            self.wallet.process_transaction(&transactions[i]);
            proof {
                lemma_apply_txs_snoc(w0, transactions@.take(i as int),
                    transactions@[i as int]);
                assert(transactions@.take(i + 1 as int) =~= transactions@.take(
                    i as int).push(transactions@[i as int]));
            }
            i = i + 1;
        }
        proof {
            assert(transactions@.take(n as int) =~= transactions@);
        }
        let new_block = Block::new(transactions, latest_block_hash, block_number);
        self.blocks.push(new_block);
        true
    }

    /// Recomputes every hash and checks every link.
    pub fn is_valid(&self) -> (ok: bool)
        ensures
            ok == chain_ok(self.blocks@),
    {
        let n = self.blocks.len();
        let mut i: usize = 1;
        while i < n
            invariant
                1 <= i <= n || (n == 0 && i == 1),
                n == self.blocks@.len(),
                forall|j: int|
                    1 <= j < i ==> {
                        &&& (#[trigger] self.blocks@[j]).hash@ == sha256_hex_of(
                            block_payload(self.blocks@[j].transactions@,
                            self.blocks@[j].previous_hash@,
                            self.blocks@[j].block_number as int))
                        &&& self.blocks@[j].previous_hash@ == self.blocks@[j - 1].hash@
                    },
            decreases n - i,
        {
            let computed = self.blocks[i].calculate_hash();
            if !(self.blocks[i].hash == computed) {
                return false;
            }
            if !(self.blocks[i].previous_hash == self.blocks[i - 1].hash) {
                return false;
            }
            i = i + 1;
        }
        true
    }
}

/// Applying one more transaction at the end continues the fold.
pub proof fn lemma_apply_txs_snoc(s: Seq<BalanceEntry>, txs: Seq<Transaction>,
    t: Transaction)
    ensures
        apply_txs(s, txs.push(t)) == apply_tx(apply_txs(s, txs), t),
    decreases txs.len(),
{
    if txs.len() == 0 {
        assert(txs.push(t)[0] == t);
        assert(txs.push(t).drop_first() =~= Seq::<Transaction>::empty());
        assert(apply_txs(apply_tx(s, t), Seq::<Transaction>::empty()) == apply_tx(s, t));
    } else {
        assert(txs.push(t)[0] == txs[0]);
        assert(txs.push(t).drop_first() =~= txs.drop_first().push(t));
        lemma_apply_txs_snoc(apply_tx(s, txs[0]), txs.drop_first(), t);
    }
}

/// Pending transactions, handed out to blocks best fee first.
#[derive(Debug)]
pub struct TransactionPool {
    /// Transactions waiting to be sealed into a block.
    pub transactions: Vec<Transaction>,
}

/// Fees never increase along the sequence.
pub open spec fn sorted_by_fee_desc(s: Seq<Transaction>) -> bool {
    forall|i: int, j: int|
        0 <= i <= j < s.len() ==> (#[trigger] s[i]).fee >= (#[trigger] s[j]).fee
}

impl TransactionPool {
    /// An empty pool.
    pub fn new() -> (p: TransactionPool)
        ensures
            p.transactions@.len() == 0,
    {
        TransactionPool { transactions: Vec::new() }
    }

    /// Adds a transaction if the wallet can cover it right now.
    pub fn add_transaction(&mut self, transaction: Transaction, wallet: &Wallet) -> (ok:
        bool)
        requires
            transaction.amount + transaction.fee <= 0xFFFFFFFFFFFFFFFF,
        ensures
            ok == spec_valid_tx_on(wallet.balances@, transaction),
            ok ==> final(self).transactions@ == old(self).transactions@.push(transaction),
            !ok ==> *final(self) == *old(self),
    {
        if wallet.validate_transaction(&transaction) {
            self.transactions.push(transaction);
            true
        } else {
            false
        }
    }

    /// Removes and returns the up-to-`count` highest-fee transactions;
    /// what stays behind is sorted by fee as well, all of it at or below
    /// the fees handed out.
    pub fn get_best_transactions(&mut self, count: usize) -> (selected: Vec<Transaction>)
        ensures
            sorted_by_fee_desc(selected@),
            sorted_by_fee_desc(final(self).transactions@),
            selected@.len() == if count <= old(self).transactions@.len() {
                count as int
            } else {
                old(self).transactions@.len() as int
            },
            final(self).transactions@.len() == old(self).transactions@.len()
                - selected@.len(),
            selected@.to_multiset().add(final(self).transactions@.to_multiset())
                == old(self).transactions@.to_multiset(),
            forall|i: int, j: int|
                0 <= i < selected@.len() && 0 <= j < final(self).transactions@.len()
                    ==> (#[trigger] selected@[i]).fee >= (#[trigger] final(
                    self).transactions@[j]).fee,
    {
        broadcast use vstd::seq_lib::group_to_multiset_ensures;
        broadcast use vstd::multiset::group_multiset_axioms;

        let ghost p0 = self.transactions@;
        let mut sorted: Vec<Transaction> = Vec::new();
        while self.transactions.len() > 0
            invariant
                sorted_by_fee_desc(sorted@),
                sorted@.to_multiset().add(self.transactions@.to_multiset())
                    == p0.to_multiset(),
                sorted@.len() + self.transactions@.len() == p0.len(),
                forall|i: int, j: int|
                    0 <= i < sorted@.len() && 0 <= j < self.transactions@.len()
                        ==> (#[trigger] sorted@[i]).fee >= (#[trigger] self
                        .transactions@[j]).fee,
            decreases self.transactions@.len(),
        {
            let m = self.transactions.len();
            let mut best: usize = 0;
            let mut k: usize = 1;
            while k < m
                invariant
                    0 <= best < k <= m,
                    m == self.transactions@.len(),
                    forall|j: int|
                        0 <= j < k ==> self.transactions@[best as int].fee
                            >= (#[trigger] self.transactions@[j]).fee,
                decreases m - k,
            {
                if self.transactions[k].fee > self.transactions[best].fee {
                    best = k;
                }
                k = k + 1;
            }
            let ghost pre = self.transactions@;
            let ghost sorted_pre = sorted@;
            let x = self.transactions.remove(best);
            sorted.push(x);
            proof {
                broadcast use vstd::seq_lib::group_to_multiset_ensures;
                broadcast use vstd::multiset::group_multiset_axioms;

                pre.remove_ensures(best as int);
                assert(x == pre[best as int]);
                assert(self.transactions@ == pre.remove(best as int));
                assert(forall|j: int| 0 <= j < pre.len() ==> x.fee >= (#[trigger] pre[j]).fee);
                assert(pre.contains(x));
                assert(pre.to_multiset().count(x) > 0);
                assert(sorted@ == sorted_pre.push(x));
                assert(sorted@.to_multiset() =~= sorted_pre.to_multiset().insert(x));
                assert(self.transactions@.to_multiset() =~= pre.to_multiset().remove(x));
                assert(sorted@.to_multiset().add(self.transactions@.to_multiset())
                    =~= p0.to_multiset());
                assert(forall|j: int|
                    0 <= j < self.transactions@.len() ==> x.fee
                        >= (#[trigger] self.transactions@[j]).fee);
            }
        }
        let mut selected: Vec<Transaction> = Vec::new();
        let ghost all = sorted@;
        let mut taken: usize = 0;
        let limit = if count <= sorted.len() {
            count
        } else {
            sorted.len()
        };
        while taken < limit
            invariant
                0 <= taken <= limit,
                limit <= all.len(),
                selected@ == all.take(taken as int),
                sorted@ == all.skip(taken as int),
            decreases limit - taken,
        {
            proof {
                broadcast use vstd::seq_lib::group_to_multiset_ensures;
                broadcast use vstd::multiset::group_multiset_axioms;

                assert(all.skip(taken as int)[0] == all[taken as int]);
                assert(all.skip(taken as int).remove(0) =~= all.skip(taken + 1 as int));
                assert(all.take(taken + 1 as int) =~= all.take(taken as int).push(
                    all[taken as int]));
            }
            let x = sorted.remove(0);
            selected.push(x);
            taken = taken + 1;
        }
        self.transactions = sorted;
        proof {
            lemma_take_skip_multisets(all, taken as int);
        }
        selected
    }

    /// Whether the pool has no pending transactions.
    pub fn is_empty(&self) -> (r: bool)
        ensures
            r == (self.transactions@.len() == 0),
    {
        self.transactions.len() == 0
    }

    /// How many transactions are pending.
    pub fn size(&self) -> (r: usize)
        ensures
            r == self.transactions@.len(),
    {
        self.transactions.len()
    }
}

/// A prefix and the matching suffix together carry the whole sequence's
/// multiset.
pub proof fn lemma_take_skip_multisets(s: Seq<Transaction>, n: int)
    requires
        0 <= n <= s.len(),
    ensures
        s.take(n).to_multiset().add(s.skip(n).to_multiset()) == s.to_multiset(),
    decreases n,
{
    broadcast use vstd::seq_lib::group_to_multiset_ensures;
    broadcast use vstd::multiset::group_multiset_axioms;

    if n == 0 {
        assert(s.take(0) =~= Seq::<Transaction>::empty());
        assert(s.skip(0) =~= s);
        assert(s.take(0).to_multiset().add(s.to_multiset()) =~= s.to_multiset());
    } else {
        lemma_take_skip_multisets(s, n - 1);
        assert(s.take(n).remove(n - 1) =~= s.take(n - 1));
        assert(s.take(n)[n - 1] == s[n - 1]);
        assert(s.skip(n - 1)[0] == s[n - 1]);
        assert(s.skip(n - 1).remove(0) =~= s.skip(n));
        assert(s.take(n).to_multiset().add(s.skip(n).to_multiset()) =~= s.to_multiset());
    }
}

/// A consensus participant; an honest node approves blocks, a malicious
/// one rejects them.
#[derive(Debug)]
pub struct Node {
    /// The node's name.
    pub name: String,
    /// Whether the node misbehaves.
    pub is_malicious: bool,
}

impl Node {
    /// A node that approves every block.
    pub fn new_honest(name: &str) -> (n: Node)
        ensures
            n.name@ == name@,
            !n.is_malicious,
    {
        Node { name: name.to_owned(), is_malicious: false }
    }

    /// A node that rejects every block.
    pub fn new_malicious(name: &str) -> (n: Node)
        ensures
            n.name@ == name@,
            n.is_malicious,
    {
        Node { name: name.to_owned(), is_malicious: true }
    }

    /// The node's vote on a candidate block: approval exactly when the
    /// node is honest.
    pub fn vote(&self, transactions: &[Transaction]) -> (approve: bool)
        ensures
            approve == !self.is_malicious,
    {
        !self.is_malicious
    }
}

} // verus!
