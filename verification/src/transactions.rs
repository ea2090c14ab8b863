//! Wallets, transactions, and the ledger that admits transfers.
//!
//! A transfer is admitted only if the sender exists, the amount is within
//! `0 ..= sender balance`, and the recipient exists; on admission the debit,
//! the credit and the transaction insert happen as one unit, so a rejected
//! transfer leaves every balance untouched.

use crate::encode::dec_str;
use crate::encode::dec_str_i64;
use crate::encode::i64_to_string;
use crate::encode::json_escape;
use crate::encode::json_escape_str;
use crate::encode::str_eq;
use crate::encode::u64_to_string;
use crate::hashing::sha256_hex;
use crate::hashing::sha256_hex_of;
use vstd::prelude::*;

verus! {

/// A value transfer between two wallets. `block_id` is `None` while the
/// transaction is pending and is set exactly once, when a mined block
/// includes it.
#[derive(Debug)]
pub struct Transaction {
    pub from_address: String,
    pub to_address: String,
    pub amount: i64,
    pub sig: Option<String>,
    pub added_to_block: Option<bool>,
    pub created_at: Option<u64>,
    pub block_id: Option<u64>,
}

/// The mathematical model of a transaction.
pub ghost struct TransactionV {
    pub from_address: Seq<char>,
    pub to_address: Seq<char>,
    pub amount: i64,
    pub sig: Option<Seq<char>>,
    pub added_to_block: Option<bool>,
    pub created_at: Option<u64>,
    pub block_id: Option<u64>,
}

impl View for Transaction {
    type V = TransactionV;

    open spec fn view(&self) -> TransactionV {
        TransactionV {
            from_address: self.from_address@,
            to_address: self.to_address@,
            amount: self.amount,
            sig: match self.sig {
                Option::None => Option::None,
                Option::Some(s) => Option::Some(s@),
            },
            added_to_block: self.added_to_block,
            created_at: self.created_at,
            block_id: self.block_id,
        }
    }
}

impl Clone for Transaction {
    /// A clone carries the same model.
    fn clone(&self) -> (res: Self)
        ensures
            res@ == self@,
    {
        Transaction {
            from_address: self.from_address.clone(),
            to_address: self.to_address.clone(),
            amount: self.amount,
            sig: match &self.sig {
                Option::None => Option::None,
                Option::Some(s) => Option::Some(s.clone()),
            },
            added_to_block: self.added_to_block,
            created_at: self.created_at,
            block_id: self.block_id,
        }
    }
}

/// A wallet: an address, a non-negative balance, an opaque public key.
#[derive(Debug)]
pub struct Wallet {
    pub address: String,
    pub balance: i64,
    pub pub_key: String,
}

/// The mathematical model of a wallet.
pub ghost struct WalletV {
    pub address: Seq<char>,
    pub balance: i64,
    pub pub_key: Seq<char>,
}

impl View for Wallet {
    type V = WalletV;

    open spec fn view(&self) -> WalletV {
        WalletV { address: self.address@, balance: self.balance, pub_key: self.pub_key@ }
    }
}

impl Clone for Wallet {
    /// A clone carries the same model.
    fn clone(&self) -> (res: Self)
        ensures
            res@ == self@,
    {
        Wallet {
            address: self.address.clone(),
            balance: self.balance,
            pub_key: self.pub_key.clone(),
        }
    }
}

/// A JSON optional string: `null`, or the escaped string in quotes.
pub open spec fn json_opt_string(o: Option<Seq<char>>) -> Seq<char> {
    match o {
        Option::None => "null"@,
        Option::Some(s) => "\""@ + json_escape(s) + "\""@,
    }
}

/// A JSON optional boolean: `null`, `true` or `false`.
pub open spec fn json_opt_bool(o: Option<bool>) -> Seq<char> {
    match o {
        Option::None => "null"@,
        Option::Some(b) => if b {
            "true"@
        } else {
            "false"@
        },
    }
}

/// A JSON optional number: `null` or the decimal rendering.
pub open spec fn json_opt_u64(o: Option<u64>) -> Seq<char> {
    match o {
        Option::None => "null"@,
        Option::Some(n) => dec_str(n as nat),
    }
}

/// The canonical serialization of a transaction: one JSON object with the
/// fields in declaration order. Merkle leaves are hashed over exactly this
/// text, so its stability is part of the engine's contract.
pub open spec fn spec_tx_json(t: TransactionV) -> Seq<char> {
    "{\"from_address\":\""@ + json_escape(t.from_address) + "\",\"to_address\":\""@ + json_escape(
        t.to_address,
    ) + "\",\"amount\":"@ + dec_str_i64(t.amount as int) + ",\"sig\":"@ + json_opt_string(t.sig)
        + ",\"added_to_block\":"@ + json_opt_bool(t.added_to_block) + ",\"created_at\":"@
        + json_opt_u64(t.created_at) + ",\"block_id\":"@ + json_opt_u64(t.block_id) + "}"@
}

impl Transaction {
    /// Renders the canonical serialization, exactly as `spec_tx_json`
    /// describes.
    pub fn to_json(&self) -> (r: String)
        ensures
            r@ == spec_tx_json(self@),
    {
        let mut r = String::from_str("{\"from_address\":\"");
        let e1 = json_escape_str(self.from_address.as_str());
        r.append(e1.as_str());
        r.append("\",\"to_address\":\"");
        let e2 = json_escape_str(self.to_address.as_str());
        r.append(e2.as_str());
        r.append("\",\"amount\":");
        let am = i64_to_string(self.amount);
        r.append(am.as_str());
        r.append(",\"sig\":");
        match &self.sig {
            Option::None => r.append("null"),
            Option::Some(s) => {
                r.append("\"");
                let es = json_escape_str(s.as_str());
                r.append(es.as_str());
                r.append("\"");
            },
        }
        r.append(",\"added_to_block\":");
        match self.added_to_block {
            Option::None => r.append("null"),
            Option::Some(b) => if b {
                r.append("true")
            } else {
                r.append("false")
            },
        }
        r.append(",\"created_at\":");
        match self.created_at {
            Option::None => r.append("null"),
            Option::Some(ts) => {
                let t = u64_to_string(ts);
                r.append(t.as_str());
            },
        }
        r.append(",\"block_id\":");
        match self.block_id {
            Option::None => r.append("null"),
            Option::Some(bi) => {
                let t = u64_to_string(bi);
                r.append(t.as_str());
            },
        }
        r.append("}");
        proof {
            assert(r@ =~= spec_tx_json(self@));
        }
        r
    }
}

/// The models of a sequence of transactions.
pub open spec fn tx_views(s: Seq<Transaction>) -> Seq<TransactionV> {
    s.map_values(|t: Transaction| t@)
}

/// The elements of the canonical JSON array of a batch, comma-separated.
pub open spec fn spec_txs_json_items(s: Seq<TransactionV>) -> Seq<char>
    decreases s.len(),
{
    if s.len() == 0 {
        Seq::empty()
    } else if s.len() == 1 {
        spec_tx_json(s[0])
    } else {
        spec_txs_json_items(s.drop_last()) + ","@ + spec_tx_json(s.last())
    }
}

/// The canonical JSON array of a transaction batch.
pub open spec fn spec_txs_json(s: Seq<TransactionV>) -> Seq<char> {
    "["@ + spec_txs_json_items(s) + "]"@
}

/// Renders the canonical JSON array of a batch, exactly as `spec_txs_json`
/// describes.
pub fn txs_json(txs: &Vec<Transaction>) -> (r: String)
    ensures
        r@ == spec_txs_json(tx_views(txs@)),
{
    let mut r = String::from_str("[");
    let mut i: usize = 0;
    proof {
        assert(tx_views(txs@).take(0) =~= Seq::<TransactionV>::empty());
        assert(r@ =~= "["@ + spec_txs_json_items(tx_views(txs@).take(0)));
    }
    while i < txs.len()
        invariant
            i <= txs@.len(),
            r@ == "["@ + spec_txs_json_items(tx_views(txs@).take(i as int)),
        decreases txs@.len() - i,
    {
        if i > 0 {
            r.append(",");
        }
        let tj = txs[i].to_json();
        r.append(tj.as_str());
        proof {
            let vs = tx_views(txs@);
            assert(vs.take(i + 1).drop_last() =~= vs.take(i as int));
            assert(vs.take(i + 1).last() == vs[i as int]);
            assert(r@ =~= "["@ + spec_txs_json_items(vs.take(i + 1)));
        }
        i += 1;
    }
    r.append("]");
    proof {
        assert(tx_views(txs@).take(txs@.len() as int) =~= tx_views(txs@));
        assert(r@ =~= spec_txs_json(tx_views(txs@)));
    }
    r
}

/// Why a transfer was not admitted, in the order the checks run.
#[derive(Clone, Copy, PartialEq, Eq, Structural, Debug)]
pub enum Rejection {
    UnknownSender,
    NegativeAmount,
    InsufficientFunds,
    UnknownRecipient,
}

/// The index of the first wallet with the given address, if any.
pub open spec fn find_wallet(s: Seq<WalletV>, addr: Seq<char>) -> Option<int>
    decreases s.len(),
{
    if s.len() == 0 {
        Option::None
    } else if s[0].address == addr {
        Option::Some(0 as int)
    } else {
        match find_wallet(s.drop_first(), addr) {
            Option::None => Option::None,
            Option::Some(i) => Option::Some(i + 1),
        }
    }
}

/// `find_wallet` returns the first index whose address matches, and `None`
/// exactly when no address matches.
pub proof fn lemma_find_wallet(s: Seq<WalletV>, addr: Seq<char>)
    ensures
        match find_wallet(s, addr) {
            Option::None => forall|i: int| 0 <= i < s.len() ==> s[i].address != addr,
            Option::Some(i) => 0 <= i < s.len() && s[i].address == addr && forall|j: int|
                0 <= j < i ==> s[j].address != addr,
        },
    decreases s.len(),
{
    if s.len() == 0 {
    } else if s[0].address == addr {
    } else {
        lemma_find_wallet(s.drop_first(), addr);
        match find_wallet(s.drop_first(), addr) {
            Option::None => {
                assert forall|i: int| 0 <= i < s.len() implies s[i].address != addr by {
                    if i > 0 {
                        assert(s.drop_first()[i - 1] == s[i]);
                    }
                }
            },
            Option::Some(k) => {
                assert(s.drop_first()[k] == s[k + 1]);
                assert forall|j: int| 0 <= j < k + 1 implies s[j].address != addr by {
                    if j > 0 {
                        assert(s.drop_first()[j - 1] == s[j]);
                    }
                }
            },
        }
    }
}

/// The total of all wallet balances.
pub open spec fn sum_balances(s: Seq<WalletV>) -> int
    decreases s.len(),
{
    if s.len() == 0 {
        0
    } else {
        sum_balances(s.drop_last()) + s.last().balance
    }
}

/// With every balance non-negative, the total is non-negative.
pub proof fn lemma_sum_nonneg(s: Seq<WalletV>)
    requires
        forall|i: int| 0 <= i < s.len() ==> 0 <= #[trigger] s[i].balance,
    ensures
        sum_balances(s) >= 0,
    decreases s.len(),
{
    if s.len() > 0 {
        lemma_sum_nonneg(s.drop_last());
    }
}

/// With every balance non-negative, each single balance is at most the total.
pub proof fn lemma_elem_le_sum(s: Seq<WalletV>, i: int)
    requires
        forall|k: int| 0 <= k < s.len() ==> 0 <= #[trigger] s[k].balance,
        0 <= i < s.len(),
    ensures
        s[i].balance <= sum_balances(s),
    decreases s.len(),
{
    if i == s.len() - 1 {
        lemma_sum_nonneg(s.drop_last());
    } else {
        lemma_elem_le_sum(s.drop_last(), i);
    }
}

/// Replacing one wallet changes the total by the difference of the balances.
pub proof fn lemma_sum_update(s: Seq<WalletV>, i: int, w: WalletV)
    requires
        0 <= i < s.len(),
    ensures
        sum_balances(s.update(i, w)) == sum_balances(s) - s[i].balance + w.balance,
    decreases s.len(),
{
    if i == s.len() - 1 {
        assert(s.update(i, w).drop_last() =~= s.drop_last());
    } else {
        assert(s.update(i, w).drop_last() =~= s.drop_last().update(i, w));
        lemma_sum_update(s.drop_last(), i, w);
    }
}

/// With every balance non-negative, a prefix's total is at most the total.
pub proof fn lemma_sum_take_le(s: Seq<WalletV>, i: int)
    requires
        forall|k: int| 0 <= k < s.len() ==> 0 <= #[trigger] s[k].balance,
        0 <= i <= s.len(),
    ensures
        sum_balances(s.take(i)) <= sum_balances(s),
    decreases s.len() - i,
{
    if i < s.len() {
        assert(s.take(i + 1).drop_last() =~= s.take(i));
        lemma_sum_take_le(s, i + 1);
    } else {
        assert(s.take(i) =~= s);
    }
}

/// A sound wallet table: unique addresses, no negative balance, and a total
/// that fits the balance type, so a conserving transfer can never overflow.
pub open spec fn wallets_wf(s: Seq<WalletV>) -> bool {
    &&& forall|i: int, j: int|
        0 <= i < j < s.len() ==> #[trigger] s[i].address != #[trigger] s[j].address
    &&& forall|i: int| 0 <= i < s.len() ==> 0 <= #[trigger] s[i].balance
    &&& sum_balances(s) <= i64::MAX
}

/// The ledger: the wallet table and every admitted transaction, pending ones
/// first in, first out.
pub struct Ledger {
    pub wallets: Vec<Wallet>,
    pub transactions: Vec<Transaction>,
}

/// The mathematical model of the ledger.
pub ghost struct LedgerV {
    pub wallets: Seq<WalletV>,
    pub transactions: Seq<TransactionV>,
}

impl View for Ledger {
    type V = LedgerV;

    open spec fn view(&self) -> LedgerV {
        LedgerV {
            wallets: self.wallets@.map_values(|w: Wallet| w@),
            transactions: tx_views(self.transactions@),
        }
    }
}

/// A sound ledger.
pub open spec fn ledger_wf(l: LedgerV) -> bool {
    wallets_wf(l.wallets)
}

/// The balance of the wallet at the given address (0 if absent).
pub open spec fn spec_balance_of(s: Seq<WalletV>, addr: Seq<char>) -> int {
    match find_wallet(s, addr) {
        Option::None => 0,
        Option::Some(i) => s[i].balance as int,
    }
}

/// A transfer that passes every admission check: known sender, amount within
/// `0 ..= sender balance`, known recipient.
pub open spec fn spec_transfer_valid(
    s: Seq<WalletV>,
    from: Seq<char>,
    to: Seq<char>,
    amount: i64,
) -> bool {
    &&& find_wallet(s, from) is Some
    &&& 0 <= amount
    &&& amount <= spec_balance_of(s, from)
    &&& find_wallet(s, to) is Some
}

/// The first admission check a transfer fails, if any, in check order:
/// sender, amount sign, funds, recipient.
pub open spec fn spec_rejection(
    s: Seq<WalletV>,
    from: Seq<char>,
    to: Seq<char>,
    amount: i64,
) -> Option<Rejection> {
    if find_wallet(s, from) is None {
        Option::Some(Rejection::UnknownSender)
    } else if amount < 0 {
        Option::Some(Rejection::NegativeAmount)
    } else if amount > spec_balance_of(s, from) {
        Option::Some(Rejection::InsufficientFunds)
    } else if find_wallet(s, to) is None {
        Option::Some(Rejection::UnknownRecipient)
    } else {
        Option::None
    }
}

/// The wallet table after an admitted transfer: the sender's wallet debited,
/// then the recipient's credited (a self-transfer nets to no change).
pub open spec fn spec_apply_transfer(
    s: Seq<WalletV>,
    from: Seq<char>,
    to: Seq<char>,
    amount: i64,
) -> Seq<WalletV>
    recommends
        spec_transfer_valid(s, from, to, amount),
{
    let i = find_wallet(s, from)->Some_0;
    let s1 = s.update(i, WalletV { balance: (s[i].balance - amount) as i64, ..s[i] });
    let j = find_wallet(s, to)->Some_0;
    s1.update(j, WalletV { balance: (s1[j].balance + amount) as i64, ..s1[j] })
}

/// The text whose hash stands in for a signature: sender, recipient and the
/// decimal amount, concatenated.
pub open spec fn spec_sig_payload(from: Seq<char>, to: Seq<char>, amount: i64) -> Seq<char> {
    from + to + dec_str_i64(amount as int)
}

impl Ledger {
    /// An empty ledger: no wallets, no transactions.
    pub fn new() -> (r: Ledger)
        ensures
            r@.wallets == Seq::<WalletV>::empty(),
            r@.transactions == Seq::<TransactionV>::empty(),
            ledger_wf(r@),
    {
        let r = Ledger { wallets: Vec::new(), transactions: Vec::new() };
        proof {
            assert(r@.wallets =~= Seq::<WalletV>::empty());
            assert(r@.transactions =~= Seq::<TransactionV>::empty());
        }
        r
    }

    /// The position of the wallet with this address, if it exists.
    fn find_wallet_index(&self, addr: &str) -> (r: Option<usize>)
        ensures
            match r {
                Option::None => find_wallet(self@.wallets, addr@) is None,
                Option::Some(k) => find_wallet(self@.wallets, addr@) == Option::Some(k as int),
            },
    {
        let n = self.wallets.len();
        let mut i: usize = 0;
        while i < n
            invariant
                i <= n,
                n == self@.wallets.len(),
                forall|j: int| 0 <= j < i ==> self@.wallets[j].address != addr@,
            decreases n - i,
        {
            if str_eq(self.wallets[i].address.as_str(), addr) {
                proof {
                    lemma_find_wallet(self@.wallets, addr@);
                    assert(self@.wallets[i as int].address == addr@);
                    match find_wallet(self@.wallets, addr@) {
                        Option::None => {
                            assert(self@.wallets[i as int].address != addr@);
                        },
                        Option::Some(k) => {
                            if k < i as int {
                                assert(self@.wallets[k].address != addr@);
                            } else if k > i as int {
                                assert(self@.wallets[i as int].address != addr@);
                            }
                        },
                    }
                }
                return Some(i);
            }
            i += 1;
        }
        proof {
            lemma_find_wallet(self@.wallets, addr@);
        }
        None
    }

    /// The wallet with this address, or `None` if it is unknown.
    pub fn get_wallet(&self, addr: &str) -> (r: Option<&Wallet>)
        ensures
            r is Some <==> find_wallet(self@.wallets, addr@) is Some,
            r matches Some(w) ==> {
                &&& find_wallet(self@.wallets, addr@) matches Option::Some(i) && w@
                    == self@.wallets[i]
                &&& w@.address == addr@
            },
    {
        proof {
            lemma_find_wallet(self@.wallets, addr@);
        }
        match self.find_wallet_index(addr) {
            Option::None => None,
            Option::Some(i) => Some(&self.wallets[i]),
        }
    }

    /// The total of all balances.
    fn sum_wallet_balances(&self) -> (t: i64)
        requires
            wallets_wf(self@.wallets),
        ensures
            t == sum_balances(self@.wallets),
    {
        let n = self.wallets.len();
        let mut acc: i64 = 0;
        let mut i: usize = 0;
        proof {
            assert(self@.wallets.take(0) =~= Seq::<WalletV>::empty());
        }
        while i < n
            invariant
                i <= n,
                n == self@.wallets.len(),
                wallets_wf(self@.wallets),
                acc == sum_balances(self@.wallets.take(i as int)),
            decreases n - i,
        {
            proof {
                assert(self@.wallets.take(i + 1).drop_last() =~= self@.wallets.take(i as int));
                lemma_sum_take_le(self@.wallets, i + 1);
                lemma_sum_nonneg(self@.wallets.take(i as int));
            }
            acc = acc + self.wallets[i].balance;
            i += 1;
        }
        proof {
            assert(self@.wallets.take(n as int) =~= self@.wallets);
        }
        acc
    }

    /// Adds a wallet. Refused (leaving the ledger unchanged) if the balance
    /// is negative, the address is taken, or the total would no longer fit.
    pub fn add_wallet(&mut self, address: String, balance: i64, pub_key: String) -> (ok: bool)
        requires
            ledger_wf(old(self)@),
        ensures
            ledger_wf(final(self)@),
            final(self)@.transactions == old(self)@.transactions,
            ok ==> final(self)@.wallets == old(self)@.wallets.push(
                WalletV { address: address@, balance, pub_key: pub_key@ },
            ),
            !ok ==> final(self)@ == old(self)@,
            ok <==> {
                &&& balance >= 0
                &&& find_wallet(old(self)@.wallets, address@) is None
                &&& sum_balances(old(self)@.wallets) + balance <= i64::MAX
            },
    {
        if balance < 0 {
            return false;
        }
        if self.find_wallet_index(address.as_str()).is_some() {
            return false;
        }
        let total = self.sum_wallet_balances();
        proof {
            lemma_sum_nonneg(self@.wallets);
        }
        if balance > i64::MAX - total {
            return false;
        }
        let ghost olds = self@.wallets;
        proof {
            lemma_find_wallet(olds, address@);
        }
        self.wallets.push(Wallet { address, balance, pub_key });
        proof {
            let news = self@.wallets;
            assert(news =~= olds.push(WalletV { address: address@, balance, pub_key: pub_key@ }));
            assert(news.drop_last() =~= olds);
            assert(sum_balances(news) == sum_balances(olds) + balance);
            assert forall|i: int, j: int| 0 <= i < j < news.len() implies #[trigger] news[i].address
                != #[trigger] news[j].address by {
                if j < olds.len() {
                    assert(olds[i].address != olds[j].address);
                } else {
                    assert(olds[i].address != address@);
                }
            }
            assert(tx_views(self.transactions@) == old(self)@.transactions);
        }
        true
    }

    /// Validates and applies a transfer: checks sender, amount and recipient
    /// in order, then debits the sender, credits the recipient and records
    /// the signed transaction as one unit. A rejected transfer leaves the
    /// ledger exactly as it was.
    pub fn create_transaction(
        &mut self,
        from_address: &str,
        to_address: &str,
        amount: i64,
        timestamp: u64,
    ) -> (r: Result<Transaction, Rejection>)
        requires
            ledger_wf(old(self)@),
        ensures
            ledger_wf(final(self)@),
            r is Ok <==> spec_transfer_valid(old(self)@.wallets, from_address@, to_address@, amount),
            r matches Err(e) ==> final(self)@ == old(self)@ && Option::Some(e) == spec_rejection(
                old(self)@.wallets,
                from_address@,
                to_address@,
                amount,
            ),
            r matches Ok(tx) ==> {
                &&& final(self)@.wallets == spec_apply_transfer(
                    old(self)@.wallets,
                    from_address@,
                    to_address@,
                    amount,
                )
                &&& final(self)@.transactions == old(self)@.transactions.push(tx@)
                &&& sum_balances(final(self)@.wallets) == sum_balances(old(self)@.wallets)
                &&& tx@.from_address == from_address@
                &&& tx@.to_address == to_address@
                &&& tx@.amount == amount
                &&& tx@.sig == Option::Some(
                    sha256_hex_of(spec_sig_payload(from_address@, to_address@, amount)),
                )
                &&& tx@.added_to_block == Option::Some(false)
                &&& tx@.created_at == Option::Some(timestamp)
                &&& tx@.block_id is None
            },
    {
        let i = match self.find_wallet_index(from_address) {
            Option::None => {
                return Err(Rejection::UnknownSender);
            },
            Option::Some(i) => i,
        };
        proof {
            lemma_find_wallet(self@.wallets, from_address@);
        }
        if amount < 0 {
            return Err(Rejection::NegativeAmount);
        }
        if amount > self.wallets[i].balance {
            return Err(Rejection::InsufficientFunds);
        }
        let j = match self.find_wallet_index(to_address) {
            Option::None => {
                return Err(Rejection::UnknownRecipient);
            },
            Option::Some(j) => j,
        };
        proof {
            lemma_find_wallet(self@.wallets, to_address@);
        }
        let ghost olds = self@.wallets;

        let mut s = from_address.to_owned();
        s.append(to_address);
        let am = i64_to_string(amount);
        s.append(am.as_str());
        proof {
            assert(s@ =~= spec_sig_payload(from_address@, to_address@, amount));
        }
        let sig = sha256_hex(s.as_str());

        let bal_i = self.wallets[i].balance;
        self.wallets[i].balance = bal_i - amount;
        proof {
            let s1 = self@.wallets;
            assert(s1 =~= olds.update(
                i as int,
                WalletV { balance: (bal_i - amount) as i64, ..olds[i as int] },
            ));
            lemma_sum_update(
                olds,
                i as int,
                WalletV { balance: (bal_i - amount) as i64, ..olds[i as int] },
            );
            assert(sum_balances(s1) == sum_balances(olds) - amount);
            assert forall|k: int| 0 <= k < s1.len() implies 0 <= #[trigger] s1[k].balance by {
                assert(0 <= olds[k].balance);
            }
            lemma_elem_le_sum(s1, j as int);
            lemma_sum_nonneg(olds);
        }
        let bal_j = self.wallets[j].balance;
        self.wallets[j].balance = bal_j + amount;
        proof {
            let ghost s1 = olds.update(
                i as int,
                WalletV { balance: (bal_i - amount) as i64, ..olds[i as int] },
            );
            let s2 = self@.wallets;
            assert(s2 =~= s1.update(
                j as int,
                WalletV { balance: (bal_j + amount) as i64, ..s1[j as int] },
            ));
            lemma_sum_update(
                s1,
                j as int,
                WalletV { balance: (bal_j + amount) as i64, ..s1[j as int] },
            );
            assert(sum_balances(s2) == sum_balances(olds));
            assert forall|k: int| 0 <= k < s2.len() implies 0 <= #[trigger] s2[k].balance by {
                assert(0 <= olds[k].balance);
                assert(0 <= s1[k].balance);
            }
            assert forall|x: int, y: int| 0 <= x < y < s2.len() implies #[trigger] s2[x].address
                != #[trigger] s2[y].address by {
                assert(olds[x].address != olds[y].address);
                assert(s2[x].address == olds[x].address);
                assert(s2[y].address == olds[y].address);
            }
        }
        let tx = Transaction {
            from_address: from_address.to_owned(),
            to_address: to_address.to_owned(),
            amount,
            sig: Some(sig),
            added_to_block: Some(false),
            created_at: Some(timestamp),
            block_id: None,
        };
        let txc = tx.clone();
        self.transactions.push(txc);
        proof {
            assert(self@.transactions =~= old(self)@.transactions.push(tx@));
        }
        Ok(tx)
    }
}

impl Transaction {
    /// Whether this transfer would be admitted against the ledger: known
    /// sender, amount within `0 ..= sender balance`, known recipient.
    pub fn is_valid(&self, ledger: &Ledger) -> (r: bool)
        ensures
            r == spec_transfer_valid(
                ledger@.wallets,
                self@.from_address,
                self@.to_address,
                self@.amount,
            ),
    {
        match ledger.find_wallet_index(self.from_address.as_str()) {
            Option::None => false,
            Option::Some(i) => {
                proof {
                    lemma_find_wallet(ledger@.wallets, self@.from_address);
                }
                if self.amount > ledger.wallets[i].balance {
                    false
                } else if ledger.find_wallet_index(self.to_address.as_str()).is_none() {
                    false
                } else if self.amount < 0 {
                    false
                } else {
                    true
                }
            },
        }
    }
}

/// A transaction that is still pending: not yet in any block.
pub open spec fn is_pending(t: TransactionV) -> bool {
    t.block_id is None
}

/// The pending transactions of the ledger, in admission order.
pub open spec fn spec_pending(l: LedgerV) -> Seq<TransactionV> {
    l.transactions.filter(|t: TransactionV| is_pending(t))
}

/// `t` marked as included in the block at the given index.
pub open spec fn assigned_to(t: TransactionV, block_index: u64) -> TransactionV {
    TransactionV { block_id: Option::Some(block_index), ..t }
}

impl Ledger {
    /// The pending transactions, in admission order.
    pub fn pending_transactions(&self) -> (r: Vec<Transaction>)
        ensures
            tx_views(r@) == spec_pending(self@),
    {
        let mut r: Vec<Transaction> = Vec::new();
        let n = self.transactions.len();
        let mut i: usize = 0;
        proof {
            reveal(Seq::<_>::filter);
            assert(tx_views(r@) =~= Seq::<TransactionV>::empty());
            assert(self@.transactions.take(0) =~= Seq::<TransactionV>::empty());
        }
        while i < n
            invariant
                i <= n,
                n == self@.transactions.len(),
                tx_views(r@) == self@.transactions.take(i as int).filter(
                    |t: TransactionV| is_pending(t),
                ),
            decreases n - i,
        {
            proof {
                reveal(Seq::<_>::filter);
                assert(self@.transactions.take(i + 1).drop_last() =~= self@.transactions.take(
                    i as int,
                ));
                assert(self@.transactions.take(i + 1).last() == self@.transactions[i as int]);
            }
            if self.transactions[i].block_id.is_none() {
                let c = self.transactions[i].clone();
                r.push(c);
                proof {
                    assert(tx_views(r@) =~= self@.transactions.take(i + 1).filter(
                        |t: TransactionV| is_pending(t),
                    ));
                }
            } else {
                proof {
                    assert(tx_views(r@) =~= self@.transactions.take(i + 1).filter(
                        |t: TransactionV| is_pending(t),
                    ));
                }
            }
            i += 1;
        }
        proof {
            assert(self@.transactions.take(n as int) =~= self@.transactions);
        }
        r
    }

    /// Marks every pending transaction as included in the block at the given
    /// index. Transactions already in a block, and all wallets, are
    /// untouched; `block_id` is set exactly once.
    pub fn assign_pending(&mut self, block_index: u64)
        ensures
            final(self)@.wallets == old(self)@.wallets,
            final(self)@.transactions.len() == old(self)@.transactions.len(),
            forall|k: int|
                0 <= k < old(self)@.transactions.len() && is_pending(
                    #[trigger] old(self)@.transactions[k],
                ) ==> final(self)@.transactions[k] == assigned_to(
                    old(self)@.transactions[k],
                    block_index,
                ),
            forall|k: int|
                0 <= k < old(self)@.transactions.len() && !is_pending(
                    #[trigger] old(self)@.transactions[k],
                ) ==> final(self)@.transactions[k] == old(self)@.transactions[k],
    {
        let n = self.transactions.len();
        let mut i: usize = 0;
        while i < n
            invariant
                i <= n,
                n == self@.transactions.len(),
                self@.wallets == old(self)@.wallets,
                self@.transactions.len() == old(self)@.transactions.len(),
                forall|k: int|
                    0 <= k < i && is_pending(#[trigger] old(self)@.transactions[k])
                        ==> self@.transactions[k] == assigned_to(
                        old(self)@.transactions[k],
                        block_index,
                    ),
                forall|k: int|
                    0 <= k < i && !is_pending(#[trigger] old(self)@.transactions[k])
                        ==> self@.transactions[k] == old(self)@.transactions[k],
                forall|k: int|
                    i <= k < n ==> #[trigger] self@.transactions[k] == old(self)@.transactions[k],
            decreases n - i,
        {
            let ghost pre = self@.transactions;
            if self.transactions[i].block_id.is_none() {
                self.transactions[i].block_id = Some(block_index);
                proof {
                    assert(self@.transactions =~= pre.update(
                        i as int,
                        assigned_to(pre[i as int], block_index),
                    ));
                }
            }
            i += 1;
        }
    }
}

/// Wallet lookup goes by addresses alone: two tables with the same addresses
/// position for position resolve every address at the same index.
pub proof fn lemma_find_wallet_same_addresses(s: Seq<WalletV>, s2: Seq<WalletV>, addr: Seq<char>)
    requires
        s.len() == s2.len(),
        forall|k: int| 0 <= k < s.len() ==> #[trigger] s[k].address == s2[k].address,
    ensures
        find_wallet(s, addr) == find_wallet(s2, addr),
    decreases s.len(),
{
    if s.len() > 0 {
        assert(s[0].address == s2[0].address);
        assert forall|k: int| 0 <= k < s.drop_first().len() implies #[trigger] s.drop_first()[k].address
            == s2.drop_first()[k].address by {
            assert(s.drop_first()[k] == s[k + 1]);
            assert(s2.drop_first()[k] == s2[k + 1]);
        }
        lemma_find_wallet_same_addresses(s.drop_first(), s2.drop_first(), addr);
    }
}

/// Balance conservation: an admitted transfer moves exactly `amount` from
/// the sender to the recipient and leaves the total of all balances
/// unchanged (a self-transfer changes nothing at all).
pub proof fn lemma_transfer_conserves_total(
    s: Seq<WalletV>,
    from: Seq<char>,
    to: Seq<char>,
    amount: i64,
)
    requires
        wallets_wf(s),
        spec_transfer_valid(s, from, to, amount),
    ensures
        sum_balances(spec_apply_transfer(s, from, to, amount)) == sum_balances(s),
        from != to ==> spec_balance_of(spec_apply_transfer(s, from, to, amount), from)
            == spec_balance_of(s, from) - amount,
        from != to ==> spec_balance_of(spec_apply_transfer(s, from, to, amount), to)
            == spec_balance_of(s, to) + amount,
{
    let i = find_wallet(s, from)->Some_0;
    let j = find_wallet(s, to)->Some_0;
    lemma_find_wallet(s, from);
    lemma_find_wallet(s, to);
    let w1 = WalletV { balance: (s[i].balance - amount) as i64, ..s[i] };
    let s1 = s.update(i, w1);
    lemma_sum_update(s, i, w1);
    lemma_sum_nonneg(s);
    assert forall|k: int| 0 <= k < s1.len() implies 0 <= #[trigger] s1[k].balance by {
        assert(0 <= s[k].balance);
    }
    lemma_elem_le_sum(s1, j);
    assert(s1[j].balance + amount <= i64::MAX);
    let w2 = WalletV { balance: (s1[j].balance + amount) as i64, ..s1[j] };
    let s2 = s1.update(j, w2);
    lemma_sum_update(s1, j, w2);
    assert(s2 == spec_apply_transfer(s, from, to, amount));
    if from != to {
        assert(i != j);
        assert forall|k: int| 0 <= k < s.len() implies #[trigger] s[k].address
            == s2[k].address by {}
        lemma_find_wallet_same_addresses(s, s2, from);
        lemma_find_wallet_same_addresses(s, s2, to);
        assert(s2[i].balance == s[i].balance - amount);
        assert(s2[j].balance == s[j].balance + amount);
    }
}

/// Two transfers racing for the same funds cannot both be admitted: once a
/// transfer of `amount` is applied to a sender whose balance cannot cover it
/// twice, a second identical transfer is rejected for insufficient funds.
pub proof fn lemma_no_double_spend(s: Seq<WalletV>, from: Seq<char>, to: Seq<char>, amount: i64)
    requires
        wallets_wf(s),
        spec_transfer_valid(s, from, to, amount),
        from != to,
        2 * amount > spec_balance_of(s, from),
    ensures
        !spec_transfer_valid(spec_apply_transfer(s, from, to, amount), from, to, amount),
        spec_rejection(spec_apply_transfer(s, from, to, amount), from, to, amount)
            == Option::Some(Rejection::InsufficientFunds),
{
    let i = find_wallet(s, from)->Some_0;
    let j = find_wallet(s, to)->Some_0;
    lemma_find_wallet(s, from);
    lemma_find_wallet(s, to);
    assert(i != j);
    let s2 = spec_apply_transfer(s, from, to, amount);
    assert(s2.len() == s.len());
    assert forall|k: int| 0 <= k < s.len() implies #[trigger] s[k].address == s2[k].address by {}
    lemma_find_wallet_same_addresses(s, s2, from);
    lemma_find_wallet_same_addresses(s, s2, to);
    assert(s2[i].balance == s[i].balance - amount);
    assert(spec_balance_of(s2, from) == s[i].balance - amount);
    assert(amount > spec_balance_of(s2, from));
}

/// The endpoint paths of the transfer component, for the HTTP layer to mount.
pub fn routes() -> (r: Vec<String>)
    ensures
        r@.len() == 2,
        r@[0]@ == "/tx"@,
        r@[1]@ == "/wallet/<address>"@,
{
    let mut r: Vec<String> = Vec::new();
    r.push(String::from_str("/tx"));
    r.push(String::from_str("/wallet/<address>"));
    r
}

} // verus!
