//! Blocks, proof-of-work mining, and the hash-linked chain.
//!
//! A block's hash is the content hash of its fields in a fixed order; mining
//! searches the nonce space for a hash with at least [`DIFFICULTY`] leading
//! zero hex characters; the chain links each block to its predecessor's hash.

use crate::encode::dec_str;
use crate::encode::u64_to_string;
use crate::hashing::has_leading_zeros;
use crate::hashing::meets_difficulty;
use crate::hashing::sha256_hex;
use crate::hashing::sha256_hex_of;
use crate::merkle::merkle_root_from_hashes;
use crate::merkle::merkle_root_of;
use crate::merkle::str_views;
use crate::transactions::assigned_to;
use crate::transactions::is_pending;
use crate::transactions::spec_pending;
use crate::transactions::spec_tx_json;
use crate::transactions::spec_txs_json;
use crate::transactions::tx_views;
use crate::transactions::txs_json;
use crate::transactions::Ledger;
use crate::transactions::Transaction;
use crate::transactions::TransactionV;
use vstd::prelude::*;

verus! {

/// Number of leading zero hex characters required in a valid block hash.
pub const DIFFICULTY: usize = 3;

/// A block of the chain. Once mined and appended it is never changed.
#[derive(Debug)]
pub struct Block {
    pub index: u64,
    pub timestamp: u64,
    pub data: String,
    pub previous_hash: String,
    pub hash: String,
    pub nonce: u64,
}

/// The mathematical model of a block: its fields as plain values.
pub ghost struct BlockV {
    pub index: u64,
    pub timestamp: u64,
    pub data: Seq<char>,
    pub previous_hash: Seq<char>,
    pub hash: Seq<char>,
    pub nonce: u64,
}

impl View for Block {
    type V = BlockV;

    open spec fn view(&self) -> BlockV {
        BlockV {
            index: self.index,
            timestamp: self.timestamp,
            data: self.data@,
            previous_hash: self.previous_hash@,
            hash: self.hash@,
            nonce: self.nonce,
        }
    }
}

/// The exact text fed to the hasher: the decimal rendering of `index`,
/// `timestamp` and `nonce` around the raw `data` and `previous_hash`,
/// concatenated in this fixed order.
pub open spec fn hash_payload(b: BlockV) -> Seq<char> {
    dec_str(b.index as nat) + dec_str(b.timestamp as nat) + b.data + b.previous_hash + dec_str(
        b.nonce as nat,
    )
}

/// The content hash of a block: a function of `index`, `timestamp`, `data`,
/// `previous_hash` and `nonce`, and of nothing else.
pub open spec fn spec_block_hash(b: BlockV) -> Seq<char> {
    sha256_hex_of(hash_payload(b))
}

/// `b` with its nonce replaced: the candidate tried at step `m` of mining.
pub open spec fn with_nonce(b: BlockV, m: u64) -> BlockV {
    BlockV { nonce: m, ..b }
}

/// The proof-of-work test for nonce `m` of candidate `b`.
pub open spec fn pow_ok(b: BlockV, m: u64) -> bool {
    has_leading_zeros(spec_block_hash(with_nonce(b, m)), DIFFICULTY as nat)
}

/// The content hash is deterministic: it depends on `index`, `timestamp`,
/// `data`, `previous_hash` and `nonce` alone, so the same fields give the
/// same digest on every call, across mining and verification sites alike.
pub proof fn lemma_hash_deterministic(a: BlockV, b: BlockV)
    requires
        a.index == b.index,
        a.timestamp == b.timestamp,
        a.data == b.data,
        a.previous_hash == b.previous_hash,
        a.nonce == b.nonce,
    ensures
        spec_block_hash(a) == spec_block_hash(b),
{
}

/// A mined block: its `hash` field equals the content hash of its other
/// fields and meets the difficulty condition.
pub open spec fn mined(b: BlockV) -> bool {
    &&& b.hash == spec_block_hash(b)
    &&& has_leading_zeros(b.hash, DIFFICULTY as nat)
}

impl Block {
    /// A fresh, unmined block: empty payload, zero nonce, no hash yet.
    pub fn new(index: u64, timestamp: u64, previous_hash: String) -> (b: Block)
        ensures
            b@.index == index,
            b@.timestamp == timestamp,
            b@.data == Seq::<char>::empty(),
            b@.previous_hash == previous_hash@,
            b@.hash == Seq::<char>::empty(),
            b@.nonce == 0,
    {
        Block {
            index,
            timestamp,
            data: String::new(),
            previous_hash,
            hash: String::new(),
            nonce: 0,
        }
    }

    /// Computes the content hash of this block's current fields.
    ///
    /// The same digest comes back for the same fields on every call: the
    /// result is pinned to `spec_block_hash`, a function of the fields alone.
    pub fn calculate_hash(&self) -> (r: String)
        ensures
            r@ == spec_block_hash(self@),
            r@.len() == 64,
    {
        let mut s = u64_to_string(self.index);
        let t = u64_to_string(self.timestamp);
        s.append(t.as_str());
        s.append(self.data.as_str());
        s.append(self.previous_hash.as_str());
        let n = u64_to_string(self.nonce);
        s.append(n.as_str());
        proof {
            assert(s@ =~= hash_payload(self@));
        }
        sha256_hex(s.as_str())
    }

    /// The proof-of-work search: tries nonces upward from the current one
    /// until the content hash has at least [`DIFFICULTY`] leading zero hex
    /// characters, then stores that hash.
    ///
    /// Returns `false` only if every remaining nonce fails the difficulty
    /// test — unobserved in practice, but the search space is finite.
    pub fn mine(&mut self) -> (found: bool)
        ensures
            final(self)@.index == old(self)@.index,
            final(self)@.timestamp == old(self)@.timestamp,
            final(self)@.data == old(self)@.data,
            final(self)@.previous_hash == old(self)@.previous_hash,
            found ==> mined(final(self)@),
            found ==> old(self)@.nonce <= final(self)@.nonce,
            found ==> forall|m: u64|
                old(self)@.nonce <= m < final(self)@.nonce ==> !pow_ok(old(self)@, m),
            !found ==> forall|m: u64| old(self)@.nonce <= m ==> !pow_ok(old(self)@, m),
            !found ==> final(self)@.hash == old(self)@.hash,
    {
        loop
            invariant
                self@.index == old(self)@.index,
                self@.timestamp == old(self)@.timestamp,
                self@.data == old(self)@.data,
                self@.previous_hash == old(self)@.previous_hash,
                self@.hash == old(self)@.hash,
                old(self)@.nonce <= self@.nonce,
                forall|m: u64| old(self)@.nonce <= m < self@.nonce ==> !pow_ok(old(self)@, m),
            decreases u64::MAX - self.nonce,
        {
            let h = self.calculate_hash();
            if meets_difficulty(h.as_str(), DIFFICULTY) {
                proof {
                    assert(with_nonce(old(self)@, self@.nonce) == self@);
                }
                self.hash = h;
                return true;
            }
            proof {
                assert(with_nonce(old(self)@, self@.nonce) == self@);
                assert(!pow_ok(old(self)@, self@.nonce));
            }
            if self.nonce == u64::MAX {
                return false;
            }
            self.nonce = self.nonce + 1;
        }
    }
}

impl Clone for Block {
    /// A clone carries the same model.
    fn clone(&self) -> (res: Self)
        ensures
            res@ == self@,
    {
        Block {
            index: self.index,
            timestamp: self.timestamp,
            data: self.data.clone(),
            previous_hash: self.previous_hash.clone(),
            hash: self.hash.clone(),
            nonce: self.nonce,
        }
    }
}

/// The Merkle leaves of a batch: each transaction's canonical serialization,
/// hashed.
pub open spec fn leaf_hashes(s: Seq<TransactionV>) -> Seq<Seq<char>> {
    s.map_values(|t: TransactionV| sha256_hex_of(spec_tx_json(t)))
}

/// The payload of a block built over a batch: the batch's Merkle root
/// followed by its canonical JSON serialization.
pub open spec fn spec_block_data(s: Seq<TransactionV>) -> Seq<char> {
    merkle_root_of(leaf_hashes(s)) + spec_txs_json(s)
}

impl Block {
    /// The Merkle root of an ordered transaction batch: deterministic in the
    /// batch's serializations and order, and independent of this block.
    pub fn merkle_root(&self, transactions: &Vec<Transaction>) -> (r: String)
        ensures
            r@ == merkle_root_of(leaf_hashes(tx_views(transactions@))),
    {
        let mut leaves: Vec<String> = Vec::new();
        let n = transactions.len();
        let mut i: usize = 0;
        proof {
            assert(str_views(leaves@) =~= leaf_hashes(tx_views(transactions@).take(0)));
        }
        while i < n
            invariant
                i <= n,
                n == transactions@.len(),
                str_views(leaves@) == leaf_hashes(tx_views(transactions@).take(i as int)),
            decreases n - i,
        {
            let j = transactions[i].to_json();
            let h = sha256_hex(j.as_str());
            let ghost hv = h@;
            let ghost prev = leaves@;
            leaves.push(h);
            proof {
                let vs = tx_views(transactions@);
                assert(hv == sha256_hex_of(spec_tx_json(vs[i as int])));
                assert(str_views(prev).len() == prev.len());
                assert(leaf_hashes(vs.take(i as int)).len() == i);
                assert(prev.len() == i);
                assert(leaves@ == prev.push(h));
                assert forall|k: int| 0 <= k < leaves@.len() implies str_views(leaves@)[k]
                    == leaf_hashes(vs.take(i + 1))[k] by {
                    if k < i {
                        assert(str_views(prev)[k] == leaf_hashes(vs.take(i as int))[k]);
                        assert(vs.take(i + 1)[k] == vs.take(i as int)[k]);
                    } else {
                        assert(leaves@[k] == h);
                        assert(vs.take(i + 1)[k] == vs[i as int]);
                    }
                }
                assert(str_views(leaves@) =~= leaf_hashes(vs.take(i + 1)));
            }
            i += 1;
        }
        proof {
            assert(tx_views(transactions@).take(n as int) =~= tx_views(transactions@));
        }
        merkle_root_from_hashes(leaves)
    }

    /// Fills the unmined block's payload from the pending batch: the Merkle
    /// root followed by the batch's canonical serialization. No other field
    /// changes.
    pub fn prepare_unmined_block(&mut self, pending: &Vec<Transaction>)
        ensures
            final(self)@.data == spec_block_data(tx_views(pending@)),
            final(self)@.index == old(self)@.index,
            final(self)@.timestamp == old(self)@.timestamp,
            final(self)@.previous_hash == old(self)@.previous_hash,
            final(self)@.hash == old(self)@.hash,
            final(self)@.nonce == old(self)@.nonce,
    {
        let mut d = self.merkle_root(pending);
        let json = txs_json(pending);
        d.append(json.as_str());
        self.data = d;
    }

    /// The transactions of the given table that belong to this block.
    pub fn get_transactions(&self, transactions: &Vec<Transaction>) -> (r: Vec<Transaction>)
        ensures
            tx_views(r@) == tx_views(transactions@).filter(
                |t: TransactionV| t.block_id == Option::Some(self@.index),
            ),
    {
        let mut r: Vec<Transaction> = Vec::new();
        let n = transactions.len();
        let mut i: usize = 0;
        let ghost vs = tx_views(transactions@);
        proof {
            reveal(Seq::<_>::filter);
            assert(tx_views(r@) =~= Seq::<TransactionV>::empty());
            assert(vs.take(0) =~= Seq::<TransactionV>::empty());
        }
        while i < n
            invariant
                i <= n,
                n == transactions@.len(),
                vs == tx_views(transactions@),
                tx_views(r@) == vs.take(i as int).filter(
                    |t: TransactionV| t.block_id == Option::Some(self@.index),
                ),
            decreases n - i,
        {
            proof {
                reveal(Seq::<_>::filter);
                assert(vs.take(i + 1).drop_last() =~= vs.take(i as int));
                assert(vs.take(i + 1).last() == vs[i as int]);
            }
            let belongs = match transactions[i].block_id {
                Option::Some(b) => b == self.index,
                Option::None => false,
            };
            if belongs {
                let c = transactions[i].clone();
                r.push(c);
            }
            proof {
                assert(tx_views(r@) =~= vs.take(i + 1).filter(
                    |t: TransactionV| t.block_id == Option::Some(self@.index),
                ));
            }
            i += 1;
        }
        proof {
            assert(vs.take(n as int) =~= vs);
        }
        r
    }
}

/// The chain itself. Blocks are kept in index order; the head is the last.
pub struct Blockchain {
    pub blocks: Vec<Block>,
}

/// The mathematical models of a sequence of blocks.
pub open spec fn block_views(s: Seq<Block>) -> Seq<BlockV> {
    s.map_values(|b: Block| b@)
}

impl View for Blockchain {
    type V = Seq<BlockV>;

    open spec fn view(&self) -> Seq<BlockV> {
        block_views(self.blocks@)
    }
}

/// Position `i` of the chain is correctly linked: the block's stored index
/// is `i`, and its `previous_hash` is the predecessor's hash — the genesis
/// block instead carries the empty sentinel.
pub open spec fn linked_at(s: Seq<BlockV>, i: int) -> bool
    recommends
        0 <= i < s.len(),
{
    &&& s[i].index == i
    &&& if i == 0 {
        s[i].previous_hash == Seq::<char>::empty()
    } else {
        s[i].previous_hash == s[i - 1].hash
    }
}

/// Every position of the chain is correctly linked.
pub open spec fn chain_linked(s: Seq<BlockV>) -> bool {
    forall|i: int| 0 <= i < s.len() ==> #[trigger] linked_at(s, i)
}

/// Position `i` of the chain is sound: correctly linked and mined.
pub open spec fn chain_wf_at(s: Seq<BlockV>, i: int) -> bool
    recommends
        0 <= i < s.len(),
{
    &&& linked_at(s, i)
    &&& mined(s[i])
}

/// A well-formed chain is in particular correctly linked, so the chain
/// verifier accepts every chain this module builds.
pub proof fn lemma_wf_implies_linked(s: Seq<BlockV>)
    requires
        chain_wf(s),
    ensures
        chain_linked(s),
{
    assert forall|i: int| 0 <= i < s.len() implies #[trigger] linked_at(s, i) by {
        assert(chain_wf_at(s, i));
    }
}

/// Every position of the chain is sound.
pub open spec fn chain_wf(s: Seq<BlockV>) -> bool {
    forall|i: int| 0 <= i < s.len() ==> #[trigger] chain_wf_at(s, i)
}

/// The block at index 0 of a well-formed chain always carries the empty
/// sentinel `previous_hash`.
pub proof fn lemma_genesis_sentinel(s: Seq<BlockV>)
    requires
        chain_wf(s),
        s.len() > 0,
    ensures
        s[0].previous_hash == Seq::<char>::empty(),
{
    assert(chain_wf_at(s, 0));
}

/// In a well-formed chain every non-genesis block's `previous_hash` equals
/// the hash of the block before it.
pub proof fn lemma_chain_linkage(s: Seq<BlockV>, i: int)
    requires
        chain_wf(s),
        0 < i < s.len(),
    ensures
        s[i].previous_hash == s[i - 1].hash,
{
    assert(chain_wf_at(s, i));
}

/// The candidate as `add_block` links it: its `previous_hash` replaced by the
/// current head's hash, or kept as given on an empty chain.
pub open spec fn link_candidate(b: BlockV, s: Seq<BlockV>) -> BlockV {
    if s.len() == 0 {
        b
    } else {
        BlockV { previous_hash: s.last().hash, ..b }
    }
}

impl Blockchain {
    /// Starts a chain by mining and appending the genesis block: index 0,
    /// empty payload, empty sentinel `previous_hash`, the given timestamp.
    ///
    /// `None` only if no nonce at all mines the genesis candidate.
    pub fn new(timestamp: u64) -> (r: Option<Blockchain>)
        ensures
            r matches Some(c) ==> {
                &&& c@.len() == 1
                &&& chain_wf(c@)
                &&& c@[0].timestamp == timestamp
                &&& c@[0].data == Seq::<char>::empty()
            },
            r is None ==> forall|m: u64|
                !pow_ok(
                    BlockV {
                        index: 0,
                        timestamp,
                        data: Seq::<char>::empty(),
                        previous_hash: Seq::<char>::empty(),
                        hash: Seq::<char>::empty(),
                        nonce: 0,
                    },
                    m,
                ),
    {
        let genesis = Block::new(0, timestamp, String::new());
        let ghost gv = genesis@;
        let mut chain = Blockchain { blocks: Vec::new() };
        let ghost empty_chain = chain@;
        let ok = chain.add_block(genesis);
        if ok {
            proof {
                assert(chain@ =~= Seq::empty().push(chain@.last()));
                assert(chain_wf_at(chain@, 0));
            }
            Some(chain)
        } else {
            proof {
                assert(empty_chain =~= Seq::<BlockV>::empty());
                let target = BlockV {
                    index: 0,
                    timestamp,
                    data: Seq::<char>::empty(),
                    previous_hash: Seq::<char>::empty(),
                    hash: Seq::<char>::empty(),
                    nonce: 0,
                };
                assert(gv == target);
                assert(link_candidate(gv, empty_chain) == gv);
                assert forall|m: u64| !pow_ok(target, m) by {
                    assert(!pow_ok(link_candidate(gv, empty_chain), m));
                }
            }
            None
        }
    }

    /// Links the candidate to the current head, mines it, and appends it.
    ///
    /// On success the chain grows by exactly the mined candidate; on failure
    /// (no nonce works — unobserved in practice) the chain is unchanged. A
    /// well-formed chain stays well-formed whenever the candidate's index is
    /// the current height and, on an empty chain, its `previous_hash` is the
    /// empty sentinel.
    pub fn add_block(&mut self, block: Block) -> (ok: bool)
        ensures
            !ok ==> final(self)@ == old(self)@,
            !ok ==> forall|m: u64|
                block@.nonce <= m ==> !pow_ok(link_candidate(block@, old(self)@), m),
            ok ==> final(self)@.len() == old(self)@.len() + 1,
            ok ==> final(self)@ == old(self)@.push(final(self)@.last()),
            ok ==> {
                let nb = final(self)@.last();
                &&& nb.index == block@.index
                &&& nb.timestamp == block@.timestamp
                &&& nb.data == block@.data
                &&& nb.previous_hash == link_candidate(block@, old(self)@).previous_hash
                &&& mined(nb)
            },
            ok && chain_wf(old(self)@) && block@.index == old(self)@.len() && (old(self)@.len()
                == 0 ==> block@.previous_hash == Seq::<char>::empty()) ==> chain_wf(final(self)@),
    {
        let mut block = block;
        let n = self.blocks.len();
        if n > 0 {
            block.previous_hash = self.blocks[n - 1].hash.clone();
        }
        proof {
            assert(block@ == link_candidate(block@, self@));
        }
        let found = block.mine();
        if !found {
            return false;
        }
        self.blocks.push(block);
        proof {
            assert(self@ =~= old(self)@.push(self@.last()));
            if chain_wf(old(self)@) && block@.index == old(self)@.len() && (old(self)@.len() == 0
                ==> block@.previous_hash == Seq::<char>::empty()) {
                assert forall|i: int| 0 <= i < self@.len() implies #[trigger] chain_wf_at(
                    self@,
                    i,
                ) by {
                    if i < old(self)@.len() {
                        assert(chain_wf_at(old(self)@, i));
                    }
                }
            }
        }
        true
    }

    /// The number of blocks in the chain.
    pub fn get_height(&self) -> (h: usize)
        ensures
            h == self@.len(),
    {
        self.blocks.len()
    }

    /// The most recently appended block, if any.
    pub fn head(&self) -> (r: Option<&Block>)
        ensures
            r is Some <==> self@.len() > 0,
            r matches Some(b) ==> b@ == self@.last(),
    {
        let n = self.blocks.len();
        if n == 0 {
            None
        } else {
            Some(&self.blocks[n - 1])
        }
    }

    /// The block at the given index, or `None` past the head.
    pub fn block_at(&self, index: usize) -> (r: Option<&Block>)
        ensures
            r is Some <==> index < self@.len(),
            r matches Some(b) ==> b@ == self@[index as int],
    {
        if index < self.blocks.len() {
            Some(&self.blocks[index])
        } else {
            None
        }
    }
}

/// One round of the background producer: collects the pending transactions,
/// builds a candidate block over their Merkle root and serialization, links
/// and mines it, appends it, and marks the included transactions with the
/// new block's index — all in one unit.
///
/// `None` (everything unchanged) only if mining exhausts the nonce space,
/// which is unobserved in practice.
pub fn produce_block(chain: &mut Blockchain, ledger: &mut Ledger, timestamp: u64) -> (r: Option<
    Block,
>)
    ensures
        r is None ==> final(chain)@ == old(chain)@ && final(ledger)@ == old(ledger)@,
        r is None ==> forall|m: u64|
            !(#[trigger] pow_ok(
                link_candidate(
                    BlockV {
                        index: old(chain)@.len() as u64,
                        timestamp,
                        data: spec_block_data(spec_pending(old(ledger)@)),
                        previous_hash: Seq::<char>::empty(),
                        hash: Seq::<char>::empty(),
                        nonce: 0,
                    },
                    old(chain)@,
                ),
                m,
            )),
        r matches Some(b) ==> {
            let pending = spec_pending(old(ledger)@);
            &&& final(chain)@ == old(chain)@.push(b@)
            &&& b@.index == old(chain)@.len()
            &&& b@.timestamp == timestamp
            &&& mined(b@)
            &&& b@.data == spec_block_data(pending)
            &&& b@.previous_hash == if old(chain)@.len() == 0 {
                Seq::<char>::empty()
            } else {
                old(chain)@.last().hash
            }
            &&& chain_wf(old(chain)@) ==> chain_wf(final(chain)@)
            &&& final(ledger)@.wallets == old(ledger)@.wallets
            &&& final(ledger)@.transactions.len() == old(ledger)@.transactions.len()
            &&& forall|k: int|
                0 <= k < old(ledger)@.transactions.len() && is_pending(
                    #[trigger] old(ledger)@.transactions[k],
                ) ==> final(ledger)@.transactions[k] == assigned_to(
                    old(ledger)@.transactions[k],
                    b@.index,
                )
            &&& forall|k: int|
                0 <= k < old(ledger)@.transactions.len() && !is_pending(
                    #[trigger] old(ledger)@.transactions[k],
                ) ==> final(ledger)@.transactions[k] == old(ledger)@.transactions[k]
        },
{
    let pending = ledger.pending_transactions();
    let height = chain.get_height();
    let index = height as u64;
    let mut candidate = Block::new(index, timestamp, String::new());
    candidate.prepare_unmined_block(&pending);
    let ghost cv = candidate@;
    let ok = chain.add_block(candidate);
    if !ok {
        proof {
            let template = BlockV {
                index: old(chain)@.len() as u64,
                timestamp,
                data: spec_block_data(spec_pending(old(ledger)@)),
                previous_hash: Seq::<char>::empty(),
                hash: Seq::<char>::empty(),
                nonce: 0,
            };
            assert(cv == template);
            assert forall|m: u64| !pow_ok(link_candidate(template, old(chain)@), m) by {
                assert(!pow_ok(link_candidate(cv, old(chain)@), m));
            }
        }
        return None;
    }
    ledger.assign_pending(index);
    let b = match chain.head() {
        Option::Some(h) => h.clone(),
        Option::None => {
            proof {
                assert(chain@.len() > 0);
            }
            return None;
        },
    };
    Some(b)
}

/// The endpoint paths of the chain component, for the HTTP layer to mount.
pub fn routes() -> (r: Vec<String>)
    ensures
        r@.len() == 5,
        r@[0]@ == "/chain/height"@,
        r@[1]@ == "/chain/<id>"@,
        r@[2]@ == "/chain/head"@,
        r@[3]@ == "/chain/<id>/txs"@,
        r@[4]@ == "/health"@,
{
    let mut r: Vec<String> = Vec::new();
    r.push(String::from_str("/chain/height"));
    r.push(String::from_str("/chain/<id>"));
    r.push(String::from_str("/chain/head"));
    r.push(String::from_str("/chain/<id>/txs"));
    r.push(String::from_str("/health"));
    r
}

} // verus!
