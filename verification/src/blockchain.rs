//! Blocks, their fingerprints, and the append-only chain.
//!
//! A block's fingerprint is taken over a canonical text: the compact JSON
//! array of its index, its timestamp, its transactions and the fingerprint
//! of its predecessor. Changing any of the four changes the text, and a
//! chain is intact when every block carries the fingerprint of its own text
//! and names the fingerprint of the block before it.
use crate::clock::utc_now;
use crate::digest::{fingerprint, fingerprint_of, json_quote, json_quoted};
use crate::text::{decimal, push_char, push_decimal};
use vstd::prelude::*;
use vstd::string::StringExecFns;

verus! {

/// A payment as the chain records it.
#[derive(Debug, Clone)]
pub struct PaymentTx {
    /// The resident who pays.
    pub resident_id: u32,
    /// The amount paid, in the smallest currency unit.
    pub amount: u64,
    /// Seconds since the Unix epoch at which the payment was signed.
    pub timestamp: u64,
    /// The resident's signature over the payment's canonical message, in base64.
    pub hash_firma: String,
}

/// What a [`PaymentTx`] holds, as mathematical values.
pub struct PaymentTxView {
    pub resident_id: u32,
    pub amount: u64,
    pub timestamp: u64,
    pub hash_firma: Seq<char>,
}

impl View for PaymentTx {
    type V = PaymentTxView;

    open spec fn view(&self) -> PaymentTxView {
        PaymentTxView {
            resident_id: self.resident_id,
            amount: self.amount,
            timestamp: self.timestamp,
            hash_firma: self.hash_firma@,
        }
    }
}

/// One link of the chain.
#[derive(Debug, Clone)]
pub struct Block {
    /// Position in the chain; the genesis block has index 0.
    pub index: u64,
    /// Seconds since the Unix epoch at which the block was made.
    pub timestamp: u64,
    /// The payments anchored in this block, in order.
    pub transactions: Vec<PaymentTx>,
    /// The fingerprint of the block before this one.
    pub previous_hash: String,
    /// The fingerprint of this block.
    pub hash: String,
}

/// What a [`Block`] holds, as mathematical values.
pub struct BlockView {
    pub index: u64,
    pub timestamp: u64,
    pub transactions: Seq<PaymentTxView>,
    pub previous_hash: Seq<char>,
    pub hash: Seq<char>,
}

/// The views of a sequence of transactions, in the same order.
pub open spec fn transaction_views(transactions: Seq<PaymentTx>) -> Seq<PaymentTxView> {
    transactions.map_values(|tx: PaymentTx| tx@)
}

impl View for Block {
    type V = BlockView;

    open spec fn view(&self) -> BlockView {
        BlockView {
            index: self.index,
            timestamp: self.timestamp,
            transactions: transaction_views(self.transactions@),
            previous_hash: self.previous_hash@,
            hash: self.hash@,
        }
    }
}

/// The JSON object of one transaction, given the JSON literal of its
/// signature.
pub open spec fn transaction_frame(
    resident_id: u32,
    amount: u64,
    timestamp: u64,
    quoted_signature: Seq<char>,
) -> Seq<char> {
    "{\"resident_id\":"@ + decimal(resident_id as nat) + ",\"amount\":"@ + decimal(amount as nat)
        + ",\"timestamp\":"@ + decimal(timestamp as nat) + ",\"hash_firma\":"@ + quoted_signature
        + "}"@
}

/// The canonical text of one transaction.
pub open spec fn transaction_text(tx: PaymentTxView) -> Seq<char> {
    transaction_frame(tx.resident_id, tx.amount, tx.timestamp, json_quoted(tx.hash_firma))
}

/// The canonical texts of `transactions`, separated by commas.
pub open spec fn transactions_text(transactions: Seq<PaymentTxView>) -> Seq<char>
    decreases transactions.len(),
{
    if transactions.len() == 0 {
        Seq::empty()
    } else if transactions.len() == 1 {
        transaction_text(transactions[0])
    } else {
        transactions_text(transactions.drop_last()) + seq![','] + transaction_text(
            transactions.last(),
        )
    }
}

/// The JSON array of a block's four hashed parts, given the joined text of
/// its transactions and the JSON literal of the previous fingerprint.
pub open spec fn block_frame(
    index: u64,
    timestamp: u64,
    transactions: Seq<char>,
    quoted_previous: Seq<char>,
) -> Seq<char> {
    seq!['['] + decimal(index as nat) + seq![','] + decimal(timestamp as nat) + ",["@
        + transactions + "],"@ + quoted_previous + seq![']']
}

/// The canonical text over which a block's fingerprint is taken.
pub open spec fn block_text(
    index: u64,
    timestamp: u64,
    transactions: Seq<PaymentTxView>,
    previous_hash: Seq<char>,
) -> Seq<char> {
    block_frame(index, timestamp, transactions_text(transactions), json_quoted(previous_hash))
}

/// The fingerprint of a block with the given contents.
pub open spec fn block_hash(
    index: u64,
    timestamp: u64,
    transactions: Seq<PaymentTxView>,
    previous_hash: Seq<char>,
) -> Seq<char> {
    fingerprint(block_text(index, timestamp, transactions, previous_hash))
}

/// Whether `block` carries the fingerprint of its own contents.
pub open spec fn is_sealed(block: BlockView) -> bool {
    block.hash == block_hash(
        block.index,
        block.timestamp,
        block.transactions,
        block.previous_hash,
    )
}

/// The block with the given contents and the fingerprint that belongs to
/// them.
pub open spec fn sealed_block(
    index: u64,
    timestamp: u64,
    transactions: Seq<PaymentTxView>,
    previous_hash: Seq<char>,
) -> BlockView {
    BlockView {
        index,
        timestamp,
        transactions,
        previous_hash,
        hash: block_hash(index, timestamp, transactions, previous_hash),
    }
}

/// Appends the JSON object of one transaction to `out`. `quoted_signature`
/// is the JSON literal of the transaction's signature.
pub fn write_transaction(
    out: &mut String,
    resident_id: u32,
    amount: u64,
    timestamp: u64,
    quoted_signature: &str,
)
    ensures
        final(out)@ == old(out)@ + transaction_frame(
            resident_id,
            amount,
            timestamp,
            quoted_signature@,
        ),
{
    let ghost before = out@;
    out.append("{\"resident_id\":");
    push_decimal(out, resident_id as u64);
    out.append(",\"amount\":");
    push_decimal(out, amount);
    out.append(",\"timestamp\":");
    push_decimal(out, timestamp);
    out.append(",\"hash_firma\":");
    out.append(quoted_signature);
    out.append("}");
    assert(out@ =~= before + transaction_frame(
        resident_id,
        amount,
        timestamp,
        quoted_signature@,
    ));
}

/// Assembles the JSON array of a block's hashed parts from the joined text
/// of its transactions and the JSON literal of the previous fingerprint.
pub fn frame_block(index: u64, timestamp: u64, transactions: &str, quoted_previous: &str) -> (out:
    String)
    ensures
        out@ == block_frame(index, timestamp, transactions@, quoted_previous@),
{
    let mut out = String::new();
    push_char(&mut out, '[');
    push_decimal(&mut out, index);
    push_char(&mut out, ',');
    push_decimal(&mut out, timestamp);
    out.append(",[");
    out.append(transactions);
    out.append("],");
    out.append(quoted_previous);
    push_char(&mut out, ']');
    assert(out@ =~= block_frame(index, timestamp, transactions@, quoted_previous@));
    out
}

/// Writes the canonical texts of `transactions`, separated by commas.
fn join_transactions(transactions: &Vec<PaymentTx>) -> (out: String)
    ensures
        out@ == transactions_text(transaction_views(transactions@)),
{
    let ghost views = transaction_views(transactions@);
    let mut out = String::new();
    let mut i: usize = 0;
    while i < transactions.len()
        invariant
            i <= transactions.len(),
            views == transaction_views(transactions@),
            out@ == transactions_text(views.take(i as int)),
        decreases transactions.len() - i,
    {
        let tx = &transactions[i];
        if i > 0 {
            push_char(&mut out, ',');
        }
        let quoted = json_quote(tx.hash_firma.as_str());
        match quoted {
            Some(q) => {
                write_transaction(&mut out, tx.resident_id, tx.amount, tx.timestamp, q.as_str());
            },
            None => {},
        }
        proof {
            let next = views.take(i + 1);
            assert(next.drop_last() =~= views.take(i as int));
            assert(next.last() == tx@);
            assert(out@ =~= transactions_text(next));
        }
        i += 1;
    }
    assert(views.take(i as int) =~= views);
    out
}

impl Block {
    /// Computes the fingerprint that belongs to this block's index,
    /// timestamp, transactions and previous fingerprint. The stored `hash`
    /// plays no part in it.
    pub fn calculate_hash(&self) -> (hash: String)
        ensures
            hash@ == block_hash(
                self@.index,
                self@.timestamp,
                self@.transactions,
                self@.previous_hash,
            ),
            hash@.len() == 64,
    {
        let joined = join_transactions(&self.transactions);
        let text = match json_quote(self.previous_hash.as_str()) {
            Some(q) => frame_block(self.index, self.timestamp, joined.as_str(), q.as_str()),
            None => String::new(),
        };
        fingerprint_of(text.as_str())
    }

    /// Makes the block with the given contents and seals it with its
    /// fingerprint.
    pub fn at(index: u64, timestamp: u64, transactions: Vec<PaymentTx>, previous_hash: String) -> (block:
        Block)
        ensures
            block@ == sealed_block(
                index,
                timestamp,
                transaction_views(transactions@),
                previous_hash@,
            ),
            block.transactions == transactions,
            block.previous_hash == previous_hash,
    {
        let mut block = Block {
            index,
            timestamp,
            transactions,
            previous_hash,
            hash: String::new(),
        };
        block.hash = block.calculate_hash();
        block
    }

    /// Makes a sealed block stamped with the current time.
    pub fn new(index: u64, transactions: Vec<PaymentTx>, previous_hash: String) -> (block: Block)
        ensures
            block@ == sealed_block(
                index,
                block.timestamp,
                transaction_views(transactions@),
                previous_hash@,
            ),
            block.transactions == transactions,
            block.previous_hash == previous_hash,
    {
        Block::at(index, utc_now().block_seconds(), transactions, previous_hash)
    }
}

/// The append-only chain of blocks; the first one is the genesis block.
#[derive(Debug)]
pub struct Blockchain {
    /// The blocks in order of their making.
    pub chain: Vec<Block>,
}

/// The views of a sequence of blocks, in the same order.
pub open spec fn block_views(blocks: Seq<Block>) -> Seq<BlockView> {
    blocks.map_values(|block: Block| block@)
}

/// Whether block `i` of `chain` names the fingerprint of the block before
/// it. The genesis block has no block before it.
pub open spec fn is_linked_at(chain: Seq<BlockView>, i: int) -> bool {
    i > 0 ==> chain[i].previous_hash == chain[i - 1].hash
}

/// Whether block `i` of `chain` is sealed and linked to its predecessor.
pub open spec fn holds_at(chain: Seq<BlockView>, i: int) -> bool {
    is_sealed(chain[i]) && is_linked_at(chain, i)
}

/// Whether every block of `chain` is sealed and linked to its predecessor.
pub open spec fn is_intact(chain: Seq<BlockView>) -> bool {
    forall|i: int| 0 <= i < chain.len() ==> #[trigger] holds_at(chain, i)
}

/// The genesis block made at `timestamp`: index 0, no transactions, and the
/// text `0` where later blocks name their predecessor.
pub open spec fn genesis_block(timestamp: u64) -> BlockView {
    sealed_block(0, timestamp, Seq::empty(), seq!['0'])
}

/// The block that follows `tail` when `transactions` are appended at
/// `timestamp`.
pub open spec fn next_block(tail: BlockView, timestamp: u64, transactions: Seq<PaymentTxView>)
    -> BlockView {
    sealed_block((tail.index + 1) as u64, timestamp, transactions, tail.hash)
}

/// Appending a block to an intact chain leaves the chain intact, and the new
/// block is sealed and names the fingerprint of the former tail.
pub proof fn lemma_append_keeps_chain_intact(
    chain: Seq<BlockView>,
    timestamp: u64,
    transactions: Seq<PaymentTxView>,
)
    requires
        chain.len() > 0,
        is_intact(chain),
    ensures
        is_intact(chain.push(next_block(chain.last(), timestamp, transactions))),
        is_sealed(next_block(chain.last(), timestamp, transactions)),
        next_block(chain.last(), timestamp, transactions).previous_hash == chain.last().hash,
{
    let grown = chain.push(next_block(chain.last(), timestamp, transactions));
    assert forall|i: int| 0 <= i < grown.len() implies #[trigger] holds_at(grown, i) by {
        if i < chain.len() {
            assert(holds_at(chain, i));
        }
    }
}

/// A chain that holds nothing but a genesis block is intact.
pub proof fn lemma_genesis_chain_is_intact(timestamp: u64)
    ensures
        is_intact(seq![genesis_block(timestamp)]),
{
    let chain = seq![genesis_block(timestamp)];
    assert forall|i: int| 0 <= i < chain.len() implies #[trigger] holds_at(chain, i) by {}
}

/// The chain that grows from the genesis block made at `genesis_time` when
/// blocks are appended one after another; each entry of `appends` gives the
/// timestamp and the transactions of one appended block.
pub open spec fn chain_after(genesis_time: u64, appends: Seq<(u64, Seq<PaymentTxView>)>) -> Seq<
    BlockView,
>
    decreases appends.len(),
{
    if appends.len() == 0 {
        seq![genesis_block(genesis_time)]
    } else {
        let before = chain_after(genesis_time, appends.drop_last());
        before.push(next_block(before.last(), appends.last().0, appends.last().1))
    }
}

/// Every chain that grows from a genesis block by appending is intact: each
/// block carries the fingerprint of its own contents and, after the first,
/// the fingerprint of the block before it. It holds one block more than
/// were appended, and each block's index is its position.
pub proof fn lemma_grown_chain_is_intact(
    genesis_time: u64,
    appends: Seq<(u64, Seq<PaymentTxView>)>,
)
    ensures
        chain_after(genesis_time, appends).len() == appends.len() + 1,
        is_intact(chain_after(genesis_time, appends)),
        forall|i: int|
            0 <= i <= appends.len() && i <= u64::MAX ==> (#[trigger] chain_after(
                genesis_time,
                appends,
            )[i]).index == i,
    decreases appends.len(),
{
    let chain = chain_after(genesis_time, appends);
    if appends.len() == 0 {
        lemma_genesis_chain_is_intact(genesis_time);
    } else {
        let before = chain_after(genesis_time, appends.drop_last());
        lemma_grown_chain_is_intact(genesis_time, appends.drop_last());
        lemma_append_keeps_chain_intact(before, appends.last().0, appends.last().1);
        assert forall|i: int| 0 <= i <= appends.len() && i <= u64::MAX implies (#[trigger] chain[i]).index
            == i by {
            if i < appends.len() {
                assert(chain[i] == before[i]);
            } else {
                assert(before[i - 1].index == i - 1);
            }
        }
    }
}

impl View for Blockchain {
    type V = Seq<BlockView>;

    open spec fn view(&self) -> Seq<BlockView> {
        block_views(self.chain@)
    }
}

impl Blockchain {
    /// Whether a block can be appended: there is a tail, and its index has a
    /// successor.
    pub open spec fn can_grow(&self) -> bool {
        self@.len() > 0 && self@.last().index < u64::MAX
    }

    /// Tells whether a block can be appended.
    pub fn is_growable(&self) -> (yes: bool)
        ensures
            yes == self.can_grow(),
    {
        let n = self.chain.len();
        n > 0 && self.chain[n - 1].index < u64::MAX
    }

    /// The chain that holds only the genesis block made at `timestamp`.
    pub fn genesis_at(timestamp: u64) -> (ledger: Blockchain)
        ensures
            ledger@ == seq![genesis_block(timestamp)],
            is_intact(ledger@),
            ledger.can_grow(),
    {
        let previous = String::from_str("0");
        proof {
            reveal_strlit("0");
            assert(previous@ =~= seq!['0']);
            lemma_genesis_chain_is_intact(timestamp);
        }
        let genesis = Block::at(0, timestamp, Vec::new(), previous);
        let mut chain = Vec::new();
        chain.push(genesis);
        let ledger = Blockchain { chain };
        assert(transaction_views(Seq::<PaymentTx>::empty()) =~= Seq::<PaymentTxView>::empty());
        assert(ledger@ =~= seq![genesis_block(timestamp)]);
        ledger
    }

    /// A fresh chain: one genesis block, stamped with the current time.
    pub fn new() -> (ledger: Blockchain)
        ensures
            ledger@ == seq![genesis_block(ledger@[0].timestamp)],
            is_intact(ledger@),
            ledger.can_grow(),
    {
        Blockchain::genesis_at(utc_now().block_seconds())
    }

    /// Appends a block that holds `transactions`, made at `timestamp` and
    /// linked to the current tail. The transactions are taken as they are:
    /// their signatures are not examined.
    pub fn append_at(&mut self, transactions: Vec<PaymentTx>, timestamp: u64)
        requires
            old(self).can_grow(),
        ensures
            final(self)@ == old(self)@.push(
                next_block(old(self)@.last(), timestamp, transaction_views(transactions@)),
            ),
            is_intact(old(self)@) ==> is_intact(final(self)@),
    {
        let ghost before = self@;
        let n = self.chain.len();
        let latest = &self.chain[n - 1];
        assert(latest@ == before.last());
        let block = Block::at(latest.index + 1, timestamp, transactions, latest.hash.clone());
        self.chain.push(block);
        proof {
            assert(self@ =~= before.push(
                next_block(before.last(), timestamp, transaction_views(transactions@)),
            ));
            if is_intact(before) {
                lemma_append_keeps_chain_intact(
                    before,
                    timestamp,
                    transaction_views(transactions@),
                );
            }
        }
    }

    /// Appends a block that holds `transactions`, stamped with the current
    /// time and linked to the current tail.
    pub fn add_block(&mut self, transactions: Vec<PaymentTx>)
        requires
            old(self).can_grow(),
        ensures
            final(self)@ == old(self)@.push(
                next_block(
                    old(self)@.last(),
                    final(self)@.last().timestamp,
                    transaction_views(transactions@),
                ),
            ),
            is_intact(old(self)@) ==> is_intact(final(self)@),
    {
        self.append_at(transactions, utc_now().block_seconds())
    }

    /// The chain to go on with after a restart: the stored one where it
    /// holds at least one block, and a fresh chain where the stored one was
    /// missing, could not be read, or holds no block. The chain that is
    /// returned is never empty.
    pub fn load_or_initialize(stored: Option<Blockchain>) -> (ledger: Blockchain)
        ensures
            ledger@.len() >= 1,
            match stored {
                Some(chain) => if chain@.len() > 0 {
                    ledger == chain
                } else {
                    ledger@ == seq![genesis_block(ledger@[0].timestamp)] && is_intact(ledger@)
                },
                None => ledger@ == seq![genesis_block(ledger@[0].timestamp)] && is_intact(
                    ledger@,
                ),
            },
    {
        match stored {
            Some(chain) => if chain.chain.len() > 0 {
                chain
            } else {
                Blockchain::new()
            },
            None => Blockchain::new(),
        }
    }

    /// Walks the chain and reports the first block that is not sealed or not
    /// linked to its predecessor; `None` when the chain is intact.
    pub fn verify_chain(&self) -> (broken: Option<usize>)
        ensures
            broken is None <==> is_intact(self@),
            broken matches Some(i) ==> {
                &&& i < self@.len()
                &&& !holds_at(self@, i as int)
                &&& forall|j: int| 0 <= j < i ==> #[trigger] holds_at(self@, j)
            },
    {
        let mut i: usize = 0;
        while i < self.chain.len()
            invariant
                i <= self.chain.len(),
                forall|j: int| 0 <= j < i ==> #[trigger] holds_at(self@, j),
            decreases self.chain.len() - i,
        {
            let block = &self.chain[i];
            assert(block@ == self@[i as int]);
            let expected = block.calculate_hash();
            if block.hash != expected {
                assert(!holds_at(self@, i as int));
                return Some(i);
            }
            if i > 0 {
                let before = &self.chain[i - 1];
                assert(before@ == self@[i - 1]);
                if block.previous_hash != before.hash {
                    assert(!holds_at(self@, i as int));
                    return Some(i);
                }
            }
            i += 1;
        }
        None
    }
}

} // verus!
