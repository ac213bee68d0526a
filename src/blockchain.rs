use vstd::prelude::*;
use vstd::string::StringExecFns;
use crate::block::{Block, payload_of, sealable};
use crate::pow::may_follow;
use crate::text::{decimal_of, signed_decimal_of};

verus! {

/// Raised when the tail of a ledger that holds no block is asked for.
#[derive(Debug, Clone, Copy, PartialEq, Eq, Structural)]
pub struct EmptyLedgerError;

/// The label of the genesis block.
pub open spec fn genesis_data() -> Seq<char> {
    "Genesis Block"@
}

/// The link that the genesis block carries in place of a predecessor's hash.
pub open spec fn genesis_previous_hash() -> Seq<char> {
    "0"@
}

/// Whether block `i` carries its own hash and links to block `i - 1`.
pub open spec fn linked_at(chain: Seq<Block>, i: int) -> bool {
    &&& chain[i].hash@ == chain[i].recomputed()
    &&& chain[i].previous_hash@ == chain[i - 1].hash@
}

/// Whether every block after the first is linked to its predecessor.
pub open spec fn chain_valid(chain: Seq<Block>) -> bool {
    forall|i: int| 1 <= i < chain.len() ==> #[trigger] linked_at(chain, i)
}

/// Whether `placed` is `candidate` relinked after a block whose hash is
/// `previous_hash`: the link replaced and the hash recomputed.
pub open spec fn relinked(candidate: Block, placed: Block, previous_hash: Seq<char>) -> bool {
    &&& placed.index == candidate.index
    &&& placed.timestamp == candidate.timestamp
    &&& placed.data@ == candidate.data@
    &&& placed.nonce == candidate.nonce
    &&& placed.previous_hash@ == previous_hash
    &&& placed.hash@ == placed.recomputed()
}

/// Whether `after` is `before` with `candidate` appended by `add_block`.
pub open spec fn appended(before: Seq<Block>, candidate: Block, after: Seq<Block>) -> bool {
    &&& after.len() == before.len() + 1
    &&& after.drop_last() == before
    &&& relinked(candidate, after.last(), before.last().hash@)
}

/// An append-only sequence of blocks rooted at a genesis block.
#[derive(Debug)]
pub struct Blockchain {
    pub chain: Vec<Block>,
}

impl Blockchain {
    /// A ledger holding only a freshly mined genesis block.
    pub fn new() -> (r: Blockchain)
        ensures
            r.chain@.len() == 1,
            r.chain@[0].index == 0,
            r.chain@[0].data@ == genesis_data(),
            r.chain@[0].previous_hash@ == genesis_previous_hash(),
            r.chain@[0].is_mined(),
            chain_valid(r.chain@),
    {
        let genesis = Blockchain::create_genesis_block();
        let chain = vec![genesis];
        Blockchain { chain }
    }

    fn create_genesis_block() -> (r: Block)
        ensures
            r.index == 0,
            r.data@ == genesis_data(),
            r.previous_hash@ == genesis_previous_hash(),
            r.is_mined(),
    {
        proof {
            reveal_strlit("Genesis Block");
            reveal_strlit("0");
        }
        Block::new(0, String::from_str("Genesis Block"), String::from_str("0"))
    }

    /// Appends `new_block` after the tail, with its link set to the tail's
    /// hash and its hash recomputed; its nonce is kept as it is.
    pub fn add_block(&mut self, new_block: Block) -> (r: Result<(), EmptyLedgerError>)
        ensures
            r is Ok <==> old(self).chain@.len() > 0,
            r is Err ==> final(self).chain@ == old(self).chain@,
            r is Ok ==> appended(old(self).chain@, new_block, final(self).chain@),
            chain_valid(old(self).chain@) ==> chain_valid(final(self).chain@),
    {
        let previous_hash = match self.latest_block() {
            Ok(tail) => tail.hash.clone(),
            Err(e) => {
                return Err(e);
            },
        };
        let mut placed = new_block;
        placed.previous_hash = previous_hash;
        placed.hash = placed.calculate_hash();
        self.chain.push(placed);
        proof {
            assert(self.chain@.drop_last() =~= old(self).chain@);
            if chain_valid(old(self).chain@) {
                append_keeps_valid(old(self).chain@, new_block, self.chain@);
            }
        }
        Ok(())
    }

    /// Mines a block holding `data`, numbered by the current length of the
    /// ledger and linked to its tail, and appends it.
    pub fn append_data(&mut self, data: String) -> (r: Result<(), EmptyLedgerError>)
        ensures
            r is Ok <==> old(self).chain@.len() > 0,
            r is Err ==> final(self).chain@ == old(self).chain@,
            r is Ok ==> {
                &&& final(self).chain@.len() == old(self).chain@.len() + 1
                &&& final(self).chain@.drop_last() == old(self).chain@
                &&& final(self).chain@.last().index == old(self).chain@.len() as u64
                &&& final(self).chain@.last().data@ == data@
                &&& final(self).chain@.last().previous_hash@ == old(self).chain@.last().hash@
                &&& final(self).chain@.last().is_mined()
            },
            r is Ok && old(self).chain@.last().index as int + 1 == old(self).chain@.len()
                && sealable(
                final(self).chain@.last().index,
                final(self).chain@.last().timestamp,
                final(self).chain@.last().data@,
                final(self).chain@.last().previous_hash@,
            ) ==> may_follow(old(self).chain@.last(), final(self).chain@.last()),
            chain_valid(old(self).chain@) ==> chain_valid(final(self).chain@),
    {
        let previous_hash = match self.latest_block() {
            Ok(tail) => tail.hash.clone(),
            Err(e) => {
                return Err(e);
            },
        };
        let index = self.chain.len() as u64;
        let block = Block::new(index, data, previous_hash);
        let r = self.add_block(block);
        proof {
            if r is Ok {
                assert(self.chain@.last().recomputed() == block.recomputed());
            }
        }
        r
    }

    /// Whether every block after the genesis block carries its own hash and
    /// links to its predecessor. The difficulty is not checked here.
    pub fn is_valid(&self) -> (r: bool)
        ensures
            r == chain_valid(self.chain@),
    {
        let len = self.chain.len();
        let mut i: usize = 1;
        while i < len
            invariant
                1 <= i,
                len == self.chain@.len(),
                forall|j: int| 1 <= j < i && j < len ==> #[trigger] linked_at(self.chain@, j),
            decreases len - i,
        {
            let current = &self.chain[i];
            let previous = &self.chain[i - 1];
            let computed = current.calculate_hash();
            if !(current.hash == computed) {
                assert(!linked_at(self.chain@, i as int));
                return false;
            }
            if !(current.previous_hash == previous.hash) {
                assert(!linked_at(self.chain@, i as int));
                return false;
            }
            i = i + 1;
        }
        true
    }

    /// The last block of the ledger.
    pub fn latest_block(&self) -> (r: Result<&Block, EmptyLedgerError>)
        ensures
            r is Ok <==> self.chain@.len() > 0,
            r matches Ok(b) ==> *b == self.chain@.last(),
    {
        let len = self.chain.len();
        if len == 0 {
            Err(EmptyLedgerError)
        } else {
            Ok(&self.chain[len - 1])
        }
    }
}

/// Appending to a valid, non-empty ledger leaves it valid.
pub proof fn append_keeps_valid(before: Seq<Block>, candidate: Block, after: Seq<Block>)
    requires
        before.len() > 0,
        chain_valid(before),
        appended(before, candidate, after),
    ensures
        chain_valid(after),
{
    assert forall|i: int| 1 <= i < after.len() implies #[trigger] linked_at(after, i) by {
        assert(after[i - 1] == before[i - 1]);
        if i < after.len() - 1 {
            assert(after[i] == before[i]);
            assert(linked_at(before, i));
        }
    }
}

proof fn appends_valid_upto(states: Seq<Seq<Block>>, candidates: Seq<Block>, k: int)
    requires
        states.len() == candidates.len() + 1,
        states[0].len() == 1,
        forall|j: int|
            0 <= j < candidates.len() ==> appended(#[trigger] states[j], candidates[j], states[j + 1]),
        0 <= k < states.len(),
    ensures
        states[k].len() == 1 + k,
        chain_valid(states[k]),
    decreases k,
{
    if k > 0 {
        appends_valid_upto(states, candidates, k - 1);
        assert(appended(states[k - 1], candidates[k - 1], states[k]));
        append_keeps_valid(states[k - 1], candidates[k - 1], states[k]);
    }
}

/// Along any run of appends that starts from a fresh ledger, the ledger
/// holds one block more than the number of appends so far, and is valid
/// after each of them.
pub proof fn appends_keep_ledger_valid(states: Seq<Seq<Block>>, candidates: Seq<Block>)
    requires
        states.len() == candidates.len() + 1,
        states[0].len() == 1,
        forall|j: int|
            0 <= j < candidates.len() ==> appended(#[trigger] states[j], candidates[j], states[j + 1]),
    ensures
        forall|k: int|
            0 <= k < states.len() ==> (#[trigger] states[k]).len() == 1 + k && chain_valid(
                states[k],
            ),
{
    assert forall|k: int| 0 <= k < states.len() implies (#[trigger] states[k]).len() == 1 + k
        && chain_valid(states[k]) by {
        appends_valid_upto(states, candidates, k);
    }
}

/// Whether `tampered` is `chain` with block `i` alone changed, and in that
/// block the index, time and nonce kept.
pub open spec fn rewritten_at(chain: Seq<Block>, tampered: Seq<Block>, i: int) -> bool {
    &&& 0 <= i < chain.len()
    &&& tampered.len() == chain.len()
    &&& forall|j: int| 0 <= j < chain.len() && j != i ==> tampered[j] == chain[j]
    &&& tampered[i].index == chain[i].index
    &&& tampered[i].timestamp == chain[i].timestamp
    &&& tampered[i].nonce == chain[i].nonce
}

/// Rewriting the data of a block after the genesis block, and nothing else,
/// changes the text its hash is taken over; the ledger then stays valid
/// exactly when that new text has the same SHA-256 digest as the old one,
/// that is, only through a collision.
pub proof fn tampered_data_needs_collision(chain: Seq<Block>, tampered: Seq<Block>, i: int)
    requires
        chain_valid(chain),
        1 <= i,
        rewritten_at(chain, tampered, i),
        tampered[i].previous_hash@ == chain[i].previous_hash@,
        tampered[i].hash@ == chain[i].hash@,
        tampered[i].data@ != chain[i].data@,
    ensures
        payload_of(
            tampered[i].index,
            tampered[i].timestamp,
            tampered[i].data@,
            tampered[i].previous_hash@,
            tampered[i].nonce,
        ) != payload_of(
            chain[i].index,
            chain[i].timestamp,
            chain[i].data@,
            chain[i].previous_hash@,
            chain[i].nonce,
        ),
        chain_valid(tampered) <==> tampered[i].recomputed() == chain[i].recomputed(),
{
    let b = chain[i];
    let t = tampered[i];
    let head = decimal_of(b.index as nat) + signed_decimal_of(b.timestamp as int);
    let tail = b.previous_hash@ + decimal_of(b.nonce as nat);
    let p_old = payload_of(b.index, b.timestamp, b.data@, b.previous_hash@, b.nonce);
    let p_new = payload_of(t.index, t.timestamp, t.data@, t.previous_hash@, t.nonce);
    assert(p_old =~= head + b.data@ + tail);
    assert(p_new =~= head + t.data@ + tail);
    if p_old == p_new {
        assert(b.data@.len() == t.data@.len());
        assert(b.data@ =~= p_old.subrange(head.len() as int, (head.len() + b.data@.len()) as int));
        assert(t.data@ =~= p_new.subrange(head.len() as int, (head.len() + t.data@.len()) as int));
    }
    assert(linked_at(chain, i));
    if chain_valid(tampered) {
        assert(linked_at(tampered, i));
    }
    if t.recomputed() == b.recomputed() {
        assert forall|j: int| 1 <= j < tampered.len() implies #[trigger] linked_at(tampered, j) by {
            assert(linked_at(chain, j));
            assert(tampered[j - 1].hash@ == chain[j - 1].hash@);
        }
    }
}

/// Rewriting the link or the stored hash of a block after the genesis block
/// always makes a valid ledger invalid.
pub proof fn tampered_link_breaks_ledger(chain: Seq<Block>, tampered: Seq<Block>, i: int)
    requires
        chain_valid(chain),
        1 <= i,
        rewritten_at(chain, tampered, i),
        tampered[i].data@ == chain[i].data@,
        tampered[i].previous_hash@ != chain[i].previous_hash@ || tampered[i].hash@
            != chain[i].hash@,
    ensures
        !chain_valid(tampered),
{
    assert(linked_at(chain, i));
    assert(tampered[i - 1] == chain[i - 1]);
    if chain_valid(tampered) {
        assert(linked_at(tampered, i));
    }
}

} // verus!
