use vstd::prelude::*;
use vstd::string::StrSliceExecFns;
use vstd::string::StringExecFns;
use crate::hashing::{is_lower_hex, sha256_hex, sha256_hex_of};
use crate::text::{decimal, decimal_of, signed_decimal, signed_decimal_of};

verus! {

/// Number of leading `0` hex digits a block's hash must have.
pub const DIFFICULTY: usize = 4;

/// One record of the ledger.
#[derive(Debug, Clone)]
pub struct Block {
    pub index: u64,
    /// Seconds since the Unix epoch at which the block was sealed.
    pub timestamp: i64,
    pub data: String,
    pub previous_hash: String,
    pub hash: String,
    pub nonce: u64,
}

/// The text that a block's hash is taken over: its fields written one after
/// the other, the integers in decimal.
pub open spec fn payload_of(
    index: u64,
    timestamp: i64,
    data: Seq<char>,
    previous_hash: Seq<char>,
    nonce: u64,
) -> Seq<char> {
    decimal_of(index as nat) + signed_decimal_of(timestamp as int) + data + previous_hash
        + decimal_of(nonce as nat)
}

/// The hash of a block with these fields.
pub open spec fn digest_of(
    index: u64,
    timestamp: i64,
    data: Seq<char>,
    previous_hash: Seq<char>,
    nonce: u64,
) -> Seq<char> {
    sha256_hex_of(payload_of(index, timestamp, data, previous_hash, nonce))
}

/// Whether a hash starts with `DIFFICULTY` zero digits.
pub open spec fn meets_difficulty(h: Seq<char>) -> bool {
    &&& h.len() >= DIFFICULTY
    &&& forall|i: int| 0 <= i < DIFFICULTY ==> h[i] == '0'
}

/// Whether some nonce seals a block with these fields.
pub open spec fn sealable(
    index: u64,
    timestamp: i64,
    data: Seq<char>,
    previous_hash: Seq<char>,
) -> bool {
    exists|n: u64| meets_difficulty(#[trigger] digest_of(index, timestamp, data, previous_hash, n))
}

/// Whether `nonce` is the least nonce that seals a block with these fields,
/// or, where none does, the largest nonce.
pub open spec fn is_mined_nonce(
    index: u64,
    timestamp: i64,
    data: Seq<char>,
    previous_hash: Seq<char>,
    nonce: u64,
) -> bool {
    &&& forall|m: u64|
        m < nonce ==> !meets_difficulty(#[trigger] digest_of(index, timestamp, data, previous_hash, m))
    &&& if sealable(index, timestamp, data, previous_hash) {
        meets_difficulty(digest_of(index, timestamp, data, previous_hash, nonce))
    } else {
        nonce == u64::MAX
    }
}

impl Block {
    /// The hash recomputed from the block's current fields.
    pub open spec fn recomputed(&self) -> Seq<char> {
        digest_of(self.index, self.timestamp, self.data@, self.previous_hash@, self.nonce)
    }

    /// Whether the block carries its own hash and a nonce found by mining.
    pub open spec fn is_mined(&self) -> bool {
        &&& self.hash@ == self.recomputed()
        &&& is_mined_nonce(self.index, self.timestamp, self.data@, self.previous_hash@, self.nonce)
    }

    /// Builds and mines a block stamped with the current time.
    pub fn new(index: u64, data: String, previous_hash: String) -> (r: Block)
        ensures
            r.index == index,
            r.data@ == data@,
            r.previous_hash@ == previous_hash@,
            r.is_mined(),
    {
        let timestamp = now_timestamp();
        Block::with_timestamp(index, timestamp, data, previous_hash)
    }

    /// Builds and mines a block stamped with the given time.
    pub fn with_timestamp(index: u64, timestamp: i64, data: String, previous_hash: String) -> (r:
        Block)
        ensures
            r.index == index,
            r.timestamp == timestamp,
            r.data@ == data@,
            r.previous_hash@ == previous_hash@,
            r.is_mined(),
    {
        match Block::mine_block(index, timestamp, data.as_str(), previous_hash.as_str()) {
            Some((hash, nonce)) => Block { index, timestamp, data, previous_hash, hash, nonce },
            None => {
                let nonce = u64::MAX;
                let hash = block_hash(index, timestamp, data.as_str(), previous_hash.as_str(), nonce);
                Block { index, timestamp, data, previous_hash, hash, nonce }
            },
        }
    }

    /// Searches the nonces upwards from zero for the first one whose hash
    /// meets the difficulty; `None` when no nonce does.
    pub fn mine_block(index: u64, timestamp: i64, data: &str, previous_hash: &str) -> (r: Option<
        (String, u64),
    >)
        ensures
            match r {
                Some((hash, nonce)) => {
                    &&& hash@ == digest_of(index, timestamp, data@, previous_hash@, nonce)
                    &&& meets_difficulty(hash@)
                    &&& is_mined_nonce(index, timestamp, data@, previous_hash@, nonce)
                },
                None => !sealable(index, timestamp, data@, previous_hash@),
            },
    {
        let mut nonce: u64 = 0;
        loop
            invariant
                forall|m: u64|
                    m < nonce ==> !meets_difficulty(
                        #[trigger] digest_of(index, timestamp, data@, previous_hash@, m),
                    ),
            decreases u64::MAX - nonce,
        {
            let hash = block_hash(index, timestamp, data, previous_hash, nonce);
            if has_difficulty(hash.as_str()) {
                return Some((hash, nonce));
            }
            if nonce == u64::MAX {
                assert(!sealable(index, timestamp, data@, previous_hash@)) by {
                    assert forall|n: u64|
                        !meets_difficulty(
                            #[trigger] digest_of(index, timestamp, data@, previous_hash@, n),
                        ) by {
                        if n < nonce {
                        } else {
                            assert(n == nonce);
                        }
                    }
                }
                return None;
            }
            nonce = nonce + 1;
        }
    }

    /// Recomputes the hash from the block's current fields, ignoring the
    /// stored one.
    pub fn calculate_hash(&self) -> (r: String)
        ensures
            r@ == self.recomputed(),
            is_lower_hex(r@, 64),
    {
        block_hash(
            self.index,
            self.timestamp,
            self.data.as_str(),
            self.previous_hash.as_str(),
            self.nonce,
        )
    }
}

/// A mined block carries its own hash, and that hash meets the difficulty
/// whenever some nonce could seal the block's fields.
pub proof fn mined_block_is_sealed(b: Block)
    requires
        b.is_mined(),
        sealable(b.index, b.timestamp, b.data@, b.previous_hash@),
    ensures
        b.hash@ == b.recomputed(),
        meets_difficulty(b.hash@),
{
}

/// Mining is deterministic: for given fields, at most one nonce is the
/// mined one.
pub proof fn mined_nonce_is_unique(
    index: u64,
    timestamp: i64,
    data: Seq<char>,
    previous_hash: Seq<char>,
    n1: u64,
    n2: u64,
)
    requires
        is_mined_nonce(index, timestamp, data, previous_hash, n1),
        is_mined_nonce(index, timestamp, data, previous_hash, n2),
    ensures
        n1 == n2,
{
    if sealable(index, timestamp, data, previous_hash) {
        if n1 < n2 {
            assert(!meets_difficulty(digest_of(index, timestamp, data, previous_hash, n1)));
        } else if n2 < n1 {
            assert(!meets_difficulty(digest_of(index, timestamp, data, previous_hash, n2)));
        }
    }
}

/// Writes out the text that a block's hash is taken over.
pub fn payload(index: u64, timestamp: i64, data: &str, previous_hash: &str, nonce: u64) -> (r:
    String)
    ensures
        r@ == payload_of(index, timestamp, data@, previous_hash@, nonce),
{
    let mut s = decimal(index);
    let t = signed_decimal(timestamp);
    s.append(t.as_str());
    s.append(data);
    s.append(previous_hash);
    let n = decimal(nonce);
    s.append(n.as_str());
    s
}

/// The hash of a block with these fields.
pub fn block_hash(index: u64, timestamp: i64, data: &str, previous_hash: &str, nonce: u64) -> (r:
    String)
    ensures
        r@ == digest_of(index, timestamp, data@, previous_hash@, nonce),
        is_lower_hex(r@, 64),
{
    let p = payload(index, timestamp, data, previous_hash, nonce);
    sha256_hex(p.as_str())
}

/// Whether a hash starts with `DIFFICULTY` zero digits.
pub fn has_difficulty(h: &str) -> (r: bool)
    ensures
        r == meets_difficulty(h@),
{
    let len = h.unicode_len();
    if len < DIFFICULTY {
        return false;
    }
    let mut i: usize = 0;
    while i < DIFFICULTY
        invariant
            i <= DIFFICULTY,
            len == h@.len(),
            len >= DIFFICULTY,
            forall|j: int| 0 <= j < i ==> h@[j] == '0',
        decreases DIFFICULTY - i,
    {
        if h.get_char(i) != '0' {
            return false;
        }
        i = i + 1;
    }
    true
}

/// Relies on chrono::Utc::now and DateTime::timestamp: the current time in
/// whole seconds since the Unix epoch. Nothing is promised of its value.
#[verifier::external_body]
fn now_timestamp() -> (r: i64) {
    chrono::Utc::now().timestamp()
}

} // verus!
