use crate::math::{lemma_pow_grows, pow};
use vstd::prelude::*;

verus! {

/// Uploaded bytecode: either still being uploaded in parts, or complete.
#[derive(Debug, Clone, PartialEq, Eq, PartialOrd, Ord, Hash)]
pub enum UploadedBytecode {
    /// The bytecode is partially uploaded.
    Uncompleted {
        /// The bytecode of the parts uploaded so far.
        bytecode: Vec<u8>,
        /// The number of parts uploaded so far.
        uploaded_subsections_number: u16,
    },
    /// The bytecode is fully uploaded.
    Completed(Vec<u8>),
}

/// The storage table of uploaded bytecode, keyed by the bytecode's Merkle root.
pub struct UploadedBytecodes;

/// The storage table of contracts' bytecode.
pub struct ContractsRawCode;

/// The storage table of blob bytes.
pub struct BlobData;

/// The bytes of a blob.
#[derive(Debug, Clone, PartialEq, Eq, Hash)]
pub struct BlobBytes(pub Vec<u8>);

/// The storage table of contract state.
pub struct ContractsState;

/// The value of a contract state slot.
#[derive(Debug, Clone, PartialEq, Eq, Hash)]
pub struct ContractsStateData(pub Vec<u8>);

impl ContractsStateData {
    /// A state slot of 32 zero bytes.
    pub fn zeroed() -> (r: Self)
        ensures
            r.0@ == Seq::new(32, |i: int| 0u8),
    {
        let r = ContractsStateData(vec![0u8; 32]);
        assert(r.0@ =~= Seq::new(32, |i: int| 0u8));
        r
    }
}

/// The storage table of contracts' asset balances.
pub struct ContractsAssets;

/// Errors of the in-memory storage.
#[derive(Debug, Clone, PartialEq, Eq)]
pub enum MemoryStorageError {
    /// The offset into a value exceeds its length (offset, length).
    OffsetOutOfBounds(usize, usize),
}

/// Errors of the storage used while running predicates.
#[derive(Debug, Clone)]
pub enum PredicateStorageError {
    /// The storage operation is unavailable to predicates.
    UnsupportedStorageOperation,
    /// An error of the underlying storage.
    StorageError(String),
}

/// The storage that predicates see: only blob reads go through to `storage`.
#[derive(Debug, Default)]
pub struct PredicateStorage<D> {
    storage: D,
}

impl<D> PredicateStorage<D> {
    /// The wrapped storage.
    pub closed spec fn spec_storage(&self) -> D {
        self.storage
    }

    /// Wraps a storage for predicate runs.
    pub fn new(storage: D) -> (r: Self)
        ensures
            r.spec_storage() == storage,
    {
        PredicateStorage { storage }
    }

    /// The wrapped storage.
    pub fn storage(&self) -> (r: &D)
        ensures
            *r == self.spec_storage(),
    {
        &self.storage
    }
}

/// A storage that holds nothing.
#[derive(Default, Debug, Clone, Copy)]
pub struct EmptyStorage;

/// Predicate storage over the empty storage.
pub fn empty_predicate_storage() -> (r: PredicateStorage<EmptyStorage>)
    ensures
        r.spec_storage() == EmptyStorage,
{
    PredicateStorage::new(EmptyStorage)
}

/// The number that big-endian bytes spell.
pub open spec fn be_number(s: Seq<u8>) -> nat
    decreases s.len(),
{
    if s.len() == 0 {
        0
    } else {
        be_number(s.drop_last()) * 256 + s.last() as nat
    }
}

/// `k` bytes of `b`.
pub open spec fn repeated(b: u8, k: nat) -> Seq<u8> {
    Seq::new(k, |i: int| b)
}

/// The number of a concatenation: the first part shifted by the second's length.
pub proof fn lemma_be_concat(a: Seq<u8>, b: Seq<u8>)
    ensures
        be_number(a + b) == be_number(a) * pow(256, b.len()) + be_number(b),
    decreases b.len(),
{
    if b.len() == 0 {
        assert(a + b =~= a);
    } else {
        let b0 = b.drop_last();
        lemma_be_concat(a, b0);
        assert((a + b).drop_last() =~= a + b0);
        assert(pow(256, b.len()) == 256 * pow(256, b0.len()));
        let x = be_number(a);
        let p = pow(256, b0.len());
        assert((x * p + be_number(b0)) * 256 + b.last() == x * (256 * p) + (be_number(b0) * 256 + b.last()))
            by (nonlinear_arith);
    }
}

/// Bytes that are all `0xff` spell the largest number of their length.
pub proof fn lemma_be_all_ones(k: nat)
    ensures
        be_number(repeated(0xff, k)) + 1 == pow(256, k),
    decreases k,
{
    if k > 0 {
        lemma_be_all_ones((k - 1) as nat);
        assert(repeated(0xff, k).drop_last() =~= repeated(0xff, (k - 1) as nat));
    }
}

/// Zero bytes spell zero.
pub proof fn lemma_be_zeros(k: nat)
    ensures
        be_number(repeated(0, k)) == 0,
    decreases k,
{
    if k > 0 {
        lemma_be_zeros((k - 1) as nat);
        assert(repeated(0, k).drop_last() =~= repeated(0, (k - 1) as nat));
    }
}

/// The next key of a range of storage keys does not exist: the key space is used up.
#[derive(Debug, Clone, Copy, PartialEq, Eq)]
pub struct KeyspaceExhausted;

/// Keys that a storage range operation advances one by one.
pub trait IncreaseStorageKey: Sized {
    /// The key as a number.
    spec fn key_number(&self) -> nat;

    /// The largest key.
    spec fn key_max() -> nat;

    /// Advances the key by one, or fails and leaves it unchanged when it is the
    /// largest.
    fn increase(&mut self) -> (r: Result<(), KeyspaceExhausted>)
        ensures
            match r {
                Ok(()) => old(self).key_number() < Self::key_max()
                    && final(self).key_number() == old(self).key_number() + 1,
                Err(_) => old(self).key_number() == Self::key_max() && *final(self) == *old(self),
            };
}

impl IncreaseStorageKey for [u8; 32] {
    /// The key as a big-endian number.
    open spec fn key_number(&self) -> nat {
        be_number(self@)
    }

    /// `2^256 - 1`.
    open spec fn key_max() -> nat {
        (pow(256, 32) - 1) as nat
    }

    fn increase(&mut self) -> (r: Result<(), KeyspaceExhausted>) {
        let ghost old_bytes = self@;
        let mut i: usize = 32;
        while i > 0 && self[i - 1] == 0xff
            invariant
                i <= 32,
                *self == *old(self),
                self@.subrange(i as int, 32) == repeated(0xff, (32 - i) as nat),
            decreases i,
        {
            proof {
                assert forall|x: int| i - 1 <= x < 32 implies self@[x] == 0xff by {
                    if x >= i {
                        assert(self@.subrange(i as int, 32)[x - i] == self@[x]);
                    }
                }
                assert(self@.subrange(i - 1, 32) =~= repeated(0xff, (32 - i + 1) as nat));
            }
            i = i - 1;
        }
        if i == 0 {
            proof {
                assert(old_bytes =~= repeated(0xff, 32));
                lemma_be_all_ones(32);
                lemma_pow_grows(256, 0, 32);
            }
            return Err(KeyspaceExhausted);
        }
        let k: usize = 32 - i;
        let b = self[i - 1];
        self[i - 1] = b + 1;
        let mut j: usize = i;
        while j < 32
            invariant
                i <= j <= 32,
                1 <= i <= 32,
                self@.len() == 32,
                old_bytes.len() == 32,
                forall|x: int| 0 <= x < i - 1 ==> self@[x] == old_bytes[x],
                self@[i - 1] == b + 1,
                forall|x: int| i <= x < j ==> self@[x] == 0,
            decreases 32 - j,
        {
            self[j] = 0;
            j = j + 1;
        }
        proof {
            let prefix = old_bytes.subrange(0, i - 1);
            assert(old_bytes =~= (prefix + seq![b]) + repeated(0xff, k as nat));
            assert(self@ =~= (prefix + seq![(b + 1) as u8]) + repeated(0, k as nat));
            lemma_be_concat(prefix + seq![b], repeated(0xff, k as nat));
            lemma_be_concat(prefix + seq![(b + 1) as u8], repeated(0, k as nat));
            assert((prefix + seq![b]).drop_last() =~= prefix);
            assert((prefix + seq![(b + 1) as u8]).drop_last() =~= prefix);
            lemma_be_all_ones(k as nat);
            lemma_be_zeros(k as nat);
            let p = pow(256, k as nat);
            let n = be_number(prefix);
            assert((n * 256 + b + 1) * p == (n * 256 + b) * p + p) by (nonlinear_arith);
            lemma_be_bound(self@);
        }
        Ok(())
    }
}

/// Bytes spell a number below `256` to the power of their length.
pub proof fn lemma_be_bound(s: Seq<u8>)
    ensures
        be_number(s) < pow(256, s.len()),
    decreases s.len(),
{
    if s.len() > 0 {
        lemma_be_bound(s.drop_last());
        let p = pow(256, (s.len() - 1) as nat);
        let n = be_number(s.drop_last());
        assert(n * 256 + s.last() < 256 * p) by (nonlinear_arith)
            requires
                n < p,
                s.last() < 256,
        ;
    }
}

} // verus!
