use crate::consts::{MEM_SIZE, VM_MAX_RAM};
use crate::error::PanicReason;
use crate::ownership::OwnershipRegisters;
use crate::range::MemoryRange;
use vstd::prelude::*;
use vstd::slice::slice_subrange;

verus! {

/// The accessible part of the VM memory: the stack, which occupies the addresses
/// `0..stack.len()`, the heap pointer, and the heap, which occupies `hp..MEM_SIZE`.
#[verifier::ext_equal]
pub ghost struct MemoryModel {
    /// Bytes of the stack, from address 0 upwards.
    pub stack: Seq<u8>,
    /// Lowest address of the heap.
    pub hp: int,
    /// Bytes of the heap, from address `hp` up to the end of memory.
    pub heap: Seq<u8>,
}

/// `data` written into `s` at position `at`.
pub open spec fn splice(s: Seq<u8>, at: int, data: Seq<u8>) -> Seq<u8> {
    s.subrange(0, at) + data + s.subrange(at + data.len(), s.len() as int)
}

/// A sequence of `n` zero bytes.
pub open spec fn zeros(n: int) -> Seq<u8> {
    Seq::new(n as nat, |i: int| 0u8)
}


/// Two to the power `k`.
pub open spec fn pow2(k: nat) -> nat
    decreases k,
{
    if k == 0 { 1 } else { 2 * pow2((k - 1) as nat) }
}

/// The smallest power of two that is at least `n`.
pub open spec fn next_pow2(n: nat) -> nat
    decreases n,
{
    if n <= 1 { 1 } else { 2 * next_pow2(((n + 1) / 2) as nat) }
}

/// Size of the heap buffer allocated for a heap of `len` bytes: the next power of
/// two, at least 256 and at most the memory size.
pub open spec fn heap_capacity(len: nat) -> int {
    let p = next_pow2(len) as int;
    let p = if p > MEM_SIZE { MEM_SIZE as int } else { p };
    if p < 256 { 256 } else { p }
}

/// Whether the ranges `a` and `b` overlap in the sense that a copy between them is
/// refused.
pub open spec fn copy_ranges_overlap(a: (int, int), b: (int, int)) -> bool {
    (a.0 <= b.0 && b.0 < a.1)
    || (b.0 <= a.0 && a.0 < b.1)
    || (a.0 < b.1 && b.1 <= a.1)
    || (b.0 < a.1 && a.1 <= b.1)
}

/// Every `n` up to `pow2(k)` has its next power of two at most `pow2(k)`.
pub proof fn lemma_next_pow2_bound(n: nat, k: nat)
    requires
        n <= pow2(k),
    ensures
        next_pow2(n) <= pow2(k),
        next_pow2(n) >= n,
        next_pow2(n) >= 1,
    decreases k,
{
    if n <= 1 {
        if k > 0 {
            lemma_pow2_positive((k - 1) as nat);
        }
    } else {
        assert(k > 0);
        lemma_next_pow2_bound(((n + 1) / 2) as nat, (k - 1) as nat);
    }
}

/// Powers of two are positive.
pub proof fn lemma_pow2_positive(k: nat)
    ensures
        pow2(k) >= 1,
    decreases k,
{
    if k > 0 {
        lemma_pow2_positive((k - 1) as nat);
    }
}

/// The memory size is a power of two.
pub proof fn lemma_mem_size_pow2()
    ensures
        pow2(26) == MEM_SIZE,
{
    reveal_with_fuel(pow2, 27);
}

/// The smallest power of two that is at least `n`, for `n` up to the memory size.
fn next_power_of_two(n: usize) -> (r: usize)
    requires
        n <= MEM_SIZE,
    ensures
        r == next_pow2(n as nat),
        n <= r <= MEM_SIZE,
    decreases n,
{
    proof {
        lemma_mem_size_pow2();
        lemma_next_pow2_bound(n as nat, 26);
    }
    if n <= 1 {
        1
    } else {
        let half = next_power_of_two((n + 1) / 2);
        proof {
            lemma_next_pow2_bound(((n + 1) / 2) as nat, 25);
            reveal_with_fuel(pow2, 27);
        }
        2 * half
    }
}

impl MemoryModel {
    /// The shape that every memory keeps: the stack below the heap, the heap
    /// reaching the end of memory.
    pub open spec fn valid(self) -> bool {
        &&& 0 <= self.hp <= MEM_SIZE
        &&& self.stack.len() <= self.hp
        &&& self.heap.len() == MEM_SIZE - self.hp
    }

    /// Whether the range `start..end` lies within the stack or within the heap.
    pub open spec fn accessible(self, start: int, end: int) -> bool {
        end <= self.stack.len() || start >= self.hp
    }

    /// The bytes of an accessible range `start..end`.
    pub open spec fn read(self, start: int, end: int) -> Seq<u8> {
        if end <= self.stack.len() {
            self.stack.subrange(start, end)
        } else {
            self.heap.subrange(start - self.hp, end - self.hp)
        }
    }

    /// The memory after writing `data` at the accessible address `start`.
    pub open spec fn write(self, start: int, data: Seq<u8>) -> MemoryModel {
        if start + data.len() <= self.stack.len() {
            MemoryModel { stack: splice(self.stack, start, data), ..self }
        } else {
            MemoryModel { heap: splice(self.heap, start - self.hp, data), ..self }
        }
    }

    /// The memory after growing the stack to at least `new_sp` bytes, with the new
    /// bytes zeroed; growing beyond the memory or into the heap fails.
    pub open spec fn grow_stack(self, new_sp: int) -> Result<MemoryModel, PanicReason> {
        if new_sp > MEM_SIZE {
            Err(PanicReason::MemoryOverflow)
        } else if new_sp <= self.stack.len() {
            Ok(self)
        } else if new_sp > self.hp {
            Err(PanicReason::MemoryGrowthOverlap)
        } else {
            Ok(MemoryModel { stack: self.stack + zeros(new_sp - self.stack.len()), ..self })
        }
    }

    /// The whole memory as one array: the stack, zeros up to the heap pointer, and
    /// the heap.
    pub open spec fn flat(self) -> Seq<u8> {
        self.stack + zeros(self.hp - self.stack.len()) + self.heap
    }

    /// A valid memory, seen as one array, covers the whole memory.
    pub proof fn lemma_flat_len(self)
        requires
            self.valid(),
        ensures
            self.flat().len() == MEM_SIZE,
    {
    }

    /// Reading an accessible range gives the bytes of the whole-memory array there.
    pub proof fn lemma_read_flat(self, start: int, end: int)
        requires
            self.valid(),
            0 <= start <= end <= MEM_SIZE,
            self.accessible(start, end),
        ensures
            self.read(start, end) == self.flat().subrange(start, end),
    {
        assert(self.read(start, end) =~= self.flat().subrange(start, end));
    }

    /// Two accessible ranges of `len` bytes read the same exactly when the
    /// whole-memory array agrees on them byte by byte.
    pub proof fn lemma_ranges_equal(self, b: int, c: int, len: int)
        requires
            self.valid(),
            0 <= b,
            0 <= c,
            0 <= len,
            b + len <= MEM_SIZE,
            c + len <= MEM_SIZE,
            self.accessible(b, b + len),
            self.accessible(c, c + len),
        ensures
            (self.read(b, b + len) == self.read(c, c + len))
                <==> (forall|j: int| 0 <= j < len ==> #[trigger] self.flat()[b + j] == self.flat()[c + j]),
    {
        self.lemma_read_flat(b, b + len);
        self.lemma_read_flat(c, c + len);
        let flat = self.flat();
        let rb = self.read(b, b + len);
        let rc = self.read(c, c + len);
        if rb == rc {
            assert forall|j: int| 0 <= j < len implies #[trigger] flat[b + j] == flat[c + j] by {
                assert(rb[j] == flat[b + j]);
                assert(rc[j] == flat[c + j]);
            }
        }
        if forall|j: int| 0 <= j < len ==> #[trigger] flat[b + j] == flat[c + j] {
            assert forall|j: int| 0 <= j < len implies #[trigger] rb[j] == rc[j] by {
                assert(flat[b + j] == flat[c + j]);
            }
            assert(rb =~= rc);
        }
    }

    /// Writing to an accessible range changes the whole-memory array there and
    /// nowhere else, and keeps the stack size and the heap pointer.
    pub proof fn lemma_write_flat(self, start: int, data: Seq<u8>)
        requires
            self.valid(),
            0 <= start,
            start + data.len() <= MEM_SIZE,
            self.accessible(start, start + data.len()),
        ensures
            self.write(start, data).valid(),
            self.write(start, data).stack.len() == self.stack.len(),
            self.write(start, data).hp == self.hp,
            self.write(start, data).flat().len() == MEM_SIZE,
            forall|i: int| 0 <= i < MEM_SIZE ==> #[trigger] self.write(start, data).flat()[i]
                == if start <= i < start + data.len() { data[i - start] } else { self.flat()[i] },
    {
        let w = self.write(start, data);
        assert forall|i: int| 0 <= i < MEM_SIZE implies #[trigger] w.flat()[i]
            == if start <= i < start + data.len() { data[i - start] } else { self.flat()[i] } by {
            if i < self.stack.len() {
            } else if i < self.hp {
            } else {
            }
        }
    }

    /// Writing to an accessible range keeps the memory valid and leaves the stack
    /// size and the heap pointer as they were; reading the range back gives the
    /// written bytes.
    pub proof fn law_write_read(self, addr: int, data: Seq<u8>)
        requires
            self.valid(),
            0 <= addr,
            self.verify(addr, data.len() as int) is Ok,
        ensures
            self.write(addr, data).valid(),
            self.write(addr, data).stack.len() == self.stack.len(),
            self.write(addr, data).hp == self.hp,
            self.write(addr, data).read(addr, addr + data.len()) == data,
    {
        let w = self.write(addr, data);
        if addr + data.len() <= self.stack.len() {
            assert(w.read(addr, addr + data.len()) =~= data);
        } else {
            assert(w.read(addr, addr + data.len()) =~= data);
        }
    }

    /// An accessible range reads as many bytes as it is long.
    pub proof fn lemma_read_len(self, addr: int, count: int)
        requires
            self.valid(),
            0 <= addr,
            0 <= count,
            self.verify(addr, count) is Ok,
        ensures
            self.read(addr, addr + count).len() == count,
    {
    }

    /// The memory after copying `length` bytes from `src` to `dst`: both ranges must
    /// be accessible, must not overlap, and the destination must be owned.
    pub open spec fn memcopy(self, dst: int, src: int, length: int, owner: OwnershipRegisters) -> Result<MemoryModel, PanicReason> {
        match self.verify(dst, length) {
            Err(e) => Err(e),
            Ok(d) => match self.verify(src, length) {
                Err(e) => Err(e),
                Ok(s) => if copy_ranges_overlap(d, s) {
                    Err(PanicReason::MemoryWriteOverlap)
                } else if !owner.owns(dst, dst + length) {
                    Err(PanicReason::MemoryOwnership)
                } else {
                    Ok(self.write(dst, self.read(src, src + length)))
                },
            },
        }
    }

    /// The outcome of checking that `count` bytes from `addr` can be accessed.
    pub open spec fn verify(self, addr: int, count: int) -> Result<(int, int), PanicReason> {
        if addr > MEM_SIZE || count > MEM_SIZE || addr + count > MEM_SIZE {
            Err(PanicReason::MemoryOverflow)
        } else if self.accessible(addr, addr + count) {
            Ok((addr, addr + count))
        } else {
            Err(PanicReason::UninitalizedMemoryAccess)
        }
    }
}

/// A change of memory: `data` written from the address `global_start`.
#[derive(Debug, Clone, PartialEq)]
pub struct MemorySliceChange {
    /// First address of the change.
    pub global_start: usize,
    /// The bytes written.
    pub data: Vec<u8>,
}

impl View for MemorySliceChange {
    type V = (int, Seq<u8>);

    open spec fn view(&self) -> (int, Seq<u8>) {
        (self.global_start as int, self.data@)
    }
}

/// The views of a sequence of changes.
pub open spec fn changes_view(cs: Seq<MemorySliceChange>) -> Seq<(int, Seq<u8>)> {
    cs.map_values(|c: MemorySliceChange| c@)
}

/// Whether the change `c` writes the address `addr`.
pub open spec fn covers(c: (int, Seq<u8>), addr: int) -> bool {
    c.0 <= addr < c.0 + c.1.len()
}

/// The bytes `base`, which start at address `base_addr`, after applying the changes
/// in order.
pub open spec fn apply_changes(base: Seq<u8>, cs: Seq<(int, Seq<u8>)>, base_addr: int) -> Seq<u8>
    decreases cs.len(),
{
    if cs.len() == 0 {
        base
    } else {
        let c = cs.last();
        splice(apply_changes(base, cs.drop_last(), base_addr), c.0 - base_addr, c.1)
    }
}

/// `s` cut or zero-extended to `n` bytes.
pub open spec fn resize(s: Seq<u8>, n: int) -> Seq<u8> {
    if n <= s.len() {
        s.subrange(0, n)
    } else {
        s + zeros(n - s.len())
    }
}

/// Every change is nonempty, lies within the `n` bytes from `base_addr`, and holds
/// the bytes that `desired` has there.
pub open spec fn chunks_of(desired: Seq<u8>, base_addr: int, n: int, cs: Seq<(int, Seq<u8>)>) -> bool {
    forall|k: int| #![trigger cs[k]] 0 <= k < cs.len() ==> {
        &&& cs[k].1.len() > 0
        &&& base_addr <= cs[k].0
        &&& cs[k].0 - base_addr + cs[k].1.len() <= n
        &&& cs[k].1 == desired.subrange(cs[k].0 - base_addr, cs[k].0 - base_addr + cs[k].1.len())
    }
}

/// `cs` is the list of maximal runs of bytes in which `latest` and `desired` differ,
/// in increasing address order, with addresses starting at `base_addr`.
pub open spec fn is_diff(latest: Seq<u8>, desired: Seq<u8>, base_addr: int, cs: Seq<(int, Seq<u8>)>) -> bool {
    &&& latest.len() == desired.len()
    &&& chunks_of(desired, base_addr, latest.len() as int, cs)
    &&& forall|k: int| #![trigger cs[k]] 0 <= k < cs.len() - 1 ==> cs[k].0 + cs[k].1.len() < cs[k + 1].0
    &&& forall|i: int| 0 <= i < latest.len() ==> (latest[i] != desired[i] <==> exists|k: int|
        0 <= k < cs.len() && #[trigger] covers(cs[k], base_addr + i))
}

/// Applying changes that hold `desired`'s bytes gives `desired`'s byte where a
/// change covers the address and the base byte elsewhere.
pub proof fn lemma_apply_chunks(base: Seq<u8>, desired: Seq<u8>, base_addr: int, cs: Seq<(int, Seq<u8>)>)
    requires
        base.len() == desired.len(),
        chunks_of(desired, base_addr, base.len() as int, cs),
    ensures
        apply_changes(base, cs, base_addr).len() == base.len(),
        forall|i: int| 0 <= i < base.len() ==> #[trigger] apply_changes(base, cs, base_addr)[i] == if exists|k: int|
            0 <= k < cs.len() && #[trigger] covers(cs[k], base_addr + i) {
            desired[i]
        } else {
            base[i]
        },
    decreases cs.len(),
{
    if cs.len() > 0 {
        let prev = cs.drop_last();
        assert(chunks_of(desired, base_addr, base.len() as int, prev)) by {
            assert forall|k: int| 0 <= k < prev.len() implies #[trigger] prev[k] == cs[k] by {}
        }
        lemma_apply_chunks(base, desired, base_addr, prev);
        let c = cs.last();
        assert(cs[cs.len() - 1] == c);
        let a = apply_changes(base, cs, base_addr);
        assert forall|i: int| 0 <= i < base.len() implies #[trigger] apply_changes(base, cs, base_addr)[i] == if exists|k: int|
            0 <= k < cs.len() && #[trigger] covers(cs[k], base_addr + i) {
            desired[i]
        } else {
            base[i]
        } by {
            if covers(c, base_addr + i) {
                assert(covers(cs[cs.len() - 1], base_addr + i));
            } else {
                if exists|k: int| 0 <= k < cs.len() && #[trigger] covers(cs[k], base_addr + i) {
                    let k = choose|k: int| 0 <= k < cs.len() && #[trigger] covers(cs[k], base_addr + i);
                    assert(k < cs.len() - 1);
                    assert(prev[k] == cs[k]);
                    assert(covers(prev[k], base_addr + i));
                } else {
                    if exists|k: int| 0 <= k < prev.len() && #[trigger] covers(prev[k], base_addr + i) {
                        let k = choose|k: int| 0 <= k < prev.len() && #[trigger] covers(prev[k], base_addr + i);
                        assert(prev[k] == cs[k]);
                        assert(covers(cs[k], base_addr + i));
                    }
                }
            }
        }
    }
}

/// Applying a diff of `latest` against `desired` to `latest` gives `desired`.
pub proof fn lemma_apply_diff(latest: Seq<u8>, desired: Seq<u8>, base_addr: int, cs: Seq<(int, Seq<u8>)>)
    requires
        is_diff(latest, desired, base_addr, cs),
    ensures
        apply_changes(latest, cs, base_addr) == desired,
{
    lemma_apply_chunks(latest, desired, base_addr, cs);
    let a = apply_changes(latest, cs, base_addr);
    assert forall|i: int| 0 <= i < latest.len() implies a[i] == desired[i] by {
        if !(exists|k: int| 0 <= k < cs.len() && #[trigger] covers(cs[k], base_addr + i)) {
            assert(latest[i] == desired[i]);
        }
    }
    assert(a =~= desired);
}

/// Writes `data` into `v` at index `at`.
fn write_into(v: &mut Vec<u8>, at: usize, data: &[u8])
    requires
        at + data@.len() <= old(v)@.len(),
    ensures
        final(v)@ == splice(old(v)@, at as int, data@),
{
    let len = data.len();
    let vlen = v.len();
    let ghost old_v = v@;
    let mut i: usize = 0;
    while i < len
        invariant
            vlen == old_v.len(),
            len == data@.len(),
            at + len <= old_v.len(),
            i <= len,
            v@.len() == old_v.len(),
            forall|j: int| 0 <= j < at || at + len <= j < old_v.len() ==> v@[j] == old_v[j],
            forall|j: int| at <= j < at + i ==> v@[j] == data@[j - at],
        decreases len - i,
    {
        v[at + i] = data[i];
        i = i + 1;
    }
    assert(v@ =~= splice(old_v, at as int, data@));
}

/// Whether two byte slices are equal.
pub fn bytes_eq(a: &[u8], b: &[u8]) -> (r: bool)
    ensures
        r == (a@ == b@),
{
    if a.len() != b.len() {
        return false;
    }
    let mut i: usize = 0;
    while i < a.len()
        invariant
            a@.len() == b@.len(),
            i <= a@.len(),
            forall|j: int| 0 <= j < i ==> a@[j] == b@[j],
        decreases a@.len() - i,
    {
        if a[i] != b[i] {
            return false;
        }
        i = i + 1;
    }
    assert(a@ =~= b@);
    true
}

/// The list of maximal runs of bytes in which `latest` differs from `desired`, with
/// the bytes of `desired`, each at its address counted from `offset`.
pub fn get_changes(latest_array: &[u8], desired_array: &[u8], offset: usize) -> (r: Vec<MemorySliceChange>)
    requires
        latest_array@.len() == desired_array@.len(),
        offset + latest_array@.len() <= usize::MAX,
    ensures
        is_diff(latest_array@, desired_array@, offset as int, changes_view(r@)),
{
    let n = latest_array.len();
    let ghost latest = latest_array@;
    let ghost desired = desired_array@;
    let mut changes: Vec<MemorySliceChange> = Vec::new();
    let mut run: Option<usize> = None;
    let mut i: usize = 0;
    while i < n
        invariant
            n == latest.len(),
            n == desired.len(),
            latest == latest_array@,
            desired == desired_array@,
            offset + n <= usize::MAX,
            i <= n,
            chunks_of(desired, offset as int, n as int, changes_view(changes@)),
            forall|k: int| #![trigger changes_view(changes@)[k]] 0 <= k < changes_view(changes@).len() - 1
                ==> changes_view(changes@)[k].0 + changes_view(changes@)[k].1.len() < changes_view(changes@)[k + 1].0,
            forall|k: int| #![trigger changes_view(changes@)[k]] 0 <= k < changes_view(changes@).len()
                ==> changes_view(changes@)[k].0 + changes_view(changes@)[k].1.len() < offset + match run {
                    Some(s) => s as int,
                    None => i as int,
                },
            match run {
                Some(s) => s < i,
                None => true,
            },
            forall|j: int| 0 <= j < i ==> (latest[j] != desired[j] <==> (exists|k: int|
                0 <= k < changes_view(changes@).len() && #[trigger] covers(changes_view(changes@)[k], offset + j))
                || (run matches Some(s) && s <= j)),
        decreases n - i,
    {
        let differs = latest_array[i] != desired_array[i];
        let ghost cs0 = changes_view(changes@);
        if differs {
            if run.is_none() {
                run = Some(i);
            }
            proof {
                assert forall|j: int| 0 <= j < i + 1 implies (latest[j] != desired[j] <==> (exists|k: int|
                    0 <= k < changes_view(changes@).len() && #[trigger] covers(changes_view(changes@)[k], offset + j))
                    || (run matches Some(s) && s <= j)) by {
                    if j == i {
                        if exists|k: int| 0 <= k < cs0.len() && #[trigger] covers(cs0[k], offset + j) {
                        }
                    }
                }
            }
        } else if let Some(start) = run {
            let data = vstd::slice::slice_to_vec(vstd::slice::slice_subrange(desired_array, start, i));
            let ghost c = (offset + start, desired.subrange(start as int, i as int));
            changes.push(MemorySliceChange { global_start: offset + start, data });
            run = None;
            proof {
                let cs1 = changes_view(changes@);
                assert(cs1 =~= cs0.push(c));
                assert(cs1[cs1.len() - 1] == c);
                assert forall|k: int| 0 <= k < cs1.len() implies #[trigger] cs1[k] == if k < cs0.len() { cs0[k] } else { c } by {}
                assert forall|j: int| 0 <= j < i + 1 implies (latest[j] != desired[j] <==> (exists|k: int|
                    0 <= k < cs1.len() && #[trigger] covers(cs1[k], offset + j))) by {
                    if start <= j < i {
                        assert(covers(cs1[cs1.len() - 1], offset + j));
                    } else if exists|k: int| 0 <= k < cs1.len() && #[trigger] covers(cs1[k], offset + j) {
                        let k = choose|k: int| 0 <= k < cs1.len() && #[trigger] covers(cs1[k], offset + j);
                        if k < cs0.len() {
                            assert(cs0[k] == cs1[k]);
                            assert(covers(cs0[k], offset + j));
                        }
                    } else if j < start {
                        if exists|k: int| 0 <= k < cs0.len() && #[trigger] covers(cs0[k], offset + j) {
                            let k = choose|k: int| 0 <= k < cs0.len() && #[trigger] covers(cs0[k], offset + j);
                            assert(cs0[k] == cs1[k]);
                            assert(covers(cs1[k], offset + j));
                        }
                    }
                }
            }
        } else {
            proof {
                assert forall|j: int| 0 <= j < i + 1 implies (latest[j] != desired[j] <==> (exists|k: int|
                    0 <= k < cs0.len() && #[trigger] covers(cs0[k], offset + j))) by {
                    if j == i {
                        if exists|k: int| 0 <= k < cs0.len() && #[trigger] covers(cs0[k], offset + j) {
                            let k = choose|k: int| 0 <= k < cs0.len() && #[trigger] covers(cs0[k], offset + j);
                            assert(cs0[k] == cs0[k]);
                        }
                    }
                }
            }
        }
        i = i + 1;
    }
    let ghost cs0 = changes_view(changes@);
    if let Some(start) = run {
        let data = vstd::slice::slice_to_vec(vstd::slice::slice_subrange(desired_array, start, n));
        let ghost c = (offset + start, desired.subrange(start as int, n as int));
        changes.push(MemorySliceChange { global_start: offset + start, data });
        proof {
            let cs1 = changes_view(changes@);
            assert(cs1 =~= cs0.push(c));
            assert forall|k: int| 0 <= k < cs1.len() implies #[trigger] cs1[k] == if k < cs0.len() { cs0[k] } else { c } by {}
            assert forall|j: int| 0 <= j < n implies (latest[j] != desired[j] <==> (exists|k: int|
                0 <= k < cs1.len() && #[trigger] covers(cs1[k], offset + j))) by {
                if start <= j {
                    assert(covers(cs1[cs1.len() - 1], offset + j));
                } else if exists|k: int| 0 <= k < cs1.len() && #[trigger] covers(cs1[k], offset + j) {
                    let k = choose|k: int| 0 <= k < cs1.len() && #[trigger] covers(cs1[k], offset + j);
                    if k < cs0.len() {
                        assert(cs0[k] == cs1[k]);
                        assert(covers(cs0[k], offset + j));
                    }
                } else {
                    if exists|k: int| 0 <= k < cs0.len() && #[trigger] covers(cs0[k], offset + j) {
                        let k = choose|k: int| 0 <= k < cs0.len() && #[trigger] covers(cs0[k], offset + j);
                        assert(cs0[k] == cs1[k]);
                        assert(covers(cs1[k], offset + j));
                    }
                }
            }
        }
    }
    changes
}

/// The data that brings a memory back to an earlier state: the stack size and heap
/// pointer to restore, and the changes to apply to the stack and to the heap.
#[derive(Debug, Clone)]
pub struct MemoryRollbackData {
    sp: usize,
    hp: usize,
    stack_changes: Vec<MemorySliceChange>,
    heap_changes: Vec<MemorySliceChange>,
}

impl MemoryRollbackData {
    /// The stack size to restore.
    pub closed spec fn spec_sp(&self) -> int {
        self.sp as int
    }

    /// The heap pointer to restore.
    pub closed spec fn spec_hp(&self) -> int {
        self.hp as int
    }

    /// The changes to the stack.
    pub closed spec fn spec_stack_changes(&self) -> Seq<(int, Seq<u8>)> {
        changes_view(self.stack_changes@)
    }

    /// The changes to the heap.
    pub closed spec fn spec_heap_changes(&self) -> Seq<(int, Seq<u8>)> {
        changes_view(self.heap_changes@)
    }

    /// Whether this data can be applied to the memory `m`: the heap may only shrink,
    /// and every change lies within the restored stack or heap.
    pub open spec fn fits(&self, m: MemoryModel) -> bool {
        &&& m.hp <= self.spec_hp() <= MEM_SIZE
        &&& self.spec_sp() <= self.spec_hp()
        &&& forall|k: int| #![trigger self.spec_stack_changes()[k]] 0 <= k < self.spec_stack_changes().len() ==>
            0 <= self.spec_stack_changes()[k].0
            && self.spec_stack_changes()[k].0 + self.spec_stack_changes()[k].1.len() <= self.spec_sp()
        &&& forall|k: int| #![trigger self.spec_heap_changes()[k]] 0 <= k < self.spec_heap_changes().len() ==>
            self.spec_hp() <= self.spec_heap_changes()[k].0
            && self.spec_heap_changes()[k].0 + self.spec_heap_changes()[k].1.len() <= MEM_SIZE
    }

    /// The memory `m` after applying this data.
    pub open spec fn apply_to(&self, m: MemoryModel) -> MemoryModel {
        MemoryModel {
            stack: apply_changes(resize(m.stack, self.spec_sp()), self.spec_stack_changes(), 0),
            hp: self.spec_hp(),
            heap: apply_changes(
                m.heap.subrange(self.spec_hp() - m.hp, m.heap.len() as int),
                self.spec_heap_changes(),
                self.spec_hp(),
            ),
        }
    }

    /// Whether this data is the difference from the memory `m` to the memory `d`.
    pub open spec fn describes(&self, m: MemoryModel, d: MemoryModel) -> bool {
        &&& self.spec_sp() == d.stack.len()
        &&& self.spec_hp() == d.hp
        &&& is_diff(m.stack.subrange(0, d.stack.len() as int), d.stack, 0, self.spec_stack_changes())
        &&& is_diff(m.heap.subrange(d.hp - m.hp, m.heap.len() as int), d.heap, d.hp, self.spec_heap_changes())
    }
}

/// Rolling a memory back with the data collected against a desired memory gives
/// the desired memory.
pub proof fn law_rollback_restores(m: MemoryModel, d: MemoryModel, data: MemoryRollbackData)
    requires
        m.valid(),
        d.valid(),
        m.hp <= d.hp,
        d.stack.len() <= m.stack.len(),
        data.describes(m, d),
    ensures
        data.fits(m),
        data.apply_to(m) == d,
{
    let sc = data.spec_stack_changes();
    let hc = data.spec_heap_changes();
    assert forall|k: int| #![trigger sc[k]] 0 <= k < sc.len() implies 0 <= sc[k].0 && sc[k].0 + sc[k].1.len() <= data.spec_sp() by {
    }
    assert forall|k: int| #![trigger hc[k]] 0 <= k < hc.len() implies data.spec_hp() <= hc[k].0 && hc[k].0 + hc[k].1.len() <= MEM_SIZE by {
    }
    lemma_apply_diff(m.stack.subrange(0, d.stack.len() as int), d.stack, 0, sc);
    lemma_apply_diff(m.heap.subrange(d.hp - m.hp, m.heap.len() as int), d.heap, d.hp, hc);
    assert(resize(m.stack, data.spec_sp()) =~= m.stack.subrange(0, d.stack.len() as int));
    assert(data.apply_to(m) =~= d);
}

/// Conversion of a value to a memory address or offset, rejecting values beyond the
/// VM memory.
pub trait ToAddr: Sized {
    /// The integer the value stands for.
    spec fn addr_value(&self) -> int;

    /// The value as an address, or `MemoryOverflow` if it exceeds the memory size.
    fn to_addr(self) -> (r: Result<usize, PanicReason>)
        requires
            self.addr_value() >= 0,
        ensures
            match r {
                Ok(a) => a == self.addr_value() && a <= MEM_SIZE,
                Err(e) => self.addr_value() > MEM_SIZE && e == PanicReason::MemoryOverflow,
            },
    ;
}

impl ToAddr for usize {
    open spec fn addr_value(&self) -> int {
        *self as int
    }

    fn to_addr(self) -> (r: Result<usize, PanicReason>) {
        if self > MEM_SIZE {
            return Err(PanicReason::MemoryOverflow);
        }
        Ok(self)
    }
}

impl ToAddr for u64 {
    open spec fn addr_value(&self) -> int {
        *self as int
    }

    fn to_addr(self) -> (r: Result<usize, PanicReason>) {
        if self > VM_MAX_RAM {
            return Err(PanicReason::MemoryOverflow);
        }
        Ok(self as usize)
    }
}

impl ToAddr for i32 {
    open spec fn addr_value(&self) -> int {
        *self as int
    }

    fn to_addr(self) -> (r: Result<usize, PanicReason>) {
        if self as i64 > VM_MAX_RAM as i64 {
            return Err(PanicReason::MemoryOverflow);
        }
        Ok(self as usize)
    }
}

/// The memory of the VM: a stack growing upwards from address 0 and a heap growing
/// downwards from the end of memory. The heap buffer may be larger than the heap
/// itself; it is kept to avoid reallocations.
#[derive(Debug, Clone)]
pub struct MemoryInstance {
    stack: Vec<u8>,
    heap: Vec<u8>,
    hp: usize,
}

impl View for MemoryInstance {
    type V = MemoryModel;

    closed spec fn view(&self) -> MemoryModel {
        MemoryModel {
            stack: self.stack@,
            hp: self.hp as int,
            heap: self.heap@.subrange(self.hp - (MEM_SIZE - self.heap@.len()), self.heap@.len() as int),
        }
    }
}

impl Default for MemoryInstance {
    /// A new, empty memory, as `new` gives.
    fn default() -> (r: Self)
        ensures
            r.inv(),
            r@ == (MemoryModel { stack: Seq::empty(), hp: MEM_SIZE as int, heap: Seq::empty() }),
            r.raw_heap() == Seq::<u8>::empty(),
    {
        MemoryInstance::new()
    }
}

impl MemoryInstance {
    /// The shape that every memory keeps: the heap buffer ends at the end of
    /// memory and covers the heap, which lies above the stack.
    pub closed spec fn inv(&self) -> bool {
        &&& self.heap@.len() <= MEM_SIZE
        &&& MEM_SIZE - self.heap@.len() <= self.hp <= MEM_SIZE
        &&& self.stack@.len() <= self.hp
    }

    /// The whole heap buffer, including the part below the heap pointer.
    pub closed spec fn raw_heap(&self) -> Seq<u8> {
        self.heap@
    }

    /// The memory after the heap grows down to `new_hp`: the stack loses what lies at
    /// or above `new_hp`, and the heap gains zeroed bytes between `new_hp` and the old
    /// heap pointer, whatever an earlier use left in the buffer.
    pub open spec fn heap_grown(&self, new_hp: int) -> MemoryModel {
        MemoryModel {
            stack: if self@.stack.len() <= new_hp {
                self@.stack
            } else {
                self@.stack.subrange(0, new_hp)
            },
            hp: new_hp,
            heap: zeros(self@.hp - new_hp) + self@.heap,
        }
    }

    /// Heap that a growth hands out reads as zero, also after a reset of a memory
    /// that used the heap before, and the heap that was there reads as before.
    pub proof fn law_heap_growth_reads_zero(&self, new_hp: int)
        requires
            self.inv(),
            0 <= new_hp <= self@.hp,
        ensures
            self.heap_grown(new_hp).valid(),
            self.heap_grown(new_hp).read(new_hp, self@.hp) == zeros(self@.hp - new_hp),
            self.heap_grown(new_hp).read(self@.hp, MEM_SIZE as int) == self@.heap,
    {
        let g = self.heap_grown(new_hp);
        assert(g.read(new_hp, self@.hp) =~= zeros(self@.hp - new_hp));
        assert(g.read(self@.hp, MEM_SIZE as int) =~= self@.heap);
    }

    /// A well-formed memory has a valid model.
    pub proof fn lemma_valid(&self)
        requires
            self.inv(),
        ensures
            self@.valid(),
            self.raw_heap().len() <= MEM_SIZE,
            MEM_SIZE - self.raw_heap().len() <= self@.hp,
            self@.heap == self.raw_heap().subrange(
                self@.hp - (MEM_SIZE - self.raw_heap().len()),
                self.raw_heap().len() as int,
            ),
    {
    }

    /// A new, empty memory.
    pub fn new() -> (r: Self)
        ensures
            r.inv(),
            r@ == (MemoryModel { stack: Seq::empty(), hp: MEM_SIZE as int, heap: Seq::empty() }),
            r.raw_heap() == Seq::<u8>::empty(),
    {
        let r = MemoryInstance { stack: Vec::new(), heap: Vec::new(), hp: MEM_SIZE };
        assert(r@ =~= (MemoryModel { stack: Seq::empty(), hp: MEM_SIZE as int, heap: Seq::empty() }));
        r
    }

    /// A memory whose stack holds the given bytes, with an empty heap.
    pub fn from_stack(stack: Vec<u8>) -> (r: Self)
        requires
            stack@.len() <= MEM_SIZE,
        ensures
            r.inv(),
            r@ == (MemoryModel { stack: stack@, hp: MEM_SIZE as int, heap: Seq::empty() }),
    {
        let r = MemoryInstance { stack, heap: Vec::new(), hp: MEM_SIZE };
        assert(r@ =~= (MemoryModel { stack: stack@, hp: MEM_SIZE as int, heap: Seq::empty() }));
        r
    }

    /// Resets the memory to its initial state, keeping the heap buffer.
    pub fn reset(&mut self)
        requires
            old(self).inv(),
        ensures
            final(self).inv(),
            final(self)@ == (MemoryModel { stack: Seq::empty(), hp: MEM_SIZE as int, heap: Seq::empty() }),
            final(self).raw_heap() == old(self).raw_heap(),
    {
        self.stack.truncate(0);
        self.hp = MEM_SIZE;
        assert(self@ =~= (MemoryModel { stack: Seq::empty(), hp: MEM_SIZE as int, heap: Seq::empty() }));
    }

    /// Makes this memory equal to `other`, heap buffer included.
    pub fn make_equal(&mut self, other: &Self)
        requires
            other.inv(),
        ensures
            final(self).inv(),
            final(self)@ == other@,
            final(self).raw_heap() == other.raw_heap(),
    {
        self.stack.truncate(0);
        self.stack.extend_from_slice(other.stack.as_slice());
        self.hp = other.hp;
        self.heap.truncate(0);
        self.heap.extend_from_slice(other.heap.as_slice());
        proof {
            assert(self.stack@ =~= other.stack@);
            assert(self.heap@ =~= other.heap@);
        }
    }

    /// Lowest address of the heap buffer.
    fn heap_offset(&self) -> (r: usize)
        requires
            self.heap@.len() <= MEM_SIZE,
        ensures
            r == MEM_SIZE - self.heap@.len(),
    {
        MEM_SIZE - self.heap.len()
    }

    /// The heap pointer.
    pub fn hp(&self) -> (r: usize)
        ensures
            r == self@.hp,
    {
        self.hp
    }

    /// The stack buffer; it may be longer than the stack pointer.
    pub fn stack_raw(&self) -> (r: &[u8])
        ensures
            r@ == self@.stack,
    {
        self.stack.as_slice()
    }

    /// The heap buffer; it may extend below the heap pointer.
    pub fn heap_raw(&self) -> (r: &[u8])
        ensures
            r@ == self.raw_heap(),
    {
        self.heap.as_slice()
    }

    /// Grows the stack to hold at least `new_sp` bytes, with new bytes zeroed.
    pub fn grow_stack(&mut self, new_sp: u64) -> (r: Result<(), PanicReason>)
        requires
            old(self).inv(),
        ensures
            final(self).inv(),
            final(self).raw_heap() == old(self).raw_heap(),
            match r {
                Ok(()) => old(self)@.grow_stack(new_sp as int) == Ok::<MemoryModel, PanicReason>(final(self)@),
                Err(e) => old(self)@.grow_stack(new_sp as int) == Err::<MemoryModel, PanicReason>(e)
                    && final(self)@ == old(self)@
                    && final(self).raw_heap() == old(self).raw_heap(),
            },
    {
        if new_sp > VM_MAX_RAM {
            return Err(PanicReason::MemoryOverflow);
        }
        let new_sp = new_sp as usize;
        if new_sp > self.stack.len() {
            if new_sp > self.hp {
                return Err(PanicReason::MemoryGrowthOverlap);
            }
            let ghost old_stack = self.stack@;
            self.stack.resize(new_sp, 0);
            proof {
                assert(self.stack@ =~= old_stack + zeros(new_sp - old_stack.len())) by {
                    assert forall|i: int| 0 <= i < self.stack@.len() implies self.stack@[i]
                        == (old_stack + zeros(new_sp - old_stack.len()))[i] by {
                        if i < old_stack.len() {
                            assert(self.stack@.subrange(0, old_stack.len() as int)[i] == old_stack[i]);
                        }
                    }
                }
            }
        }
        Ok(())
    }

    /// Checks the `C` bytes at `addr` as `verify` does.
    pub fn verify_const<A: ToAddr, const C: usize>(&self, addr: A) -> (r: Result<MemoryRange, PanicReason>)
        requires
            self.inv(),
            addr.addr_value() >= 0,
        ensures
            match r {
                Ok(range) => self@.verify(addr.addr_value(), C as int) == Ok::<(int, int), PanicReason>(range@),
                Err(e) => self@.verify(addr.addr_value(), C as int) == Err::<(int, int), PanicReason>(e),
            },
    {
        self.verify(addr, C)
    }

    /// Checks that `count` bytes from `addr` lie within the memory and within the
    /// stack or the heap, and returns them as a range.
    pub fn verify<A: ToAddr, B: ToAddr>(&self, addr: A, count: B) -> (r: Result<MemoryRange, PanicReason>)
        requires
            self.inv(),
            addr.addr_value() >= 0,
            count.addr_value() >= 0,
        ensures
            match r {
                Ok(range) => self@.verify(addr.addr_value(), count.addr_value()) == Ok::<(int, int), PanicReason>(range@),
                Err(e) => self@.verify(addr.addr_value(), count.addr_value()) == Err::<(int, int), PanicReason>(e),
            },
    {
        let start = addr.to_addr()?;
        let len = count.to_addr()?;
        let end = start + len;
        if end > MEM_SIZE {
            return Err(PanicReason::MemoryOverflow);
        }
        if end <= self.stack.len() || start >= self.hp {
            Ok(MemoryRange::new(start, len))
        } else {
            Err(PanicReason::UninitalizedMemoryAccess)
        }
    }

    /// The bytes of an accessible range.
    pub(crate) fn read_range(&self, range: &MemoryRange) -> (r: &[u8])
        requires
            self.inv(),
            range@.0 <= range@.1 <= MEM_SIZE,
            self@.accessible(range@.0, range@.1),
        ensures
            r@ == self@.read(range@.0, range@.1),
    {
        let start = range.start();
        let end = range.end();
        if end <= self.stack.len() {
            slice_subrange(self.stack.as_slice(), start, end)
        } else {
            let offset = self.heap_offset();
            let r = slice_subrange(self.heap.as_slice(), start - offset, end - offset);
            proof {
                let hs = self.hp - offset;
                assert(r@ =~= self@.heap.subrange(start - self.hp, end - self.hp));
            }
            r
        }
    }

    /// Reads `count` bytes from `addr`, if they are accessible.
    pub fn read<A: ToAddr, C: ToAddr>(&self, addr: A, count: C) -> (r: Result<&[u8], PanicReason>)
        requires
            self.inv(),
            addr.addr_value() >= 0,
            count.addr_value() >= 0,
        ensures
            match r {
                Ok(bytes) => self@.verify(addr.addr_value(), count.addr_value()) is Ok
                    && bytes@ == self@.read(addr.addr_value(), addr.addr_value() + count.addr_value()),
                Err(e) => self@.verify(addr.addr_value(), count.addr_value()) == Err::<(int, int), PanicReason>(e),
            },
    {
        let range = self.verify(addr, count)?;
        Ok(self.read_range(&range))
    }

    /// Reads `C` bytes from `at`, if they are accessible.
    pub fn read_bytes<A: ToAddr, const C: usize>(&self, at: A) -> (r: Result<[u8; C], PanicReason>)
        requires
            self.inv(),
            at.addr_value() >= 0,
        ensures
            match r {
                Ok(bytes) => self@.verify(at.addr_value(), C as int) is Ok
                    && bytes@ == self@.read(at.addr_value(), at.addr_value() + C),
                Err(e) => self@.verify(at.addr_value(), C as int) == Err::<(int, int), PanicReason>(e),
            },
    {
        let src = self.read(at, C)?;
        let mut result = [0u8; C];
        let mut i: usize = 0;
        while i < C
            invariant
                src@.len() == C,
                i <= C,
                forall|j: int| 0 <= j < i ==> result@[j] == src@[j],
            decreases C - i,
        {
            result[i] = src[i];
            i = i + 1;
        }
        proof {
            assert(result@ =~= src@);
        }
        Ok(result)
    }

    /// Writes `data` over an accessible range that starts at `start`.
    pub(crate) fn write_range(&mut self, start: usize, data: &[u8])
        requires
            old(self).inv(),
            start + data@.len() <= MEM_SIZE,
            old(self)@.accessible(start as int, start + data@.len()),
        ensures
            final(self).inv(),
            final(self)@ == old(self)@.write(start as int, data@),
            final(self).raw_heap().len() == old(self).raw_heap().len(),
    {
        let len = data.len();
        let ghost old_model = self@;
        if start + len <= self.stack.len() {
            let ghost old_stack = self.stack@;
            let mut i: usize = 0;
            while i < len
                invariant
                    len == data@.len(),
                    start + len <= old_stack.len(),
                    start + len <= MEM_SIZE,
                    i <= len,
                    self.stack@.len() == old_stack.len(),
                    forall|j: int| 0 <= j < start || start + len <= j < old_stack.len() ==> self.stack@[j] == old_stack[j],
                    forall|j: int| start <= j < start + i ==> self.stack@[j] == data@[j - start],
                    self.heap == old(self).heap,
                    self.hp == old(self).hp,
                decreases len - i,
            {
                self.stack[start + i] = data[i];
                i = i + 1;
            }
            proof {
                assert(self.stack@ =~= splice(old_stack, start as int, data@));
                assert(self@ =~= old_model.write(start as int, data@));
            }
        } else {
            let offset = self.heap_offset();
            let ghost old_heap = self.heap@;
            let local = start - offset;
            let mut i: usize = 0;
            while i < len
                invariant
                    len == data@.len(),
                    offset == MEM_SIZE - old_heap.len(),
                    local == start - offset,
                    start + len <= MEM_SIZE,
                    local + len <= old_heap.len(),
                    i <= len,
                    self.heap@.len() == old_heap.len(),
                    forall|j: int| 0 <= j < local || local + len <= j < old_heap.len() ==> self.heap@[j] == old_heap[j],
                    forall|j: int| local <= j < local + i ==> self.heap@[j] == data@[j - local],
                    self.stack == old(self).stack,
                    self.hp == old(self).hp,
                decreases len - i,
            {
                self.heap[local + i] = data[i];
                i = i + 1;
            }
            proof {
                let hs = self.hp - offset;
                assert(self@.heap =~= splice(old_model.heap, start - self.hp, data@));
                assert(self@ =~= old_model.write(start as int, data@));
            }
        }
    }

    /// Writes `data` at `addr` without ownership checks, if the range is accessible.
    pub fn write_noownerchecks<A: ToAddr>(&mut self, addr: A, data: &[u8]) -> (r: Result<(), PanicReason>)
        requires
            old(self).inv(),
            addr.addr_value() >= 0,
        ensures
            final(self).inv(),
            final(self).raw_heap().len() == old(self).raw_heap().len(),
            match r {
                Ok(()) => old(self)@.verify(addr.addr_value(), data@.len() as int) is Ok
                    && final(self)@ == old(self)@.write(addr.addr_value(), data@)
                    && final(self)@.read(addr.addr_value(), addr.addr_value() + data@.len()) == data@,
                Err(e) => old(self)@.verify(addr.addr_value(), data@.len() as int) == Err::<(int, int), PanicReason>(e)
                    && final(self)@ == old(self)@
                    && final(self).raw_heap() == old(self).raw_heap(),
            },
    {
        let range = self.verify(addr, data.len())?;
        proof {
            self.lemma_valid();
            self@.law_write_read(addr.addr_value(), data@);
        }
        self.write_range(range.start(), data);
        Ok(())
    }

    /// Writes the bytes of `data` at `addr` without ownership checks, if the range
    /// is accessible.
    pub fn write_bytes_noownerchecks<A: ToAddr, const C: usize>(&mut self, addr: A, data: [u8; C]) -> (r: Result<(), PanicReason>)
        requires
            old(self).inv(),
            addr.addr_value() >= 0,
        ensures
            final(self).inv(),
            final(self).raw_heap().len() == old(self).raw_heap().len(),
            match r {
                Ok(()) => old(self)@.verify(addr.addr_value(), C as int) is Ok
                    && final(self)@ == old(self)@.write(addr.addr_value(), data@)
                    && final(self)@.read(addr.addr_value(), addr.addr_value() + data@.len()) == data@,
                Err(e) => old(self)@.verify(addr.addr_value(), C as int) == Err::<(int, int), PanicReason>(e)
                    && final(self)@ == old(self)@
                    && final(self).raw_heap() == old(self).raw_heap(),
            },
    {
        self.write_noownerchecks(addr, data.as_slice())
    }

    /// Writes `data` at `addr`, if the range is accessible and owned by `owner`.
    pub fn write<A: ToAddr>(&mut self, owner: OwnershipRegisters, addr: A, data: &[u8]) -> (r: Result<(), PanicReason>)
        requires
            old(self).inv(),
            addr.addr_value() >= 0,
        ensures
            final(self).inv(),
            final(self).raw_heap().len() == old(self).raw_heap().len(),
            match r {
                Ok(()) => old(self)@.verify(addr.addr_value(), data@.len() as int) is Ok
                    && owner.owns(addr.addr_value(), addr.addr_value() + data@.len())
                    && final(self)@ == old(self)@.write(addr.addr_value(), data@)
                    && final(self)@.read(addr.addr_value(), addr.addr_value() + data@.len()) == data@,
                Err(e) => final(self)@ == old(self)@ && final(self).raw_heap() == old(self).raw_heap() && (
                    old(self)@.verify(addr.addr_value(), data@.len() as int) == Err::<(int, int), PanicReason>(e)
                    || (old(self)@.verify(addr.addr_value(), data@.len() as int) is Ok
                        && !owner.owns(addr.addr_value(), addr.addr_value() + data@.len())
                        && e == PanicReason::MemoryOwnership)),
            },
    {
        let range = self.verify(addr, data.len())?;
        owner.verify_ownership(&range)?;
        proof {
            self.lemma_valid();
            self@.law_write_read(addr.addr_value(), data@);
        }
        self.write_range(range.start(), data);
        Ok(())
    }

    /// Writes the bytes of `data` at `addr`, if the range is accessible and owned by
    /// `owner`.
    pub fn write_bytes<A: ToAddr, const C: usize>(&mut self, owner: OwnershipRegisters, addr: A, data: [u8; C]) -> (r: Result<(), PanicReason>)
        requires
            old(self).inv(),
            addr.addr_value() >= 0,
        ensures
            final(self).inv(),
            final(self).raw_heap().len() == old(self).raw_heap().len(),
            match r {
                Ok(()) => old(self)@.verify(addr.addr_value(), C as int) is Ok
                    && owner.owns(addr.addr_value(), addr.addr_value() + C)
                    && final(self)@ == old(self)@.write(addr.addr_value(), data@)
                    && final(self)@.read(addr.addr_value(), addr.addr_value() + data@.len()) == data@,
                Err(e) => final(self)@ == old(self)@ && final(self).raw_heap() == old(self).raw_heap() && (
                    old(self)@.verify(addr.addr_value(), C as int) == Err::<(int, int), PanicReason>(e)
                    || (old(self)@.verify(addr.addr_value(), C as int) is Ok
                        && !owner.owns(addr.addr_value(), addr.addr_value() + C)
                        && e == PanicReason::MemoryOwnership)),
            },
    {
        self.write(owner, addr, data.as_slice())
    }

    /// Grows the heap by `amount` bytes downwards, moving the heap pointer and its
    /// register `hp_reg` to the new lowest heap address. A stack above the new heap
    /// pointer is cut off.
    pub fn grow_heap_by(&mut self, sp_reg: u64, hp_reg: &mut u64, amount: u64) -> (r: Result<(), PanicReason>)
        requires
            old(self).inv(),
        ensures
            final(self).inv(),
            match r {
                Ok(()) => {
                    let new_hp = old(self)@.hp - amount;
                    let hs = old(self)@.hp - (MEM_SIZE - old(self).raw_heap().len());
                    &&& amount <= old(self)@.hp
                    &&& new_hp >= sp_reg
                    &&& *final(hp_reg) == new_hp
                    &&& final(self)@ == old(self).heap_grown(new_hp)
                    &&& final(self).raw_heap() == if old(self).raw_heap().len() >= MEM_SIZE - new_hp {
                        splice(
                            old(self).raw_heap(),
                            new_hp - (MEM_SIZE - old(self).raw_heap().len()),
                            zeros(amount as int),
                        )
                    } else {
                        zeros(heap_capacity((MEM_SIZE - new_hp) as nat) - old(self).raw_heap().len() + hs)
                            + old(self).raw_heap().subrange(hs, old(self).raw_heap().len() as int)
                    }
                },
                Err(e) => {
                    &&& final(self)@ == old(self)@
                    &&& final(self).raw_heap() == old(self).raw_heap()
                    &&& *final(hp_reg) == *old(hp_reg)
                    &&& ((amount > old(self)@.hp && e == PanicReason::MemoryOverflow)
                        || (amount <= old(self)@.hp && old(self)@.hp - amount < sp_reg
                            && e == PanicReason::MemoryGrowthOverlap))
                },
            },
    {
        if amount > self.hp as u64 {
            return Err(PanicReason::MemoryOverflow);
        }
        let amount = amount as usize;
        let new_hp = self.hp - amount;
        if (new_hp as u64) < sp_reg {
            return Err(PanicReason::MemoryGrowthOverlap);
        }
        let new_len = MEM_SIZE - new_hp;
        let ghost old_model = self@;
        let ghost old_raw = self.heap@;
        let offset = self.heap_offset();
        if self.heap.len() >= new_len {
            let start = new_hp - offset;
            let end = self.hp - offset;
            let mut i = start;
            while i < end
                invariant
                    start <= i <= end,
                    end <= old_raw.len(),
                    self.heap@.len() == old_raw.len(),
                    forall|j: int| 0 <= j < start || end <= j < old_raw.len() ==> self.heap@[j] == old_raw[j],
                    forall|j: int| start <= j < i ==> self.heap@[j] == 0u8,
                    self.hp == old(self).hp,
                    self.stack == old(self).stack,
                decreases end - i,
            {
                self.heap[i] = 0;
                i = i + 1;
            }
            self.hp = new_hp;
            proof {
                assert(self.heap@.subrange(new_hp - offset, self.heap@.len() as int) =~=
                    zeros(amount as int) + old_model.heap);
                assert(self.heap@ =~= splice(old_raw, new_hp - offset, zeros(amount as int)));
            }
        } else {
            // The new buffer keeps the old heap at its top and is zero below it, so
            // that bytes an earlier use left below the heap pointer are not handed out.
            let cap = next_power_of_two(new_len);
            let cap = if cap < 256 { 256 } else { cap };
            let old_len = self.heap.len();
            let hs = self.hp - offset;
            let prefix_zeroes = cap - old_len + hs;
            let mut new_heap: Vec<u8> = vec![0u8; prefix_zeroes];
            new_heap.extend_from_slice(slice_subrange(self.heap.as_slice(), hs, old_len));
            proof {
                assert(new_heap@ =~= zeros(prefix_zeroes as int) + old_raw.subrange(hs as int, old_len as int)) by {
                    assert forall|j: int| 0 <= j < new_heap@.len() implies new_heap@[j]
                        == (zeros(prefix_zeroes as int) + old_raw.subrange(hs as int, old_len as int))[j] by {
                    }
                }
            }
            self.heap = new_heap;
            self.hp = new_hp;
            proof {
                let new_offset = MEM_SIZE - cap;
                assert(self.heap@.subrange(new_hp - new_offset, self.heap@.len() as int) =~=
                    zeros(amount as int) + old_model.heap);
            }
        }
        *hp_reg = new_hp as u64;
        self.stack.truncate(new_hp);
        proof {
            assert(self@ =~= (MemoryModel {
                stack: if old_model.stack.len() <= new_hp {
                    old_model.stack
                } else {
                    old_model.stack.subrange(0, new_hp as int)
                },
                hp: new_hp as int,
                heap: zeros(amount as int) + old_model.heap,
            }));
        }
        Ok(())
    }

    /// Copies `length` bytes from `src` to `dst`. Both ranges must be accessible and
    /// must not overlap, and the destination must be owned by `owner`.
    pub fn memcopy(&mut self, dst: u64, src: u64, length: u64, owner: OwnershipRegisters) -> (r: Result<(), PanicReason>)
        requires
            old(self).inv(),
        ensures
            final(self).inv(),
            final(self).raw_heap().len() == old(self).raw_heap().len(),
            match old(self)@.memcopy(dst as int, src as int, length as int, owner) {
                Ok(m) => r is Ok && final(self)@ == m,
                Err(e) => r == Err::<(), PanicReason>(e) && final(self)@ == old(self)@
                    && final(self).raw_heap() == old(self).raw_heap(),
            },
    {
        let dst_range = self.verify(dst, length)?;
        let src_range = self.verify(src, length)?;
        if dst_range.start() <= src_range.start() && src_range.start() < dst_range.end()
            || src_range.start() <= dst_range.start() && dst_range.start() < src_range.end()
            || dst_range.start() < src_range.end() && src_range.end() <= dst_range.end()
            || src_range.start() < dst_range.end() && dst_range.end() <= src_range.end()
        {
            return Err(PanicReason::MemoryWriteOverlap);
        }
        owner.verify_ownership(&dst_range)?;
        let data = vstd::slice::slice_to_vec(self.read_range(&src_range));
        self.write_range(dst_range.start(), data.as_slice());
        Ok(())
    }

    /// Whether the accessible parts of two memories are equal.
    pub fn eq(&self, other: &Self) -> (r: bool)
        requires
            self.inv(),
            other.inv(),
        ensures
            r == (self@ == other@),
    {
        let same_stack = bytes_eq(self.stack.as_slice(), other.stack.as_slice());
        if !same_stack || self.hp != other.hp {
            proof {
                if self@ == other@ {
                    assert(self@.stack == other@.stack);
                }
            }
            return false;
        }
        let self_hs = self.hp - self.heap_offset();
        let other_hs = other.hp - other.heap_offset();
        let a = slice_subrange(self.heap.as_slice(), self_hs, self.heap.len());
        let b = slice_subrange(other.heap.as_slice(), other_hs, other.heap.len());
        let r = bytes_eq(a, b);
        proof {
            assert(a@ =~= self@.heap);
            assert(b@ =~= other@.heap);
            if r {
                assert(self@ =~= other@);
            }
        }
        r
    }

    /// The whole memory as one array, as `flat` says.
    fn flat_bytes(&self) -> (r: Vec<u8>)
        requires
            self.inv(),
        ensures
            r@ == self@.flat(),
            r@.len() == MEM_SIZE,
    {
        let mut v: Vec<u8> = vec![0u8; MEM_SIZE];
        proof {
            assert(v@ =~= zeros(MEM_SIZE as int));
        }
        write_into(&mut v, 0, self.stack.as_slice());
        let hs = self.hp - self.heap_offset();
        let heap = slice_subrange(self.heap.as_slice(), hs, self.heap.len());
        proof {
            assert(heap@ =~= self@.heap);
        }
        write_into(&mut v, self.hp, heap);
        proof {
            assert(v@ =~= self@.flat());
        }
        v
    }

    /// The changes that turn this memory into `desired_state`, over the whole memory
    /// seen as one array: the maximal runs of differing bytes, in address order, with
    /// the desired bytes.
    pub fn diff_patches(&self, desired_state: &MemoryInstance) -> (r: Vec<MemorySliceChange>)
        requires
            self.inv(),
            desired_state.inv(),
        ensures
            is_diff(self@.flat(), desired_state@.flat(), 0, changes_view(r@)),
    {
        let a = self.flat_bytes();
        let b = desired_state.flat_bytes();
        get_changes(a.as_slice(), b.as_slice(), 0)
    }

    /// The data that rolls this memory back to `desired_memory_state`, or `None` if
    /// their accessible parts are already equal.
    pub fn collect_rollback_data(&self, desired_memory_state: &MemoryInstance) -> (r: Option<MemoryRollbackData>)
        requires
            self.inv(),
            desired_memory_state.inv(),
            self@.hp <= desired_memory_state@.hp,
            desired_memory_state@.stack.len() <= self@.stack.len(),
        ensures
            match r {
                None => self@ == desired_memory_state@,
                Some(data) => self@ != desired_memory_state@ && data.describes(self@, desired_memory_state@),
            },
    {
        if self.eq(desired_memory_state) {
            return None;
        }
        let sp = desired_memory_state.stack.len();
        let hp = desired_memory_state.hp;
        let stack_changes = get_changes(
            slice_subrange(self.stack.as_slice(), 0, sp),
            slice_subrange(desired_memory_state.stack.as_slice(), 0, sp),
            0,
        );
        let heap_start = hp - self.heap_offset();
        let heap = slice_subrange(self.heap.as_slice(), heap_start, self.heap.len());
        let desired_heap_start = hp - desired_memory_state.heap_offset();
        let desired_heap = slice_subrange(
            desired_memory_state.heap.as_slice(),
            desired_heap_start,
            desired_memory_state.heap.len(),
        );
        proof {
            assert(heap@ =~= self@.heap.subrange(hp - self@.hp, self@.heap.len() as int));
            assert(desired_heap@ =~= desired_memory_state@.heap);
            assert(desired_memory_state.stack@.subrange(0, sp as int) =~= desired_memory_state@.stack);
        }
        let heap_changes = get_changes(heap, desired_heap, hp);
        Some(MemoryRollbackData { sp, hp, stack_changes, heap_changes })
    }

    /// Rolls the memory back with `data`: restores the stack size and the heap
    /// pointer, then applies the changes.
    pub fn rollback(&mut self, data: &MemoryRollbackData)
        requires
            old(self).inv(),
            data.fits(old(self)@),
        ensures
            final(self).inv(),
            final(self)@ == data.apply_to(old(self)@),
    {
        let ghost m = self@;
        self.stack.resize(data.sp, 0);
        proof {
            assert(self.stack@ =~= resize(m.stack, data.sp as int)) by {
                if data.sp > m.stack.len() {
                    assert forall|j: int| 0 <= j < self.stack@.len() implies self.stack@[j]
                        == resize(m.stack, data.sp as int)[j] by {
                        if j < m.stack.len() {
                            assert(self.stack@.subrange(0, m.stack.len() as int)[j] == m.stack[j]);
                        }
                    }
                }
            }
        }
        self.hp = data.hp;
        let ghost base_stack = self.stack@;
        let ghost sc = changes_view(data.stack_changes@);
        let mut k: usize = 0;
        while k < data.stack_changes.len()
            invariant
                data.fits(m),
                sc == changes_view(data.stack_changes@),
                k <= sc.len(),
                base_stack.len() == data.sp,
                self.stack@ == apply_changes(base_stack, sc.take(k as int), 0),
                self.stack@.len() == data.sp,
                self.heap == old(self).heap,
                self.hp == data.hp,
            decreases sc.len() - k,
        {
            let change = &data.stack_changes[k];
            assert(sc[k as int] == change@);
            assert(data.spec_stack_changes() == sc);
            assert(data.spec_stack_changes()[k as int] == change@);
            write_into(&mut self.stack, change.global_start, change.data.as_slice());
            proof {
                assert(sc.take(k + 1).drop_last() =~= sc.take(k as int));
                assert(sc.take(k + 1).last() == sc[k as int]);
            }
            k = k + 1;
        }
        proof {
            assert(sc.take(sc.len() as int) =~= sc);
        }
        let offset = self.heap_offset();
        let ghost base_heap = self@.heap;
        let ghost raw0 = self.heap@;
        let ghost hc = changes_view(data.heap_changes@);
        proof {
            assert(base_heap =~= m.heap.subrange(data.hp - m.hp, m.heap.len() as int));
        }
        let mut k: usize = 0;
        while k < data.heap_changes.len()
            invariant
                data.fits(m),
                hc == changes_view(data.heap_changes@),
                k <= hc.len(),
                offset == MEM_SIZE - raw0.len(),
                self.heap@.len() == raw0.len(),
                raw0.len() <= MEM_SIZE,
                offset <= data.hp,
                self.hp == data.hp,
                base_heap.len() == MEM_SIZE - data.hp,
                self.heap@.subrange(data.hp - offset, raw0.len() as int) == apply_changes(base_heap, hc.take(k as int), data.hp as int),
                self.stack@.len() == data.sp,
                self.stack@ == apply_changes(base_stack, sc, 0),
            decreases hc.len() - k,
        {
            let change = &data.heap_changes[k];
            assert(hc[k as int] == change@);
            assert(data.spec_heap_changes() == hc);
            assert(data.spec_heap_changes()[k as int] == change@);
            let local_start = change.global_start - offset;
            let ghost before = self.heap@;
            write_into(&mut self.heap, local_start, change.data.as_slice());
            proof {
                assert(hc.take(k + 1).drop_last() =~= hc.take(k as int));
                assert(hc.take(k + 1).last() == hc[k as int]);
                assert(self.heap@.subrange(data.hp - offset, raw0.len() as int) =~= splice(
                    before.subrange(data.hp - offset, raw0.len() as int),
                    change.global_start - data.hp,
                    change.data@,
                ));
            }
            k = k + 1;
        }
        proof {
            assert(hc.take(hc.len() as int) =~= hc);
            assert(self@ =~= data.apply_to(m));
        }
    }
}

} // verus!
