//! The packed state store: one fixed-length byte buffer holding every
//! cell of the board, two 4-bit cells to a byte. Cell `i` lives in byte
//! `i / 2`; an even `i` occupies the high nibble, an odd `i` the low one.

use vstd::arithmetic::div_mod::lemma_add_mod_noop;
use vstd::arithmetic::div_mod::lemma_sub_mod_noop;
use vstd::pervasive::VecAdditionalExecFns;
use vstd::prelude::*;

use crate::protocol::BitmapMessage;

verus! {

/// Bits used by one cell.
pub const BITS_PER_CHECKBOX: usize = 4;

/// Number of cells on the board.
pub const CELL_COUNT: usize = 1_000_000;

/// Total number of bits in the packed buffer.
pub const BITS_LEN: usize = CELL_COUNT * BITS_PER_CHECKBOX;

/// Length in bytes of the packed buffer: two cells per byte.
pub const STORE_BYTES: usize = BITS_LEN / 8;

/// Why the store refused an operation.
#[derive(Clone, Copy, Debug, PartialEq, Eq, Structural)]
pub enum StoreError {
    /// A mutation was attempted before the buffer was initialized.
    NotInitialized,
    /// A persisted buffer exists but has the wrong length.
    StoreCorrupt,
    /// A `Set` carried a value above 15.
    InvalidValue,
}

/// What a mutation did: changed the cell to the carried resulting value,
/// or touched nothing because the cell already held the requested value.
#[derive(Clone, Copy, Debug, PartialEq, Eq, Structural)]
pub enum MutationOutcome {
    Applied(u8),
    Noop,
}

/// The buffer is well-formed when it has exactly the fixed length.
pub open spec fn store_wf(s: Seq<u8>) -> bool {
    s.len() == STORE_BYTES
}

/// The nibble of `b` a cell occupies: the high one for an even cell
/// index, the low one for an odd.
pub open spec fn spec_nibble(b: u8, high: bool) -> u8 {
    if high {
        b >> 4u8
    } else {
        b & 0x0fu8
    }
}

/// `b` with one nibble replaced by `nv` and the sibling nibble kept.
pub open spec fn spec_byte_with_nibble(b: u8, high: bool, nv: u8) -> u8 {
    if high {
        (b & 0x0fu8) | (nv << 4u8)
    } else {
        (b & 0xf0u8) | nv
    }
}

/// The value of cell `i` in packed buffer `s`.
pub open spec fn spec_cell_value(s: Seq<u8>, i: int) -> u8 {
    spec_nibble(s[i / 2], i % 2 == 0)
}

/// The value a cell holds after one operation: add and sub wrap mod 16,
/// set replaces the value.
pub open spec fn spec_op_value(cur: u8, op: BitmapMessage) -> u8 {
    match op {
        BitmapMessage::Add => (((cur + 1) % 16) as u8),
        BitmapMessage::Sub => (((cur - 1) % 16) as u8),
        BitmapMessage::SetTo(v) => v,
    }
}

/// A `Set` whose value does not fit in a nibble.
pub open spec fn spec_set_invalid(op: BitmapMessage) -> bool {
    match op {
        BitmapMessage::SetTo(v) => v > 15,
        _ => false,
    }
}

/// A `Set` of the value one byte's nibble already holds.
pub open spec fn spec_set_matches(b: u8, high: bool, op: BitmapMessage) -> bool {
    match op {
        BitmapMessage::SetTo(v) => v <= 15 && v == spec_nibble(b, high),
        _ => false,
    }
}

/// A `Set` of the value the cell already holds: a no-op by design, so
/// that repeated identical sets write nothing and announce nothing.
pub open spec fn spec_set_noop(s: Seq<u8>, i: int, op: BitmapMessage) -> bool {
    spec_set_matches(s[i / 2], i % 2 == 0, op)
}

/// The buffer after cell `i` is set to `nv`: one byte rewritten, with
/// the sibling nibble carried over unchanged.
pub open spec fn spec_store_after(s: Seq<u8>, i: int, nv: u8) -> Seq<u8> {
    s.update(i / 2, spec_byte_with_nibble(s[i / 2], i % 2 == 0, nv))
}

/// Every cell value fits in a nibble.
pub proof fn lemma_cell_value_bounded(s: Seq<u8>, i: int)
    ensures
        spec_cell_value(s, i) <= 15,
{
    let b = s[i / 2];
    assert(b >> 4u8 <= 15 && b & 0x0fu8 <= 15) by (bit_vector);
}

/// The value of one cell after `n` applications of the same operation.
pub open spec fn spec_apply_n(cur: u8, op: BitmapMessage, n: nat) -> u8
    decreases n,
{
    if n == 0 {
        cur
    } else {
        spec_op_value(spec_apply_n(cur, op, (n - 1) as nat), op)
    }
}

proof fn lemma_add_n(cur: u8, n: nat)
    requires
        cur <= 15,
    ensures
        spec_apply_n(cur, BitmapMessage::Add, n) == (cur + n) % 16,
    decreases n,
{
    if n == 0 {
        assert((cur + 0) % 16 == cur);
    } else {
        lemma_add_n(cur, (n - 1) as nat);
        let prev = spec_apply_n(cur, BitmapMessage::Add, (n - 1) as nat);
        assert(prev == (cur + (n - 1)) % 16);
        lemma_add_mod_noop(cur + (n - 1), 1, 16);
        assert((prev + 1) % 16 == (cur + n) % 16);
    }
}

proof fn lemma_sub_n(cur: u8, n: nat)
    requires
        cur <= 15,
    ensures
        spec_apply_n(cur, BitmapMessage::Sub, n) == (cur - n) % 16,
    decreases n,
{
    if n == 0 {
        assert((cur - 0) % 16 == cur);
    } else {
        lemma_sub_n(cur, (n - 1) as nat);
        let prev = spec_apply_n(cur, BitmapMessage::Sub, (n - 1) as nat);
        assert(prev == (cur - (n - 1)) % 16);
        lemma_sub_mod_noop(cur - (n - 1), 1, 16);
        assert((prev - 1) % 16 == (cur - n) % 16);
    }
}

/// Law: sixteen increments in sequence return a cell to its starting
/// value — the mod-16 wraparound.
pub proof fn lemma_increment_wraps(cur: u8)
    requires
        cur <= 15,
    ensures
        spec_apply_n(cur, BitmapMessage::Add, 16) == cur,
{
    lemma_add_n(cur, 16);
}

/// Law: sixteen decrements in sequence return a cell to its starting
/// value — the mod-16 wraparound.
pub proof fn lemma_decrement_wraps(cur: u8)
    requires
        cur <= 15,
    ensures
        spec_apply_n(cur, BitmapMessage::Sub, 16) == cur,
{
    lemma_sub_n(cur, 16);
}

proof fn lemma_byte_with_nibble(b: u8, high: bool, nv: u8)
    requires
        nv <= 15,
    ensures
        spec_nibble(spec_byte_with_nibble(b, high, nv), high) == nv,
        spec_nibble(spec_byte_with_nibble(b, high, nv), !high) == spec_nibble(b, !high),
{
    if high {
        assert(((b & 0x0fu8) | (nv << 4u8)) >> 4u8 == nv && ((b & 0x0fu8) | (nv << 4u8)) & 0x0fu8
            == b & 0x0fu8)
            by (bit_vector)
            requires
                nv <= 15,
        ;
    } else {
        assert(((b & 0xf0u8) | nv) & 0x0fu8 == nv && ((b & 0xf0u8) | nv) >> 4u8 == b >> 4u8)
            by (bit_vector)
            requires
                nv <= 15,
        ;
    }
}

proof fn lemma_byte_from_nibbles(a: u8, b: u8)
    requires
        a >> 4u8 == b >> 4u8,
        a & 0x0fu8 == b & 0x0fu8,
    ensures
        a == b,
{
    assert(a == b) by (bit_vector)
        requires
            a >> 4u8 == b >> 4u8,
            a & 0x0fu8 == b & 0x0fu8,
    ;
}

/// The buffer after `n` identical mutations of one cell, each one
/// applied in turn — the path an increment or decrement takes, since
/// neither is ever a no-op.
pub open spec fn spec_store_after_n(s: Seq<u8>, i: int, op: BitmapMessage, n: nat) -> Seq<u8>
    decreases n,
{
    if n == 0 {
        s
    } else {
        let prev = spec_store_after_n(s, i, op, (n - 1) as nat);
        spec_store_after(prev, i, spec_op_value(spec_cell_value(prev, i), op))
    }
}

proof fn lemma_store_after_n_shape(s: Seq<u8>, i: int, op: BitmapMessage, n: nat)
    requires
        store_wf(s),
        0 <= i < CELL_COUNT,
        !(op is SetTo),
    ensures
        ({
            let t = spec_store_after_n(s, i, op, n);
            &&& t.len() == s.len()
            &&& spec_cell_value(t, i) == spec_apply_n(spec_cell_value(s, i), op, n)
            &&& forall|b: int| 0 <= b < s.len() && b != i / 2 ==> t[b] == s[b]
            &&& spec_nibble(t[i / 2], !(i % 2 == 0)) == spec_nibble(s[i / 2], !(i % 2 == 0))
        }),
    decreases n,
{
    if n > 0 {
        lemma_store_after_n_shape(s, i, op, (n - 1) as nat);
        let prev = spec_store_after_n(s, i, op, (n - 1) as nat);
        let nv = spec_op_value(spec_cell_value(prev, i), op);
        assert(nv <= 15);
        lemma_byte_with_nibble(prev[i / 2], i % 2 == 0, nv);
    }
}

/// Law: sixteen increments of one cell return the whole buffer,
/// byte for byte, to its starting state, and sixteen decrements
/// likewise — nothing outside the cell was touched, and the cell
/// wrapped around mod 16.
pub proof fn lemma_wraparound_restores_store(s: Seq<u8>, i: int, op: BitmapMessage)
    requires
        store_wf(s),
        0 <= i < CELL_COUNT,
        op is Add || op is Sub,
    ensures
        spec_store_after_n(s, i, op, 16) == s,
{
    lemma_store_after_n_shape(s, i, op, 16);
    let t = spec_store_after_n(s, i, op, 16);
    lemma_cell_value_bounded(s, i);
    if op is Add {
        lemma_increment_wraps(spec_cell_value(s, i));
    } else {
        lemma_decrement_wraps(spec_cell_value(s, i));
    }
    assert(spec_nibble(t[i / 2], i % 2 == 0) == spec_nibble(s[i / 2], i % 2 == 0));
    lemma_byte_from_nibbles(t[i / 2], s[i / 2]);
    assert(t =~= s);
}

/// The packed store. The buffer starts absent (empty) and is created
/// all-zero, at the fixed length, by `initialize_if_absent`.
pub struct PackedStateStore {
    bytes: Vec<u8>,
}

impl View for PackedStateStore {
    type V = Seq<u8>;

    closed spec fn view(&self) -> Seq<u8> {
        self.bytes@
    }
}

impl PackedStateStore {
    /// A store handle before any buffer exists.
    pub fn new() -> (s: Self)
        ensures
            s@ == Seq::<u8>::empty(),
    {
        PackedStateStore { bytes: Vec::new() }
    }

    /// Wrap a buffer read back from the backing store.
    pub fn from_snapshot(bytes: Vec<u8>) -> (s: Self)
        ensures
            s@ == bytes@,
    {
        PackedStateStore { bytes }
    }

    /// If no buffer exists yet, create it all-zero at the fixed length;
    /// keep a buffer of the right length as it is; refuse any other
    /// length as corrupt.
    pub fn initialize_if_absent(&mut self) -> (r: Result<(), StoreError>)
        ensures
            old(self)@.len() == 0 ==> r is Ok && final(self)@ == Seq::new(
                STORE_BYTES as nat,
                |i: int| 0u8,
            ),
            old(self)@.len() == STORE_BYTES ==> r is Ok && final(self)@ == old(self)@,
            old(self)@.len() != 0 && old(self)@.len() != STORE_BYTES ==> r == Err::<
                (),
                StoreError,
            >(StoreError::StoreCorrupt) && final(self)@ == old(self)@,
            r is Ok <==> (old(self)@.len() == 0 || old(self)@.len() == STORE_BYTES),
            r is Ok ==> store_wf(final(self)@),
    {
        if self.bytes.len() == 0 {
            let mut v: Vec<u8> = Vec::new();
            while v.len() < STORE_BYTES
                invariant
                    v@.len() <= STORE_BYTES,
                    forall|i: int| 0 <= i < v@.len() ==> v@[i] == 0u8,
                decreases STORE_BYTES - v@.len(),
            {
                v.push(0u8);
            }
            proof {
                assert(v@ =~= Seq::new(STORE_BYTES as nat, |i: int| 0u8));
            }
            self.bytes = v;
            Ok(())
        } else if self.bytes.len() == STORE_BYTES {
            Ok(())
        } else {
            Err(StoreError::StoreCorrupt)
        }
    }

    /// The full packed buffer, for client initial sync.
    pub fn read_snapshot(&self) -> (r: Vec<u8>)
        ensures
            r@ == self@,
    {
        let mut out: Vec<u8> = Vec::new();
        let mut i: usize = 0;
        while i < self.bytes.len()
            invariant
                i <= self.bytes.len(),
                out@ == self.bytes@.subrange(0, i as int),
            decreases self.bytes.len() - i,
        {
            out.push(self.bytes[i]);
            i = i + 1;
            proof {
                assert(out@ =~= self.bytes@.subrange(0, i as int));
            }
        }
        proof {
            assert(out@ =~= self.bytes@);
        }
        out
    }

    /// Where cell `index` lives in the packed buffer: the byte that
    /// holds it, and whether it occupies the high nibble.
    pub fn cell_position(index: u32) -> (r: (usize, bool))
        requires
            index < CELL_COUNT,
        ensures
            r.0 == index / 2,
            r.0 < STORE_BYTES,
            r.1 == (index % 2 == 0),
    {
        ((index / 2) as usize, index % 2 == 0)
    }

    /// Apply one mutation to cell `index`, changing only that cell's
    /// nibble: the sibling nibble in the same byte, and every other
    /// byte, are left untouched. A `Set` of the value already held
    /// writes nothing. Fails with `NotInitialized` before the buffer
    /// exists at its fixed length, and with `InvalidValue` for a `Set`
    /// above 15.
    pub fn apply_mutation(&mut self, index: u32, op: BitmapMessage) -> (r: Result<
        MutationOutcome,
        StoreError,
    >)
        requires
            index < CELL_COUNT,
        ensures
            !store_wf(old(self)@) ==> r == Err::<MutationOutcome, StoreError>(
                StoreError::NotInitialized,
            ) && final(self)@ == old(self)@,
            store_wf(old(self)@) && spec_set_invalid(op) ==> r == Err::<
                MutationOutcome,
                StoreError,
            >(StoreError::InvalidValue) && final(self)@ == old(self)@,
            store_wf(old(self)@) && spec_set_noop(old(self)@, index as int, op) ==> r == Ok::<
                MutationOutcome,
                StoreError,
            >(MutationOutcome::Noop) && final(self)@ == old(self)@,
            store_wf(old(self)@) && !spec_set_invalid(op) && !spec_set_noop(
                old(self)@,
                index as int,
                op,
            ) ==> {
                let cur = spec_cell_value(old(self)@, index as int);
                let nv = spec_op_value(cur, op);
                &&& r == Ok::<MutationOutcome, StoreError>(MutationOutcome::Applied(nv))
                &&& final(self)@ == spec_store_after(old(self)@, index as int, nv)
                &&& store_wf(final(self)@)
                &&& spec_cell_value(final(self)@, index as int) == nv
                &&& forall|j: int|
                    0 <= j < CELL_COUNT && j != index ==> spec_cell_value(final(self)@, j)
                        == spec_cell_value(old(self)@, j)
                &&& forall|b: int|
                    0 <= b < STORE_BYTES && b != index / 2 ==> final(self)@[b] == old(self)@[b]
            },
    {
        if self.bytes.len() != STORE_BYTES {
            return Err(StoreError::NotInitialized);
        }

        let (byte_index, high) = Self::cell_position(index);
        let b: u8 = self.bytes[byte_index];

        match mutate_byte(b, high, op) {
            Err(e) => Err(e),
            Ok(None) => Ok(MutationOutcome::Noop),
            Ok(Some((new_byte, new_val))) => {
                let ghost s0 = self.bytes@;
                self.bytes.set(byte_index, new_byte);
                proof {
                    let s1 = self.bytes@;
                    let i = index as int;
                    assert(spec_cell_value(s1, i) == new_val);
                    assert(s1 =~= spec_store_after(s0, i, new_val));
                    assert forall|j: int|
                        0 <= j < CELL_COUNT && j != i implies spec_cell_value(s1, j)
                        == spec_cell_value(s0, j) by {
                        if j / 2 == i / 2 {
                            assert(j == 2 * (j / 2) + j % 2);
                            assert(i == 2 * (i / 2) + i % 2);
                            assert(j % 2 != i % 2);
                        } else {
                            assert(s1[j / 2] == s0[j / 2]);
                        }
                    }
                }
                Ok(MutationOutcome::Applied(new_val))
            },
        }
    }
}

/// The compute step of one byte-held mutation, exactly as performed
/// against the backing store: given the byte holding the cell and which
/// nibble the cell occupies, the byte to write back and the resulting
/// cell value. `Ok(None)` is the set that already matches — nothing
/// need be written or announced; `InvalidValue` a set above 15.
pub fn mutate_byte(b: u8, high: bool, op: BitmapMessage) -> (r: Result<
    Option<(u8, u8)>,
    StoreError,
>)
    ensures
        spec_set_invalid(op) ==> r == Err::<Option<(u8, u8)>, StoreError>(StoreError::InvalidValue),
        !spec_set_invalid(op) && spec_set_matches(b, high, op) ==> r == Ok::<
            Option<(u8, u8)>,
            StoreError,
        >(None),
        !spec_set_invalid(op) && !spec_set_matches(b, high, op) ==> ({
            let nv = spec_op_value(spec_nibble(b, high), op);
            &&& nv <= 15
            &&& r == Ok::<Option<(u8, u8)>, StoreError>(
                Some((spec_byte_with_nibble(b, high, nv), nv)),
            )
            &&& spec_nibble(spec_byte_with_nibble(b, high, nv), high) == nv
            &&& spec_nibble(spec_byte_with_nibble(b, high, nv), !high) == spec_nibble(b, !high)
        }),
{
    let cur: u8 = if high {
        b >> 4
    } else {
        b & 0x0f
    };

    proof {
        assert(b >> 4u8 <= 15 && b & 0x0fu8 <= 15) by (bit_vector);
        assert(cur == spec_nibble(b, high));
    }

    let new_val: u8 = match op {
        BitmapMessage::Add => {
            if cur < 15 {
                cur + 1
            } else {
                0
            }
        },
        BitmapMessage::Sub => {
            if cur > 0 {
                cur - 1
            } else {
                15
            }
        },
        BitmapMessage::SetTo(v) => {
            if v > 15 {
                return Err(StoreError::InvalidValue);
            }
            if v == cur {
                return Ok(None);
            }
            v
        },
    };

    proof {
        assert(new_val == spec_op_value(cur, op) && new_val <= 15);
    }

    let new_byte: u8 = if high {
        (b & 0x0f) | (new_val << 4)
    } else {
        (b & 0xf0) | new_val
    };

    proof {
        if high {
            assert(new_byte >> 4u8 == new_val && new_byte & 0x0fu8 == b & 0x0fu8)
                by (bit_vector)
                requires
                    new_val <= 15,
                    new_byte == (b & 0x0fu8) | (new_val << 4u8),
            ;
        } else {
            assert(new_byte & 0x0fu8 == new_val && new_byte >> 4u8 == b >> 4u8)
                by (bit_vector)
                requires
                    new_val <= 15,
                    new_byte == (b & 0xf0u8) | new_val,
            ;
        }
    }

    Ok(Some((new_byte, new_val)))
}

} // verus!
