//! An offline resizing pass over a packed buffer whose board rows grew
//! from 40 to 50 bytes: every row is padded with 10 zero bytes, and the
//! result is cut back to the buffer's fixed length by dropping the
//! expansion's overflow from the middle.

use vstd::pervasive::VecAdditionalExecFns;
use vstd::prelude::*;

verus! {

/// Byte `j` of the row-expanded buffer: each 40-byte row of `s` grows
/// to 50 bytes, the 10 added bytes of every row zero.
pub open spec fn spec_row_expanded(s: Seq<u8>, j: int) -> u8 {
    if j % 50 < 40 {
        s[(j / 50) * 40 + j % 50]
    } else {
        0u8
    }
}

/// Rewrite `new_bitmap` from `bitmap` under the grown row layout. The
/// length is kept: the first 250,000 bytes are the expanded layout from
/// its start, the rest continue 125,000 bytes further in — the 125,000
/// bytes the expansion added are dropped from its middle.
pub fn update_bitmap(bitmap: &Vec<u8>, new_bitmap: &mut Vec<u8>)
    requires
        bitmap@.len() == 500_000,
        old(new_bitmap)@.len() == 500_000,
    ensures
        final(new_bitmap)@.len() == 500_000,
        forall|j: int| 0 <= j < 250_000 ==> final(new_bitmap)@[j] == spec_row_expanded(bitmap@, j),
        forall|j: int|
            250_000 <= j < 500_000 ==> final(new_bitmap)@[j] == spec_row_expanded(
                bitmap@,
                j + 125_000,
            ),
{
    let mut temp_bitmap: Vec<u8> = Vec::new();
    let mut row: usize = 0;
    while row < 12_500
        invariant
            bitmap@.len() == 500_000,
            row <= 12_500,
            temp_bitmap@.len() == 50 * row,
            forall|jj: int|
                0 <= jj < temp_bitmap@.len() ==> temp_bitmap@[jj] == spec_row_expanded(bitmap@, jj),
        decreases 12_500 - row,
    {
        let mut j: usize = 0;
        while j < 50
            invariant
                bitmap@.len() == 500_000,
                row < 12_500,
                j <= 50,
                temp_bitmap@.len() == 50 * row + j,
                forall|jj: int|
                    0 <= jj < temp_bitmap@.len() ==> temp_bitmap@[jj] == spec_row_expanded(
                        bitmap@,
                        jj,
                    ),
            decreases 50 - j,
        {
            if j < 40 {
                temp_bitmap.push(bitmap[40 * row + j]);
            } else {
                temp_bitmap.push(0u8);
            }
            proof {
                let k = temp_bitmap@.len() - 1;
                assert(k == 50 * row + j);
                assert(k / 50 == row && k % 50 == j) by (nonlinear_arith)
                    requires
                        k == 50 * row + j,
                        0 <= j < 50,
                        row >= 0,
                ;
            }
            j = j + 1;
        }
        row = row + 1;
    }

    let mut j: usize = 0;
    while j < 250_000
        invariant
            bitmap@.len() == 500_000,
            temp_bitmap@.len() == 625_000,
            forall|jj: int|
                0 <= jj < temp_bitmap@.len() ==> temp_bitmap@[jj] == spec_row_expanded(bitmap@, jj),
            new_bitmap@.len() == 500_000,
            j <= 250_000,
            forall|jj: int| 0 <= jj < j ==> new_bitmap@[jj] == spec_row_expanded(bitmap@, jj),
        decreases 250_000 - j,
    {
        new_bitmap.set(j, temp_bitmap[j]);
        j = j + 1;
    }
    while j < 500_000
        invariant
            bitmap@.len() == 500_000,
            temp_bitmap@.len() == 625_000,
            forall|jj: int|
                0 <= jj < temp_bitmap@.len() ==> temp_bitmap@[jj] == spec_row_expanded(bitmap@, jj),
            new_bitmap@.len() == 500_000,
            250_000 <= j <= 500_000,
            forall|jj: int| 0 <= jj < 250_000 ==> new_bitmap@[jj] == spec_row_expanded(bitmap@, jj),
            forall|jj: int|
                250_000 <= jj < j ==> new_bitmap@[jj] == spec_row_expanded(bitmap@, jj + 125_000),
        decreases 500_000 - j,
    {
        new_bitmap.set(j, temp_bitmap[j + 125_000]);
        j = j + 1;
    }
}

} // verus!
