//! CBOOT sample-mode patch for VW/Audi Simos ECUs.
//!
//! Locates the `is_sample_mode()` function in a CBOOT binary by a recognisable
//! Tricore instruction sequence, then overwrites it so that the function always
//! returns 1. The sequence appears in exactly two places in every supported
//! CBOOT: the library copy, and the copy that executes from RAM.
//!
//! ```text
//! DA 00    mov  d15, #0x0         00 00    nop
//! 3C 02    j    +2                00 00    nop
//! DA 01    mov  d15, #0x1   ->    DA 01    mov  d15, #0x1
//! 02 F2    mov  d2,  d15          02 F2    mov  d2,  d15
//! ```

use vstd::prelude::*;

use crate::bytes::{matches_at, overwrite, spliced, to_vec};
use crate::checksum::agree_outside;
use crate::text::{dec, push_dec};

verus! {

/// The instruction sequence that identifies `is_sample_mode()`.
pub const NEEDLE: [u8; 8] = [0xDA, 0x00, 0x3C, 0x02, 0xDA, 0x01, 0x02, 0xF2];

/// Replacement bytes that force the function to always return 1.
pub const PATCH: [u8; 8] = [0x00, 0x00, 0x00, 0x00, 0xDA, 0x01, 0x02, 0xF2];

/// Why a patch was not applied.
#[derive(Debug, Clone, Copy, PartialEq, Eq, Structural)]
pub enum PatchError {
    /// The sequence was found this many times instead of twice.
    WrongMatchCount(usize),
}

impl PatchError {
    /// What the user is told.
    pub open spec fn text(self) -> Seq<char> {
        match self {
            PatchError::WrongMatchCount(n) => "CBOOT patch needle found "@ + dec(n as nat)
                + " time(s); expected exactly 2 — wrong CBOOT version or already patched?"@,
        }
    }

    /// What the user is told.
    pub fn message(&self) -> (s: String)
        ensures
            s@ == self.text(),
    {
        match self {
            PatchError::WrongMatchCount(n) => {
                let mut s = "CBOOT patch needle found ".to_owned();
                push_dec(&mut s, *n as u64);
                s.push_str(
                    " time(s); expected exactly 2 — wrong CBOOT version or already patched?",
                );
                s
            },
        }
    }
}

/// The sequence stands at position `i`.
pub open spec fn needle_at(data: Seq<u8>, i: int) -> bool {
    0 <= i && i + 8 <= data.len() && data.subrange(i, i + 8) == NEEDLE@
}

/// The positions below `n` at which the sequence stands, in order.
pub open spec fn positions_below(data: Seq<u8>, n: nat) -> Seq<int>
    decreases n,
{
    if n == 0 {
        Seq::empty()
    } else {
        let before = positions_below(data, (n - 1) as nat);
        if needle_at(data, n - 1) {
            before.push(n - 1)
        } else {
            before
        }
    }
}

/// All positions at which the sequence stands, in order.
pub open spec fn positions(data: Seq<u8>) -> Seq<int> {
    positions_below(data, data.len())
}

/// `data` with the sequences at two positions replaced.
pub open spec fn patched(data: Seq<u8>, p: int, q: int) -> Seq<u8> {
    spliced(spliced(data, p, PATCH@), q, PATCH@)
}

/// Apply the sample-mode patch to a raw CBOOT block.
///
/// Fails if the sequence is not found exactly twice.
pub fn patch_cboot(data: &[u8]) -> (r: Result<Vec<u8>, PatchError>)
    ensures
        r is Ok <==> positions(data@).len() == 2,
        r matches Ok(out) ==> out@ == patched(data@, positions(data@)[0], positions(data@)[1]),
        r matches Err(e) ==> e == PatchError::WrongMatchCount(positions(data@).len() as usize)
            && positions(data@).len() <= usize::MAX,
{
    let mut found: Vec<usize> = Vec::new();
    let mut i: usize = 0;
    while i < data.len()
        invariant
            i <= data@.len(),
            found@.len() <= i,
            found@.map_values(|p: usize| p as int) == positions_below(data@, i as nat),
            forall|k: int| 0 <= k < found@.len() ==> needle_at(data@, #[trigger] found@[k] as int),
        decreases data@.len() - i,
    {
        let ghost before = found@;
        if matches_at(data, i, &NEEDLE) {
            assert(NEEDLE@.len() == 8);
            found.push(i);
            assert(found@.map_values(|p: usize| p as int) == before.map_values(
                |p: usize| p as int,
            ).push(i as int));
        }
        i = i + 1;
    }
    assert(found@.len() == positions(data@).len()) by {
        assert(found@.map_values(|p: usize| p as int).len() == found@.len());
    }
    if found.len() != 2 {
        return Err(PatchError::WrongMatchCount(found.len()));
    }
    let mut out = to_vec(data);
    assert(positions(data@)[0] == found@[0] && positions(data@)[1] == found@[1]);
    assert(needle_at(data@, found@[0] as int) && needle_at(data@, found@[1] as int));
    overwrite(&mut out, found[0], &PATCH);
    overwrite(&mut out, found[1], &PATCH);
    Ok(out)
}

/// The positions are exactly the places where the sequence stands, ascending.
pub proof fn lemma_positions(data: Seq<u8>, n: nat)
    ensures
        forall|k: int|
            0 <= k < positions_below(data, n).len() ==> needle_at(
                data,
                #[trigger] positions_below(data, n)[k],
            ) && positions_below(data, n)[k] < n,
        forall|i: int| 0 <= i < n && #[trigger] needle_at(data, i) ==> positions_below(
            data,
            n,
        ).contains(i),
        forall|j: int, k: int|
            0 <= j < k < positions_below(data, n).len() ==> positions_below(data, n)[j]
                < positions_below(data, n)[k],
    decreases n,
{
    if n > 0 {
        lemma_positions(data, (n - 1) as nat);
        let before = positions_below(data, (n - 1) as nat);
        let all = positions_below(data, n);
        assert forall|i: int| 0 <= i < n && #[trigger] needle_at(data, i) implies all.contains(
            i,
        ) by {
            if i < n - 1 {
                assert(before.contains(i));
                let k = choose|k: int| 0 <= k < before.len() && before[k] == i;
                assert(all[k] == i);
            } else {
                assert(all[all.len() - 1] == i);
            }
        }
    }
}

/// Two occurrences of the sequence cannot overlap.
proof fn lemma_no_overlap(data: Seq<u8>, p: int, q: int)
    requires
        needle_at(data, p),
        needle_at(data, q),
        p < q,
    ensures
        p + 8 <= q,
{
    if q < p + 8 {
        let d = q - p;
        assert(data.subrange(p, p + 8)[d] == data[q]);
        assert(data.subrange(q, q + 8)[0] == data[q]);
        assert(NEEDLE@[d] == NEEDLE@[0]);
        assert(d == 4);
        assert(data.subrange(p, p + 8)[5] == data[p + 5]);
        assert(data.subrange(q, q + 8)[1] == data[p + 5]);
        assert(NEEDLE@[5] == NEEDLE@[1]);
    }
}

/// A patched block keeps its length and every byte outside the two places, holds
/// the replacement in both, and the sequence nowhere.
pub proof fn law_patch_removes_every_needle(data: Seq<u8>)
    requires
        positions(data).len() == 2,
    ensures
        ({
            let p = positions(data)[0];
            let q = positions(data)[1];
            let out = patched(data, p, q);
            &&& out.len() == data.len()
            &&& out.subrange(p, p + 8) == PATCH@
            &&& out.subrange(q, q + 8) == PATCH@
            &&& forall|i: int|
                0 <= i < data.len() && !(p <= i < p + 8) && !(q <= i < q + 8) ==> out[i] == data[i]
            &&& forall|i: int| !needle_at(out, i)
        }),
{
    lemma_positions(data, data.len());
    let all = positions_below(data, data.len());
    let p = all[0];
    let q = all[1];
    assert(needle_at(data, p) && needle_at(data, q) && p < q);
    lemma_no_overlap(data, p, q);
    let out = patched(data, p, q);
    assert(out.len() == data.len());
    assert(out.subrange(p, p + 8) == PATCH@);
    assert(out.subrange(q, q + 8) == PATCH@);
    assert forall|i: int| !needle_at(out, i) by {
        if needle_at(out, i) {
            let w = out.subrange(i, i + 8);
            if !(p - 8 < i < p + 8) && !(q - 8 < i < q + 8) {
                assert(data.subrange(i, i + 8) == w);
                assert(needle_at(data, i));
                assert(all.contains(i));
            } else if p - 8 < i < p + 8 {
                lemma_patch_hides_needle(out, p, i);
            } else {
                lemma_patch_hides_needle(out, q, i);
            }
        }
    }
}

/// No change of eight bytes in a row, before or after the patch, makes up for it: a
/// patched block differs from the block that it was made of.
pub proof fn law_a_patch_changes_the_block(
    data: Seq<u8>,
    before: Seq<u8>,
    after: Seq<u8>,
    at: int,
)
    requires
        positions(data).len() == 2,
        agree_outside(data, before, at, 8),
        agree_outside(patched(data, positions(data)[0], positions(data)[1]), after, at, 8),
    ensures
        after != before,
{
    lemma_positions(data, data.len());
    let p = positions(data)[0];
    let q = positions(data)[1];
    assert(needle_at(data, p) && needle_at(data, q) && p < q);
    lemma_no_overlap(data, p, q);
    let out = patched(data, p, q);
    law_patch_removes_every_needle(data);
    assert(data.subrange(p, p + 8)[0] == data[p] && data.subrange(q, q + 8)[0] == data[q]);
    assert(out.subrange(p, p + 8)[0] == out[p] && out.subrange(q, q + 8)[0] == out[q]);
    assert(NEEDLE@[0] != PATCH@[0]);
    if at <= p < at + 8 {
        assert(before[q] != after[q]);
    } else {
        assert(before[p] != after[p]);
    }
}

/// The sequence cannot overlap the replacement.
proof fn lemma_patch_hides_needle(out: Seq<u8>, p: int, i: int)
    requires
        0 <= p,
        p + 8 <= out.len(),
        out.subrange(p, p + 8) == PATCH@,
        p - 8 < i < p + 8,
    ensures
        !needle_at(out, i),
{
    let w = out.subrange(i, i + 8);
    let r = out.subrange(p, p + 8);
    if !needle_at(out, i) {
    } else if i >= p {
        let d = i - p;
        assert(w[0] == out[i] && r[d] == out[i]);
        assert(PATCH@[d] == NEEDLE@[0]);
        assert(d == 4);
        assert(w[1] == out[p + 5] && r[5] == out[p + 5]);
        assert(PATCH@[5] == NEEDLE@[1]);
    } else {
        let d = p - i;
        assert(w[d] == out[p] && r[0] == out[p]);
        assert(NEEDLE@[d] == PATCH@[0]);
        assert(d == 1);
        assert(w[2] == out[p + 1] && r[1] == out[p + 1]);
        assert(NEEDLE@[2] == PATCH@[1]);
    }
}

} // verus!
