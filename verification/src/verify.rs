//! Checking the user's clicks against the target icons.
use vstd::prelude::*;

verus! {

/// Click tolerance in pixels around each icon's box.
pub const PADDING: i32 = 15;

/// An icon placement `(x, y, size)` whose padded box edges fit in `i32`
/// (the arithmetic of the check is done in `i32`).
pub open spec fn fits(p: (i32, i32, u32)) -> bool {
    &&& p.2 <= i32::MAX
    &&& p.0 - PADDING >= i32::MIN
    &&& p.1 - PADDING >= i32::MIN
    &&& p.0 + p.2 + PADDING <= i32::MAX
    &&& p.1 + p.2 + PADDING <= i32::MAX
}

/// A click `c` lands on the icon placed at `p`: inside its box grown by
/// `PADDING` on every side, edges included.
pub open spec fn hits(c: (i32, i32), p: (i32, i32, u32)) -> bool {
    &&& p.0 - PADDING <= c.0
    &&& c.0 <= p.0 + p.2 + PADDING
    &&& p.1 - PADDING <= c.1
    &&& c.1 <= p.1 + p.2 + PADDING
}

/// The clicks answer the challenge: one click per target, the `i`-th
/// click on the `i`-th target.
pub open spec fn accepted(clicks: Seq<(i32, i32)>, positions: Seq<(i32, i32, u32)>) -> bool {
    &&& clicks.len() == positions.len()
    &&& forall|i: int| 0 <= i < clicks.len() ==> hits(#[trigger] clicks[i], positions[i])
}

/// Verifies if the provided clicks match the positions of the target icons.
pub fn verify(clicks: &[(i32, i32)], positions: &[(i32, i32, u32)]) -> (ok: bool)
    requires
        clicks@.len() == positions@.len() ==> forall|i: int| 0 <= i < positions@.len() ==> fits(#[trigger] positions@[i]),
    ensures
        ok == accepted(clicks@, positions@),
{
    if clicks.len() != positions.len() {
        return false;
    }
    let n = clicks.len();
    let mut i: usize = 0;
    while i < n
        invariant
            n == clicks@.len(),
            n == positions@.len(),
            i <= n,
            forall|j: int| 0 <= j < positions@.len() ==> fits(#[trigger] positions@[j]),
            forall|j: int| 0 <= j < i ==> hits(#[trigger] clicks@[j], positions@[j]),
        decreases n - i,
    {
        let (cx, cy) = clicks[i];
        let (px, py, sz) = positions[i];
        assert(fits(positions@[i as int]));
        let sz = sz as i32;
        let inside = cx >= px - PADDING && cx <= px + sz + PADDING && cy >= py - PADDING && cy
            <= py + sz + PADDING;
        if !inside {
            assert(!hits(clicks@[i as int], positions@[i as int]));
            return false;
        }
        i = i + 1;
    }
    true
}

/// The click at the centre of every icon box, `(x + size/2, y + size/2)`.
pub open spec fn centre_click(p: (i32, i32, u32)) -> (i32, i32) {
    ((p.0 + p.2 / 2) as i32, (p.1 + p.2 / 2) as i32)
}

/// Clicking the centre of every target, in order, is accepted.
pub proof fn lemma_centre_clicks_accepted(positions: Seq<(i32, i32, u32)>)
    requires
        forall|i: int| 0 <= i < positions.len() ==> fits(#[trigger] positions[i]),
    ensures
        accepted(positions.map_values(|p: (i32, i32, u32)| centre_click(p)), positions),
{
    let clicks = positions.map_values(|p: (i32, i32, u32)| centre_click(p));
    assert forall|i: int| 0 <= i < clicks.len() implies hits(#[trigger] clicks[i], positions[i]) by {
        assert(fits(positions[i]));
    }
}

/// A list of clicks of another length than the list of targets is always
/// refused.
pub proof fn lemma_wrong_count_refused(clicks: Seq<(i32, i32)>, positions: Seq<(i32, i32, u32)>)
    requires
        clicks.len() != positions.len(),
    ensures
        !accepted(clicks, positions),
{
}

/// A click is accepted only where it lands within `PADDING` of its target's
/// box: a click that lies further left, right, above or below any target
/// makes the whole answer refused.
pub proof fn lemma_far_click_refused(
    clicks: Seq<(i32, i32)>,
    positions: Seq<(i32, i32, u32)>,
    i: int,
)
    requires
        0 <= i < clicks.len(),
        clicks[i].0 < positions[i].0 - PADDING || clicks[i].0 > positions[i].0 + positions[i].2
            + PADDING || clicks[i].1 < positions[i].1 - PADDING || clicks[i].1 > positions[i].1
            + positions[i].2 + PADDING,
    ensures
        !accepted(clicks, positions),
{
    if accepted(clicks, positions) {
        assert(hits(clicks[i], positions[i]));
    }
}

} // verus!
