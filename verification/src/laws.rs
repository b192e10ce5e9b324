use vstd::prelude::*;

use crate::field::DECAY_MARGIN;
use crate::field::FireField;
use crate::field::step_rel;

verus! {

/// Law: the field invariant and the ignition row persist along any run of
/// ticks. Given a chain of states each related to the next by one tick
/// (`step_rel`), with no resize in between, every state in the chain is
/// well formed, keeps the first state's geometry, and keeps every bottom-row
/// cell at the hottest palette index.
pub proof fn lemma_invariant_and_ignition_persist(states: Seq<FireField>, i: int)
    requires
        states.len() > 0,
        states[0].wf(),
        forall|j: int| 0 <= j < states.len() - 1 ==> #[trigger] step_rel(states[j], states[j + 1]),
        0 <= i < states.len(),
    ensures
        states[i].wf(),
        states[i].width == states[0].width,
        states[i].height == states[0].height,
        states[i].palette_len == states[0].palette_len,
        forall|x: int|
            0 <= x < states[i].width ==> #[trigger] states[i].cell(states[i].height - 1, x)
                == states[i].palette_len - 1,
    decreases i,
{
    if i > 0 {
        lemma_invariant_and_ignition_persist(states, i - 1);
        assert(step_rel(states[i - 1], states[i - 1 + 1]));
        assert(step_rel(states[i - 1], states[i]));
        let pre = states[i - 1];
        let post = states[i];
        assert forall|x: int| 0 <= x < post.width implies #[trigger] post.cell(
            post.height - 1,
            x,
        ) == post.palette_len - 1 by {
            assert(post.cell(pre.height - 1, x) == pre.cell(pre.height - 1, x));
        }
    }
}

/// Law: the top margin stays cold. Ticks never write the rows above the
/// band that ends under the margin row, so a run of ticks that starts with
/// those rows cold keeps them cold.
pub proof fn lemma_top_margin_stays_cold(states: Seq<FireField>, i: int)
    requires
        states.len() > 0,
        forall|j: int| 0 <= j < states.len() - 1 ==> #[trigger] step_rel(states[j], states[j + 1]),
        forall|y: int, x: int|
            0 <= y < DECAY_MARGIN - 1 && y < states[0].height && 0 <= x < states[0].width
                ==> #[trigger] states[0].cell(y, x) == 0,
        0 <= i < states.len(),
    ensures
        forall|y: int, x: int|
            0 <= y < DECAY_MARGIN - 1 && y < states[i].height && 0 <= x < states[i].width
                ==> #[trigger] states[i].cell(y, x) == 0,
    decreases i,
{
    if i > 0 {
        lemma_top_margin_stays_cold(states, i - 1);
        assert(step_rel(states[i - 1], states[i - 1 + 1]));
        let pre = states[i - 1];
        let post = states[i];
        assert forall|y: int, x: int|
            0 <= y < DECAY_MARGIN - 1 && y < post.height && 0 <= x
                < post.width implies #[trigger] post.cell(y, x) == 0 by {
            assert(post.cell(y, x) == pre.cell(y, x));
        }
    }
}

/// Law: decay never brightens. After one tick, each cell the tick wrote is
/// at most the pre-tick value of the source cell directly below it.
pub proof fn lemma_monotonic_decay(pre: FireField, post: FireField, y: int, x: int)
    requires
        step_rel(pre, post),
        DECAY_MARGIN - 1 <= y < pre.height - 1,
        0 <= x < pre.width,
    ensures
        post.cell(y, x) <= pre.cell(y + 1, x),
{
}

/// Law: cold cells never reignite from above. If a source cell is cold, the
/// cell above it is exactly cold after one tick, whatever the random draws.
pub proof fn lemma_cold_propagation(pre: FireField, post: FireField, y: int, x: int)
    requires
        step_rel(pre, post),
        DECAY_MARGIN - 1 <= y < pre.height - 1,
        0 <= x < pre.width,
        pre.cell(y + 1, x) == 0,
    ensures
        post.cell(y, x) == 0,
{
}

} // verus!
