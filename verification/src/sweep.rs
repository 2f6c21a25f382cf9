//! One ball's pass over the blocks, and the removal of what is gone.

use vstd::prelude::*;
use crate::ball::Ball;
use crate::block::Block;
use crate::units::{Screen, BLOCK_SCORE};

verus! {

/// What one ball's pass over the blocks works on: the ball, the blocks and
/// the score.
pub struct Pass {
    pub ball: Ball,
    pub blocks: Seq<Block>,
    pub score: int,
}

/// The blocks that still stand.
pub open spec fn is_standing() -> spec_fn(Block) -> bool {
    |block: Block| block.lives > 0
}

/// The balls that have not fallen below the screen.
pub open spec fn is_on_screen(screen: Screen) -> spec_fn(Ball) -> bool {
    |ball: Ball| ball.rect.y < screen.height
}

/// The number of blocks that still stand.
pub open spec fn standing(blocks: Seq<Block>) -> nat {
    blocks.filter(is_standing()).len()
}

impl Pass {
    /// The ball is well-formed, every block is sound, and the score is not
    /// negative and leaves room for the points of the blocks that stand.
    pub open spec fn sound(self) -> bool {
        &&& self.ball.wf()
        &&& forall|j: int| 0 <= j < self.blocks.len() ==> (#[trigger] self.blocks[j]).sound()
        &&& 0 <= self.score
        &&& self.score + BLOCK_SCORE * standing(self.blocks) <= i32::MAX
    }

    /// The ball comes to block `j`. Where the block stands and the two
    /// meet, the ball bounces off it and the block loses a life; the hit
    /// that takes its last life scores. A block without lives is passed
    /// over.
    pub open spec fn strike(self, j: int) -> Pass {
        let block = self.blocks[j];
        if block.lives > 0 && self.ball.rect.meets(block.rect) {
            Pass {
                ball: self.ball.bounced(block.rect),
                blocks: self.blocks.update(j, block.struck()),
                score: self.score + if block.lives <= 1 { BLOCK_SCORE as int } else { 0 },
            }
        } else {
            self
        }
    }

    /// The ball comes to the first `n` blocks, one after the other.
    pub open spec fn strikes(self, n: nat) -> Pass
        decreases n,
    {
        if n == 0 {
            self
        } else {
            self.strikes((n - 1) as nat).strike(n - 1)
        }
    }
}

/// Replacing one block changes the number of standing blocks by what the
/// two blocks differ in.
pub proof fn lemma_standing_update(blocks: Seq<Block>, j: int, block: Block)
    requires
        0 <= j < blocks.len(),
    ensures
        standing(blocks.update(j, block)) + (if blocks[j].lives > 0 { 1int } else { 0 })
            == standing(blocks) + (if block.lives > 0 { 1int } else { 0 }),
    decreases blocks.len(),
{
    reveal(Seq::filter);
    let changed = blocks.update(j, block);
    if j == blocks.len() - 1 {
        assert(changed.drop_last() =~= blocks.drop_last());
    } else {
        assert(changed.drop_last() =~= blocks.drop_last().update(j, block));
        lemma_standing_update(blocks.drop_last(), j, block);
    }
}

/// Where every block stands, the number of standing blocks is the number
/// of blocks.
pub proof fn lemma_all_standing(blocks: Seq<Block>)
    requires
        forall|j: int| 0 <= j < blocks.len() ==> (#[trigger] blocks[j]).lives > 0,
    ensures
        standing(blocks) == blocks.len(),
        blocks.filter(is_standing()) == blocks,
    decreases blocks.len(),
{
    reveal(Seq::filter);
    if blocks.len() > 0 {
        lemma_all_standing(blocks.drop_last());
        assert(blocks.drop_last().push(blocks.last()) =~= blocks);
    } else {
        assert(blocks.filter(is_standing()) =~= blocks);
    }
}

/// Lets the ball pass over the blocks in their order. It bounces off every
/// standing block it meets; such a block loses a life, and `BLOCK_SCORE`
/// is added to the score when the last life goes.
pub fn strike_blocks(ball: &mut Ball, blocks: &mut Vec<Block>, score: &mut i32)
    requires
        (Pass { ball: *old(ball), blocks: old(blocks)@, score: *old(score) as int }).sound(),
    ensures
        (Pass { ball: *final(ball), blocks: final(blocks)@, score: *final(score) as int }) == (Pass {
            ball: *old(ball),
            blocks: old(blocks)@,
            score: *old(score) as int,
        }).strikes(old(blocks)@.len()),
        (Pass { ball: *final(ball), blocks: final(blocks)@, score: *final(score) as int }).sound(),
        final(blocks)@.len() == old(blocks)@.len(),
        *final(score) + BLOCK_SCORE * standing(final(blocks)@) == *old(score) + BLOCK_SCORE
            * standing(old(blocks)@),
{
    let ghost start = Pass { ball: *ball, blocks: blocks@, score: *score as int };
    let mut j: usize = 0;
    while j < blocks.len()
        invariant
            0 <= j <= blocks.len(),
            blocks.len() == start.blocks.len(),
            (Pass { ball: *ball, blocks: blocks@, score: *score as int }) == start.strikes(j as nat),
            (Pass { ball: *ball, blocks: blocks@, score: *score as int }).sound(),
            *score + BLOCK_SCORE * standing(blocks@) == start.score + BLOCK_SCORE * standing(
                start.blocks,
            ),
        decreases blocks.len() - j,
    {
        let ghost before = Pass { ball: *ball, blocks: blocks@, score: *score as int };
        let mut block = blocks[j];
        if block.lives > 0 {
            if ball.bounce(&block.rect) {
                proof {
                    lemma_standing_update(blocks@, j as int, block.struck());
                }
                block.lives -= 1;
                if block.lives <= 0 {
                    *score += BLOCK_SCORE;
                }
                blocks.set(j, block);
            }
        }
        assert((Pass { ball: *ball, blocks: blocks@, score: *score as int }) == before.strike(
            j as int,
        ));
        j += 1;
    }
}

/// The balls that have not fallen below the screen, in their order.
pub fn keep_on_screen(balls: &Vec<Ball>, screen: Screen) -> (kept: Vec<Ball>)
    ensures
        kept@ == balls@.filter(is_on_screen(screen)),
        kept.len() <= balls.len(),
        (forall|i: int| 0 <= i < balls.len() ==> (#[trigger] balls[i]).wf()) ==> (forall|i: int|
            0 <= i < kept.len() ==> (#[trigger] kept[i]).wf()),
{
    let mut kept: Vec<Ball> = Vec::new();
    let mut i: usize = 0;
    proof {
        reveal(Seq::filter);
        assert(balls@.take(0).filter(is_on_screen(screen)) =~= kept@);
    }
    while i < balls.len()
        invariant
            0 <= i <= balls.len(),
            kept@ == balls@.take(i as int).filter(is_on_screen(screen)),
            kept.len() <= i,
            (forall|k: int| 0 <= k < balls.len() ==> (#[trigger] balls[k]).wf()) ==> (forall|k: int|
                0 <= k < kept.len() ==> (#[trigger] kept[k]).wf()),
        decreases balls.len() - i,
    {
        let ball = balls[i];
        proof {
            reveal(Seq::filter);
            assert(balls@.take(i + 1).drop_last() =~= balls@.take(i as int));
        }
        if ball.rect.y < screen.height {
            kept.push(ball);
        }
        i += 1;
    }
    assert(balls@.take(balls.len() as int) =~= balls@);
    kept
}

/// The blocks that still stand, in their order.
pub fn keep_standing(blocks: &Vec<Block>) -> (kept: Vec<Block>)
    ensures
        kept@ == blocks@.filter(is_standing()),
        kept.len() == standing(blocks@),
        (forall|j: int| 0 <= j < blocks.len() ==> (#[trigger] blocks[j]).sound()) ==> (forall|j: int|
            0 <= j < kept.len() ==> (#[trigger] kept[j]).wf()),
{
    let mut kept: Vec<Block> = Vec::new();
    let mut i: usize = 0;
    proof {
        reveal(Seq::filter);
        assert(blocks@.take(0).filter(is_standing()) =~= kept@);
    }
    while i < blocks.len()
        invariant
            0 <= i <= blocks.len(),
            kept@ == blocks@.take(i as int).filter(is_standing()),
            (forall|k: int| 0 <= k < blocks.len() ==> (#[trigger] blocks[k]).sound()) ==> (forall|
                k: int,
            |
                0 <= k < kept.len() ==> (#[trigger] kept[k]).wf()),
        decreases blocks.len() - i,
    {
        let block = blocks[i];
        proof {
            reveal(Seq::filter);
            assert(blocks@.take(i + 1).drop_last() =~= blocks@.take(i as int));
        }
        if block.lives > 0 {
            kept.push(block);
        }
        i += 1;
    }
    assert(blocks@.take(blocks.len() as int) =~= blocks@);
    kept
}

/// A ball's pass adds or removes no block and moves none; no block gains
/// a life, and the score does not fall.
pub proof fn law_strikes_keep(pass: Pass, n: nat)
    requires
        n <= pass.blocks.len(),
    ensures
        pass.strikes(n).blocks.len() == pass.blocks.len(),
        pass.strikes(n).score >= pass.score,
        forall|j: int|
            0 <= j < pass.blocks.len() ==> {
                &&& (#[trigger] pass.strikes(n).blocks[j]).rect == pass.blocks[j].rect
                &&& pass.strikes(n).blocks[j].lives <= pass.blocks[j].lives
            },
        forall|j: int| n <= j < pass.blocks.len() ==> pass.strikes(n).blocks[j] == pass.blocks[j],
    decreases n,
{
    if n > 0 {
        law_strikes_keep(pass, (n - 1) as nat);
    }
}

/// A block takes two hits. The hit on a block with two lives leaves it one
/// life and the score as it was; the hit on a block with one life takes
/// the last life and scores `BLOCK_SCORE`. A block without lives is passed
/// over, and so is a block that the ball does not meet. The ball bounces
/// off the block exactly where the block is hit, and no other block
/// changes.
pub proof fn law_block_takes_two_hits(pass: Pass, j: int)
    requires
        pass.sound(),
        0 <= j < pass.blocks.len(),
    ensures
        pass.blocks[j].lives == 2 && pass.ball.rect.meets(pass.blocks[j].rect) ==> {
            &&& pass.strike(j).blocks[j].lives == 1
            &&& pass.strike(j).score == pass.score
        },
        pass.blocks[j].lives == 1 && pass.ball.rect.meets(pass.blocks[j].rect) ==> {
            &&& pass.strike(j).blocks[j].lives == 0
            &&& pass.strike(j).score == pass.score + BLOCK_SCORE
        },
        pass.blocks[j].lives > 0 && pass.ball.rect.meets(pass.blocks[j].rect) ==> pass.strike(
            j,
        ).ball == pass.ball.bounced(pass.blocks[j].rect),
        pass.blocks[j].lives <= 0 || !pass.ball.rect.meets(pass.blocks[j].rect) ==> pass.strike(j)
            == pass,
        pass.strike(j).blocks.len() == pass.blocks.len(),
        pass.strike(j).blocks[j].rect == pass.blocks[j].rect,
        forall|k: int|
            0 <= k < pass.blocks.len() && k != j ==> pass.strike(j).blocks[k] == pass.blocks[k],
{
}

/// The blocks that are kept at the end of a frame are those that stand:
/// none of them is without lives, and there are as many as stood.
pub proof fn law_fallen_blocks_removed(blocks: Seq<Block>)
    ensures
        blocks.filter(is_standing()).len() == standing(blocks),
        blocks.filter(is_standing()).len() <= blocks.len(),
        forall|k: int|
            0 <= k < blocks.filter(is_standing()).len() ==> (#[trigger] blocks.filter(
                is_standing(),
            )[k]).lives > 0,
{
    broadcast use Seq::lemma_filter_pred, Seq::lemma_filter_len;

    assert forall|k: int| 0 <= k < blocks.filter(is_standing()).len() implies (#[trigger] blocks.filter(
        is_standing(),
    )[k]).lives > 0 by {
        assert(is_standing()(blocks.filter(is_standing())[k]));
    }
}

} // verus!
