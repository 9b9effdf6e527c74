//! The game: rows of blocks at the top of the screen, a paddle at the
//! bottom that the arrow keys move, and a ball on the paddle.
use crate::bitmap::{draw_bitmap, erase_bitmap, with_bitmap, with_black_rect, Bitmap};
use crate::event_hook::EventInfo;
use crate::keyboard::{KeyCode, KeyDirection, KeyEvent};
use crate::uefi::{Pixel, Screen, NO_OF_PIXELS_IN_A_COLUMN, NO_OF_PIXELS_IN_A_ROW};
use vstd::prelude::*;

verus! {

/// The number of rows of blocks that are drawn on screen.
pub const NO_OF_BLOCK_ROWS: usize = 4;

/// The space between the paddle and the bottom of the screen.
pub const PADDLE_MARGIN: usize = 10;

/// The column that the paddle starts at.
pub const PADDLE_START_COLUMN: usize = 275;

/// The space between the ball and the paddle.
pub const BALL_MARGIN: usize = 5;

/// The number of columns that a key press moves the paddle by.
pub const PADDLE_STEP: usize = 10;

/// Where the things that move are on the screen: the positions of their
/// top left corners, each a row and a column.
#[derive(Debug, Clone, Copy, PartialEq, Eq)]
pub struct Game {
    pub paddle_pos: (usize, usize),
    pub ball_pos: (usize, usize),
}

/// Where the block with number `i` goes, when a block is `height` high and
/// `width` wide: the blocks fill each row from the left, row after row.
pub open spec fn block_pos(i: int, height: int, width: int) -> (usize, usize) {
    let no_of_blocks_in_a_row = NO_OF_PIXELS_IN_A_ROW as int / width;
    (
        ((i / no_of_blocks_in_a_row) * height) as usize,
        ((i % no_of_blocks_in_a_row) * width) as usize,
    )
}

/// The pixels after the first `n` blocks are drawn: the blocks of `blocks`,
/// over and over again in their order, each at its place.
pub open spec fn with_blocks(pixels: Seq<Pixel>, blocks: Seq<Bitmap>, n: int) -> Seq<Pixel>
    decreases n,
{
    if n <= 0 {
        pixels
    } else {
        with_bitmap(
            with_blocks(pixels, blocks, n - 1),
            &blocks[(n - 1) % (blocks.len() as int)],
            block_pos(n - 1, blocks[0].spec_height() as int, blocks[0].spec_width() as int),
        )
    }
}

/// Where the paddle starts: a margin above the bottom of the screen.
pub open spec fn paddle_start(paddle: &Bitmap) -> (usize, usize) {
    (
        (NO_OF_PIXELS_IN_A_COLUMN - paddle.spec_height() - PADDLE_MARGIN) as usize,
        PADDLE_START_COLUMN,
    )
}

/// Where the ball starts: a margin above the paddle, ten columns left of
/// the paddle's middle.
pub open spec fn ball_start(paddle: &Bitmap, ball: &Bitmap) -> (usize, usize) {
    (
        (paddle_start(paddle).0 - ball.spec_height() - BALL_MARGIN) as usize,
        (PADDLE_START_COLUMN + paddle.spec_width() / 2 - 10) as usize,
    )
}

/// Whether the blocks can be laid out: there is a block, all blocks are
/// well formed and of one size, a row of the screen is filled by a whole
/// number of blocks, and the rows of blocks fit on the screen.
pub open spec fn blocks_fit(blocks: Seq<Bitmap>) -> bool {
    &&& blocks.len() > 0
    &&& forall|i: int|
        0 <= i < blocks.len() ==> (#[trigger] blocks[i]).wf() && blocks[i].spec_height()
            == blocks[0].spec_height() && blocks[i].spec_width() == blocks[0].spec_width()
    &&& blocks[0].spec_width() > 0
    &&& NO_OF_PIXELS_IN_A_ROW % blocks[0].spec_width() == 0
    &&& NO_OF_BLOCK_ROWS * blocks[0].spec_height() <= NO_OF_PIXELS_IN_A_COLUMN
}

/// Whether the paddle and the ball can be put at their starting places.
pub open spec fn paddle_and_ball_fit(paddle: &Bitmap, ball: &Bitmap) -> bool {
    &&& paddle.wf()
    &&& ball.wf()
    &&& paddle.spec_height() + PADDLE_MARGIN <= NO_OF_PIXELS_IN_A_COLUMN
    &&& PADDLE_START_COLUMN + paddle.spec_width() <= NO_OF_PIXELS_IN_A_ROW
    &&& ball.spec_height() + BALL_MARGIN <= paddle_start(paddle).0
    &&& ball_start(paddle, ball).1 + ball.spec_width() <= NO_OF_PIXELS_IN_A_ROW
}

/// Draws the game's first picture: four rows of blocks, the paddle and the
/// ball. Returns where the paddle and the ball are.
pub fn blasterball(screen: &mut Screen, blocks: &[Bitmap], paddle: &Bitmap, ball: &Bitmap) -> (game:
    Game)
    requires
        old(screen).wf(),
        blocks_fit(blocks@),
        paddle_and_ball_fit(paddle, ball),
    ensures
        final(screen).wf(),
        game.paddle_pos == paddle_start(paddle),
        game.ball_pos == ball_start(paddle, ball),
        game.paddle_fits(paddle),
        final(screen)@ == with_bitmap(
            with_bitmap(
                with_blocks(
                    old(screen)@,
                    blocks@,
                    (NO_OF_PIXELS_IN_A_ROW as int / blocks@[0].spec_width() as int)
                        * NO_OF_BLOCK_ROWS,
                ),
                paddle,
                paddle_start(paddle),
            ),
            ball,
            ball_start(paddle, ball),
        ),
{
    let height = blocks[0].height();
    let width = blocks[0].width();
    let no_of_blocks_in_a_row = NO_OF_PIXELS_IN_A_ROW / width;
    proof {
        vstd::arithmetic::div_mod::lemma_fundamental_div_mod(
            NO_OF_PIXELS_IN_A_ROW as int,
            width as int,
        );
    }
    assert(no_of_blocks_in_a_row * width == NO_OF_PIXELS_IN_A_ROW && 0 < no_of_blocks_in_a_row
        <= NO_OF_PIXELS_IN_A_ROW) by (nonlinear_arith)
        requires
            NO_OF_PIXELS_IN_A_ROW == width * no_of_blocks_in_a_row,
            NO_OF_PIXELS_IN_A_ROW == 640,
            width >= 1,
            no_of_blocks_in_a_row >= 0,
    ;
    let no_of_blocks = no_of_blocks_in_a_row * NO_OF_BLOCK_ROWS;

    // The initial block position is at the top left corner of the screen
    let mut block_position: (usize, usize) = (0, 0);  // (row, column)
    let mut i: usize = 0;
    // The row and the column of blocks that the next block goes to
    let ghost mut block_row: int = 0;
    let ghost mut block_col: int = 0;
    // Cycle through the blocks until 4 rows have been filled
    while i < no_of_blocks
        invariant
            i <= no_of_blocks,
            no_of_blocks == no_of_blocks_in_a_row * NO_OF_BLOCK_ROWS,
            no_of_blocks_in_a_row == NO_OF_PIXELS_IN_A_ROW as int / width as int,
            no_of_blocks_in_a_row * width == NO_OF_PIXELS_IN_A_ROW,
            no_of_blocks_in_a_row > 0,
            height == blocks@[0].spec_height(),
            width == blocks@[0].spec_width(),
            blocks_fit(blocks@),
            screen.wf(),
            i == block_row * no_of_blocks_in_a_row + block_col,
            0 <= block_col < no_of_blocks_in_a_row,
            0 <= block_row <= NO_OF_BLOCK_ROWS,
            block_position.0 == block_row * height,
            block_position.1 == block_col * width,
            screen@ == with_blocks(old(screen)@, blocks@, i as int),
        decreases no_of_blocks - i,
    {
        let block = &blocks[i % blocks.len()];
        proof {
            assert(block_row < NO_OF_BLOCK_ROWS) by (nonlinear_arith)
                requires
                    i < no_of_blocks_in_a_row * NO_OF_BLOCK_ROWS,
                    i == block_row * no_of_blocks_in_a_row + block_col,
                    0 <= block_col,
                    no_of_blocks_in_a_row > 0,
            ;
            assert(block_row * height + height <= NO_OF_BLOCK_ROWS * height) by (nonlinear_arith)
                requires
                    0 <= block_row < NO_OF_BLOCK_ROWS,
                    height >= 0,
            ;
            assert(block_col * width + width <= no_of_blocks_in_a_row * width)
                by (nonlinear_arith)
                requires
                    0 <= block_col < no_of_blocks_in_a_row,
                    width >= 0,
            ;
            vstd::arithmetic::div_mod::lemma_fundamental_div_mod_converse(
                i as int,
                no_of_blocks_in_a_row as int,
                block_row,
                block_col,
            );
            assert(block_position == block_pos(i as int, height as int, width as int));
        }
        draw_bitmap(screen, block, block_position);
        block_position.1 += block.width();
        proof {
            block_col = block_col + 1;
            assert(block_col * width == (block_col - 1) * width + width) by (nonlinear_arith);
        }
        if block_position.1 >= NO_OF_PIXELS_IN_A_ROW {
            proof {
                assert(block_col == no_of_blocks_in_a_row) by (nonlinear_arith)
                    requires
                        block_col * width >= no_of_blocks_in_a_row * width,
                        block_col <= no_of_blocks_in_a_row,
                        width > 0,
                ;
                block_row = block_row + 1;
                block_col = 0;
                assert(block_row * height == (block_row - 1) * height + height)
                    by (nonlinear_arith);
                assert(block_row * no_of_blocks_in_a_row == (block_row - 1) * no_of_blocks_in_a_row
                    + no_of_blocks_in_a_row) by (nonlinear_arith);
            }
            block_position.0 += block.height();
            block_position.1 = 0;
        } else {
            proof {
                assert(block_col < no_of_blocks_in_a_row) by (nonlinear_arith)
                    requires
                        block_col * width < no_of_blocks_in_a_row * width,
                        width > 0,
                ;
            }
        }
        i += 1;
    }

    let paddle_pos = (
        NO_OF_PIXELS_IN_A_COLUMN - paddle.height() - PADDLE_MARGIN,
        NO_OF_PIXELS_IN_A_ROW / 2 - 45,
    );
    draw_bitmap(screen, paddle, paddle_pos);

    let ball_pos = (paddle_pos.0 - ball.height() - BALL_MARGIN, paddle_pos.1 + paddle.width() / 2 - 10);
    draw_bitmap(screen, ball, ball_pos);

    Game { paddle_pos, ball_pos }
}

/// Where the paddle goes from column `column` when `keycode` goes down: ten
/// columns to the left for the left arrow, but not past the left edge of the
/// screen, ten columns to the right for the right arrow, but not past the
/// right edge, and nowhere for any other key.
pub open spec fn paddle_column_after(column: usize, keycode: KeyCode, paddle_width: usize) -> usize {
    if keycode == KeyCode::ArrowLeft {
        if column >= PADDLE_STEP {
            (column - PADDLE_STEP) as usize
        } else {
            0
        }
    } else if keycode == KeyCode::ArrowRight {
        if column + PADDLE_STEP + paddle_width > NO_OF_PIXELS_IN_A_ROW {
            (NO_OF_PIXELS_IN_A_ROW - paddle_width) as usize
        } else {
            (column + PADDLE_STEP) as usize
        }
    } else {
        column
    }
}

/// The key that `info` tells of going down, if it tells of one.
pub open spec fn pressed_key(info: EventInfo) -> Option<KeyCode> {
    match info {
        EventInfo::Keyboard(KeyEvent { keycode, direction }) => if direction
            == KeyDirection::Down {
            Some(keycode)
        } else {
            None
        },
        EventInfo::Timer => None,
    }
}

/// Whether `info` tells of a key that moves the paddle going down.
pub open spec fn moves_paddle(info: EventInfo) -> bool {
    pressed_key(info) == Some(KeyCode::ArrowLeft) || pressed_key(info) == Some(
        KeyCode::ArrowRight,
    )
}

impl Game {
    /// Whether the paddle is on the screen where the game has it.
    pub open spec fn paddle_fits(&self, paddle: &Bitmap) -> bool {
        &&& paddle.wf()
        &&& self.paddle_pos.0 + paddle.spec_height() <= NO_OF_PIXELS_IN_A_COLUMN
        &&& self.paddle_pos.1 + paddle.spec_width() <= NO_OF_PIXELS_IN_A_ROW
    }

    /// Handles a keyboard event: when the left or the right arrow goes
    /// down, the paddle is erased, moved and drawn again. Nothing happens on
    /// any other event.
    pub fn handle_key(&mut self, screen: &mut Screen, paddle: &Bitmap, info: EventInfo)
        requires
            old(screen).wf(),
            old(self).paddle_fits(paddle),
        ensures
            final(screen).wf(),
            final(self).paddle_fits(paddle),
            final(self).ball_pos == old(self).ball_pos,
            final(self).paddle_pos.0 == old(self).paddle_pos.0,
            !moves_paddle(info) ==> *final(self) == *old(self) && final(screen)@ == old(screen)@,
            moves_paddle(info) ==> {
                &&& final(self).paddle_pos.1 == paddle_column_after(
                    old(self).paddle_pos.1,
                    pressed_key(info)->0,
                    paddle.spec_width(),
                )
                &&& final(screen)@ == with_bitmap(
                    with_black_rect(
                        old(screen)@,
                        old(self).paddle_pos,
                        paddle.spec_height() as int,
                        paddle.spec_width() as int,
                    ),
                    paddle,
                    final(self).paddle_pos,
                )
            },
    {
        if let EventInfo::Keyboard(KeyEvent { keycode, direction }) = info {
            if direction == KeyDirection::Down {
                if keycode == KeyCode::ArrowLeft {
                    erase_bitmap(screen, paddle, self.paddle_pos);
                    self.paddle_pos.1 = match self.paddle_pos.1.checked_sub(PADDLE_STEP) {
                        Some(column) => column,
                        None => 0,
                    };
                    draw_bitmap(screen, paddle, self.paddle_pos);
                } else if keycode == KeyCode::ArrowRight {
                    erase_bitmap(screen, paddle, self.paddle_pos);
                    self.paddle_pos.1 += PADDLE_STEP;
                    if self.paddle_pos.1 + paddle.width() > NO_OF_PIXELS_IN_A_ROW {
                        self.paddle_pos.1 = NO_OF_PIXELS_IN_A_ROW - paddle.width();
                    }
                    draw_bitmap(screen, paddle, self.paddle_pos);
                }
            }
        }
    }
}

} // verus!
