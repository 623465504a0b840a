//! The grid partitioner: steps through a sprite sheet cell by cell,
//! handing out each cell's pixels and output filename.

use vstd::prelude::*;
use vstd::arithmetic::div_mod::{
    lemma_div_multiples_vanish,
    lemma_div_pos_is_pos,
    lemma_fundamental_div_mod,
    lemma_fundamental_div_mod_converse,
    lemma_remainder,
    lemma_remainder_lower,
};
use vstd::arithmetic::mul::{
    lemma_mul_inequality,
    lemma_mul_is_commutative,
    lemma_mul_is_distributive_add_other_way,
    lemma_mul_nonnegative,
};
use crate::image::Image;
use crate::names::make_sprite_file_name;
use crate::names::sprite_file_name;

verus! {

/// One extracted cell: its pixels and the filename it is to be written
/// under, `{stem}_{row}_{column}.{extension}` with 1-based row and column.
pub struct Sprite {
    pub image: Image,
    pub file_name: String,
}

/// Partitions a decoded sprite sheet into a `rows × columns` grid of
/// equally sized cells, producing one cell per step in row-major order.
///
/// Cell dimensions are the integer quotients of the image dimensions by
/// the grid dimensions; remainder pixels at the right and bottom edges
/// belong to no cell. A grid with `rows == 0` or `columns == 0` is legal
/// and empty: such a partitioner is exhausted from the start.
pub struct SpriteSheet {
    pub img: Image,
    pub stem: String,
    pub ext: String,
    pub rows: u32,
    pub columns: u32,
    pub img_width: u32,
    pub img_height: u32,
    pub sprite_width: u32,
    pub sprite_height: u32,
    pub cur_row: u32,
    pub cur_col: u32,
}

impl SpriteSheet {
    /// The partitioner's invariant: the stored dimensions describe the
    /// image, the cell dimensions are the truncating quotients fixed at
    /// construction, and the cursor stays inside the grid.
    pub open spec fn wf(self) -> bool {
        &&& self.img.wf()
        &&& self.img_width == self.img.width
        &&& self.img_height == self.img.height
        &&& self.sprite_width == if self.columns == 0 {
            0int
        } else {
            self.img_width as int / self.columns as int
        }
        &&& self.sprite_height == if self.rows == 0 {
            0int
        } else {
            self.img_height as int / self.rows as int
        }
        &&& if self.rows == 0 || self.columns == 0 {
            self.cur_row == 0 && self.cur_col == 0
        } else {
            &&& self.cur_row <= self.rows
            &&& self.cur_col < self.columns
            &&& (self.cur_row == self.rows ==> self.cur_col == 0)
        }
    }

    /// How many cells the whole grid holds.
    pub open spec fn total_sprites(self) -> int {
        self.rows * self.columns
    }

    /// How many cells have been produced so far: the cursor's row-major
    /// index.
    pub open spec fn produced(self) -> int {
        self.cur_row * self.columns + self.cur_col
    }

    /// Whether production is over: the grid is empty or the cursor has
    /// walked past the last row.
    pub open spec fn is_done(self) -> bool {
        self.rows == 0 || self.columns == 0 || self.cur_row >= self.rows
    }

    /// Builds a partitioner over a decoded image. The cell dimensions are
    /// computed here, once, by truncating division; a zero `rows` or
    /// `columns` short-circuits the division and yields the empty grid.
    pub fn new(img: Image, stem: String, ext: String, rows: u32, columns: u32) -> (r:
        SpriteSheet)
        requires
            img.wf(),
        ensures
            r.wf(),
            r.img == img,
            r.stem == stem,
            r.ext == ext,
            r.rows == rows,
            r.columns == columns,
            r.img_width == img.width,
            r.img_height == img.height,
            r.cur_row == 0,
            r.cur_col == 0,
            r.produced() == 0,
            r.is_done() <==> (rows == 0 || columns == 0),
            r.sprite_width == if columns == 0 {
                0int
            } else {
                img.width as int / columns as int
            },
            r.sprite_height == if rows == 0 {
                0int
            } else {
                img.height as int / rows as int
            },
    {
        let img_width = img.width;
        let img_height = img.height;
        let sprite_width: u32 = if columns == 0 {
            0
        } else {
            img_width / columns
        };
        let sprite_height: u32 = if rows == 0 {
            0
        } else {
            img_height / rows
        };
        SpriteSheet {
            img,
            stem,
            ext,
            rows,
            columns,
            img_width,
            img_height,
            sprite_width,
            sprite_height,
            cur_row: 0,
            cur_col: 0,
        }
    }

    /// The width of the source image, as captured at construction.
    pub fn img_width(&self) -> (r: u32)
        ensures
            r == self.img_width,
    {
        self.img_width
    }

    /// The height of the source image, as captured at construction.
    pub fn img_height(&self) -> (r: u32)
        ensures
            r == self.img_height,
    {
        self.img_height
    }

    /// The width of each cell.
    pub fn sprite_width(&self) -> (r: u32)
        ensures
            r == self.sprite_width,
    {
        self.sprite_width
    }

    /// The height of each cell.
    pub fn sprite_height(&self) -> (r: u32)
        ensures
            r == self.sprite_height,
    {
        self.sprite_height
    }

    /// One production step. While the grid is not exhausted, extracts the
    /// cell under the cursor by a non-destructive copy, names it after the
    /// cursor's 1-based position, advances the cursor in row-major order,
    /// and returns the cell. Once exhausted, every call returns `None` and
    /// leaves the partitioner unchanged.
    pub fn next(&mut self) -> (r: Option<Sprite>)
        requires
            old(self).wf(),
        ensures
            final(self).wf(),
            final(self).img == old(self).img,
            final(self).stem == old(self).stem,
            final(self).ext == old(self).ext,
            final(self).rows == old(self).rows,
            final(self).columns == old(self).columns,
            final(self).img_width == old(self).img_width,
            final(self).img_height == old(self).img_height,
            final(self).sprite_width == old(self).sprite_width,
            final(self).sprite_height == old(self).sprite_height,
            r is Some <==> !old(self).is_done(),
            old(self).is_done() ==> *final(self) == *old(self),
            !old(self).is_done() ==> final(self).produced() == old(self).produced() + 1,
            r matches Some(sp) ==> {
                &&& sp.image.wf()
                &&& sp.image.width == old(self).sprite_width
                &&& sp.image.height == old(self).sprite_height
                &&& forall|x: int, y: int, k: int|
                    0 <= x < old(self).sprite_width && 0 <= y < old(self).sprite_height && 0 <= k
                        < 4 ==> #[trigger] sp.image.pixel_byte(x, y, k)
                        == old(self).img.pixel_byte(
                        old(self).cur_col * old(self).sprite_width + x,
                        old(self).cur_row * old(self).sprite_height + y,
                        k,
                    )
                &&& sp.file_name@ == sprite_file_name(
                    old(self).stem@,
                    old(self).ext@,
                    (old(self).cur_row + 1) as nat,
                    (old(self).cur_col + 1) as nat,
                )
            },
    {
        if self.rows == 0 || self.columns == 0 {
            return None;
        }
        if self.cur_row >= self.rows {
            return None;
        }
        proof {
            lemma_cell_fits(
                self.img_width as int,
                self.columns as int,
                self.sprite_width as int,
                self.cur_col as int,
            );
            lemma_cell_fits(
                self.img_height as int,
                self.rows as int,
                self.sprite_height as int,
                self.cur_row as int,
            );
        }
        let x1: u32 = self.cur_col * self.sprite_width;
        let y1: u32 = self.cur_row * self.sprite_height;
        let cell = self.img.crop(x1, y1, self.sprite_width, self.sprite_height);
        let file_name = make_sprite_file_name(
            self.stem.as_str(),
            self.ext.as_str(),
            self.cur_row + 1,
            self.cur_col + 1,
        );
        let ghost pre = *self;
        self.cur_col = self.cur_col + 1;
        if self.cur_col >= self.columns {
            self.cur_col = 0;
            self.cur_row = self.cur_row + 1;
            proof {
                lemma_mul_is_distributive_add_other_way(
                    self.columns as int,
                    pre.cur_row as int,
                    1,
                );
            }
        }
        Some(Sprite { image: cell, file_name })
    }
}

/// Exact division: when the image dimensions are whole multiples of the
/// grid dimensions, every cell is exactly `k × m` pixels and the grid
/// holds `rows * columns` cells.
pub proof fn lemma_exact_division(s: SpriteSheet, k: int, m: int)
    requires
        s.wf(),
        0 < s.columns,
        0 < s.rows,
        0 <= k,
        0 <= m,
        s.img_width == s.columns * k,
        s.img_height == s.rows * m,
    ensures
        s.sprite_width == k,
        s.sprite_height == m,
        s.total_sprites() == s.rows * s.columns,
{
    lemma_div_multiples_vanish(k, s.columns as int);
    lemma_div_multiples_vanish(m, s.rows as int);
}

/// Truncation: the cell dimensions are the floors of the quotients fixed
/// at construction, the grid's right and bottom edges never pass the
/// image, and when division leaves a remainder the leftover pixels lie
/// beyond every cell.
pub proof fn lemma_truncation(s: SpriteSheet)
    requires
        s.wf(),
        0 < s.columns,
        0 < s.rows,
    ensures
        s.sprite_width == s.img_width as int / s.columns as int,
        s.sprite_height == s.img_height as int / s.rows as int,
        s.columns * s.sprite_width <= s.img_width,
        s.rows * s.sprite_height <= s.img_height,
        s.img_width % s.columns != 0 ==> s.columns * s.sprite_width < s.img_width,
        s.img_height % s.rows != 0 ==> s.rows * s.sprite_height < s.img_height,
{
    lemma_fundamental_div_mod(s.img_width as int, s.columns as int);
    lemma_fundamental_div_mod(s.img_height as int, s.rows as int);
    lemma_remainder(s.img_width as int, s.columns as int);
    lemma_remainder(s.img_height as int, s.rows as int);
    lemma_mul_is_commutative(s.columns as int, s.sprite_width as int);
    lemma_mul_is_commutative(s.rows as int, s.sprite_height as int);
}

/// A zero grid dimension yields the empty grid: such a partitioner is
/// exhausted from the start and owes no cells.
pub proof fn lemma_zero_dimension_empty(s: SpriteSheet)
    requires
        s.wf(),
        s.rows == 0 || s.columns == 0,
    ensures
        s.is_done(),
        s.total_sprites() == 0,
        s.produced() == 0,
{
    assert(s.total_sprites() == 0) by (nonlinear_arith)
        requires
            s.rows == 0 || s.columns == 0,
            s.total_sprites() == s.rows * s.columns,
    ;
}

/// The cursor enumerates the grid in row-major order without gaps or
/// repeats: its position is exactly determined by how many cells have
/// been produced, and production ends precisely when every one of the
/// `rows * columns` cells has been produced.
pub proof fn lemma_row_major_position(s: SpriteSheet)
    requires
        s.wf(),
        0 < s.rows,
        0 < s.columns,
    ensures
        s.cur_row == s.produced() / s.columns as int,
        s.cur_col == s.produced() % s.columns as int,
        0 <= s.produced() <= s.total_sprites(),
        s.is_done() <==> s.produced() == s.total_sprites(),
{
    lemma_mul_is_commutative(s.cur_row as int, s.columns as int);
    lemma_fundamental_div_mod_converse(
        s.produced(),
        s.columns as int,
        s.cur_row as int,
        s.cur_col as int,
    );
    lemma_mul_nonnegative(s.cur_row as int, s.columns as int);
    if s.cur_row < s.rows {
        lemma_mul_inequality(s.cur_row as int + 1, s.rows as int, s.columns as int);
        lemma_mul_is_distributive_add_other_way(s.columns as int, s.cur_row as int, 1);
    }
}

/// With `sw == w / cols`, the cell in column `cc` spans
/// `[cc * sw, cc * sw + sw)`, which lies inside `[0, w)`: no cell ever
/// reads past the image.
proof fn lemma_cell_fits(w: int, cols: int, sw: int, cc: int)
    requires
        0 <= w,
        0 < cols,
        0 <= cc < cols,
        sw == w / cols,
    ensures
        0 <= cc * sw,
        cc * sw + sw <= w,
{
    lemma_div_pos_is_pos(w, cols);
    lemma_remainder_lower(w, cols);
    lemma_mul_is_commutative(sw, cols);
    lemma_mul_inequality(cc + 1, cols, sw);
    lemma_mul_is_distributive_add_other_way(sw, cc, 1);
    lemma_mul_nonnegative(cc, sw);
}

} // verus!
