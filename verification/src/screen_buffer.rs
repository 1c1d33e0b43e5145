use vstd::prelude::*;

verus! {

/// What one cell of the display grid shows. `SnakeHead` and `SnakeBody`
/// carry the index of the player the snake belongs to, so rendering can
/// colour each player differently. `CharacterOnBorder` marks a glyph that
/// sits on a border row, so rendering can keep the border background.
#[derive(PartialEq, Eq, Structural, Clone, Copy, Debug)]
pub enum GameContent {
    SnakeHead(usize),
    SnakeBody(usize),
    Food,
    Border,
    Empty,
    Character(char),
    CharacterOnBorder(char),
}

/// A grid position: `row` counts down from the top edge, `col` counts right
/// from the left edge. Equality is by value.
#[derive(PartialEq, Eq, Structural, Clone, Copy, Debug)]
pub struct Coordinate {
    pub row: usize,
    pub col: usize,
}

/// The linear index of grid position `(row, col)` in a row-major buffer of
/// the given width.
pub open spec fn grid_index(row: int, col: int, width: int) -> int {
    col + row * width
}

/// A row-major linear index computed from an in-range position lies within
/// a `width * height` buffer.
pub proof fn lemma_grid_index_bounds(row: int, col: int, width: int, height: int)
    requires
        0 <= row < height,
        0 <= col < width,
    ensures
        0 <= grid_index(row, col, width) < width * height,
{
    assert(0 <= col + row * width < width * height) by (nonlinear_arith)
        requires
            0 <= row < height,
            0 <= col < width,
    ;
}

/// Distinct in-range positions have distinct row-major linear indices.
pub proof fn lemma_grid_index_injective(
    r1: int,
    c1: int,
    r2: int,
    c2: int,
    width: int,
)
    requires
        0 <= c1 < width,
        0 <= c2 < width,
        0 <= r1,
        0 <= r2,
        grid_index(r1, c1, width) == grid_index(r2, c2, width),
    ensures
        r1 == r2 && c1 == c2,
{
    assert(r1 == r2 && c1 == c2) by (nonlinear_arith)
        requires
            0 <= c1 < width,
            0 <= c2 < width,
            0 <= r1,
            0 <= r2,
            c1 + r1 * width == c2 + r2 * width,
    ;
}

/// Whether `(row, col)` lies on the outer edge of a `width x height` grid.
pub open spec fn on_border(row: int, col: int, width: int, height: int) -> bool {
    row == 0 || row == height - 1 || col == 0 || col == width - 1
}

/// The column at which a text of length `text_len` starts when centered
/// horizontally on a grid of the given width.
pub open spec fn centered_start(width: int, text_len: int) -> int {
    (width - text_len) / 2
}

/// The cell content for one glyph of a text line: glyphs on the top or
/// bottom border row are tagged `CharacterOnBorder` so rendering can keep
/// the border background behind them.
pub open spec fn text_cell(row: int, height: int, glyph: char) -> GameContent {
    if row == 0 || row == height - 1 {
        GameContent::CharacterOnBorder(glyph)
    } else {
        GameContent::Character(glyph)
    }
}

/// A dense, mutable `screen_width x screen_height` grid of cell contents,
/// stored row-major. The simulation composes each frame into it; an
/// unverified rendering sink turns it into styled terminal output.
pub struct ScreenBuffer {
    screen_width: usize,
    screen_height: usize,
    buffer: Vec<GameContent>,
}

impl ScreenBuffer {
    /// The grid width, in cells.
    pub closed spec fn width(&self) -> usize {
        self.screen_width
    }

    /// The grid height, in cells.
    pub closed spec fn height(&self) -> usize {
        self.screen_height
    }

    /// The cell contents, as one row-major sequence.
    pub closed spec fn contents(&self) -> Seq<GameContent> {
        self.buffer@
    }

    /// The buffer holds exactly one cell per grid position.
    pub open spec fn wf(&self) -> bool {
        self.contents().len() == self.width() * self.height()
    }

    /// The content at grid position `(row, col)`.
    pub open spec fn cell(&self, row: int, col: int) -> GameContent {
        self.contents()[grid_index(row, col, self.width() as int)]
    }

    /// Both dimensions are unchanged (and hence all positions stay valid).
    pub open spec fn same_dimensions(&self, other: &ScreenBuffer) -> bool {
        self.width() == other.width() && self.height() == other.height()
    }

    /// Allocates a `screen_width x screen_height` grid with every cell set
    /// to `initial_content`.
    pub fn new(
        screen_width: usize,
        screen_height: usize,
        initial_content: GameContent,
    ) -> (result: ScreenBuffer)
        requires
            screen_width * screen_height <= usize::MAX,
        ensures
            result.wf(),
            result.width() == screen_width,
            result.height() == screen_height,
            forall|i: int|
                0 <= i < result.contents().len() ==> result.contents()[i] == initial_content,
    {
        let total: usize = screen_width * screen_height;
        let mut buffer: Vec<GameContent> = Vec::new();
        let mut i: usize = 0;
        while i < total
            invariant
                i <= total,
                buffer@.len() == i,
                forall|j: int| 0 <= j < i ==> buffer@[j] == initial_content,
            decreases total - i,
        {
            buffer.push(initial_content);
            i = i + 1;
        }
        ScreenBuffer { screen_width, screen_height, buffer }
    }

    /// Overwrites every cell with `content`; used to clear the grid
    /// between ticks.
    pub fn set_all(&mut self, content: GameContent)
        requires
            old(self).wf(),
        ensures
            final(self).wf(),
            final(self).same_dimensions(old(self)),
            forall|i: int|
                0 <= i < final(self).contents().len() ==> final(self).contents()[i] == content,
            forall|r: int, c: int|
                0 <= r < final(self).height() && 0 <= c < final(self).width()
                    ==> final(self).cell(r, c) == content,
    {
        let total: usize = self.buffer.len();
        let mut i: usize = 0;
        while i < total
            invariant
                i <= total,
                self.screen_width == old(self).screen_width,
                self.screen_height == old(self).screen_height,
                self.buffer@.len() == total,
                total == self.width() * self.height(),
                forall|j: int| 0 <= j < i ==> self.buffer@[j] == content,
            decreases total - i,
        {
            self.buffer[i] = content;
            i = i + 1;
        }
        proof {
            assert forall|r: int, c: int|
                0 <= r < self.height() && 0 <= c < self.width() implies self.cell(r, c)
                == content by {
                lemma_grid_index_bounds(r, c, self.width() as int, self.height() as int);
            }
        }
    }

    /// Reads the cell at `(row, col)`; the position must be on the grid.
    pub fn get_at(&self, row: usize, col: usize) -> (content: GameContent)
        requires
            self.wf(),
            row < self.height(),
            col < self.width(),
        ensures
            content == self.cell(row as int, col as int),
    {
        proof {
            vstd::std_specs::vec::axiom_spec_len(&self.buffer);
            lemma_grid_index_bounds(
                row as int,
                col as int,
                self.width() as int,
                self.height() as int,
            );
        }
        self.buffer[col + row * self.screen_width]
    }

    /// Writes `content` at `(row, col)`; the position must be on the grid.
    /// Every other cell keeps its previous content.
    pub fn set_at(&mut self, row: usize, col: usize, content: GameContent)
        requires
            old(self).wf(),
            row < old(self).height(),
            col < old(self).width(),
        ensures
            final(self).wf(),
            final(self).same_dimensions(old(self)),
            final(self).contents() == old(self).contents().update(
                grid_index(row as int, col as int, old(self).width() as int),
                content,
            ),
            final(self).cell(row as int, col as int) == content,
            forall|r: int, c: int|
                0 <= r < final(self).height() && 0 <= c < final(self).width() && !(r == row && c
                    == col) ==> final(self).cell(r, c) == old(self).cell(r, c),
    {
        proof {
            vstd::std_specs::vec::axiom_spec_len(&self.buffer);
            lemma_grid_index_bounds(
                row as int,
                col as int,
                self.width() as int,
                self.height() as int,
            );
        }
        self.buffer[col + row * self.screen_width] = content;
        proof {
            assert forall|r: int, c: int|
                0 <= r < self.height() && 0 <= c < self.width() && !(r == row && c == col)
                    implies self.cell(r, c) == old(self).cell(r, c) by {
                lemma_grid_index_bounds(r, c, self.width() as int, self.height() as int);
                if grid_index(r, c, self.width() as int) == grid_index(
                    row as int,
                    col as int,
                    self.width() as int,
                ) {
                    lemma_grid_index_injective(
                        r,
                        c,
                        row as int,
                        col as int,
                        self.width() as int,
                    );
                }
            }
        }
    }
    /// Overwrites the outermost rows and columns with `border_symbol`;
    /// every inner cell keeps its previous content. Called after the game
    /// entities are placed so the border is always topmost.
    pub fn add_border(&mut self, border_symbol: GameContent)
        requires
            old(self).wf(),
            old(self).width() >= 1,
            old(self).height() >= 1,
        ensures
            final(self).wf(),
            final(self).same_dimensions(old(self)),
            forall|r: int, c: int|
                0 <= r < final(self).height() && 0 <= c < final(self).width()
                    ==> final(self).cell(r, c) == (if on_border(
                    r,
                    c,
                    final(self).width() as int,
                    final(self).height() as int,
                ) {
                    border_symbol
                } else {
                    old(self).cell(r, c)
                }),
    {
        let width = self.screen_width;
        let height = self.screen_height;
        let mut row: usize = 0;
        while row < height
            invariant
                row <= height,
                width == self.width(),
                height == self.height(),
                width >= 1,
                height >= 1,
                self.wf(),
                self.same_dimensions(old(self)),
                forall|r: int, c: int|
                    0 <= r < height && 0 <= c < width ==> self.cell(r, c) == (if (c == 0 || c
                        == width - 1) && r < row {
                        border_symbol
                    } else {
                        old(self).cell(r, c)
                    }),
            decreases height - row,
        {
            self.set_at(row, 0, border_symbol);
            self.set_at(row, width - 1, border_symbol);
            row = row + 1;
        }
        let mut col: usize = 0;
        while col < width
            invariant
                col <= width,
                width == self.width(),
                height == self.height(),
                width >= 1,
                height >= 1,
                self.wf(),
                self.same_dimensions(old(self)),
                forall|r: int, c: int|
                    0 <= r < height && 0 <= c < width ==> self.cell(r, c) == (if c == 0 || c
                        == width - 1 {
                        border_symbol
                    } else if (r == 0 || r == height - 1) && c < col {
                        border_symbol
                    } else {
                        old(self).cell(r, c)
                    }),
            decreases width - col,
        {
            self.set_at(0, col, border_symbol);
            self.set_at(height - 1, col, border_symbol);
            col = col + 1;
        }
    }

    /// Writes `message`, one glyph per cell, horizontally centered on
    /// `target_row`; glyphs on a border row are tagged `CharacterOnBorder`.
    /// All other cells keep their previous content.
    pub fn set_centered_chars_at_row(&mut self, target_row: usize, message: &Vec<char>)
        requires
            old(self).wf(),
            target_row < old(self).height(),
            message@.len() <= old(self).width(),
        ensures
            final(self).wf(),
            final(self).same_dimensions(old(self)),
            forall|r: int, c: int|
                0 <= r < final(self).height() && 0 <= c < final(self).width()
                    ==> final(self).cell(r, c) == (if r == target_row && centered_start(
                    final(self).width() as int,
                    message@.len() as int,
                ) <= c < centered_start(final(self).width() as int, message@.len() as int)
                    + message@.len() {
                    text_cell(r, final(self).height() as int, message@[c - centered_start(
                        final(self).width() as int,
                        message@.len() as int,
                    )])
                } else {
                    old(self).cell(r, c)
                }),
    {
        let len = message.len();
        let start = (self.screen_width - len) / 2;
        let ghost start_spec = centered_start(self.width() as int, len as int);
        assert(start == start_spec);
        let mut i: usize = 0;
        while i < len
            invariant
                i <= len,
                len == message@.len(),
                start == centered_start(self.width() as int, len as int),
                start + len <= self.width(),
                target_row < self.height(),
                self.wf(),
                self.same_dimensions(old(self)),
                forall|r: int, c: int|
                    0 <= r < self.height() && 0 <= c < self.width() ==> self.cell(r, c) == (if r
                        == target_row && start <= c < start + i {
                        text_cell(r, self.height() as int, message@[c - start])
                    } else {
                        old(self).cell(r, c)
                    }),
            decreases len - i,
        {
            let sym = message[i];
            let content = if target_row == 0 || target_row == self.screen_height - 1 {
                GameContent::CharacterOnBorder(sym)
            } else {
                GameContent::Character(sym)
            };
            self.set_at(target_row, start + i, content);
            i = i + 1;
        }
    }

    /// Writes `message`, one character per cell, horizontally centered on
    /// `target_row`, tagging glyphs on a border row as `CharacterOnBorder`.
    pub fn set_centered_text_at_row(&mut self, target_row: usize, message: &str)
        requires
            old(self).wf(),
            target_row < old(self).height(),
            message@.len() <= old(self).width(),
        ensures
            final(self).wf(),
            final(self).same_dimensions(old(self)),
            forall|r: int, c: int|
                0 <= r < final(self).height() && 0 <= c < final(self).width()
                    ==> final(self).cell(r, c) == (if r == target_row && centered_start(
                    final(self).width() as int,
                    message@.len() as int,
                ) <= c < centered_start(final(self).width() as int, message@.len() as int)
                    + message@.len() {
                    text_cell(r, final(self).height() as int, message@[c - centered_start(
                        final(self).width() as int,
                        message@.len() as int,
                    )])
                } else {
                    old(self).cell(r, c)
                }),
    {
        let len = message.unicode_len();
        let mut chars: Vec<char> = Vec::new();
        let mut i: usize = 0;
        while i < len
            invariant
                i <= len,
                len == message@.len(),
                chars@ == message@.subrange(0, i as int),
            decreases len - i,
        {
            chars.push(message.get_char(i));
            i = i + 1;
            assert(chars@ =~= message@.subrange(0, i as int));
        }
        assert(chars@ =~= message@);
        self.set_centered_chars_at_row(target_row, &chars);
    }
}

} // verus!
