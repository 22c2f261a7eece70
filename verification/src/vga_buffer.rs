use vstd::prelude::*;
use vstd::string::StringSliceAdditionalSpecFns;
use volatile::Volatile;

verus! {

/// Number of text rows on the screen.
pub const BUFFER_HEIGHT: usize = 25;

/// Number of character cells in each row.
pub const BUFFER_WIDTH: usize = 80;

/// The sixteen colors of the VGA text palette.
#[derive(Debug, Clone, Copy, PartialEq, Eq, Structural)]
pub enum Color {
    Black,
    Blue,
    Green,
    Cyan,
    Red,
    Magenta,
    Brown,
    LightGray,
    DarkGray,
    LightBlue,
    LightGreen,
    LightCyan,
    LightRed,
    Pink,
    Yellow,
    White,
}

impl Color {
    /// The palette index of the color, as the hardware numbers it.
    pub open spec fn index_spec(self) -> u8 {
        match self {
            Color::Black => 0,
            Color::Blue => 1,
            Color::Green => 2,
            Color::Cyan => 3,
            Color::Red => 4,
            Color::Magenta => 5,
            Color::Brown => 6,
            Color::LightGray => 7,
            Color::DarkGray => 8,
            Color::LightBlue => 9,
            Color::LightGreen => 10,
            Color::LightCyan => 11,
            Color::LightRed => 12,
            Color::Pink => 13,
            Color::Yellow => 14,
            Color::White => 15,
        }
    }

    /// Palette index of the color (0 to 15).
    #[verifier::when_used_as_spec(index_spec)]
    pub fn index(self) -> (i: u8)
        ensures
            i == self.index_spec(),
            i < 16,
    {
        match self {
            Color::Black => 0,
            Color::Blue => 1,
            Color::Green => 2,
            Color::Cyan => 3,
            Color::Red => 4,
            Color::Magenta => 5,
            Color::Brown => 6,
            Color::LightGray => 7,
            Color::DarkGray => 8,
            Color::LightBlue => 9,
            Color::LightGreen => 10,
            Color::LightCyan => 11,
            Color::LightRed => 12,
            Color::Pink => 13,
            Color::Yellow => 14,
            Color::White => 15,
        }
    }
}

/// Every color has its own palette index below 16.
pub proof fn lemma_color_index_injective(a: Color, b: Color)
    ensures
        a.index_spec() < 16,
        a.index_spec() == b.index_spec() ==> a == b,
{
}

/// An attribute byte: background color in the high nibble, foreground in the low one.
#[derive(Debug, Clone, Copy, PartialEq, Eq, Structural)]
pub struct ColorCode(pub u8);

/// The attribute byte for a pair of colors.
pub open spec fn color_code_of(foreground: Color, background: Color) -> ColorCode {
    ColorCode((background.index_spec() * 16 + foreground.index_spec()) as u8)
}

impl ColorCode {
    /// Packs a foreground and a background color into one attribute byte.
    pub fn new(foreground: Color, background: Color) -> (code: ColorCode)
        ensures
            code == color_code_of(foreground, background),
            code.0 as int == background.index() as int * 16 + foreground.index() as int,
    {
        let fg = foreground.index();
        let bg = background.index();
        let byte = (bg << 4) | fg;
        assert(byte == bg * 16 + fg) by (bit_vector)
            requires
                fg < 16,
                bg < 16,
                byte == (bg << 4) | fg,
        ;
        ColorCode(byte)
    }
}

/// Attribute bytes keep both colors: different pairs never share a byte, and the
/// low and high nibbles give the foreground and background back.
pub proof fn lemma_color_code_decodes(foreground: Color, background: Color)
    ensures
        color_code_of(foreground, background).0 % 16 == foreground.index_spec(),
        color_code_of(foreground, background).0 / 16 == background.index_spec(),
        forall|f: Color, b: Color|
            color_code_of(f, b) == color_code_of(foreground, background) ==> f == foreground && b
                == background,
{
    assert forall|f: Color, b: Color|
        color_code_of(f, b) == color_code_of(foreground, background) implies f == foreground && b
        == background by {
        lemma_color_index_injective(f, foreground);
        lemma_color_index_injective(b, background);
    }
}

/// The attribute byte used until a color is chosen: white on black.
pub open spec fn default_color_code() -> ColorCode {
    color_code_of(Color::White, Color::Black)
}

impl Default for ColorCode {
    fn default() -> (code: Self)
        ensures
            code == default_color_code(),
    {
        Self::new(Color::White, Color::Black)
    }
}

/// One character cell: an ASCII byte and its attribute byte.
#[derive(Debug, Clone, Copy, PartialEq, Eq, Structural)]
pub struct ScreenChar {
    pub ascii_character: u8,
    pub color_code: ColorCode,
}

/// An empty cell: a space, white on black.
pub open spec fn blank() -> ScreenChar {
    ScreenChar { ascii_character: 0x20, color_code: default_color_code() }
}

impl Default for ScreenChar {
    fn default() -> (c: Self)
        ensures
            c == blank(),
    {
        Self { ascii_character: 0x20, color_code: ColorCode::default() }
    }
}

#[verifier::external_type_specification]
#[verifier::external_body]
#[verifier::reject_recursive_types(T)]
pub struct ExVolatile<T: Copy>(volatile::Volatile<T>);

/// The character that a volatile cell holds.
pub uninterp spec fn cell_content(cell: Volatile<ScreenChar>) -> ScreenChar;

/// `Volatile::new`: the new cell holds the value it was made with.
#[verifier::external_body]
fn new_cell(value: ScreenChar) -> (cell: Volatile<ScreenChar>)
    ensures
        cell_content(cell) == value,
{
    Volatile::new(value)
}

/// `Volatile::read`: a volatile load gives back what the cell holds.
#[verifier::external_body]
fn read_cell(cell: &Volatile<ScreenChar>) -> (value: ScreenChar)
    ensures
        value == cell_content(*cell),
{
    cell.read()
}

/// `Volatile::write`: after a volatile store the cell holds the stored value.
#[verifier::external_body]
fn write_cell(cell: &mut Volatile<ScreenChar>, value: ScreenChar)
    ensures
        cell_content(*final(cell)) == value,
{
    cell.write(value)
}

/// A row made of blank cells.
pub open spec fn blank_row() -> Seq<ScreenChar> {
    Seq::new(BUFFER_WIDTH as nat, |c: int| blank())
}

/// A screen made of blank rows.
pub open spec fn blank_screen() -> Seq<Seq<ScreenChar>> {
    Seq::new(BUFFER_HEIGHT as nat, |r: int| blank_row())
}

/// A grid of BUFFER_HEIGHT rows of BUFFER_WIDTH cells each.
pub open spec fn is_screen(rows: Seq<Seq<ScreenChar>>) -> bool {
    &&& rows.len() == BUFFER_HEIGHT
    &&& forall|r: int| 0 <= r < BUFFER_HEIGHT ==> #[trigger] rows[r].len() == BUFFER_WIDTH
}

/// The text screen's character cells, kept row after row.
pub struct Buffer {
    chars: Vec<Volatile<ScreenChar>>,
}

impl View for Buffer {
    type V = Seq<Seq<ScreenChar>>;

    closed spec fn view(&self) -> Seq<Seq<ScreenChar>> {
        Seq::new(
            BUFFER_HEIGHT as nat,
            |r: int|
                Seq::new(
                    BUFFER_WIDTH as nat,
                    |c: int| cell_content(self.chars@[r * BUFFER_WIDTH + c]),
                ),
        )
    }
}

impl Buffer {
    /// The buffer holds exactly one cell for each row and column.
    pub closed spec fn wf(&self) -> bool {
        self.chars@.len() == BUFFER_HEIGHT * BUFFER_WIDTH
    }

    /// The view of a buffer is always a full grid.
    pub proof fn lemma_view_is_screen(&self)
        ensures
            is_screen(self@),
    {
    }

    /// A buffer whose cells are all blank.
    pub fn new() -> (b: Self)
        ensures
            b.wf(),
            b@ == blank_screen(),
    {
        let mut chars: Vec<Volatile<ScreenChar>> = Vec::new();
        let mut i: usize = 0;
        while i < BUFFER_HEIGHT * BUFFER_WIDTH
            invariant
                i <= BUFFER_HEIGHT * BUFFER_WIDTH,
                chars@.len() == i,
                forall|j: int| 0 <= j < i ==> cell_content(#[trigger] chars@[j]) == blank(),
            decreases BUFFER_HEIGHT * BUFFER_WIDTH - i,
        {
            chars.push(new_cell(ScreenChar::default()));
            i = i + 1;
        }
        let b = Buffer { chars };
        assert(b@ =~= blank_screen()) by {
            assert forall|r: int| 0 <= r < BUFFER_HEIGHT implies #[trigger] b@[r] =~= blank_row() by {
                assert forall|c: int| 0 <= c < BUFFER_WIDTH implies #[trigger] b@[r][c] == blank() by {
                    assert(0 <= r * BUFFER_WIDTH + c < BUFFER_HEIGHT * BUFFER_WIDTH) by (nonlinear_arith)
                        requires 0 <= r < BUFFER_HEIGHT, 0 <= c < BUFFER_WIDTH;
                }
            }
        }
        b
    }

    /// Number of cells in a row.
    pub fn width(&self) -> (w: usize)
        ensures
            w == BUFFER_WIDTH,
    {
        BUFFER_WIDTH
    }

    /// Number of rows.
    pub fn height(&self) -> (h: usize)
        ensures
            h == BUFFER_HEIGHT,
    {
        BUFFER_HEIGHT
    }

    /// The character at a row and column.
    pub fn read(&self, row: usize, col: usize) -> (c: ScreenChar)
        requires
            self.wf(),
            row < BUFFER_HEIGHT,
            col < BUFFER_WIDTH,
        ensures
            c == self@[row as int][col as int],
    {
        read_cell(&self.chars[row * BUFFER_WIDTH + col])
    }

    /// Stores a character at a row and column, leaving every other cell as it was.
    pub fn write(&mut self, row: usize, col: usize, c: ScreenChar)
        requires
            old(self).wf(),
            row < BUFFER_HEIGHT,
            col < BUFFER_WIDTH,
        ensures
            final(self).wf(),
            final(self)@ == old(self)@.update(
                row as int,
                old(self)@[row as int].update(col as int, c),
            ),
    {
        let i = row * BUFFER_WIDTH + col;
        write_cell(&mut self.chars[i], c);
        assert(self@ =~= old(self)@.update(row as int, old(self)@[row as int].update(col as int, c)))
            by {
            assert forall|r: int| 0 <= r < BUFFER_HEIGHT implies #[trigger] self@[r] =~= old(
                self,
            )@.update(row as int, old(self)@[row as int].update(col as int, c))[r] by {
                assert forall|cc: int| 0 <= cc < BUFFER_WIDTH implies #[trigger] self@[r][cc]
                    == old(self)@.update(row as int, old(self)@[row as int].update(col as int, c))[r][cc] by {
                    assert(0 <= r * BUFFER_WIDTH + cc < BUFFER_HEIGHT * BUFFER_WIDTH) by (nonlinear_arith)
                        requires 0 <= r < BUFFER_HEIGHT, 0 <= cc < BUFFER_WIDTH;
                    assert((r * BUFFER_WIDTH + cc == i) == (r == row && cc == col)) by (nonlinear_arith)
                        requires 0 <= r < BUFFER_HEIGHT, 0 <= cc < BUFFER_WIDTH, i == row * BUFFER_WIDTH + col,
                            row < BUFFER_HEIGHT, col < BUFFER_WIDTH;
                }
            }
        }
    }
}

/// What a writer shows and where it stands: the screen's rows, the column at which the
/// next character goes on the bottom row, and the attribute byte it is written with.
pub struct ScreenState {
    pub rows: Seq<Seq<ScreenChar>>,
    pub column: nat,
    pub color: ColorCode,
}

/// Every row moves up by one, the top row is lost, the bottom row is blank, and the
/// next character goes to the start of the bottom row.
pub open spec fn after_new_line(s: ScreenState) -> ScreenState {
    ScreenState { rows: s.rows.drop_first().push(blank_row()), column: 0, color: s.color }
}

/// A newline byte starts a new line. Any other byte goes to the bottom row at the
/// current column, in the current color, after a new line when the row is full.
pub open spec fn after_write_byte(s: ScreenState, byte: u8) -> ScreenState {
    if byte == 10 {
        after_new_line(s)
    } else {
        let t = if s.column >= BUFFER_WIDTH {
            after_new_line(s)
        } else {
            s
        };
        let bottom = BUFFER_HEIGHT - 1;
        ScreenState {
            rows: t.rows.update(
                bottom,
                t.rows[bottom].update(
                    t.column as int,
                    ScreenChar { ascii_character: byte, color_code: t.color },
                ),
            ),
            column: t.column + 1,
            color: t.color,
        }
    }
}

/// The bytes written one after the other.
pub open spec fn after_write_bytes(s: ScreenState, bytes: Seq<u8>) -> ScreenState
    decreases bytes.len(),
{
    if bytes.len() == 0 {
        s
    } else {
        after_write_byte(after_write_bytes(s, bytes.drop_last()), bytes.last())
    }
}

/// A full grid with the column no further than the end of the row.
pub open spec fn valid_state(s: ScreenState) -> bool {
    is_screen(s.rows) && s.column <= BUFFER_WIDTH
}

/// Writes text to the screen, scrolling it up line by line.
pub struct Writer {
    column_position: usize,
    color_code: ColorCode,
    buffer: Buffer,
}

impl View for Writer {
    type V = ScreenState;

    closed spec fn view(&self) -> ScreenState {
        ScreenState {
            rows: self.buffer@,
            column: self.column_position as nat,
            color: self.color_code,
        }
    }
}

impl Writer {
    /// The buffer is a full grid and the column lies within a row or just past its end.
    pub closed spec fn wf(&self) -> bool {
        &&& self.buffer.wf()
        &&& self.column_position <= BUFFER_WIDTH
    }

    /// A well-formed writer's view is a valid state.
    pub proof fn lemma_wf_view(&self)
        requires
            self.wf(),
        ensures
            valid_state(self@),
    {
    }

    /// A writer over a blank screen, at the start of the bottom row, white on black.
    pub fn new() -> (w: Self)
        ensures
            w.wf(),
            w@.rows == blank_screen(),
            w@.column == 0,
            w@.color == default_color_code(),
    {
        Self {
            column_position: 0,
            color_code: ColorCode::new(Color::White, Color::Black),
            buffer: Buffer::new(),
        }
    }

    /// The screen's cells.
    pub fn buffer(&self) -> (b: &Buffer)
        ensures
            b@ == self@.rows,
            self.wf() ==> b.wf(),
    {
        &self.buffer
    }

    /// Writes one byte: a newline starts a new line; any other byte is shown on the
    /// bottom row, on a new line first when the row is full.
    pub fn write_byte(&mut self, byte: u8)
        requires
            old(self).wf(),
        ensures
            final(self).wf(),
            final(self)@ == after_write_byte(old(self)@, byte),
    {
        match byte {
            10u8 => self.new_line(),
            byte => {
                if self.column_position >= self.buffer.width() {
                    self.new_line();
                }
                let row = self.buffer.height() - 1;
                let col = self.column_position;
                let color_code = self.color_code;
                self.buffer.write(row, col, ScreenChar { ascii_character: byte, color_code });
                self.column_position += 1;
            },
        }
    }

    /// Moves every row up by one, blanks the bottom row and returns to its start.
    pub fn new_line(&mut self)
        requires
            old(self).wf(),
        ensures
            final(self).wf(),
            final(self)@ == after_new_line(old(self)@),
    {
        let ghost old_rows = self.buffer@;
        let width = self.buffer.width();
        let height = self.buffer.height();
        let mut col: usize = 0;
        while col < width
            invariant
                width == BUFFER_WIDTH,
                height == BUFFER_HEIGHT,
                col <= width,
                self.buffer.wf(),
                old_rows == old(self).buffer@,
                self.color_code == old(self).color_code,
                is_screen(self.buffer@),
                forall|r: int, c: int|
                    0 <= r < BUFFER_HEIGHT && 0 <= c < col ==> #[trigger] self.buffer@[r][c] == (
                    if r < BUFFER_HEIGHT - 1 {
                        old_rows[r + 1][c]
                    } else {
                        blank()
                    }),
                forall|r: int, c: int|
                    0 <= r < BUFFER_HEIGHT && col <= c < BUFFER_WIDTH
                        ==> #[trigger] self.buffer@[r][c] == old_rows[r][c],
            decreases width - col,
        {
            let mut row: usize = 1;
            while row < height
                invariant
                    width == BUFFER_WIDTH,
                    height == BUFFER_HEIGHT,
                    col < width,
                    1 <= row <= height,
                    self.buffer.wf(),
                    old_rows == old(self).buffer@,
                    self.color_code == old(self).color_code,
                    is_screen(self.buffer@),
                    forall|r: int, c: int|
                        0 <= r < BUFFER_HEIGHT && 0 <= c < col ==> #[trigger] self.buffer@[r][c] == (
                        if r < BUFFER_HEIGHT - 1 {
                            old_rows[r + 1][c]
                        } else {
                            blank()
                        }),
                    forall|r: int, c: int|
                        0 <= r < BUFFER_HEIGHT && col < c < BUFFER_WIDTH
                            ==> #[trigger] self.buffer@[r][c] == old_rows[r][c],
                    forall|r: int|
                        0 <= r < row - 1 ==> #[trigger] self.buffer@[r][col as int] == old_rows[r
                            + 1][col as int],
                    forall|r: int|
                        row - 1 <= r < BUFFER_HEIGHT ==> #[trigger] self.buffer@[r][col as int]
                            == old_rows[r][col as int],
                decreases height - row,
            {
                let moved = self.buffer.read(row, col);
                self.buffer.write(row - 1, col, moved);
                proof {
                    self.buffer.lemma_view_is_screen();
                }
                row = row + 1;
            }
            self.buffer.write(height - 1, col, ScreenChar::default());
            proof {
                self.buffer.lemma_view_is_screen();
            }
            col = col + 1;
        }
        self.column_position = 0;
        proof {
            self.buffer.lemma_view_is_screen();
            assert(self.buffer@ =~= old_rows.drop_first().push(blank_row())) by {
                assert forall|r: int| 0 <= r < BUFFER_HEIGHT implies #[trigger] self.buffer@[r]
                    =~= old_rows.drop_first().push(blank_row())[r] by {
                    assert forall|c: int| 0 <= c < BUFFER_WIDTH implies #[trigger] self.buffer@[r][c]
                        == old_rows.drop_first().push(blank_row())[r][c] by {
                    }
                }
            }
        }
    }

    /// Characters written from now on take these colors.
    pub fn set_color_code(&mut self, foreground: Color, background: Color)
        requires
            old(self).wf(),
        ensures
            final(self).wf(),
            final(self)@ == (ScreenState {
                color: color_code_of(foreground, background),
                ..old(self)@
            }),
    {
        self.color_code = ColorCode::new(foreground, background);
    }

    /// Characters written from now on are white on black again.
    pub fn reset_color(&mut self)
        requires
            old(self).wf(),
        ensures
            final(self).wf(),
            final(self)@ == (ScreenState { color: default_color_code(), ..old(self)@ }),
    {
        self.color_code = ColorCode::default();
    }

    /// Blanks every cell and returns to the start of the bottom row.
    pub fn clear(&mut self)
        requires
            old(self).wf(),
        ensures
            final(self).wf(),
            final(self)@ == (ScreenState {
                rows: blank_screen(),
                column: 0,
                color: old(self)@.color,
            }),
    {
        let width = self.buffer.width();
        let height = self.buffer.height();
        let mut col: usize = 0;
        while col < width
            invariant
                width == BUFFER_WIDTH,
                height == BUFFER_HEIGHT,
                col <= width,
                self.buffer.wf(),
                self.color_code == old(self).color_code,
                is_screen(self.buffer@),
                forall|r: int, c: int|
                    0 <= r < BUFFER_HEIGHT && 0 <= c < col ==> #[trigger] self.buffer@[r][c]
                        == blank(),
            decreases width - col,
        {
            let mut row: usize = 0;
            while row < height
                invariant
                    width == BUFFER_WIDTH,
                    height == BUFFER_HEIGHT,
                    col < width,
                    row <= height,
                    self.buffer.wf(),
                    self.color_code == old(self).color_code,
                    is_screen(self.buffer@),
                    forall|r: int, c: int|
                        0 <= r < BUFFER_HEIGHT && 0 <= c < col ==> #[trigger] self.buffer@[r][c]
                            == blank(),
                    forall|r: int| 0 <= r < row ==> #[trigger] self.buffer@[r][col as int] == blank(),
                decreases height - row,
            {
                self.buffer.write(row, col, ScreenChar::default());
                proof {
                    self.buffer.lemma_view_is_screen();
                }
                row = row + 1;
            }
            col = col + 1;
        }
        self.column_position = 0;
        proof {
            assert(self.buffer@ =~= blank_screen()) by {
                assert forall|r: int| 0 <= r < BUFFER_HEIGHT implies #[trigger] self.buffer@[r]
                    =~= blank_screen()[r] by {
                    assert forall|c: int| 0 <= c < BUFFER_WIDTH implies #[trigger] self.buffer@[r][c]
                        == blank_screen()[r][c] by {}
                }
            }
        }
    }

    /// Writes the bytes of a string one after the other.
    pub fn write_str(&mut self, s: &str)
        requires
            old(self).wf(),
        ensures
            final(self).wf(),
            final(self)@ == after_write_bytes(old(self)@, s.spec_bytes()),
    {
        let bytes = s.as_bytes();
        let mut i: usize = 0;
        while i < bytes.len()
            invariant
                i <= bytes@.len(),
                bytes@ == s.spec_bytes(),
                self.wf(),
                self@ == after_write_bytes(old(self)@, bytes@.subrange(0, i as int)),
            decreases bytes@.len() - i,
        {
            let byte = bytes[i];
            self.write_byte(byte);
            proof {
                assert(bytes@.subrange(0, i + 1).drop_last() =~= bytes@.subrange(0, i as int));
            }
            i = i + 1;
        }
        proof {
            assert(bytes@.subrange(0, i as int) =~= bytes@);
        }
    }
}

impl Default for Writer {
    fn default() -> (w: Self)
        ensures
            w.wf(),
            w@.rows == blank_screen(),
            w@.column == 0,
            w@.color == default_color_code(),
    {
        Self::new()
    }
}

/// Sets the colors in which the console writes from now on.
pub fn set_color_code(writer: &mut Writer, foreground: Color, background: Color)
    requires
        old(writer).wf(),
    ensures
        final(writer).wf(),
        final(writer)@ == (ScreenState { color: color_code_of(foreground, background), ..old(writer)@ }),
{
    writer.set_color_code(foreground, background);
}

/// Returns the console to white on black.
pub fn reset_color(writer: &mut Writer)
    requires
        old(writer).wf(),
    ensures
        final(writer).wf(),
        final(writer)@ == (ScreenState { color: default_color_code(), ..old(writer)@ }),
{
    writer.reset_color();
}

/// Blanks the console.
pub fn clear(writer: &mut Writer)
    requires
        old(writer).wf(),
    ensures
        final(writer).wf(),
        final(writer)@ == (ScreenState { rows: blank_screen(), column: 0, color: old(writer)@.color }),
{
    writer.clear();
}

/// A row whose first cells show a line of text in one color, the rest as they were.
pub open spec fn row_showing(row: Seq<ScreenChar>, line: Seq<u8>, color: ColorCode) -> Seq<
    ScreenChar,
> {
    Seq::new(
        BUFFER_WIDTH as nat,
        |c: int|
            if c < line.len() {
                ScreenChar { ascii_character: line[c], color_code: color }
            } else {
                row[c]
            },
    )
}

/// Bytes of one line: no newline among them, and no more than fit in a row.
pub open spec fn is_single_line(line: Seq<u8>) -> bool {
    &&& line.len() <= BUFFER_WIDTH
    &&& forall|i: int| 0 <= i < line.len() ==> #[trigger] line[i] != 10
}

/// Writing a sequence of one byte is writing that byte.
pub proof fn lemma_write_one_byte(s: ScreenState, byte: u8)
    ensures
        after_write_bytes(s, seq![byte]) == after_write_byte(s, byte),
{
    let one = seq![byte];
    assert(one.drop_last() =~= Seq::<u8>::empty());
    assert(after_write_bytes(s, one.drop_last()) == s);
}

/// Writing bytes in two parts is writing them at once.
pub proof fn lemma_write_bytes_concat(s: ScreenState, a: Seq<u8>, b: Seq<u8>)
    ensures
        after_write_bytes(s, a + b) == after_write_bytes(after_write_bytes(s, a), b),
    decreases b.len(),
{
    if b.len() == 0 {
        assert(a + b =~= a);
    } else {
        assert((a + b).drop_last() =~= a + b.drop_last());
        assert((a + b).last() == b.last());
        lemma_write_bytes_concat(s, a, b.drop_last());
    }
}

/// From the start of the bottom row, a line's bytes fill that row's first cells in the
/// current color and leave every other cell as it was.
pub proof fn lemma_line_fills_bottom_row(s: ScreenState, line: Seq<u8>)
    requires
        valid_state(s),
        s.column == 0,
        is_single_line(line),
    ensures
        after_write_bytes(s, line) == (ScreenState {
            rows: s.rows.update(
                BUFFER_HEIGHT - 1,
                row_showing(s.rows[BUFFER_HEIGHT - 1], line, s.color),
            ),
            column: line.len(),
            color: s.color,
        }),
    decreases line.len(),
{
    let bottom = BUFFER_HEIGHT - 1;
    if line.len() == 0 {
        assert(s.rows.update(bottom, row_showing(s.rows[bottom], line, s.color)) =~= s.rows) by {
            assert(row_showing(s.rows[bottom], line, s.color) =~= s.rows[bottom]);
        }
    } else {
        let prefix = line.drop_last();
        assert forall|i: int| 0 <= i < prefix.len() implies #[trigger] prefix[i] != 10 by {
            assert(prefix[i] == line[i]);
        }
        lemma_line_fills_bottom_row(s, prefix);
        assert(line.last() == line[line.len() - 1]);
        let t = after_write_bytes(s, prefix);
        let u = after_write_byte(t, line.last());
        assert(u.rows =~= s.rows.update(bottom, row_showing(s.rows[bottom], line, s.color))) by {
            assert(u.rows[bottom] =~= row_showing(s.rows[bottom], line, s.color));
        }
    }
}

/// A newline, a line of text and another newline leave that line at the start of the
/// row above the bottom one, in the current color, on an otherwise blank row; the next
/// character goes to the start of the blank bottom row.
pub proof fn lemma_printed_line_lands_above_bottom(s: ScreenState, line: Seq<u8>)
    requires
        valid_state(s),
        is_single_line(line),
    ensures
        ({
            let t = after_write_bytes(s, seq![10u8] + line + seq![10u8]);
            &&& t.rows[BUFFER_HEIGHT - 2] == row_showing(blank_row(), line, s.color)
            &&& t.rows[BUFFER_HEIGHT - 1] == blank_row()
            &&& t.column == 0
            &&& t.color == s.color
        }),
{
    let nl = seq![10u8];
    lemma_write_one_byte(s, 10u8);
    let s1 = after_new_line(s);
    assert(valid_state(s1)) by {
        assert forall|r: int| 0 <= r < BUFFER_HEIGHT implies #[trigger] s1.rows[r].len()
            == BUFFER_WIDTH by {
            if r < BUFFER_HEIGHT - 1 {
                assert(s1.rows[r] == s.rows[r + 1]);
            }
        }
    }
    lemma_line_fills_bottom_row(s1, line);
    let s2 = after_write_bytes(s1, line);
    lemma_write_bytes_concat(s, nl, line);
    lemma_write_bytes_concat(s, nl + line, nl);
    lemma_write_one_byte(s2, 10u8);
}

/// The colors carry the VGA hardware palette numbers, an attribute byte is sixteen times
/// the background's number plus the foreground's, and an empty cell is a space in white
/// on black (attribute byte 0x0f).
pub proof fn lemma_palette_numbers(foreground: Color, background: Color)
    ensures
        Color::Black.index_spec() == 0,
        Color::Blue.index_spec() == 1,
        Color::Green.index_spec() == 2,
        Color::Cyan.index_spec() == 3,
        Color::Red.index_spec() == 4,
        Color::Magenta.index_spec() == 5,
        Color::Brown.index_spec() == 6,
        Color::LightGray.index_spec() == 7,
        Color::DarkGray.index_spec() == 8,
        Color::LightBlue.index_spec() == 9,
        Color::LightGreen.index_spec() == 10,
        Color::LightCyan.index_spec() == 11,
        Color::LightRed.index_spec() == 12,
        Color::Pink.index_spec() == 13,
        Color::Yellow.index_spec() == 14,
        Color::White.index_spec() == 15,
        color_code_of(foreground, background).0 as int == 16 * background.index_spec() as int
            + foreground.index_spec() as int,
        color_code_of(Color::Magenta, Color::Black) == ColorCode(0x05),
        default_color_code() == ColorCode(0x0f),
        blank() == (ScreenChar { ascii_character: 0x20, color_code: ColorCode(0x0f) }),
{
}

/// A new line moves every row up by one, cell for cell with its attribute byte, loses
/// the top row, blanks the bottom row with white-on-black spaces, returns to column 0
/// and keeps the color.
pub proof fn lemma_new_line_scrolls(s: ScreenState)
    requires
        valid_state(s),
    ensures
        ({
            let t = after_new_line(s);
            &&& valid_state(t)
            &&& forall|r: int| 0 <= r < BUFFER_HEIGHT - 1 ==> #[trigger] t.rows[r] == s.rows[r + 1]
            &&& forall|c: int|
                0 <= c < BUFFER_WIDTH ==> #[trigger] t.rows[BUFFER_HEIGHT - 1][c] == (ScreenChar {
                    ascii_character: 0x20,
                    color_code: ColorCode(0x0f),
                })
            &&& t.column == 0
            &&& t.color == s.color
        }),
{
    let t = after_new_line(s);
    assert forall|r: int| 0 <= r < BUFFER_HEIGHT implies #[trigger] t.rows[r].len()
        == BUFFER_WIDTH by {
        if r < BUFFER_HEIGHT - 1 {
            assert(t.rows[r] == s.rows[r + 1]);
        }
    }
}

/// What writing one byte does, in every case:
/// - the color never changes and the state stays valid;
/// - a newline scrolls as a new line does;
/// - any other byte on a row with room lands at the current column, in the current
///   color, the column moves on by one and no other cell changes;
/// - any other byte on a full row first scrolls every row up by one, then lands at the
///   start of the blank bottom row in the current color, and the column becomes 1.
pub proof fn lemma_write_byte_effect(s: ScreenState, byte: u8)
    requires
        valid_state(s),
    ensures
        ({
            let t = after_write_byte(s, byte);
            let bottom = BUFFER_HEIGHT - 1;
            let shown = ScreenChar { ascii_character: byte, color_code: s.color };
            &&& valid_state(t)
            &&& t.color == s.color
            &&& byte == 10 ==> {
                &&& forall|r: int| 0 <= r < bottom ==> #[trigger] t.rows[r] == s.rows[r + 1]
                &&& forall|c: int|
                    0 <= c < BUFFER_WIDTH ==> #[trigger] t.rows[bottom][c] == (ScreenChar {
                        ascii_character: 0x20,
                        color_code: ColorCode(0x0f),
                    })
                &&& t.column == 0
            }
            &&& byte != 10 && s.column < BUFFER_WIDTH ==> {
                &&& t.rows[bottom][s.column as int] == shown
                &&& t.column == s.column + 1
                &&& forall|r: int| 0 <= r < bottom ==> #[trigger] t.rows[r] == s.rows[r]
                &&& forall|c: int|
                    0 <= c < BUFFER_WIDTH && c != s.column ==> #[trigger] t.rows[bottom][c]
                        == s.rows[bottom][c]
            }
            &&& byte != 10 && s.column == BUFFER_WIDTH ==> {
                &&& t.rows[bottom][0] == shown
                &&& t.column == 1
                &&& forall|r: int| 0 <= r < bottom ==> #[trigger] t.rows[r] == s.rows[r + 1]
                &&& forall|c: int|
                    0 < c < BUFFER_WIDTH ==> #[trigger] t.rows[bottom][c] == (ScreenChar {
                        ascii_character: 0x20,
                        color_code: ColorCode(0x0f),
                    })
            }
        }),
{
    lemma_new_line_scrolls(s);
    let t = after_write_byte(s, byte);
    assert forall|r: int| 0 <= r < BUFFER_HEIGHT implies #[trigger] t.rows[r].len()
        == BUFFER_WIDTH by {
        lemma_new_line_scrolls(s);
        if r < BUFFER_HEIGHT - 1 {
            if s.column >= BUFFER_WIDTH || byte == 10 {
                assert(after_new_line(s).rows[r] == s.rows[r + 1]);
            }
        }
    }
}

/// A blank screen is 25 rows of 80 cells, every one a space in white on black.
pub proof fn lemma_blank_screen_cells()
    ensures
        is_screen(blank_screen()),
        forall|r: int, c: int|
            0 <= r < BUFFER_HEIGHT && 0 <= c < BUFFER_WIDTH ==> #[trigger] blank_screen()[r][c] == (
            ScreenChar { ascii_character: 0x20, color_code: ColorCode(0x0f) }),
{
}

/// Writing no bytes changes nothing, and writing bytes followed by one more byte is
/// writing that byte after them.
pub proof fn lemma_write_bytes_steps(s: ScreenState, bytes: Seq<u8>, byte: u8)
    ensures
        after_write_bytes(s, Seq::<u8>::empty()) == s,
        after_write_bytes(s, bytes.push(byte)) == after_write_byte(after_write_bytes(s, bytes), byte),
{
    assert(bytes.push(byte).drop_last() =~= bytes);
}

} // verus!
