//! The escape-sequence parser: a byte-fed state machine whose actions
//! mutate a grid.

use vstd::prelude::*;
use crate::terminal::grid::{Grid, GridState};

verus! {

/// The states of the parser.
#[derive(Clone, Copy, Debug, PartialEq, Eq, Structural)]
pub enum ParserState {
    Ground,
    Escape,
    CsiEntry,
    CsiParam,
    OscString,
}

/// The model of the parser.
pub struct ParserModel {
    /// The state of the machine.
    pub state: ParserState,
    /// The numeric parameters of the control sequence gathered so far.
    pub params: Seq<u16>,
    /// The sequence holds a private marker or an intermediate byte: it is
    /// consumed and then has no effect.
    pub muted: bool,
    /// Continuation bytes that the current UTF-8 sequence still owes.
    pub pending: int,
    /// The bits of the current UTF-8 sequence gathered so far.
    pub scalar: int,
    /// The least scalar value that a sequence of this length may encode.
    pub floor: int,
}

/// Whether `v` is a Unicode scalar value.
pub open spec fn is_scalar_value(v: int) -> bool {
    (0 <= v <= 0xD7FF) || (0xE000 <= v <= 0x10FFFF)
}

/// A parameter with one more decimal digit, saturating at the largest `u16`.
pub open spec fn append_digit(value: u16, digit: int) -> u16 {
    if value * 10 + digit > u16::MAX {
        u16::MAX
    } else {
        (value * 10 + digit) as u16
    }
}

/// The parameters after a digit: it extends the last one, or starts the first.
pub open spec fn push_digit(params: Seq<u16>, digit: int) -> Seq<u16> {
    if params.len() == 0 {
        seq![digit as u16]
    } else {
        params.update(params.len() - 1, append_digit(params.last(), digit))
    }
}

/// The parameters after a separator: the next one starts at zero; a
/// separator that comes first leaves an empty first parameter behind it.
pub open spec fn next_param(params: Seq<u16>) -> Seq<u16> {
    if params.len() == 0 {
        seq![0u16, 0u16]
    } else {
        params.push(0u16)
    }
}

/// Parameter `i` of a sequence, zero where it is missing.
pub open spec fn param_or_zero(params: Seq<u16>, i: int) -> int {
    if 0 <= i < params.len() {
        params[i] as int
    } else {
        0
    }
}

/// The effect on the grid of a control sequence with the given final byte.
pub open spec fn csi_dispatch(grid: GridState, params: Seq<u16>, last: u8) -> GridState {
    let first = param_or_zero(params, 0);
    let second = param_or_zero(params, 1);
    if last == 0x41 {
        grid.cursor_up(first)
    } else if last == 0x42 {
        grid.cursor_down(first)
    } else if last == 0x43 {
        grid.cursor_forward(first)
    } else if last == 0x44 {
        grid.cursor_back(first)
    } else if last == 0x48 || last == 0x66 {
        grid.cursor_position(first, second)
    } else if last == 0x4A {
        grid.erase_display(first)
    } else if last == 0x4B {
        grid.erase_line(first)
    } else if last == 0x4C {
        grid.insert_lines(first)
    } else if last == 0x4D {
        grid.delete_lines(first)
    } else if last == 0x6D {
        grid.sgr(params)
    } else {
        grid
    }
}

impl ParserModel {
    /// The parser at rest in `state`: no parameters, no UTF-8 sequence under way.
    pub open spec fn at(state: ParserState) -> ParserModel {
        ParserModel {
            state,
            params: Seq::empty(),
            muted: false,
            pending: 0,
            scalar: 0,
            floor: 0,
        }
    }

    /// The bounds that the gathered UTF-8 bits keep.
    pub open spec fn wf(self) -> bool {
        &&& 0 <= self.pending <= 3
        &&& 0 <= self.scalar
        &&& 0 <= self.floor <= 0x10000
        &&& self.pending == 3 ==> self.scalar < 8
        &&& self.pending == 2 ==> self.scalar < 512
        &&& self.pending == 1 ==> self.scalar < 32768
        &&& self.pending == 0 ==> self.scalar == 0 && self.floor == 0
        &&& self.state != ParserState::Ground ==> self.pending == 0
    }
}

/// The model of an emulated screen: the parser and the grid it drives.
pub struct Screen {
    pub parser: ParserModel,
    pub grid: GridState,
}

impl Screen {
    /// Both parts are well formed.
    pub open spec fn wf(self) -> bool {
        self.parser.wf() && self.grid.wf()
    }

    /// A new screen: a fresh grid and the parser in its ground state.
    pub open spec fn fresh(cols: int, rows: int) -> Screen {
        Screen { parser: ParserModel::at(ParserState::Ground), grid: GridState::fresh(cols, rows) }
    }

    /// The parser moved to `state`, forgetting what it had gathered.
    pub open spec fn enter(self, state: ParserState) -> Screen {
        Screen { parser: ParserModel::at(state), ..self }
    }

    /// A C0 control: BS, HT, LF and CR move the cursor, the others do nothing.
    pub open spec fn execute(self, byte: u8) -> Screen {
        if byte == 0x08 {
            Screen { grid: self.grid.backspace(), ..self }
        } else if byte == 0x09 {
            Screen { grid: self.grid.tab(), ..self }
        } else if byte == 0x0A {
            Screen { grid: self.grid.line_feed(), ..self }
        } else if byte == 0x0D {
            Screen { grid: self.grid.carriage_return(), ..self }
        } else {
            self
        }
    }

    /// The start of a UTF-8 sequence that owes `pending` more bytes.
    pub open spec fn expect(self, pending: int, scalar: int, floor: int) -> Screen {
        Screen { parser: ParserModel { pending, scalar, floor, ..self.parser }, ..self }
    }

    /// A byte in the ground state with no UTF-8 sequence under way.
    pub open spec fn ground_byte(self, byte: u8) -> Screen {
        if byte == 0x1B {
            self.enter(ParserState::Escape)
        } else if byte < 0x20 {
            self.execute(byte)
        } else if byte < 0x7F {
            Screen { grid: self.grid.put_char(byte as char), ..self }
        } else if 0xC2 <= byte <= 0xDF {
            self.expect(1, byte - 0xC0, 0x80)
        } else if 0xE0 <= byte <= 0xEF {
            self.expect(2, byte - 0xE0, 0x800)
        } else if 0xF0 <= byte <= 0xF4 {
            self.expect(3, byte - 0xF0, 0x10000)
        } else {
            self
        }
    }

    /// A byte in the ground state. A continuation byte extends the UTF-8
    /// sequence under way; the last one prints the decoded character, unless
    /// the encoding is overlong or no scalar value. Any other byte abandons
    /// the sequence and is then taken on its own.
    pub open spec fn ground(self, byte: u8) -> Screen {
        if self.parser.pending > 0 {
            if 0x80 <= byte <= 0xBF {
                let scalar = self.parser.scalar * 64 + (byte - 0x80);
                if self.parser.pending == 1 {
                    let done = self.enter(ParserState::Ground);
                    if scalar >= self.parser.floor && is_scalar_value(scalar) {
                        Screen { grid: self.grid.put_char(scalar as char), ..done }
                    } else {
                        done
                    }
                } else {
                    self.expect(self.parser.pending - 1, scalar, self.parser.floor)
                }
            } else {
                self.enter(ParserState::Ground).ground_byte(byte)
            }
        } else {
            self.ground_byte(byte)
        }
    }

    /// A byte after ESC. Intermediate bytes mute the sequence; the final byte
    /// ends it: `[` opens a control sequence, `]`, `P`, `X`, `^` and `_` open a
    /// string, `c` resets the screen, and any other has no effect.
    pub open spec fn escape(self, byte: u8) -> Screen {
        if byte == 0x1B {
            self.enter(ParserState::Escape)
        } else if byte == 0x18 || byte == 0x1A {
            self.enter(ParserState::Ground)
        } else if byte < 0x20 {
            self.execute(byte)
        } else if byte <= 0x2F {
            Screen { parser: ParserModel { muted: true, ..self.parser }, ..self }
        } else if byte == 0x7F {
            self
        } else if byte >= 0x80 || self.parser.muted {
            self.enter(ParserState::Ground)
        } else if byte == 0x5B {
            self.enter(ParserState::CsiEntry)
        } else if byte == 0x5D || byte == 0x50 || byte == 0x58 || byte == 0x5E || byte == 0x5F {
            self.enter(ParserState::OscString)
        } else if byte == 0x63 {
            Screen { grid: self.grid.reset(), ..self.enter(ParserState::Ground) }
        } else {
            self.enter(ParserState::Ground)
        }
    }

    /// A byte inside a control sequence: digits and `;` build the parameters,
    /// private markers, `:` and intermediate bytes mute the sequence, and the
    /// final byte dispatches it unless it is muted.
    pub open spec fn csi(self, byte: u8) -> Screen {
        if byte == 0x1B {
            self.enter(ParserState::Escape)
        } else if byte == 0x18 || byte == 0x1A {
            self.enter(ParserState::Ground)
        } else if byte < 0x20 {
            self.execute(byte)
        } else if byte <= 0x2F {
            Screen {
                parser: ParserModel { state: ParserState::CsiParam, muted: true, ..self.parser },
                ..self
            }
        } else if byte <= 0x39 {
            Screen {
                parser: ParserModel {
                    state: ParserState::CsiParam,
                    params: push_digit(self.parser.params, byte - 0x30),
                    ..self.parser
                },
                ..self
            }
        } else if byte == 0x3B {
            Screen {
                parser: ParserModel {
                    state: ParserState::CsiParam,
                    params: next_param(self.parser.params),
                    ..self.parser
                },
                ..self
            }
        } else if byte <= 0x3F {
            Screen {
                parser: ParserModel { state: ParserState::CsiParam, muted: true, ..self.parser },
                ..self
            }
        } else if byte <= 0x7E {
            if self.parser.muted {
                self.enter(ParserState::Ground)
            } else {
                Screen {
                    grid: csi_dispatch(self.grid, self.parser.params, byte),
                    ..self.enter(ParserState::Ground)
                }
            }
        } else if byte == 0x7F {
            self
        } else {
            self.enter(ParserState::Ground)
        }
    }

    /// A byte inside an operating-system command or another string: BEL,
    /// CAN and SUB end it, ESC starts a new sequence, the rest is consumed.
    pub open spec fn osc(self, byte: u8) -> Screen {
        if byte == 0x1B {
            self.enter(ParserState::Escape)
        } else if byte == 0x07 || byte == 0x18 || byte == 0x1A {
            self.enter(ParserState::Ground)
        } else {
            self
        }
    }

    /// One byte of child output.
    pub open spec fn step(self, byte: u8) -> Screen {
        match self.parser.state {
            ParserState::Ground => self.ground(byte),
            ParserState::Escape => self.escape(byte),
            ParserState::CsiEntry => self.csi(byte),
            ParserState::CsiParam => self.csi(byte),
            ParserState::OscString => self.osc(byte),
        }
    }

    /// The bytes of child output, in order.
    pub open spec fn feed(self, bytes: Seq<u8>) -> Screen
        decreases bytes.len(),
    {
        if bytes.len() == 0 {
            self
        } else {
            self.feed(bytes.drop_last()).step(bytes.last())
        }
    }
}

/// `char::from_u32` of std: `Some` of the character with that scalar value,
/// and `None` where the number is a surrogate or lies above U+10FFFF.
pub assume_specification[ char::from_u32 ](i: u32) -> (r: Option<char>)
    ensures
        r is Some <==> is_scalar_value(i as int),
        r matches Some(c) ==> c as u32 == i,
;

/// The parser of one session.
pub struct Parser {
    state: ParserState,
    params: Vec<u16>,
    muted: bool,
    pending: u8,
    scalar: u32,
    floor: u32,
}

impl View for Parser {
    type V = ParserModel;

    closed spec fn view(&self) -> ParserModel {
        ParserModel {
            state: self.state,
            params: self.params@,
            muted: self.muted,
            pending: self.pending as int,
            scalar: self.scalar as int,
            floor: self.floor as int,
        }
    }
}

/// The screen that a parser and a grid stand for together.
pub open spec fn screen_of(parser: &Parser, grid: &Grid) -> Screen {
    Screen { parser: parser@, grid: grid@ }
}

impl Parser {
    /// The invariant of a parser: its model is well formed.
    pub open spec fn wf(&self) -> bool {
        self@.wf()
    }

    /// A parser in its ground state.
    pub fn new() -> (parser: Parser)
        ensures
            parser.wf(),
            parser@ == ParserModel::at(ParserState::Ground),
    {
        Parser {
            state: ParserState::Ground,
            params: Vec::new(),
            muted: false,
            pending: 0,
            scalar: 0,
            floor: 0,
        }
    }

    /// The state of the machine.
    pub fn state(&self) -> (state: ParserState)
        ensures
            state == self@.state,
    {
        self.state
    }

    /// Moves to `state` and forgets what was gathered.
    fn enter(&mut self, state: ParserState)
        ensures
            final(self)@ == ParserModel::at(state),
    {
        self.state = state;
        self.params.clear();
        self.muted = false;
        self.pending = 0;
        self.scalar = 0;
        self.floor = 0;
    }

    /// Carries out a C0 control.
    fn execute(grid: &mut Grid, byte: u8)
        requires
            old(grid).wf(),
        ensures
            final(grid).wf(),
            forall|p: ParserModel|
                (#[trigger] Screen { parser: p, grid: old(grid)@ }.execute(byte)) == (Screen {
                    parser: p,
                    grid: final(grid)@,
                }),
    {
        if byte == 0x08 {
            grid.backspace();
        } else if byte == 0x09 {
            grid.tab();
        } else if byte == 0x0A {
            grid.line_feed();
        } else if byte == 0x0D {
            grid.carriage_return();
        }
    }

    /// Takes a byte in the ground state with no UTF-8 sequence under way.
    fn ground_byte(&mut self, grid: &mut Grid, byte: u8)
        requires
            old(self).wf(),
            old(self)@.pending == 0,
            old(self)@.state == ParserState::Ground,
            old(grid).wf(),
        ensures
            final(self).wf(),
            final(grid).wf(),
            screen_of(final(self), final(grid)) == screen_of(old(self), old(grid)).ground_byte(byte),
    {
        if byte == 0x1B {
            self.enter(ParserState::Escape);
        } else if byte < 0x20 {
            Self::execute(grid, byte);
        } else if byte < 0x7F {
            grid.put_char(byte as char);
        } else if 0xC2 <= byte && byte <= 0xDF {
            self.pending = 1;
            self.scalar = (byte - 0xC0) as u32;
            self.floor = 0x80;
        } else if 0xE0 <= byte && byte <= 0xEF {
            self.pending = 2;
            self.scalar = (byte - 0xE0) as u32;
            self.floor = 0x800;
        } else if 0xF0 <= byte && byte <= 0xF4 {
            self.pending = 3;
            self.scalar = (byte - 0xF0) as u32;
            self.floor = 0x10000;
        }
    }

    /// Takes a byte in the ground state.
    fn ground(&mut self, grid: &mut Grid, byte: u8)
        requires
            old(self).wf(),
            old(self)@.state == ParserState::Ground,
            old(grid).wf(),
        ensures
            final(self).wf(),
            final(grid).wf(),
            screen_of(final(self), final(grid)) == screen_of(old(self), old(grid)).ground(byte),
    {
        if self.pending > 0 {
            if 0x80 <= byte && byte <= 0xBF {
                let scalar: u32 = self.scalar * 64 + (byte - 0x80) as u32;
                if self.pending == 1 {
                    let floor = self.floor;
                    self.enter(ParserState::Ground);
                    if scalar >= floor {
                        match char::from_u32(scalar) {
                            Some(ch) => {
                                proof {
                                    vstd::utf8::char_u32_cast(ch, scalar);
                                }
                                grid.put_char(ch);
                            },
                            None => {},
                        }
                    }
                } else {
                    self.pending = self.pending - 1;
                    self.scalar = scalar;
                }
            } else {
                self.enter(ParserState::Ground);
                self.ground_byte(grid, byte);
            }
        } else {
            self.ground_byte(grid, byte);
        }
    }

    /// Takes a byte after ESC.
    fn escape(&mut self, grid: &mut Grid, byte: u8)
        requires
            old(self).wf(),
            old(self)@.state == ParserState::Escape,
            old(grid).wf(),
        ensures
            final(self).wf(),
            final(grid).wf(),
            screen_of(final(self), final(grid)) == screen_of(old(self), old(grid)).escape(byte),
    {
        if byte == 0x1B {
            self.enter(ParserState::Escape);
        } else if byte == 0x18 || byte == 0x1A {
            self.enter(ParserState::Ground);
        } else if byte < 0x20 {
            Self::execute(grid, byte);
        } else if byte <= 0x2F {
            self.muted = true;
        } else if byte == 0x7F {
        } else if byte >= 0x80 || self.muted {
            self.enter(ParserState::Ground);
        } else if byte == 0x5B {
            self.enter(ParserState::CsiEntry);
        } else if byte == 0x5D || byte == 0x50 || byte == 0x58 || byte == 0x5E || byte == 0x5F {
            self.enter(ParserState::OscString);
        } else if byte == 0x63 {
            self.enter(ParserState::Ground);
            grid.reset();
        } else {
            self.enter(ParserState::Ground);
        }
    }

    /// Takes a digit of a parameter.
    fn push_digit(&mut self, digit: u8)
        requires
            digit <= 9,
        ensures
            final(self)@ == (ParserModel {
                params: push_digit(old(self)@.params, digit as int),
                ..old(self)@
            }),
    {
        let n = self.params.len();
        if n == 0 {
            self.params.push(digit as u16);
            assert(self.params@ =~= push_digit(old(self)@.params, digit as int));
        } else {
            let value = self.params[n - 1];
            let wide: u32 = value as u32 * 10 + digit as u32;
            let next: u16 = if wide > 0xFFFF { 0xFFFF } else { wide as u16 };
            self.params[n - 1] = next;
        }
    }

    /// Takes the separator of two parameters.
    fn next_param(&mut self)
        ensures
            final(self)@ == (ParserModel { params: next_param(old(self)@.params), ..old(self)@ }),
    {
        if self.params.len() == 0 {
            self.params.push(0);
        }
        self.params.push(0);
        assert(self.params@ =~= next_param(old(self)@.params));
    }

    /// Carries out the control sequence that `last` ends.
    fn dispatch(&self, grid: &mut Grid, last: u8)
        requires
            old(grid).wf(),
        ensures
            final(grid).wf(),
            final(grid)@ == csi_dispatch(old(grid)@, self@.params, last),
    {
        let first: u16 = if self.params.len() > 0 { self.params[0] } else { 0 };
        let second: u16 = if self.params.len() > 1 { self.params[1] } else { 0 };
        if last == 0x41 {
            grid.cursor_up(first);
        } else if last == 0x42 {
            grid.cursor_down(first);
        } else if last == 0x43 {
            grid.cursor_forward(first);
        } else if last == 0x44 {
            grid.cursor_back(first);
        } else if last == 0x48 || last == 0x66 {
            grid.cursor_position(first, second);
        } else if last == 0x4A {
            grid.erase_display(first);
        } else if last == 0x4B {
            grid.erase_line(first);
        } else if last == 0x4C {
            grid.insert_lines(first);
        } else if last == 0x4D {
            grid.delete_lines(first);
        } else if last == 0x6D {
            grid.sgr(&self.params);
        }
    }

    /// Takes a byte inside a control sequence.
    fn csi(&mut self, grid: &mut Grid, byte: u8)
        requires
            old(self).wf(),
            old(self)@.state == ParserState::CsiEntry || old(self)@.state == ParserState::CsiParam,
            old(grid).wf(),
        ensures
            final(self).wf(),
            final(grid).wf(),
            screen_of(final(self), final(grid)) == screen_of(old(self), old(grid)).csi(byte),
    {
        if byte == 0x1B {
            self.enter(ParserState::Escape);
        } else if byte == 0x18 || byte == 0x1A {
            self.enter(ParserState::Ground);
        } else if byte < 0x20 {
            Self::execute(grid, byte);
        } else if byte <= 0x2F {
            self.state = ParserState::CsiParam;
            self.muted = true;
        } else if byte <= 0x39 {
            self.state = ParserState::CsiParam;
            self.push_digit(byte - 0x30);
        } else if byte == 0x3B {
            self.state = ParserState::CsiParam;
            self.next_param();
        } else if byte <= 0x3F {
            self.state = ParserState::CsiParam;
            self.muted = true;
        } else if byte <= 0x7E {
            if !self.muted {
                self.dispatch(grid, byte);
            }
            self.enter(ParserState::Ground);
        } else if byte == 0x7F {
        } else {
            self.enter(ParserState::Ground);
        }
    }

    /// Takes a byte inside a string.
    fn osc(&mut self, byte: u8)
        requires
            old(self).wf(),
            old(self)@.state == ParserState::OscString,
        ensures
            final(self).wf(),
            forall|g: GridState|
                (#[trigger] Screen { parser: old(self)@, grid: g }.osc(byte)) == (Screen {
                    parser: final(self)@,
                    grid: g,
                }),
    {
        if byte == 0x1B {
            self.enter(ParserState::Escape);
        } else if byte == 0x07 || byte == 0x18 || byte == 0x1A {
            self.enter(ParserState::Ground);
        }
    }

    /// Takes one byte of child output and applies its effect to `grid`.
    pub fn advance(&mut self, grid: &mut Grid, byte: u8)
        requires
            old(self).wf(),
            old(grid).wf(),
        ensures
            final(self).wf(),
            final(grid).wf(),
            screen_of(final(self), final(grid)) == screen_of(old(self), old(grid)).step(byte),
    {
        match self.state {
            ParserState::Ground => self.ground(grid, byte),
            ParserState::Escape => self.escape(grid, byte),
            ParserState::CsiEntry => self.csi(grid, byte),
            ParserState::CsiParam => self.csi(grid, byte),
            ParserState::OscString => {
                self.osc(byte);
                assert(screen_of(old(self), old(grid)).osc(byte) == screen_of(self, grid));
            },
        }
    }

    /// Takes a chunk of child output, byte by byte.
    pub fn feed(&mut self, grid: &mut Grid, bytes: &[u8])
        requires
            old(self).wf(),
            old(grid).wf(),
        ensures
            final(self).wf(),
            final(grid).wf(),
            screen_of(final(self), final(grid)) == screen_of(old(self), old(grid)).feed(bytes@),
    {
        let ghost start = screen_of(self, grid);
        let mut i: usize = 0;
        while i < bytes.len()
            invariant
                i <= bytes.len(),
                self.wf(),
                grid.wf(),
                screen_of(self, grid) == start.feed(bytes@.take(i as int)),
            decreases bytes.len() - i,
        {
            assert(bytes@.take(i + 1).drop_last() =~= bytes@.take(i as int));
            self.advance(grid, bytes[i]);
            i += 1;
        }
        assert(bytes@.take(bytes.len() as int) =~= bytes@);
    }
}

} // verus!
