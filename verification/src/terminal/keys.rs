//! Key events and the bytes that a terminal sends for them.

use vstd::prelude::*;

verus! {

/// The key of a key event.
#[derive(Clone, Copy, Debug, PartialEq, Eq, Structural)]
pub enum KeyCode {
    Backspace,
    Enter,
    Left,
    Right,
    Up,
    Down,
    Home,
    End,
    PageUp,
    PageDown,
    Tab,
    BackTab,
    Delete,
    Insert,
    F(u8),
    Char(char),
    Null,
    Esc,
}

/// The modifier keys held during a key event. `extra` stands for any
/// modifier other than Shift, Control and Alt.
#[derive(Clone, Copy, Debug, PartialEq, Eq, Structural)]
pub struct KeyModifiers {
    pub shift: bool,
    pub control: bool,
    pub alt: bool,
    pub extra: bool,
}

/// A key with its modifiers.
#[derive(Clone, Copy, Debug, PartialEq, Eq, Structural)]
pub struct KeyEvent {
    pub code: KeyCode,
    pub modifiers: KeyModifiers,
}

impl KeyModifiers {
    /// No modifier is held.
    pub open spec fn is_none(self) -> bool {
        !self.shift && !self.control && !self.alt && !self.extra
    }

    /// Control is held and nothing else.
    pub open spec fn is_control(self) -> bool {
        !self.shift && self.control && !self.alt && !self.extra
    }

    /// Alt is held and nothing else.
    pub open spec fn is_alt(self) -> bool {
        !self.shift && !self.control && self.alt && !self.extra
    }

    /// Shift is held and nothing else.
    pub open spec fn is_shift(self) -> bool {
        self.shift && !self.control && !self.alt && !self.extra
    }

    /// No modifier.
    pub fn none() -> (m: KeyModifiers)
        ensures
            m.is_none(),
    {
        KeyModifiers { shift: false, control: false, alt: false, extra: false }
    }

    /// Control alone.
    pub fn control() -> (m: KeyModifiers)
        ensures
            m.is_control(),
    {
        KeyModifiers { shift: false, control: true, alt: false, extra: false }
    }

    /// Alt alone.
    pub fn alt() -> (m: KeyModifiers)
        ensures
            m.is_alt(),
    {
        KeyModifiers { shift: false, control: false, alt: true, extra: false }
    }

    /// Shift alone.
    pub fn shift() -> (m: KeyModifiers)
        ensures
            m.is_shift(),
    {
        KeyModifiers { shift: true, control: false, alt: false, extra: false }
    }
}

impl KeyEvent {
    /// The event of `code` pressed with `modifiers`.
    pub fn new(code: KeyCode, modifiers: KeyModifiers) -> (key: KeyEvent)
        ensures
            key == (KeyEvent { code, modifiers }),
    {
        KeyEvent { code, modifiers }
    }
}

/// The UTF-8 encoding of the scalar value `v`.
pub open spec fn utf8_of(v: int) -> Seq<u8> {
    if v < 0x80 {
        seq![v as u8]
    } else if v < 0x800 {
        seq![(0xC0 + v / 64) as u8, (0x80 + v % 64) as u8]
    } else if v < 0x10000 {
        seq![(0xE0 + v / 4096) as u8, (0x80 + (v / 64) % 64) as u8, (0x80 + v % 64) as u8]
    } else {
        seq![
            (0xF0 + v / 262144) as u8,
            (0x80 + (v / 4096) % 64) as u8,
            (0x80 + (v / 64) % 64) as u8,
            (0x80 + v % 64) as u8,
        ]
    }
}

/// The byte that Control sends with the character `v`; nothing where the
/// combination has none. Letters count in either case.
pub open spec fn control_bytes(v: int) -> Seq<u8> {
    if 0x61 <= v <= 0x7A {
        seq![(v - 0x61 + 1) as u8]
    } else if 0x41 <= v <= 0x5A {
        seq![(v - 0x41 + 1) as u8]
    } else if v == 0x20 {
        seq![0u8]
    } else if v == 0x5C {
        seq![28u8]
    } else if v == 0x5D {
        seq![29u8]
    } else if v == 0x5E {
        seq![30u8]
    } else if v == 0x5F {
        seq![31u8]
    } else {
        Seq::empty()
    }
}

/// The bytes of function key `n`; nothing beyond F12.
pub open spec fn function_key_bytes(n: int) -> Seq<u8> {
    if n == 1 {
        seq![0x1Bu8, 0x4Fu8, 0x50u8]
    } else if n == 2 {
        seq![0x1Bu8, 0x4Fu8, 0x51u8]
    } else if n == 3 {
        seq![0x1Bu8, 0x4Fu8, 0x52u8]
    } else if n == 4 {
        seq![0x1Bu8, 0x4Fu8, 0x53u8]
    } else if n == 5 {
        seq![0x1Bu8, 0x5Bu8, 0x31u8, 0x35u8, 0x7Eu8]
    } else if n == 6 {
        seq![0x1Bu8, 0x5Bu8, 0x31u8, 0x37u8, 0x7Eu8]
    } else if n == 7 {
        seq![0x1Bu8, 0x5Bu8, 0x31u8, 0x38u8, 0x7Eu8]
    } else if n == 8 {
        seq![0x1Bu8, 0x5Bu8, 0x31u8, 0x39u8, 0x7Eu8]
    } else if n == 9 {
        seq![0x1Bu8, 0x5Bu8, 0x32u8, 0x30u8, 0x7Eu8]
    } else if n == 10 {
        seq![0x1Bu8, 0x5Bu8, 0x32u8, 0x31u8, 0x7Eu8]
    } else if n == 11 {
        seq![0x1Bu8, 0x5Bu8, 0x32u8, 0x33u8, 0x7Eu8]
    } else if n == 12 {
        seq![0x1Bu8, 0x5Bu8, 0x32u8, 0x34u8, 0x7Eu8]
    } else {
        Seq::empty()
    }
}

/// The bytes of an arrow key with final byte `last`: `ESC [ last` alone,
/// `ESC ESC [ last` with Alt, nothing with other modifiers.
pub open spec fn arrow_bytes(modifiers: KeyModifiers, last: u8) -> Seq<u8> {
    if modifiers.is_none() {
        seq![0x1Bu8, 0x5Bu8, last]
    } else if modifiers.is_alt() {
        seq![0x1Bu8, 0x1Bu8, 0x5Bu8, last]
    } else {
        Seq::empty()
    }
}

/// The bytes that a key sends to the child: the key-to-bytes table.
/// A combination that the table does not hold sends nothing.
pub open spec fn key_bytes(key: KeyEvent) -> Seq<u8> {
    match key.code {
        KeyCode::Char(c) => if key.modifiers.is_none() {
            utf8_of(c as int)
        } else if key.modifiers.is_control() {
            control_bytes(c as int)
        } else if key.modifiers.is_alt() {
            seq![0x1Bu8] + utf8_of(c as int)
        } else {
            Seq::empty()
        },
        KeyCode::Enter => seq![0x0Du8],
        KeyCode::Backspace => seq![0x7Fu8],
        KeyCode::Left => arrow_bytes(key.modifiers, 0x44),
        KeyCode::Right => arrow_bytes(key.modifiers, 0x43),
        KeyCode::Up => arrow_bytes(key.modifiers, 0x41),
        KeyCode::Down => arrow_bytes(key.modifiers, 0x42),
        KeyCode::Home => seq![0x1Bu8, 0x5Bu8, 0x48u8],
        KeyCode::End => seq![0x1Bu8, 0x5Bu8, 0x46u8],
        KeyCode::PageUp => seq![0x1Bu8, 0x5Bu8, 0x35u8, 0x7Eu8],
        KeyCode::PageDown => seq![0x1Bu8, 0x5Bu8, 0x36u8, 0x7Eu8],
        KeyCode::Tab => if key.modifiers.is_none() {
            seq![0x09u8]
        } else if key.modifiers.is_shift() {
            seq![0x1Bu8, 0x5Bu8, 0x5Au8]
        } else {
            Seq::empty()
        },
        KeyCode::Delete => seq![0x1Bu8, 0x5Bu8, 0x33u8, 0x7Eu8],
        KeyCode::Insert => seq![0x1Bu8, 0x5Bu8, 0x32u8, 0x7Eu8],
        KeyCode::F(n) => function_key_bytes(n as int),
        KeyCode::Esc => seq![0x1Bu8],
        KeyCode::BackTab => Seq::empty(),
        KeyCode::Null => Seq::empty(),
    }
}

/// The bytes of a run of keys: those of each key, in order.
pub open spec fn keys_bytes(keys: Seq<KeyEvent>) -> Seq<u8>
    decreases keys.len(),
{
    if keys.len() == 0 {
        Seq::empty()
    } else {
        keys_bytes(keys.drop_last()) + key_bytes(keys.last())
    }
}

/// Appends the UTF-8 bytes of `c`.
fn push_utf8(out: &mut Vec<u8>, c: char)
    ensures
        final(out)@ == old(out)@ + utf8_of(c as int),
{
    let v: u32 = c as u32;
    if v < 0x80 {
        out.push(v as u8);
    } else if v < 0x800 {
        out.push((0xC0 + v / 64) as u8);
        out.push((0x80 + v % 64) as u8);
    } else if v < 0x10000 {
        out.push((0xE0 + v / 4096) as u8);
        out.push((0x80 + (v / 64) % 64) as u8);
        out.push((0x80 + v % 64) as u8);
    } else {
        out.push((0xF0 + v / 262144) as u8);
        out.push((0x80 + (v / 4096) % 64) as u8);
        out.push((0x80 + (v / 64) % 64) as u8);
        out.push((0x80 + v % 64) as u8);
    }
    assert(out@ =~= old(out)@ + utf8_of(c as int));
}

/// Appends the byte that Control sends with `c`, if there is one.
fn push_control(out: &mut Vec<u8>, c: char)
    ensures
        final(out)@ == old(out)@ + control_bytes(c as int),
{
    let v: u32 = c as u32;
    if 0x61 <= v && v <= 0x7A {
        out.push((v - 0x61 + 1) as u8);
    } else if 0x41 <= v && v <= 0x5A {
        out.push((v - 0x41 + 1) as u8);
    } else if v == 0x20 {
        out.push(0);
    } else if v == 0x5C {
        out.push(28);
    } else if v == 0x5D {
        out.push(29);
    } else if v == 0x5E {
        out.push(30);
    } else if v == 0x5F {
        out.push(31);
    }
    assert(out@ =~= old(out)@ + control_bytes(c as int));
}

/// Appends the bytes of function key `n`.
fn push_function_key(out: &mut Vec<u8>, n: u8)
    ensures
        final(out)@ == old(out)@ + function_key_bytes(n as int),
{
    if 1 <= n && n <= 4 {
        out.push(0x1B);
        out.push(0x4F);
        out.push(0x50 + (n - 1));
    } else if 5 <= n && n <= 12 {
        let tens: u8 = if n <= 8 { 0x31 } else { 0x32 };
        let units: u8 = if n == 5 {
            0x35
        } else if n == 6 {
            0x37
        } else if n == 7 {
            0x38
        } else if n == 8 {
            0x39
        } else if n == 9 {
            0x30
        } else if n == 10 {
            0x31
        } else if n == 11 {
            0x33
        } else {
            0x34
        };
        out.push(0x1B);
        out.push(0x5B);
        out.push(tens);
        out.push(units);
        out.push(0x7E);
    }
    assert(out@ =~= old(out)@ + function_key_bytes(n as int));
}

/// Appends the bytes of an arrow key with final byte `last`.
fn push_arrow(out: &mut Vec<u8>, modifiers: KeyModifiers, last: u8)
    ensures
        final(out)@ == old(out)@ + arrow_bytes(modifiers, last),
{
    let plain = !modifiers.shift && !modifiers.control && !modifiers.extra;
    if plain && !modifiers.alt {
        out.push(0x1B);
        out.push(0x5B);
        out.push(last);
    } else if plain && modifiers.alt {
        out.push(0x1B);
        out.push(0x1B);
        out.push(0x5B);
        out.push(last);
    }
    assert(out@ =~= old(out)@ + arrow_bytes(modifiers, last));
}

/// Appends `ESC [ digit ~`.
fn push_csi_tilde(out: &mut Vec<u8>, digit: u8)
    ensures
        final(out)@ == old(out)@ + seq![0x1Bu8, 0x5Bu8, digit, 0x7Eu8],
{
    out.push(0x1B);
    out.push(0x5B);
    out.push(digit);
    out.push(0x7E);
    assert(out@ =~= old(out)@ + seq![0x1Bu8, 0x5Bu8, digit, 0x7Eu8]);
}

/// Appends `ESC [ last`.
fn push_csi(out: &mut Vec<u8>, last: u8)
    ensures
        final(out)@ == old(out)@ + seq![0x1Bu8, 0x5Bu8, last],
{
    out.push(0x1B);
    out.push(0x5B);
    out.push(last);
    assert(out@ =~= old(out)@ + seq![0x1Bu8, 0x5Bu8, last]);
}

/// Appends the bytes of `key` to `out`.
pub fn push_key(out: &mut Vec<u8>, key: KeyEvent)
    ensures
        final(out)@ == old(out)@ + key_bytes(key),
{
    let m = key.modifiers;
    let plain = !m.shift && !m.control && !m.alt && !m.extra;
    match key.code {
        KeyCode::Char(c) => {
            if plain {
                push_utf8(out, c);
            } else if !m.shift && m.control && !m.alt && !m.extra {
                push_control(out, c);
            } else if !m.shift && !m.control && m.alt && !m.extra {
                out.push(0x1B);
                push_utf8(out, c);
                assert(out@ =~= old(out)@ + (seq![0x1Bu8] + utf8_of(c as int)));
            }
        },
        KeyCode::Enter => {
            out.push(0x0D);
        },
        KeyCode::Backspace => {
            out.push(0x7F);
        },
        KeyCode::Left => {
            push_arrow(out, m, 0x44);
        },
        KeyCode::Right => {
            push_arrow(out, m, 0x43);
        },
        KeyCode::Up => {
            push_arrow(out, m, 0x41);
        },
        KeyCode::Down => {
            push_arrow(out, m, 0x42);
        },
        KeyCode::Home => {
            push_csi(out, 0x48);
        },
        KeyCode::End => {
            push_csi(out, 0x46);
        },
        KeyCode::PageUp => {
            push_csi_tilde(out, 0x35);
        },
        KeyCode::PageDown => {
            push_csi_tilde(out, 0x36);
        },
        KeyCode::Tab => {
            if plain {
                out.push(0x09);
            } else if m.shift && !m.control && !m.alt && !m.extra {
                push_csi(out, 0x5A);
            }
        },
        KeyCode::Delete => {
            push_csi_tilde(out, 0x33);
        },
        KeyCode::Insert => {
            push_csi_tilde(out, 0x32);
        },
        KeyCode::F(n) => {
            push_function_key(out, n);
        },
        KeyCode::Esc => {
            out.push(0x1B);
        },
        KeyCode::BackTab => {},
        KeyCode::Null => {},
    }
    assert(out@ =~= old(out)@ + key_bytes(key));
}

/// The bytes that `key` sends to the child.
pub fn convert_key_to_bytes(key: KeyEvent) -> (bytes: Vec<u8>)
    ensures
        bytes@ == key_bytes(key),
{
    let mut bytes: Vec<u8> = Vec::new();
    push_key(&mut bytes, key);
    assert(bytes@ =~= key_bytes(key));
    bytes
}

/// The bytes that a run of keys sends to the child.
pub fn convert_keys_to_bytes(keys: &Vec<KeyEvent>) -> (bytes: Vec<u8>)
    ensures
        bytes@ == keys_bytes(keys@),
{
    let mut bytes: Vec<u8> = Vec::new();
    let mut i: usize = 0;
    while i < keys.len()
        invariant
            i <= keys.len(),
            bytes@ == keys_bytes(keys@.take(i as int)),
        decreases keys.len() - i,
    {
        assert(keys@.take(i + 1).drop_last() =~= keys@.take(i as int));
        push_key(&mut bytes, keys[i]);
        i += 1;
    }
    assert(keys@.take(keys.len() as int) =~= keys@);
    bytes
}

/// The bytes of two runs of keys, one after the other, are the bytes of the
/// joined run: encoding keeps the order of the keys.
pub proof fn lemma_keys_bytes_concat(a: Seq<KeyEvent>, b: Seq<KeyEvent>)
    ensures
        keys_bytes(a + b) == keys_bytes(a) + keys_bytes(b),
    decreases b.len(),
{
    if b.len() == 0 {
        assert(a + b =~= a);
        assert(keys_bytes(a) + keys_bytes(b) =~= keys_bytes(a));
    } else {
        lemma_keys_bytes_concat(a, b.drop_last());
        assert((a + b).drop_last() =~= a + b.drop_last());
        assert(keys_bytes(a + b) =~= keys_bytes(a) + keys_bytes(b));
    }
}

/// The bytes of two keys are those of the first, then those of the second.
pub proof fn lemma_two_keys(first: KeyEvent, second: KeyEvent)
    ensures
        keys_bytes(seq![first, second]) == key_bytes(first) + key_bytes(second),
{
    let both = seq![first, second];
    assert(both.drop_last() =~= seq![first]);
    assert(seq![first].drop_last() =~= Seq::<KeyEvent>::empty());
    assert(keys_bytes(Seq::<KeyEvent>::empty()) =~= Seq::<u8>::empty());
    assert(seq![first].last() == first);
    assert(keys_bytes(seq![first]) =~= key_bytes(first));
}

} // verus!
