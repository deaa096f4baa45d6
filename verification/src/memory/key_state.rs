use vstd::prelude::*;

verus! {

/// A bitmask over the sixteen keypad symbols: bit `i` (counted from the
/// most significant end) reflects "symbol `i` is currently held down".
/// The mapping from host key codes to symbols is the host's business; this
/// is a pure bitmask.
#[derive(Clone, Copy, Debug, PartialEq, Eq, Structural)]
pub struct KeyState(pub u16);

/// One of the sixteen keypad symbols, 0 through 9 and A through F.
#[derive(Clone, Copy, Debug, PartialEq, Eq, Structural)]
pub enum Key {
    Zero,
    One,
    Two,
    Three,
    Four,
    Five,
    Six,
    Seven,
    Eight,
    Nine,
    A,
    B,
    C,
    D,
    E,
    F,
}

impl Key {
    /// The symbol's value, 0 through 15.
    pub open spec fn value_spec(self) -> u16 {
        match self {
            Key::Zero => 0,
            Key::One => 1,
            Key::Two => 2,
            Key::Three => 3,
            Key::Four => 4,
            Key::Five => 5,
            Key::Six => 6,
            Key::Seven => 7,
            Key::Eight => 8,
            Key::Nine => 9,
            Key::A => 10,
            Key::B => 11,
            Key::C => 12,
            Key::D => 13,
            Key::E => 14,
            Key::F => 15,
        }
    }

    /// The symbol's value, 0 through 15.
    pub fn value(self) -> (r: u8)
        ensures
            r == self.value_spec(),
            r < 16,
    {
        match self {
            Key::Zero => 0,
            Key::One => 1,
            Key::Two => 2,
            Key::Three => 3,
            Key::Four => 4,
            Key::Five => 5,
            Key::Six => 6,
            Key::Seven => 7,
            Key::Eight => 8,
            Key::Nine => 9,
            Key::A => 10,
            Key::B => 11,
            Key::C => 12,
            Key::D => 13,
            Key::E => 14,
            Key::F => 15,
        }
    }

    /// The symbol for a 4-bit value.
    pub fn from_value(v: u8) -> (r: Key)
        requires
            v < 16,
        ensures
            r.value_spec() == v,
    {
        match v {
            0 => Key::Zero,
            1 => Key::One,
            2 => Key::Two,
            3 => Key::Three,
            4 => Key::Four,
            5 => Key::Five,
            6 => Key::Six,
            7 => Key::Seven,
            8 => Key::Eight,
            9 => Key::Nine,
            10 => Key::A,
            11 => Key::B,
            12 => Key::C,
            13 => Key::D,
            14 => Key::E,
            _ => Key::F,
        }
    }

    /// The single-bit mask selecting this symbol in the state word.
    pub fn selector(self) -> (r: u16)
        ensures
            r == selector_of(self.value_spec()),
    {
        0b1000_0000_0000_0000u16 >> self.value() as u16
    }
}

/// The single-bit mask for symbol `sym`: the top bit, shifted down by the
/// symbol's value.
pub open spec fn selector_of(sym: u16) -> u16 {
    0x8000u16 >> sym
}

/// Whether symbol `sym` is held down in the state word `bits`.
pub open spec fn pressed_bit(bits: u16, sym: u16) -> bool {
    bits & selector_of(sym) != 0
}

/// Setting or clearing one symbol's bit touches no other symbol's bit.
proof fn lemma_selector_update(bits: u16, sym: u16)
    by (bit_vector)
    requires
        sym < 16,
    ensures
        (bits | (0x8000u16 >> sym)) & (0x8000u16 >> sym) != 0,
        (bits & !(0x8000u16 >> sym)) & (0x8000u16 >> sym) == 0,
        forall|s: u16|
            s < 16 && s != sym ==> ((bits | (0x8000u16 >> sym)) & (0x8000u16 >> s)) == (bits & (
            0x8000u16 >> s)),
        forall|s: u16|
            s < 16 && s != sym ==> ((bits & !(0x8000u16 >> sym)) & (0x8000u16 >> s)) == (bits & (
            0x8000u16 >> s)),
{
}

impl KeyState {
    /// Whether symbol `sym` is currently held down.
    pub open spec fn pressed(self, sym: u16) -> bool {
        pressed_bit(self.0, sym)
    }

    /// Whether the key is currently held down.
    pub fn is_set(&self, index: Key) -> (r: bool)
        ensures
            r == self.pressed(index.value_spec()),
    {
        (self.0 & index.selector()) != 0
    }

    /// Marks the key held down; every other key keeps its state.
    pub fn set(&mut self, index: Key)
        ensures
            final(self).0 == old(self).0 | selector_of(index.value_spec()),
            final(self).pressed(index.value_spec()),
            forall|s: u16|
                s < 16 && s != index.value_spec() ==> final(self).pressed(s) == old(self).pressed(
                s),
    {
        proof {
            lemma_selector_update(self.0, index.value_spec());
        }
        self.0 = self.0 | index.selector();
    }

    /// Marks the key released; every other key keeps its state.
    pub fn unset(&mut self, index: Key)
        ensures
            final(self).0 == old(self).0 & !selector_of(index.value_spec()),
            !final(self).pressed(index.value_spec()),
            forall|s: u16|
                s < 16 && s != index.value_spec() ==> final(self).pressed(s) == old(self).pressed(
                s),
    {
        proof {
            lemma_selector_update(self.0, index.value_spec());
        }
        self.0 = self.0 & !index.selector();
    }
}

impl Default for KeyState {
    /// No key held down.
    fn default() -> (r: Self)
        ensures
            r.0 == 0,
    {
        KeyState(0)
    }
}

} // verus!
