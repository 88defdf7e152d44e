//! The sixteen-key hexadecimal keypad and the fixed table that maps host
//! keyboard keys onto it.

use vstd::prelude::*;

verus! {

/// Keys on the keypad, 0 to F.
pub const NUM_KEYS: usize = 16;

/// A key of the host keyboard, as far as the keypad cares.
#[derive(Clone, Copy, Debug, PartialEq, Eq, Structural)]
pub enum HostKey {
    Key1,
    Key2,
    Key3,
    Key4,
    Q,
    W,
    E,
    R,
    A,
    S,
    D,
    F,
    Z,
    X,
    C,
    V,
    /// Any key that has no place on the keypad.
    Other,
}

/// The keypad key a host key stands for: the left four columns of the host
/// keyboard, rows `1234`, `QWER`, `ASDF`, `ZXCV`, laid over the keypad rows
/// `123C`, `456D`, `789E`, `A0BF`.
pub open spec fn hex_key(k: HostKey) -> Option<u8> {
    match k {
        HostKey::Key1 => Some(0x1u8),
        HostKey::Key2 => Some(0x2u8),
        HostKey::Key3 => Some(0x3u8),
        HostKey::Key4 => Some(0xCu8),
        HostKey::Q => Some(0x4u8),
        HostKey::W => Some(0x5u8),
        HostKey::E => Some(0x6u8),
        HostKey::R => Some(0xDu8),
        HostKey::A => Some(0x7u8),
        HostKey::S => Some(0x8u8),
        HostKey::D => Some(0x9u8),
        HostKey::F => Some(0xEu8),
        HostKey::Z => Some(0xAu8),
        HostKey::X => Some(0x0u8),
        HostKey::C => Some(0xBu8),
        HostKey::V => Some(0xFu8),
        HostKey::Other => None,
    }
}

/// Whether some key among `pressed` stands for keypad key `key`.
pub open spec fn held(pressed: Seq<HostKey>, key: int) -> bool {
    exists|j: int| 0 <= j < pressed.len() && #[trigger] hex_key(pressed[j]) == Some(key as u8)
}

/// Whether `key` is the lowest-numbered key that is down.
pub open spec fn is_lowest_pressed(keys: Seq<bool>, key: int) -> bool {
    &&& 0 <= key < keys.len()
    &&& keys[key]
    &&& forall|j: int| 0 <= j < key ==> !keys[j]
}

/// The lowest-numbered key that is down, if any.
pub open spec fn lowest_pressed(keys: Seq<bool>) -> Option<u8> {
    if exists|k: int| is_lowest_pressed(keys, k) {
        Some((choose|k: int| is_lowest_pressed(keys, k)) as u8)
    } else {
        None
    }
}

/// The keypad key that `k` stands for.
pub fn key_index(k: HostKey) -> (r: Option<u8>)
    ensures
        r == hex_key(k),
{
    match k {
        HostKey::Key1 => Some(0x1),
        HostKey::Key2 => Some(0x2),
        HostKey::Key3 => Some(0x3),
        HostKey::Key4 => Some(0xC),
        HostKey::Q => Some(0x4),
        HostKey::W => Some(0x5),
        HostKey::E => Some(0x6),
        HostKey::R => Some(0xD),
        HostKey::A => Some(0x7),
        HostKey::S => Some(0x8),
        HostKey::D => Some(0x9),
        HostKey::F => Some(0xE),
        HostKey::Z => Some(0xA),
        HostKey::X => Some(0x0),
        HostKey::C => Some(0xB),
        HostKey::V => Some(0xF),
        HostKey::Other => None,
    }
}

/// Up or down state of each of the sixteen keys.
pub struct Keypad {
    keys: [bool; NUM_KEYS],
}

impl View for Keypad {
    type V = Seq<bool>;

    closed spec fn view(&self) -> Seq<bool> {
        self.keys@
    }
}

impl Keypad {
    /// The keypad always has exactly `NUM_KEYS` keys.
    pub proof fn lemma_size(&self)
        ensures
            self@.len() == NUM_KEYS,
    {
    }

    /// A keypad with every key up.
    pub fn new() -> (k: Keypad)
        ensures
            k@ == Seq::new(NUM_KEYS as nat, |i: int| false),
    {
        let k = Keypad { keys: [false; NUM_KEYS] };
        assert(k@ =~= Seq::new(NUM_KEYS as nat, |i: int| false));
        k
    }

    /// Whether `key` is down; a number past the last key is never down.
    pub fn is_pressed(&self, key: u8) -> (r: bool)
        ensures
            r == (key < NUM_KEYS && self@[key as int]),
    {
        (key as usize) < NUM_KEYS && self.keys[key as usize]
    }

    /// Sets the state of `key`.
    pub fn set_pressed(&mut self, key: u8, pressed: bool)
        requires
            key < NUM_KEYS,
        ensures
            final(self)@ == old(self)@.update(key as int, pressed),
    {
        self.keys[key as usize] = pressed;
    }

    /// The lowest-numbered key that is down, if any.
    pub fn first_pressed(&self) -> (r: Option<u8>)
        ensures
            r == lowest_pressed(self@),
    {
        let mut k: usize = 0;
        while k < NUM_KEYS
            invariant
                self@.len() == NUM_KEYS,
                k <= NUM_KEYS,
                forall|j: int| 0 <= j < k ==> !self@[j],
            decreases NUM_KEYS - k,
        {
            if self.keys[k] {
                assert(is_lowest_pressed(self@, k as int));
                assert forall|m: int| is_lowest_pressed(self@, m) implies m == k by {
                    if m < k {
                    } else if m > k {
                        assert(!self@[k as int]);
                    }
                }
                return Some(k as u8);
            }
            k += 1;
        }
        None
    }

    /// The state of every key.
    pub fn snapshot(&self) -> (r: [bool; NUM_KEYS])
        ensures
            r@ == self@,
    {
        self.keys
    }

    /// Replaces the whole state: a key is down exactly when some key of
    /// `pressed` stands for it.
    pub fn refresh(&mut self, pressed: &[HostKey])
        ensures
            forall|key: int|
                0 <= key < NUM_KEYS ==> #[trigger] final(self)@[key] == held(pressed@, key),
            final(self)@.len() == NUM_KEYS,
    {
        self.keys = [false; NUM_KEYS];
        for j in 0..pressed.len()
            invariant
                self@.len() == NUM_KEYS,
                forall|key: int|
                    0 <= key < NUM_KEYS ==> #[trigger] self@[key] == exists|i: int|
                        0 <= i < j && #[trigger] hex_key(pressed@[i]) == Some(key as u8),
        {
            if let Some(key) = key_index(pressed[j]) {
                proof {
                    assert(key < NUM_KEYS) by {
                        assert(hex_key(pressed@[j as int]) == Some(key));
                    }
                }
                self.keys[key as usize] = true;
                assert(hex_key(pressed@[j as int]) == Some(key));
            }
        }
    }
}

} // verus!
