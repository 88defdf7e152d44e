//! Flat byte-addressable memory with the interpreter font preloaded.

use vstd::prelude::*;

use crate::RAM_SIZE;

verus! {

/// Number of bytes in one hexadecimal digit sprite.
pub const FONT_SPRITE_LEN: u16 = 5;

/// The sixteen digit sprites, 0 to F, five rows each, as they lie in memory
/// from address 0.
pub open spec fn font_bytes() -> Seq<u8> {
    seq![
        0xF0, 0x90, 0x90, 0x90, 0xF0,
        0x20, 0x60, 0x20, 0x20, 0x70,
        0xF0, 0x10, 0xF0, 0x80, 0xF0,
        0xF0, 0x10, 0xF0, 0x10, 0xF0,
        0x90, 0x90, 0xF0, 0x10, 0x10,
        0xF0, 0x80, 0xF0, 0x10, 0xF0,
        0xF0, 0x80, 0xF0, 0x90, 0xF0,
        0xF0, 0x10, 0x20, 0x40, 0x40,
        0xF0, 0x90, 0xF0, 0x90, 0xF0,
        0xF0, 0x90, 0xF0, 0x10, 0xF0,
        0xF0, 0x90, 0xF0, 0x90, 0x90,
        0xE0, 0x90, 0xE0, 0x90, 0xE0,
        0xF0, 0x80, 0x80, 0x80, 0xF0,
        0xE0, 0x90, 0x90, 0x90, 0xE0,
        0xF0, 0x80, 0xF0, 0x80, 0xF0,
        0xF0, 0x80, 0xF0, 0x80, 0x80,
    ]
}

/// Memory at power-on: the font sprites from address 0, zeros after them.
pub open spec fn initial_memory() -> Seq<u8> {
    Seq::new(RAM_SIZE as nat, |a: int| if a < font_bytes().len() { font_bytes()[a] } else { 0u8 })
}

/// An access at an address that memory does not have.
#[derive(Clone, Copy, Debug, PartialEq, Eq, Structural)]
pub struct OutOfBounds {
    /// The first address asked for that lies outside memory.
    pub addr: usize,
}

/// The first address of `[start, start + len)` that lies outside memory, if any.
pub open spec fn first_outside(start: int, len: int) -> Option<int> {
    if len > 0 && start + len > RAM_SIZE {
        Some(if start >= RAM_SIZE { start } else { RAM_SIZE as int })
    } else {
        None
    }
}

/// The `len` bytes of `mem` from address `start` on.
pub open spec fn bytes_at(mem: Seq<u8>, start: int, len: int) -> Seq<u8> {
    Seq::new(len as nat, |k: int| mem[start + k])
}

/// Memory contents after `bytes` is copied in from address `offset`.
pub open spec fn loaded(mem: Seq<u8>, offset: int, bytes: Seq<u8>) -> Seq<u8> {
    Seq::new(
        mem.len(),
        |a: int|
            if offset <= a < offset + bytes.len() {
                bytes[a - offset]
            } else {
                mem[a]
            },
    )
}

/// The 4096 bytes of machine memory.
pub struct Ram {
    memory: [u8; RAM_SIZE],
}

impl View for Ram {
    type V = Seq<u8>;

    closed spec fn view(&self) -> Seq<u8> {
        self.memory@
    }
}

impl Ram {
    /// Memory always holds exactly `RAM_SIZE` bytes.
    pub proof fn lemma_size(&self)
        ensures
            self@.len() == RAM_SIZE,
    {
    }

    /// Zeroed memory with the font sprites at addresses 0 to 79.
    pub fn new() -> (ram: Ram)
        ensures
            ram@ == initial_memory(),
    {
        let sprites: [u8; 80] = [
            0xF0, 0x90, 0x90, 0x90, 0xF0,
            0x20, 0x60, 0x20, 0x20, 0x70,
            0xF0, 0x10, 0xF0, 0x80, 0xF0,
            0xF0, 0x10, 0xF0, 0x10, 0xF0,
            0x90, 0x90, 0xF0, 0x10, 0x10,
            0xF0, 0x80, 0xF0, 0x10, 0xF0,
            0xF0, 0x80, 0xF0, 0x90, 0xF0,
            0xF0, 0x10, 0x20, 0x40, 0x40,
            0xF0, 0x90, 0xF0, 0x90, 0xF0,
            0xF0, 0x90, 0xF0, 0x10, 0xF0,
            0xF0, 0x90, 0xF0, 0x90, 0x90,
            0xE0, 0x90, 0xE0, 0x90, 0xE0,
            0xF0, 0x80, 0x80, 0x80, 0xF0,
            0xE0, 0x90, 0x90, 0x90, 0xE0,
            0xF0, 0x80, 0xF0, 0x80, 0xF0,
            0xF0, 0x80, 0xF0, 0x80, 0x80,
        ];
        assert(sprites@ =~= font_bytes());
        let mut ram = Ram { memory: [0u8; RAM_SIZE] };
        for i in 0..80
            invariant
                sprites@ == font_bytes(),
                ram@.len() == RAM_SIZE,
                forall|a: int| 0 <= a < i ==> ram@[a] == font_bytes()[a],
                forall|a: int| i <= a < RAM_SIZE ==> ram@[a] == 0,
        {
            ram.memory[i] = sprites[i];
        }
        assert(ram@ =~= initial_memory());
        ram
    }

    /// The byte at `addr`.
    pub fn read_byte(&self, addr: usize) -> (r: Result<u8, OutOfBounds>)
        ensures
            addr < RAM_SIZE ==> r == Ok::<u8, OutOfBounds>(self@[addr as int]),
            addr >= RAM_SIZE ==> r == Err::<u8, OutOfBounds>(OutOfBounds { addr }),
    {
        if addr < RAM_SIZE {
            Ok(self.memory[addr])
        } else {
            Err(OutOfBounds { addr })
        }
    }

    /// Stores `value` at `addr`; memory is left as it was when `addr` is outside it.
    pub fn write_byte(&mut self, addr: usize, value: u8) -> (r: Result<(), OutOfBounds>)
        ensures
            addr < RAM_SIZE ==> r is Ok && final(self)@ == old(self)@.update(addr as int, value),
            addr >= RAM_SIZE ==> r == Err::<(), OutOfBounds>(OutOfBounds { addr })
                && final(self)@ == old(self)@,
    {
        if addr < RAM_SIZE {
            self.memory[addr] = value;
            Ok(())
        } else {
            Err(OutOfBounds { addr })
        }
    }

    /// The `len` bytes from `start` on; fails when any of them lies outside memory.
    pub fn read_bytes(&self, start: usize, len: usize) -> (r: Result<Vec<u8>, OutOfBounds>)
        ensures
            first_outside(start as int, len as int) is None ==> (r matches Ok(b) && b@ == bytes_at(
                self@,
                start as int,
                len as int,
            )),
            first_outside(start as int, len as int) matches Some(a) ==> r == Err::<
                Vec<u8>,
                OutOfBounds,
            >(OutOfBounds { addr: a as usize }),
    {
        if len > 0 && (start >= RAM_SIZE || len > RAM_SIZE - start) {
            let addr = if start >= RAM_SIZE { start } else { RAM_SIZE };
            return Err(OutOfBounds { addr });
        }
        let mut out: Vec<u8> = Vec::new();
        for k in 0..len
            invariant
                len == 0 || start + len <= RAM_SIZE,
                self@.len() == RAM_SIZE,
                out@ == bytes_at(self@, start as int, k as int),
        {
            out.push(self.memory[start + k]);
            assert(out@ =~= bytes_at(self@, start as int, k + 1));
        }
        Ok(out)
    }

    /// Copies `bytes` into memory from `offset` on. Nothing is written when the
    /// copy would run past the end of memory.
    pub fn load(&mut self, offset: usize, bytes: &[u8]) -> (r: Result<(), OutOfBounds>)
        ensures
            first_outside(offset as int, bytes@.len() as int) is None ==> r is Ok
                && final(self)@ == loaded(old(self)@, offset as int, bytes@),
            first_outside(offset as int, bytes@.len() as int) matches Some(a) ==> r
                == Err::<(), OutOfBounds>(OutOfBounds { addr: a as usize })
                && final(self)@ == old(self)@,
    {
        let len = bytes.len();
        if len > 0 && (offset >= RAM_SIZE || len > RAM_SIZE - offset) {
            let addr = if offset >= RAM_SIZE { offset } else { RAM_SIZE };
            return Err(OutOfBounds { addr });
        }
        let ghost start = self@;
        for k in 0..len
            invariant
                len == bytes@.len(),
                len == 0 || offset + len <= RAM_SIZE,
                self@.len() == RAM_SIZE,
                forall|a: int|
                    0 <= a < RAM_SIZE ==> self@[a] == if offset <= a < offset + k {
                        bytes@[a - offset]
                    } else {
                        start[a]
                    },
        {
            self.memory[offset + k] = bytes[k];
        }
        assert(self@ =~= loaded(start, offset as int, bytes@));
        Ok(())
    }
}

} // verus!
