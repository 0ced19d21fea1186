//! Byte-addressed guest memory and the three-register evaluation stack.
use std::collections::HashMap;
use vstd::prelude::*;

verus! {

broadcast use vstd::std_specs::hash::group_hash_axioms;

/// Base of the memory-mapped scheduler registers.
pub const REG_BASE: i32 = 0x1000_0000;

/// Clock register of the low priority level.
pub const CLOCK_REG_0: i32 = REG_BASE + 0x00;

/// Clock register of the high priority level.
pub const CLOCK_REG_1: i32 = REG_BASE + 0x04;

/// Front of the high priority process queue.
pub const FRONT_PTR_0: i32 = REG_BASE + 0x08;

/// Front of the low priority process queue.
pub const FRONT_PTR_1: i32 = REG_BASE + 0x0C;

/// Back of the high priority process queue.
pub const BACK_PTR_0: i32 = REG_BASE + 0x10;

/// Back of the low priority process queue.
pub const BACK_PTR_1: i32 = REG_BASE + 0x14;

/// Head of the high priority timer queue.
pub const TPTR_0: i32 = REG_BASE + 0x18;

/// Head of the low priority timer queue.
pub const TPTR_1: i32 = REG_BASE + 0x1C;

/// Register save area used when a high priority process preempts a low one
/// (address `0x8000_002C`).
pub const REGISTER_CACHE: i32 = -0x7FFF_FFD4;

/// A byte written here goes to the host terminal instead of memory.
pub const TERMINAL_OUT: i32 = 0x0001_0000;

/// Default amount of RAM: 256 MiB.
pub const DRAM_SIZE: usize = 0x1000_0000;

/// A capacity that makes every 32-bit address RAM.
pub const ADDRESS_SPACE: usize = usize::MAX;

/// Number of registers in the evaluation stack.
pub const STACK_SIZE: usize = 3;

/// Whether `a` lies in one of the memory-mapped register blocks, which exist
/// whatever the RAM capacity.
pub open spec fn is_register(a: u32) -> bool {
    (0x1000_0000 <= a && a < 0x1000_0020) || (0x8000_002C <= a && a < 0x8000_0044)
}

/// Little-endian composition of four bytes into a word.
pub open spec fn word_of_bytes(b0: u8, b1: u8, b2: u8, b3: u8) -> i32 {
    ((b0 as u32) | ((b1 as u32) << 8u32) | ((b2 as u32) << 16u32) | ((b3 as u32) << 24u32)) as i32
}

/// Byte `k` (0 = least significant) of a word.
pub open spec fn byte_of_word(v: i32, k: u32) -> u8 {
    (((v as u32) >> (8 * k)) & 0xFF) as u8
}

/// What a memory holds: the stored bytes (absent ones read as zero), the
/// RAM capacity, and the bytes sent to the terminal so far.
pub struct MemView {
    pub bytes: Map<u32, u8>,
    pub capacity: nat,
    pub output: Seq<u8>,
}

impl MemView {
    /// An address that can be read or written: in RAM, in a register block,
    /// or the terminal address, whatever the RAM capacity.
    pub open spec fn valid(self, a: u32) -> bool {
        (a as nat) < self.capacity || is_register(a) || a == TERMINAL_OUT as u32
    }

    /// A word address: aligned, with all four of its bytes valid.
    pub open spec fn word_valid(self, a: u32) -> bool {
        &&& a % 4 == 0
        &&& self.valid(a)
        &&& self.valid((a + 1) as u32)
        &&& self.valid((a + 2) as u32)
        &&& self.valid((a + 3) as u32)
    }

    pub open spec fn byte(self, a: u32) -> u8 {
        if self.bytes.contains_key(a) {
            self.bytes[a]
        } else {
            0
        }
    }

    pub open spec fn word(self, a: u32) -> i32 {
        word_of_bytes(
            self.byte(a),
            self.byte((a + 1) as u32),
            self.byte((a + 2) as u32),
            self.byte((a + 3) as u32),
        )
    }

    /// The memory after writing byte `v` at `a`; the terminal address sends
    /// the byte out and leaves the store alone.
    pub open spec fn with_byte(self, a: u32, v: u8) -> MemView {
        if a == TERMINAL_OUT as u32 {
            MemView { output: self.output.push(v), ..self }
        } else {
            MemView { bytes: self.bytes.insert(a, v), ..self }
        }
    }

    /// The memory after writing word `v` at `a`, least significant byte first.
    pub open spec fn with_word(self, a: u32, v: i32) -> MemView {
        self.with_byte(a, byte_of_word(v, 0)).with_byte((a + 1) as u32, byte_of_word(v, 1)).with_byte(
            (a + 2) as u32,
            byte_of_word(v, 2),
        ).with_byte((a + 3) as u32, byte_of_word(v, 3))
    }
}

/// The four bytes of a word put back together give the word.
pub proof fn lemma_word_bytes_round_trip(v: i32)
    ensures
        word_of_bytes(
            byte_of_word(v, 0),
            byte_of_word(v, 1),
            byte_of_word(v, 2),
            byte_of_word(v, 3),
        ) == v,
{
    assert(((((((v as u32) >> 0u32) & 0xFF) as u8) as u32) | ((((((v as u32) >> 8u32) & 0xFF) as u8)
        as u32) << 8u32) | ((((((v as u32) >> 16u32) & 0xFF) as u8) as u32) << 16u32) | ((((((
    v as u32) >> 24u32) & 0xFF) as u8) as u32) << 24u32)) as i32 == v) by (bit_vector);
}

/// A word written at an aligned address other than the terminal's reads
/// back as written.
pub proof fn lemma_read_after_write(m: MemView, a: u32, v: i32)
    requires
        a % 4 == 0,
        a != TERMINAL_OUT as u32,
    ensures
        m.with_word(a, v).word(a) == v,
        m.with_word(a, v).capacity == m.capacity,
{
    lemma_word_bytes_round_trip(v);
}

/// Writing a word leaves the bytes of any other aligned word as they were.
pub proof fn lemma_write_other_word(m: MemView, a: u32, b: u32, v: i32)
    requires
        a % 4 == 0,
        b % 4 == 0,
        a != b,
    ensures
        m.with_word(a, v).word(b) == m.word(b),
        m.with_word(a, v).capacity == m.capacity,
{
}

/// Guest memory: a sparse store of bytes over the 32-bit address space, of
/// which the first `capacity` bytes are RAM.
pub struct Mem {
    bytes: HashMap<u32, u8>,
    capacity: usize,
    output: Vec<u8>,
}

impl View for Mem {
    type V = MemView;

    closed spec fn view(&self) -> MemView {
        MemView { bytes: self.bytes@, capacity: self.capacity as nat, output: self.output@ }
    }
}

impl Clone for Mem {
    /// An independent copy of this memory.
    fn clone(&self) -> (r: Self)
        ensures
            r@ == self@,
    {
        Mem { bytes: self.bytes.clone(), capacity: self.capacity, output: self.output.clone() }
    }
}

impl Mem {
    /// A zeroed memory with `capacity` bytes of RAM.
    pub fn new(capacity: usize) -> (m: Self)
        ensures
            m@.bytes == Map::<u32, u8>::empty(),
            m@.capacity == capacity,
            m@.output == Seq::<u8>::empty(),
    {
        Mem { bytes: HashMap::new(), capacity, output: Vec::new() }
    }

    pub fn capacity(&self) -> (r: usize)
        ensures
            r == self@.capacity,
    {
        self.capacity
    }

    /// Whether a byte can be accessed at `address`.
    pub fn is_valid(&self, address: i32) -> (r: bool)
        ensures
            r == self@.valid(address as u32),
    {
        let a = address as u32;
        (a as usize) < self.capacity || (0x1000_0000 <= a && a < 0x1000_0020) || (0x8000_002C <= a
            && a < 0x8000_0044) || a == 0x0001_0000
    }

    /// Whether a word can be accessed at `address`.
    pub fn is_word_valid(&self, address: i32) -> (r: bool)
        ensures
            r == self@.word_valid(address as u32),
    {
        let a = address as u32;
        if a % 4 != 0 {
            return false;
        }
        let r = self.is_valid(a as i32) && self.is_valid((a + 1) as i32) && self.is_valid((a + 2) as i32)
            && self.is_valid((a + 3) as i32);
        assert(a as i32 as u32 == a && (a + 1) as i32 as u32 == (a + 1) as u32 && (a + 2) as i32 as u32
            == (a + 2) as u32 && (a + 3) as i32 as u32 == (a + 3) as u32) by (bit_vector)
            requires
                a % 4 == 0,
        ;
        r
    }

    fn byte_at(&self, a: u32) -> (r: u8)
        requires
            self@.valid(a),
        ensures
            r == self@.byte(a),
    {
        match self.bytes.get(&a) {
            Some(v) => *v,
            None => 0,
        }
    }

    fn put_byte(&mut self, a: u32, value: u8)
        requires
            old(self)@.valid(a),
        ensures
            final(self)@ == old(self)@.with_byte(a, value),
    {
        if a == 0x0001_0000 {
            self.output.push(value);
        } else {
            self.bytes.insert(a, value);
        }
        assert(final(self)@ =~= old(self)@.with_byte(a, value));
    }

    pub fn read_byte(&self, address: i32) -> (r: u8)
        requires
            self@.valid(address as u32),
        ensures
            r == self@.byte(address as u32),
    {
        self.byte_at(address as u32)
    }

    /// Writes a byte; at the terminal address the byte is sent out instead.
    pub fn write_byte(&mut self, address: i32, value: u8)
        requires
            old(self)@.valid(address as u32),
        ensures
            final(self)@ == old(self)@.with_byte(address as u32, value),
    {
        self.put_byte(address as u32, value);
    }

    /// Reads the little-endian word at `address`.
    pub fn read(&self, address: i32) -> (r: i32)
        requires
            self@.word_valid(address as u32),
        ensures
            r == self@.word(address as u32),
    {
        let a = address as u32;
        let b0 = self.byte_at(a);
        let b1 = self.byte_at(a + 1);
        let b2 = self.byte_at(a + 2);
        let b3 = self.byte_at(a + 3);
        ((b0 as u32) | ((b1 as u32) << 8u32) | ((b2 as u32) << 16u32) | ((b3 as u32) << 24u32)) as i32
    }

    /// Writes `value` at `address`, least significant byte first.
    pub fn write(&mut self, address: i32, value: i32)
        requires
            old(self)@.word_valid(address as u32),
        ensures
            final(self)@ == old(self)@.with_word(address as u32, value),
    {
        let a = address as u32;
        let v = value as u32;
        self.put_byte(a, (v & 0xFF) as u8);
        self.put_byte(a + 1, ((v >> 8u32) & 0xFF) as u8);
        self.put_byte(a + 2, ((v >> 16u32) & 0xFF) as u8);
        self.put_byte(a + 3, ((v >> 24u32) & 0xFF) as u8);
        assert(v & 0xFF == (v >> 0u32) & 0xFF) by (bit_vector);
    }

    /// Hands over the bytes sent to the terminal so far and forgets them.
    pub fn take_output(&mut self) -> (r: Vec<u8>)
        ensures
            r@ == old(self)@.output,
            final(self)@ == (MemView { output: Seq::empty(), ..old(self)@ }),
    {
        let r = self.output.clone();
        self.output = Vec::new();
        proof {
            assert(r@ =~= old(self)@.output);
            assert(final(self)@ =~= (MemView { output: Seq::empty(), ..old(self)@ }));
        }
        r
    }
}

/// The evaluation stack: registers A, B and C.
pub struct Stack {
    a: i32,
    b: i32,
    c: i32,
}

impl View for Stack {
    type V = (i32, i32, i32);

    closed spec fn view(&self) -> (i32, i32, i32) {
        (self.a, self.b, self.c)
    }
}

impl Stack {
    pub fn new() -> (s: Self)
        ensures
            s@ == (0i32, 0i32, 0i32),
    {
        Stack { a: 0, b: 0, c: 0 }
    }

    /// A takes `value`, B the old A, C the old B; the old C is lost.
    pub fn push(&mut self, value: i32)
        ensures
            final(self)@ == (value, old(self)@.0, old(self)@.1),
    {
        self.c = self.b;
        self.b = self.a;
        self.a = value;
    }

    /// Returns A; B moves to A and C to B, and C keeps its value.
    pub fn pop(&mut self) -> (r: i32)
        ensures
            r == old(self)@.0,
            final(self)@ == (old(self)@.1, old(self)@.2, old(self)@.2),
    {
        let v = self.a;
        self.a = self.b;
        self.b = self.c;
        v
    }

    /// Exchanges A and B.
    pub fn swap(&mut self)
        ensures
            final(self)@ == (old(self)@.1, old(self)@.0, old(self)@.2),
    {
        let t = self.a;
        self.a = self.b;
        self.b = t;
    }

    /// Register A.
    pub fn a(&self) -> (r: i32)
        ensures
            r == self@.0,
    {
        self.a
    }

    /// Register B.
    pub fn b(&self) -> (r: i32)
        ensures
            r == self@.1,
    {
        self.b
    }

    /// Register C.
    pub fn c(&self) -> (r: i32)
        ensures
            r == self@.2,
    {
        self.c
    }

    /// Register by index: 0 is A, 1 is B, 2 is C.
    pub fn get(&self, index: usize) -> (r: i32)
        requires
            index < STACK_SIZE,
        ensures
            r == stack_reg(self@, index as int),
    {
        if index == 0 {
            self.a
        } else if index == 1 {
            self.b
        } else {
            self.c
        }
    }

    /// Sets a register by index: 0 is A, 1 is B, 2 is C.
    pub fn set(&mut self, index: usize, value: i32)
        requires
            index < STACK_SIZE,
        ensures
            final(self)@ == stack_with(old(self)@, index as int, value),
    {
        if index == 0 {
            self.a = value;
        } else if index == 1 {
            self.b = value;
        } else {
            self.c = value;
        }
    }
}

/// Register `i` of a stack: 0 is A, 1 is B, 2 is C.
pub open spec fn stack_reg(s: (i32, i32, i32), i: int) -> i32 {
    if i == 0 {
        s.0
    } else if i == 1 {
        s.1
    } else {
        s.2
    }
}

/// A stack with register `i` set to `v`.
pub open spec fn stack_with(s: (i32, i32, i32), i: int, v: i32) -> (i32, i32, i32) {
    if i == 0 {
        (v, s.1, s.2)
    } else if i == 1 {
        (s.0, v, s.2)
    } else {
        (s.0, s.1, v)
    }
}

} // verus!
