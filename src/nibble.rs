use vstd::prelude::*;

verus! {

/// A 4-bit unsigned integer (a nibble), in `0x0..=0xF`.
#[allow(non_camel_case_types)]
#[derive(Clone, Copy, Debug)]
pub struct u4(u8);

impl View for u4 {
    type V = u8;

    closed spec fn view(&self) -> u8 {
        self.0
    }
}

impl u4 {
    #[verifier::type_invariant]
    spec fn in_range(self) -> bool {
        self.0 <= 0xF
    }

    /// Creates a nibble; the value must not exceed `0xF`.
    pub fn new(value: u8) -> (r: u4)
        requires
            value <= 0xF,
        ensures
            r@ == value,
    {
        u4(value)
    }

    /// The value, as an index into a 16-entry table.
    pub fn index(self) -> (r: usize)
        ensures
            r == self@ as usize,
            r < 16,
    {
        proof {
            use_type_invariant(&self);
        }
        self.0 as usize
    }

    /// The value as a byte.
    pub fn value(self) -> (r: u8)
        ensures
            r == self@,
            r <= 0xF,
    {
        proof {
            use_type_invariant(&self);
        }
        self.0
    }
}

/// Two nibbles with the same value are the same nibble.
pub proof fn lemma_u4_view_injective(a: u4, b: u4)
    ensures
        a@ == b@ <==> a == b,
{
}

/// A 12-bit unsigned integer, in `0x000..=0xFFF`: an address of the machine.
#[allow(non_camel_case_types)]
#[derive(Clone, Copy, Debug)]
pub struct u12(u16);

impl View for u12 {
    type V = u16;

    closed spec fn view(&self) -> u16 {
        self.0
    }
}

impl u12 {
    #[verifier::type_invariant]
    spec fn in_range(self) -> bool {
        self.0 <= 0xFFF
    }

    /// Creates an address; the value must not exceed `0xFFF`.
    pub fn new(value: u16) -> (r: u12)
        requires
            value <= 0xFFF,
        ensures
            r@ == value,
    {
        u12(value)
    }

    /// The value as a 16-bit word.
    pub fn value(self) -> (r: u16)
        ensures
            r == self@,
            r <= 0xFFF,
    {
        proof {
            use_type_invariant(&self);
        }
        self.0
    }

    /// The value, as an index into memory.
    pub fn index(self) -> (r: usize)
        ensures
            r == self@ as usize,
            r < 4096,
    {
        proof {
            use_type_invariant(&self);
        }
        self.0 as usize
    }

    /// Adds `rhs`, wrapping within the 12-bit range.
    pub fn wrapping_add(self, rhs: u16) -> (r: u12)
        ensures
            r@ == (self@ + rhs) % 4096,
    {
        proof {
            use_type_invariant(&self);
        }
        u12(((self.0 as u32 + rhs as u32) % 4096) as u16)
    }

    /// Subtracts `rhs`, wrapping within the 12-bit range.
    pub fn wrapping_sub(self, rhs: u16) -> (r: u12)
        ensures
            r@ == (self@ - rhs) % 4096,
    {
        proof {
            use_type_invariant(&self);
        }
        let r = u12(((self.0 as u32 + 0x10000 - rhs as u32) % 4096) as u16);
        assert((self.0 as int + 0x10000 - rhs as int) % 4096 == (self.0 as int - rhs as int) % 4096)
            by (nonlinear_arith);
        r
    }
}

/// Two addresses with the same value are the same address.
pub proof fn lemma_u12_view_injective(a: u12, b: u12)
    ensures
        a@ == b@ <==> a == b,
{
}

} // verus!
