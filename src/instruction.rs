use vstd::prelude::*;

verus! {

/// The hexadecimal digit, in lower case, that stands for `n` (`n < 16`).
pub open spec fn hex_digit(n: int) -> char {
    if n < 10 {
        ('0' as int + n) as char
    } else {
        ('a' as int + (n - 10)) as char
    }
}

/// A byte written as `0x` followed by exactly two lower-case hexadecimal digits.
pub open spec fn hex_byte(b: u8) -> Seq<char> {
    seq!['0', 'x', hex_digit(b as int / 16), hex_digit(b as int % 16)]
}

/// The instruction that the bytes `b1`, `b2` decode to.
pub open spec fn decoded(b1: u8, b2: u8) -> Instruction {
    Instruction {
        first_byte: b1,
        second_byte: b2,
        first_nibble: b1 / 16,
        second_nibble: b1 % 16,
        third_nibble: b2 / 16,
        fourth_nibble: b2 % 16,
    }
}

/// Decoding is a function of the two bytes alone: any two instructions that
/// decode the same bytes agree on all four nibbles and on both immediates,
/// and the immediates are the low twelve and the low eight bits of the bytes.
pub proof fn lemma_decode_deterministic(b1: u8, b2: u8, p: Instruction, q: Instruction)
    requires
        p.decodes(b1, b2),
        q.decodes(b1, b2),
    ensures
        p == q,
        p == decoded(b1, b2),
        p.wf(),
        p.nnn() == q.nnn() == (b1 % 16) * 256 + b2,
        p.nn() == q.nn() == b2,
{
}

/// One instruction: the two bytes fetched from memory and their four nibbles.
pub struct Instruction {
    pub first_byte: u8,
    pub second_byte: u8,
    pub first_nibble: u8,
    pub second_nibble: u8,
    pub third_nibble: u8,
    pub fourth_nibble: u8,
}

impl Instruction {
    /// Each nibble field holds a value below 16.
    pub open spec fn wf(&self) -> bool {
        &&& self.first_nibble < 16
        &&& self.operands_fit()
    }

    /// The three operand nibbles (X, Y, N) hold values below 16.
    pub open spec fn operands_fit(&self) -> bool {
        &&& self.second_nibble < 16
        &&& self.third_nibble < 16
        &&& self.fourth_nibble < 16
    }

    /// `self` is what decoding the bytes `b1`, `b2` yields.
    pub open spec fn decodes(&self, b1: u8, b2: u8) -> bool {
        &&& self.first_byte == b1
        &&& self.second_byte == b2
        &&& self.first_nibble == b1 / 16
        &&& self.second_nibble == b1 % 16
        &&& self.third_nibble == b2 / 16
        &&& self.fourth_nibble == b2 % 16
    }

    /// The 12-bit immediate NNN made of the last three nibbles.
    pub open spec fn nnn(&self) -> int {
        self.second_nibble * 256 + self.third_nibble * 16 + self.fourth_nibble
    }

    /// The 8-bit immediate NN made of the last two nibbles.
    pub open spec fn nn(&self) -> int {
        self.third_nibble * 16 + self.fourth_nibble
    }

    /// Splits the bytes `first_byte`, `second_byte` into four nibbles.
    pub fn new(first_byte: u8, second_byte: u8) -> (r: Instruction)
        ensures
            r.decodes(first_byte, second_byte),
            r == decoded(first_byte, second_byte),
            r.wf(),
    {
        let r = Instruction {
            first_byte,
            second_byte,
            first_nibble: first_byte >> 4,
            second_nibble: first_byte & 15,
            third_nibble: second_byte >> 4,
            fourth_nibble: second_byte & 15,
        };
        assert(first_byte >> 4 == first_byte / 16 && first_byte & 15 == first_byte % 16)
            by (bit_vector);
        assert(second_byte >> 4 == second_byte / 16 && second_byte & 15 == second_byte % 16)
            by (bit_vector);
        r
    }

    /// The 12-bit immediate NNN (an address).
    pub fn byte_sum_3(&self) -> (r: u16)
        requires
            self.operands_fit(),
        ensures
            r == self.nnn(),
    {
        ((self.second_nibble as u16) * 256) + ((self.third_nibble as u16) * 16)
            + (self.fourth_nibble as u16)
    }

    /// The 8-bit immediate NN.
    pub fn byte_sum_2(&self) -> (r: u8)
        requires
            self.operands_fit(),
        ensures
            r == self.nn(),
    {
        self.third_nibble * 16 + self.fourth_nibble
    }

    /// The two bytes in hexadecimal, as in `0x12 0xe3`.
    pub fn to_string(&self) -> (r: String)
        ensures
            r@ == hex_byte(self.first_byte) + seq![' '] + hex_byte(self.second_byte),
    {
        let mut s = String::new();
        push_hex_byte(&mut s, self.first_byte);
        s.append(" ");
        push_hex_byte(&mut s, self.second_byte);
        proof {
            reveal_strlit(" ");
            assert(s@ =~= hex_byte(self.first_byte) + seq![' '] + hex_byte(self.second_byte));
        }
        s
    }
}

/// The one-character string of the hexadecimal digit `n`.
fn hex_digit_str(n: u8) -> (r: &'static str)
    requires
        n < 16,
    ensures
        r@ == seq![hex_digit(n as int)],
{
    proof {
        reveal_strlit("0");
        reveal_strlit("1");
        reveal_strlit("2");
        reveal_strlit("3");
        reveal_strlit("4");
        reveal_strlit("5");
        reveal_strlit("6");
        reveal_strlit("7");
        reveal_strlit("8");
        reveal_strlit("9");
        reveal_strlit("a");
        reveal_strlit("b");
        reveal_strlit("c");
        reveal_strlit("d");
        reveal_strlit("e");
        reveal_strlit("f");
    }
    match n {
        0 => "0",
        1 => "1",
        2 => "2",
        3 => "3",
        4 => "4",
        5 => "5",
        6 => "6",
        7 => "7",
        8 => "8",
        9 => "9",
        10 => "a",
        11 => "b",
        12 => "c",
        13 => "d",
        14 => "e",
        _ => "f",
    }
}

/// Appends `b` to `s` in the form `0xhh`.
fn push_hex_byte(s: &mut String, b: u8)
    ensures
        final(s)@ == old(s)@ + hex_byte(b),
{
    s.append("0x");
    s.append(hex_digit_str(b / 16));
    s.append(hex_digit_str(b % 16));
    proof {
        reveal_strlit("0x");
        assert(final(s)@ =~= old(s)@ + hex_byte(b));
    }
}

} // verus!
