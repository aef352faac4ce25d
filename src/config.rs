//! Reading the settings that a user gives by name: colour codes and the
//! instructions that should follow their older behaviour.
use vstd::prelude::*;
use vstd::string::StringSliceAdditionalSpecFns;

use crate::machine::OldBehaviourConfig;

verus! {

/// Value of the ASCII hexadecimal digit `c`, in either case.
pub open spec fn hex_value(c: u8) -> Option<u8> {
    if 0x30 <= c <= 0x39 {
        Some((c - 0x30) as u8)
    } else if 0x61 <= c <= 0x66 {
        Some((c - 0x61 + 10) as u8)
    } else if 0x41 <= c <= 0x46 {
        Some((c - 0x41 + 10) as u8)
    } else {
        None
    }
}

/// The byte written as the two hexadecimal digits `hi` and `lo`.
pub open spec fn hex_byte(hi: u8, lo: u8) -> Option<u8> {
    match (hex_value(hi), hex_value(lo)) {
        (Some(h), Some(l)) => Some((h * 16 + l) as u8),
        _ => None,
    }
}

/// The colour written as `RRGGBB` in hexadecimal, or `None` when `b` is not
/// six hexadecimal digits.
pub open spec fn color_of(b: Seq<u8>) -> Option<(u8, u8, u8)> {
    if b.len() != 6 {
        None
    } else {
        match (hex_byte(b[0], b[1]), hex_byte(b[2], b[3]), hex_byte(b[4], b[5])) {
            (Some(r), Some(g), Some(bl)) => Some((r, g, bl)),
            _ => None,
        }
    }
}

fn hex_digit(c: u8) -> (r: Option<u8>)
    ensures
        r == hex_value(c),
        r matches Some(v) ==> v < 16,
{
    if 0x30 <= c && c <= 0x39 {
        Some(c - 0x30)
    } else if 0x61 <= c && c <= 0x66 {
        Some(c - 0x61 + 10)
    } else if 0x41 <= c && c <= 0x46 {
        Some(c - 0x41 + 10)
    } else {
        None
    }
}

fn hex_pair(hi: u8, lo: u8) -> (r: Option<u8>)
    ensures
        r == hex_byte(hi, lo),
{
    match (hex_digit(hi), hex_digit(lo)) {
        (Some(h), Some(l)) => Some(h * 16 + l),
        _ => None,
    }
}

/// Reads a colour code `RRGGBB`: six hexadecimal digits, in either case.
pub fn parse_color(s: &str) -> (r: Option<(u8, u8, u8)>)
    ensures
        r == color_of(s.spec_bytes()),
{
    let b = s.as_bytes();
    if b.len() != 6 {
        return None;
    }
    match (hex_pair(b[0], b[1]), hex_pair(b[2], b[3]), hex_pair(b[4], b[5])) {
        (Some(r), Some(g), Some(bl)) => Some((r, g, bl)),
        _ => None,
    }
}

/// An instruction whose older behaviour can be selected.
#[derive(Clone, Copy, Debug, PartialEq, Eq, Structural)]
pub enum Quirk {
    Fx65,
    Fx55,
    I8xy6,
    I8xye,
    Bnnn,
    Fx1e,
}

/// `c` with an ASCII capital letter made small.
pub open spec fn ascii_lower(c: u8) -> u8 {
    if 0x41 <= c <= 0x5A {
        (c + 0x20) as u8
    } else {
        c
    }
}

/// Whether the four bytes `b`, ignoring ASCII case, are `name`.
pub open spec fn named(b: Seq<u8>, name: Seq<u8>) -> bool {
    b.len() == 4 && name.len() == 4 && forall|k: int| 0 <= k < 4 ==> ascii_lower(b[k]) == name[k]
}

/// The instruction named by `b`, ignoring ASCII case: "fx65", "fx55",
/// "8xy6", "8xye", "bnnn" or "fx1e".
pub open spec fn quirk_of(b: Seq<u8>) -> Option<Quirk> {
    if named(b, seq![0x66u8, 0x78, 0x36, 0x35]) {
        Some(Quirk::Fx65)
    } else if named(b, seq![0x66u8, 0x78, 0x35, 0x35]) {
        Some(Quirk::Fx55)
    } else if named(b, seq![0x38u8, 0x78, 0x79, 0x36]) {
        Some(Quirk::I8xy6)
    } else if named(b, seq![0x38u8, 0x78, 0x79, 0x65]) {
        Some(Quirk::I8xye)
    } else if named(b, seq![0x62u8, 0x6E, 0x6E, 0x6E]) {
        Some(Quirk::Bnnn)
    } else if named(b, seq![0x66u8, 0x78, 0x31, 0x65]) {
        Some(Quirk::Fx1e)
    } else {
        None
    }
}

fn lower(c: u8) -> (r: u8)
    ensures
        r == ascii_lower(c),
{
    if 0x41 <= c && c <= 0x5A {
        c + 0x20
    } else {
        c
    }
}

fn is_named(b: &[u8], n0: u8, n1: u8, n2: u8, n3: u8) -> (r: bool)
    ensures
        r == named(b@, seq![n0, n1, n2, n3]),
{
    if b.len() != 4 {
        return false;
    }
    let r = lower(b[0]) == n0 && lower(b[1]) == n1 && lower(b[2]) == n2 && lower(b[3]) == n3;
    assert(r == named(b@, seq![n0, n1, n2, n3])) by {
        if !r {
            let name = seq![n0, n1, n2, n3];
            assert(ascii_lower(b@[0]) != name[0] || ascii_lower(b@[1]) != name[1] || ascii_lower(
                b@[2],
            ) != name[2] || ascii_lower(b@[3]) != name[3]);
        }
    }
    r
}

/// Reads the name of an instruction whose older behaviour can be selected,
/// ignoring ASCII case.
pub fn quirk_named(s: &str) -> (r: Option<Quirk>)
    ensures
        r == quirk_of(s.spec_bytes()),
{
    let b = s.as_bytes();
    if is_named(b, 0x66, 0x78, 0x36, 0x35) {
        Some(Quirk::Fx65)
    } else if is_named(b, 0x66, 0x78, 0x35, 0x35) {
        Some(Quirk::Fx55)
    } else if is_named(b, 0x38, 0x78, 0x79, 0x36) {
        Some(Quirk::I8xy6)
    } else if is_named(b, 0x38, 0x78, 0x79, 0x65) {
        Some(Quirk::I8xye)
    } else if is_named(b, 0x62, 0x6E, 0x6E, 0x6E) {
        Some(Quirk::Bnnn)
    } else if is_named(b, 0x66, 0x78, 0x31, 0x65) {
        Some(Quirk::Fx1e)
    } else {
        None
    }
}

impl OldBehaviourConfig {
    /// Every instruction follows its current behaviour.
    pub fn modern() -> (r: OldBehaviourConfig)
        ensures
            !r.fx65 && !r.fx55 && !r.i_8xy6 && !r.i_8xye && !r.bnnn && !r.fx1e,
    {
        OldBehaviourConfig {
            fx65: false,
            fx55: false,
            i_8xy6: false,
            i_8xye: false,
            bnnn: false,
            fx1e: false,
        }
    }

    /// Selects the older behaviour of instruction `q`, leaving the others as they are.
    pub fn enable(&mut self, q: Quirk)
        ensures
            final(self).fx65 == (old(self).fx65 || q == Quirk::Fx65),
            final(self).fx55 == (old(self).fx55 || q == Quirk::Fx55),
            final(self).i_8xy6 == (old(self).i_8xy6 || q == Quirk::I8xy6),
            final(self).i_8xye == (old(self).i_8xye || q == Quirk::I8xye),
            final(self).bnnn == (old(self).bnnn || q == Quirk::Bnnn),
            final(self).fx1e == (old(self).fx1e || q == Quirk::Fx1e),
    {
        match q {
            Quirk::Fx65 => self.fx65 = true,
            Quirk::Fx55 => self.fx55 = true,
            Quirk::I8xy6 => self.i_8xy6 = true,
            Quirk::I8xye => self.i_8xye = true,
            Quirk::Bnnn => self.bnnn = true,
            Quirk::Fx1e => self.fx1e = true,
        }
    }
}

} // verus!
