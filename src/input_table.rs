//! Character classes for the lexer: a 128-entry table, indexed by the low
//! seven bits of a character, holds one class bit per ASCII character.
//! Looking a character up costs a single comparison instead of a chain of
//! range checks. Characters outside ASCII are masked onto the table as well,
//! so they share the class of the ASCII character with the same low bits.
use vstd::prelude::*;

verus! {

/// No class.
pub const IC_NM: u16 = 0;
/// Alphanumeric: `a-z`, `A-Z`, `0-9`.
pub const IC_AN: u16 = 1;
/// Dash or underscore.
pub const IC_DU: u16 = 2;
/// Glob: `*`.
pub const IC_GL: u16 = 4;
/// Period.
pub const IC_PE: u16 = 8;
/// Comma.
pub const IC_CO: u16 = 16;
/// Forward slash.
pub const IC_FS: u16 = 32;
/// Single or double quote.
pub const IC_QU: u16 = 64;
/// Colon.
pub const IC_CL: u16 = 128;
/// Bar: `|`.
pub const IC_BA: u16 = 256;
/// Left bracket.
pub const IC_LB: u16 = 512;
/// Right bracket.
pub const IC_RB: u16 = 1024;

/// Mask that keeps the low seven bits of a character: the table has 128 entries.
pub const INPUT_CLASS_BITMASK: u32 = 0x7F;

/// The class of the ASCII code `b` (0 <= b < 128).
pub open spec fn class_of_code(b: int) -> u16 {
    if 0x30 <= b <= 0x39 || 0x41 <= b <= 0x5A || 0x61 <= b <= 0x7A {
        IC_AN
    } else if b == 0x2D || b == 0x5F {
        IC_DU
    } else if b == 0x2A {
        IC_GL
    } else if b == 0x2E {
        IC_PE
    } else if b == 0x2C {
        IC_CO
    } else if b == 0x2F {
        IC_FS
    } else if b == 0x22 || b == 0x27 {
        IC_QU
    } else if b == 0x3A {
        IC_CL
    } else if b == 0x7C {
        IC_BA
    } else if b == 0x5B {
        IC_LB
    } else if b == 0x5D {
        IC_RB
    } else {
        IC_NM
    }
}

/// The class of a character: that of the ASCII code with the same low seven bits.
pub open spec fn char_class(c: char) -> u16 {
    class_of_code(c as int % 128)
}

/// Whether `c` belongs to one of the classes whose bits are set in `cl`.
pub open spec fn in_class(c: char, cl: u16) -> bool {
    char_class(c) & cl != 0
}

/// Letters, digits, `-` and `_`.
pub open spec fn dashed_alnum(c: char) -> bool {
    in_class(c, IC_AN | IC_DU)
}

/// Letters, digits, `-`, `_` and `.`.
pub open spec fn dashed_alnum_or_period(c: char) -> bool {
    in_class(c, IC_AN | IC_DU | IC_PE)
}

/// The characters of a package name or a version: letters, digits, `-`, `_`,
/// `.` and the glob `*`.
pub open spec fn name_char(c: char) -> bool {
    in_class(c, IC_AN | IC_DU | IC_PE | IC_GL)
}

/// Looks `c` up in the class table and tests it against the classes of `cl`.
pub fn filter_char(c: char, cl: u16) -> (r: bool)
    ensures
        r == in_class(c, cl),
{
    let table: [u16; 128] = [
        IC_NM, IC_NM, IC_NM, IC_NM, IC_NM, IC_NM, IC_NM, IC_NM,
        IC_NM, IC_NM, IC_NM, IC_NM, IC_NM, IC_NM, IC_NM, IC_NM,
        IC_NM, IC_NM, IC_NM, IC_NM, IC_NM, IC_NM, IC_NM, IC_NM,
        IC_NM, IC_NM, IC_NM, IC_NM, IC_NM, IC_NM, IC_NM, IC_NM,
        IC_NM, IC_NM, IC_QU, IC_NM, IC_NM, IC_NM, IC_NM, IC_QU,
        IC_NM, IC_NM, IC_GL, IC_NM, IC_CO, IC_DU, IC_PE, IC_FS,
        IC_AN, IC_AN, IC_AN, IC_AN, IC_AN, IC_AN, IC_AN, IC_AN,
        IC_AN, IC_AN, IC_CL, IC_NM, IC_NM, IC_NM, IC_NM, IC_NM,
        IC_NM, IC_AN, IC_AN, IC_AN, IC_AN, IC_AN, IC_AN, IC_AN,
        IC_AN, IC_AN, IC_AN, IC_AN, IC_AN, IC_AN, IC_AN, IC_AN,
        IC_AN, IC_AN, IC_AN, IC_AN, IC_AN, IC_AN, IC_AN, IC_AN,
        IC_AN, IC_AN, IC_AN, IC_LB, IC_NM, IC_RB, IC_NM, IC_DU,
        IC_NM, IC_AN, IC_AN, IC_AN, IC_AN, IC_AN, IC_AN, IC_AN,
        IC_AN, IC_AN, IC_AN, IC_AN, IC_AN, IC_AN, IC_AN, IC_AN,
        IC_AN, IC_AN, IC_AN, IC_AN, IC_AN, IC_AN, IC_AN, IC_AN,
        IC_AN, IC_AN, IC_AN, IC_NM, IC_BA, IC_NM, IC_NM, IC_NM,
    ];
    let code: u32 = c as u32;
    let idx = (code & INPUT_CLASS_BITMASK) as usize;
    assert(code & 0x7F == code % 128) by (bit_vector);
    let k = table[idx];
    assert(k == class_of_code(idx as int));
    (k & cl) != 0
}

pub fn is_alphanumeric_with_dashes(c: char) -> (r: bool)
    ensures
        r == dashed_alnum(c),
{
    filter_char(c, IC_AN | IC_DU)
}

pub fn is_alphanumeric_with_dashes_or_period(c: char) -> (r: bool)
    ensures
        r == dashed_alnum_or_period(c),
{
    filter_char(c, IC_AN | IC_DU | IC_PE)
}

pub fn is_any_valid_str_with_glob(c: char) -> (r: bool)
    ensures
        r == name_char(c),
{
    filter_char(c, IC_AN | IC_DU | IC_PE | IC_GL)
}

pub fn is_quote(c: char) -> (r: bool)
    ensures
        r == in_class(c, IC_QU),
{
    filter_char(c, IC_QU)
}

pub fn is_colon(c: char) -> (r: bool)
    ensures
        r == in_class(c, IC_CL),
{
    filter_char(c, IC_CL)
}

pub fn is_comma(c: char) -> (r: bool)
    ensures
        r == in_class(c, IC_CO),
{
    filter_char(c, IC_CO)
}

pub fn is_comma_or_alt(c: char) -> (r: bool)
    ensures
        r == in_class(c, IC_CO | IC_BA),
{
    filter_char(c, IC_CO | IC_BA)
}

pub fn is_forward_slash(c: char) -> (r: bool)
    ensures
        r == in_class(c, IC_FS),
{
    filter_char(c, IC_FS)
}

pub fn is_left_bracket(c: char) -> (r: bool)
    ensures
        r == in_class(c, IC_LB),
{
    filter_char(c, IC_LB)
}

pub fn is_right_bracket(c: char) -> (r: bool)
    ensures
        r == in_class(c, IC_RB),
{
    filter_char(c, IC_RB)
}

} // verus!
