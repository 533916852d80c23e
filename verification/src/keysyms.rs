//! The key symbols the configuration can bind, their protocol codes and
//! their names.

#![allow(non_camel_case_types)]

use vstd::prelude::*;

verus! {

/// A key symbol the configuration may name. The variants mirror the
/// protocol's keysym table for the keys a binding can use.
#[derive(Debug, Clone, Copy, PartialEq, Eq, Structural)]
pub enum Keysym {
    XK_BackSpace,
    XK_Return,
    XK_0,
    XK_1,
    XK_2,
    XK_3,
    XK_4,
    XK_5,
    XK_6,
    XK_7,
    XK_8,
    XK_9,
    XK_A,
    XK_B,
    XK_C,
    XK_D,
    XK_E,
    XK_F,
    XK_G,
    XK_H,
    XK_I,
    XK_J,
    XK_K,
    XK_L,
    XK_M,
    XK_N,
    XK_O,
    XK_P,
    XK_Q,
    XK_R,
    XK_S,
    XK_T,
    XK_U,
    XK_V,
    XK_W,
    XK_X,
    XK_Y,
    XK_Z,
    XK_a,
    XK_b,
    XK_c,
    XK_d,
    XK_e,
    XK_f,
    XK_g,
    XK_h,
    XK_i,
    XK_j,
    XK_k,
    XK_l,
    XK_m,
    XK_n,
    XK_o,
    XK_p,
    XK_q,
    XK_r,
    XK_s,
    XK_t,
    XK_u,
    XK_v,
    XK_w,
    XK_x,
    XK_y,
    XK_z,
}

/// Each key symbol's protocol code.
pub open spec fn spec_keysym_code(k: Keysym) -> u32 {
    match k {
        Keysym::XK_BackSpace => 0xff08u32,
        Keysym::XK_Return => 0xff0du32,
        Keysym::XK_0 => 0x30u32,
        Keysym::XK_1 => 0x31u32,
        Keysym::XK_2 => 0x32u32,
        Keysym::XK_3 => 0x33u32,
        Keysym::XK_4 => 0x34u32,
        Keysym::XK_5 => 0x35u32,
        Keysym::XK_6 => 0x36u32,
        Keysym::XK_7 => 0x37u32,
        Keysym::XK_8 => 0x38u32,
        Keysym::XK_9 => 0x39u32,
        Keysym::XK_A => 0x41u32,
        Keysym::XK_B => 0x42u32,
        Keysym::XK_C => 0x43u32,
        Keysym::XK_D => 0x44u32,
        Keysym::XK_E => 0x45u32,
        Keysym::XK_F => 0x46u32,
        Keysym::XK_G => 0x47u32,
        Keysym::XK_H => 0x48u32,
        Keysym::XK_I => 0x49u32,
        Keysym::XK_J => 0x4au32,
        Keysym::XK_K => 0x4bu32,
        Keysym::XK_L => 0x4cu32,
        Keysym::XK_M => 0x4du32,
        Keysym::XK_N => 0x4eu32,
        Keysym::XK_O => 0x4fu32,
        Keysym::XK_P => 0x50u32,
        Keysym::XK_Q => 0x51u32,
        Keysym::XK_R => 0x52u32,
        Keysym::XK_S => 0x53u32,
        Keysym::XK_T => 0x54u32,
        Keysym::XK_U => 0x55u32,
        Keysym::XK_V => 0x56u32,
        Keysym::XK_W => 0x57u32,
        Keysym::XK_X => 0x58u32,
        Keysym::XK_Y => 0x59u32,
        Keysym::XK_Z => 0x5au32,
        Keysym::XK_a => 0x61u32,
        Keysym::XK_b => 0x62u32,
        Keysym::XK_c => 0x63u32,
        Keysym::XK_d => 0x64u32,
        Keysym::XK_e => 0x65u32,
        Keysym::XK_f => 0x66u32,
        Keysym::XK_g => 0x67u32,
        Keysym::XK_h => 0x68u32,
        Keysym::XK_i => 0x69u32,
        Keysym::XK_j => 0x6au32,
        Keysym::XK_k => 0x6bu32,
        Keysym::XK_l => 0x6cu32,
        Keysym::XK_m => 0x6du32,
        Keysym::XK_n => 0x6eu32,
        Keysym::XK_o => 0x6fu32,
        Keysym::XK_p => 0x70u32,
        Keysym::XK_q => 0x71u32,
        Keysym::XK_r => 0x72u32,
        Keysym::XK_s => 0x73u32,
        Keysym::XK_t => 0x74u32,
        Keysym::XK_u => 0x75u32,
        Keysym::XK_v => 0x76u32,
        Keysym::XK_w => 0x77u32,
        Keysym::XK_x => 0x78u32,
        Keysym::XK_y => 0x79u32,
        Keysym::XK_z => 0x7au32,
    }
}

/// Each key symbol's canonical name.
pub open spec fn spec_canonical_name(k: Keysym) -> Seq<char> {
    (match k {
        Keysym::XK_BackSpace => "XK_BackSpace",
        Keysym::XK_Return => "XK_Return",
        Keysym::XK_0 => "XK_0",
        Keysym::XK_1 => "XK_1",
        Keysym::XK_2 => "XK_2",
        Keysym::XK_3 => "XK_3",
        Keysym::XK_4 => "XK_4",
        Keysym::XK_5 => "XK_5",
        Keysym::XK_6 => "XK_6",
        Keysym::XK_7 => "XK_7",
        Keysym::XK_8 => "XK_8",
        Keysym::XK_9 => "XK_9",
        Keysym::XK_A => "XK_A",
        Keysym::XK_B => "XK_B",
        Keysym::XK_C => "XK_C",
        Keysym::XK_D => "XK_D",
        Keysym::XK_E => "XK_E",
        Keysym::XK_F => "XK_F",
        Keysym::XK_G => "XK_G",
        Keysym::XK_H => "XK_H",
        Keysym::XK_I => "XK_I",
        Keysym::XK_J => "XK_J",
        Keysym::XK_K => "XK_K",
        Keysym::XK_L => "XK_L",
        Keysym::XK_M => "XK_M",
        Keysym::XK_N => "XK_N",
        Keysym::XK_O => "XK_O",
        Keysym::XK_P => "XK_P",
        Keysym::XK_Q => "XK_Q",
        Keysym::XK_R => "XK_R",
        Keysym::XK_S => "XK_S",
        Keysym::XK_T => "XK_T",
        Keysym::XK_U => "XK_U",
        Keysym::XK_V => "XK_V",
        Keysym::XK_W => "XK_W",
        Keysym::XK_X => "XK_X",
        Keysym::XK_Y => "XK_Y",
        Keysym::XK_Z => "XK_Z",
        Keysym::XK_a => "XK_a",
        Keysym::XK_b => "XK_b",
        Keysym::XK_c => "XK_c",
        Keysym::XK_d => "XK_d",
        Keysym::XK_e => "XK_e",
        Keysym::XK_f => "XK_f",
        Keysym::XK_g => "XK_g",
        Keysym::XK_h => "XK_h",
        Keysym::XK_i => "XK_i",
        Keysym::XK_j => "XK_j",
        Keysym::XK_k => "XK_k",
        Keysym::XK_l => "XK_l",
        Keysym::XK_m => "XK_m",
        Keysym::XK_n => "XK_n",
        Keysym::XK_o => "XK_o",
        Keysym::XK_p => "XK_p",
        Keysym::XK_q => "XK_q",
        Keysym::XK_r => "XK_r",
        Keysym::XK_s => "XK_s",
        Keysym::XK_t => "XK_t",
        Keysym::XK_u => "XK_u",
        Keysym::XK_v => "XK_v",
        Keysym::XK_w => "XK_w",
        Keysym::XK_x => "XK_x",
        Keysym::XK_y => "XK_y",
        Keysym::XK_z => "XK_z",
    })@
}

/// Each key symbol's display label: the character it stands for, or
/// nothing for the control keys.
pub open spec fn spec_keysym_label(k: Keysym) -> Seq<char> {
    (match k {
        Keysym::XK_BackSpace => "",
        Keysym::XK_Return => "",
        Keysym::XK_0 => "0",
        Keysym::XK_1 => "1",
        Keysym::XK_2 => "2",
        Keysym::XK_3 => "3",
        Keysym::XK_4 => "4",
        Keysym::XK_5 => "5",
        Keysym::XK_6 => "6",
        Keysym::XK_7 => "7",
        Keysym::XK_8 => "8",
        Keysym::XK_9 => "9",
        Keysym::XK_A => "A",
        Keysym::XK_B => "B",
        Keysym::XK_C => "C",
        Keysym::XK_D => "D",
        Keysym::XK_E => "E",
        Keysym::XK_F => "F",
        Keysym::XK_G => "G",
        Keysym::XK_H => "H",
        Keysym::XK_I => "I",
        Keysym::XK_J => "J",
        Keysym::XK_K => "K",
        Keysym::XK_L => "L",
        Keysym::XK_M => "M",
        Keysym::XK_N => "N",
        Keysym::XK_O => "O",
        Keysym::XK_P => "P",
        Keysym::XK_Q => "Q",
        Keysym::XK_R => "R",
        Keysym::XK_S => "S",
        Keysym::XK_T => "T",
        Keysym::XK_U => "U",
        Keysym::XK_V => "V",
        Keysym::XK_W => "W",
        Keysym::XK_X => "X",
        Keysym::XK_Y => "Y",
        Keysym::XK_Z => "Z",
        Keysym::XK_a => "a",
        Keysym::XK_b => "b",
        Keysym::XK_c => "c",
        Keysym::XK_d => "d",
        Keysym::XK_e => "e",
        Keysym::XK_f => "f",
        Keysym::XK_g => "g",
        Keysym::XK_h => "h",
        Keysym::XK_i => "i",
        Keysym::XK_j => "j",
        Keysym::XK_k => "k",
        Keysym::XK_l => "l",
        Keysym::XK_m => "m",
        Keysym::XK_n => "n",
        Keysym::XK_o => "o",
        Keysym::XK_p => "p",
        Keysym::XK_q => "q",
        Keysym::XK_r => "r",
        Keysym::XK_s => "s",
        Keysym::XK_t => "t",
        Keysym::XK_u => "u",
        Keysym::XK_v => "v",
        Keysym::XK_w => "w",
        Keysym::XK_x => "x",
        Keysym::XK_y => "y",
        Keysym::XK_z => "z",
    })@
}

/// The key symbol a single configuration character names: a digit or a
/// lowercase letter.
pub open spec fn spec_keysym_for_char(c: char) -> Option<Keysym> {
    if c == '0' {
        Some(Keysym::XK_0)
    } else if c == '1' {
        Some(Keysym::XK_1)
    } else if c == '2' {
        Some(Keysym::XK_2)
    } else if c == '3' {
        Some(Keysym::XK_3)
    } else if c == '4' {
        Some(Keysym::XK_4)
    } else if c == '5' {
        Some(Keysym::XK_5)
    } else if c == '6' {
        Some(Keysym::XK_6)
    } else if c == '7' {
        Some(Keysym::XK_7)
    } else if c == '8' {
        Some(Keysym::XK_8)
    } else if c == '9' {
        Some(Keysym::XK_9)
    } else if c == 'a' {
        Some(Keysym::XK_a)
    } else if c == 'b' {
        Some(Keysym::XK_b)
    } else if c == 'c' {
        Some(Keysym::XK_c)
    } else if c == 'd' {
        Some(Keysym::XK_d)
    } else if c == 'e' {
        Some(Keysym::XK_e)
    } else if c == 'f' {
        Some(Keysym::XK_f)
    } else if c == 'g' {
        Some(Keysym::XK_g)
    } else if c == 'h' {
        Some(Keysym::XK_h)
    } else if c == 'i' {
        Some(Keysym::XK_i)
    } else if c == 'j' {
        Some(Keysym::XK_j)
    } else if c == 'k' {
        Some(Keysym::XK_k)
    } else if c == 'l' {
        Some(Keysym::XK_l)
    } else if c == 'm' {
        Some(Keysym::XK_m)
    } else if c == 'n' {
        Some(Keysym::XK_n)
    } else if c == 'o' {
        Some(Keysym::XK_o)
    } else if c == 'p' {
        Some(Keysym::XK_p)
    } else if c == 'q' {
        Some(Keysym::XK_q)
    } else if c == 'r' {
        Some(Keysym::XK_r)
    } else if c == 's' {
        Some(Keysym::XK_s)
    } else if c == 't' {
        Some(Keysym::XK_t)
    } else if c == 'u' {
        Some(Keysym::XK_u)
    } else if c == 'v' {
        Some(Keysym::XK_v)
    } else if c == 'w' {
        Some(Keysym::XK_w)
    } else if c == 'x' {
        Some(Keysym::XK_x)
    } else if c == 'y' {
        Some(Keysym::XK_y)
    } else if c == 'z' {
        Some(Keysym::XK_z)
    } else {
        None
    }
}

/// The key symbol a configuration string names: one digit or lowercase
/// letter, or the word "Enter" for the return key.
pub open spec fn spec_keysym_from_name(s: Seq<char>) -> Option<Keysym> {
    if s.len() == 1 {
        spec_keysym_for_char(s[0])
    } else if s == "Enter"@ {
        Some(Keysym::XK_Return)
    } else {
        None
    }
}

impl Keysym {
    /// The protocol code this key symbol stands for.
    pub fn code(&self) -> (r: u32)
        ensures
            r == spec_keysym_code(*self),
    {
        match self {
            Keysym::XK_BackSpace => 0xff08,
            Keysym::XK_Return => 0xff0d,
            Keysym::XK_0 => 0x30,
            Keysym::XK_1 => 0x31,
            Keysym::XK_2 => 0x32,
            Keysym::XK_3 => 0x33,
            Keysym::XK_4 => 0x34,
            Keysym::XK_5 => 0x35,
            Keysym::XK_6 => 0x36,
            Keysym::XK_7 => 0x37,
            Keysym::XK_8 => 0x38,
            Keysym::XK_9 => 0x39,
            Keysym::XK_A => 0x41,
            Keysym::XK_B => 0x42,
            Keysym::XK_C => 0x43,
            Keysym::XK_D => 0x44,
            Keysym::XK_E => 0x45,
            Keysym::XK_F => 0x46,
            Keysym::XK_G => 0x47,
            Keysym::XK_H => 0x48,
            Keysym::XK_I => 0x49,
            Keysym::XK_J => 0x4a,
            Keysym::XK_K => 0x4b,
            Keysym::XK_L => 0x4c,
            Keysym::XK_M => 0x4d,
            Keysym::XK_N => 0x4e,
            Keysym::XK_O => 0x4f,
            Keysym::XK_P => 0x50,
            Keysym::XK_Q => 0x51,
            Keysym::XK_R => 0x52,
            Keysym::XK_S => 0x53,
            Keysym::XK_T => 0x54,
            Keysym::XK_U => 0x55,
            Keysym::XK_V => 0x56,
            Keysym::XK_W => 0x57,
            Keysym::XK_X => 0x58,
            Keysym::XK_Y => 0x59,
            Keysym::XK_Z => 0x5a,
            Keysym::XK_a => 0x61,
            Keysym::XK_b => 0x62,
            Keysym::XK_c => 0x63,
            Keysym::XK_d => 0x64,
            Keysym::XK_e => 0x65,
            Keysym::XK_f => 0x66,
            Keysym::XK_g => 0x67,
            Keysym::XK_h => 0x68,
            Keysym::XK_i => 0x69,
            Keysym::XK_j => 0x6a,
            Keysym::XK_k => 0x6b,
            Keysym::XK_l => 0x6c,
            Keysym::XK_m => 0x6d,
            Keysym::XK_n => 0x6e,
            Keysym::XK_o => 0x6f,
            Keysym::XK_p => 0x70,
            Keysym::XK_q => 0x71,
            Keysym::XK_r => 0x72,
            Keysym::XK_s => 0x73,
            Keysym::XK_t => 0x74,
            Keysym::XK_u => 0x75,
            Keysym::XK_v => 0x76,
            Keysym::XK_w => 0x77,
            Keysym::XK_x => 0x78,
            Keysym::XK_y => 0x79,
            Keysym::XK_z => 0x7a,
        }
    }

    /// The key symbol with the given protocol code, if the table has one.
    pub fn from_code(code: u32) -> (r: Result<Keysym, ()>)
        ensures
            r is Ok ==> spec_keysym_code(r->Ok_0) == code,
            r is Err ==> forall|k: Keysym| spec_keysym_code(k) != code,
    {
        match code {
            0xff08 => Ok(Keysym::XK_BackSpace),
            0xff0d => Ok(Keysym::XK_Return),
            0x30 => Ok(Keysym::XK_0),
            0x31 => Ok(Keysym::XK_1),
            0x32 => Ok(Keysym::XK_2),
            0x33 => Ok(Keysym::XK_3),
            0x34 => Ok(Keysym::XK_4),
            0x35 => Ok(Keysym::XK_5),
            0x36 => Ok(Keysym::XK_6),
            0x37 => Ok(Keysym::XK_7),
            0x38 => Ok(Keysym::XK_8),
            0x39 => Ok(Keysym::XK_9),
            0x41 => Ok(Keysym::XK_A),
            0x42 => Ok(Keysym::XK_B),
            0x43 => Ok(Keysym::XK_C),
            0x44 => Ok(Keysym::XK_D),
            0x45 => Ok(Keysym::XK_E),
            0x46 => Ok(Keysym::XK_F),
            0x47 => Ok(Keysym::XK_G),
            0x48 => Ok(Keysym::XK_H),
            0x49 => Ok(Keysym::XK_I),
            0x4a => Ok(Keysym::XK_J),
            0x4b => Ok(Keysym::XK_K),
            0x4c => Ok(Keysym::XK_L),
            0x4d => Ok(Keysym::XK_M),
            0x4e => Ok(Keysym::XK_N),
            0x4f => Ok(Keysym::XK_O),
            0x50 => Ok(Keysym::XK_P),
            0x51 => Ok(Keysym::XK_Q),
            0x52 => Ok(Keysym::XK_R),
            0x53 => Ok(Keysym::XK_S),
            0x54 => Ok(Keysym::XK_T),
            0x55 => Ok(Keysym::XK_U),
            0x56 => Ok(Keysym::XK_V),
            0x57 => Ok(Keysym::XK_W),
            0x58 => Ok(Keysym::XK_X),
            0x59 => Ok(Keysym::XK_Y),
            0x5a => Ok(Keysym::XK_Z),
            0x61 => Ok(Keysym::XK_a),
            0x62 => Ok(Keysym::XK_b),
            0x63 => Ok(Keysym::XK_c),
            0x64 => Ok(Keysym::XK_d),
            0x65 => Ok(Keysym::XK_e),
            0x66 => Ok(Keysym::XK_f),
            0x67 => Ok(Keysym::XK_g),
            0x68 => Ok(Keysym::XK_h),
            0x69 => Ok(Keysym::XK_i),
            0x6a => Ok(Keysym::XK_j),
            0x6b => Ok(Keysym::XK_k),
            0x6c => Ok(Keysym::XK_l),
            0x6d => Ok(Keysym::XK_m),
            0x6e => Ok(Keysym::XK_n),
            0x6f => Ok(Keysym::XK_o),
            0x70 => Ok(Keysym::XK_p),
            0x71 => Ok(Keysym::XK_q),
            0x72 => Ok(Keysym::XK_r),
            0x73 => Ok(Keysym::XK_s),
            0x74 => Ok(Keysym::XK_t),
            0x75 => Ok(Keysym::XK_u),
            0x76 => Ok(Keysym::XK_v),
            0x77 => Ok(Keysym::XK_w),
            0x78 => Ok(Keysym::XK_x),
            0x79 => Ok(Keysym::XK_y),
            0x7a => Ok(Keysym::XK_z),
            _ => Err(()),
        }
    }

    /// This key symbol's canonical name, used to match configured key
    /// names against key-press events.
    pub fn canonical_name(&self) -> (r: &'static str)
        ensures
            r@ == spec_canonical_name(*self),
    {
        match self {
            Keysym::XK_BackSpace => "XK_BackSpace",
            Keysym::XK_Return => "XK_Return",
            Keysym::XK_0 => "XK_0",
            Keysym::XK_1 => "XK_1",
            Keysym::XK_2 => "XK_2",
            Keysym::XK_3 => "XK_3",
            Keysym::XK_4 => "XK_4",
            Keysym::XK_5 => "XK_5",
            Keysym::XK_6 => "XK_6",
            Keysym::XK_7 => "XK_7",
            Keysym::XK_8 => "XK_8",
            Keysym::XK_9 => "XK_9",
            Keysym::XK_A => "XK_A",
            Keysym::XK_B => "XK_B",
            Keysym::XK_C => "XK_C",
            Keysym::XK_D => "XK_D",
            Keysym::XK_E => "XK_E",
            Keysym::XK_F => "XK_F",
            Keysym::XK_G => "XK_G",
            Keysym::XK_H => "XK_H",
            Keysym::XK_I => "XK_I",
            Keysym::XK_J => "XK_J",
            Keysym::XK_K => "XK_K",
            Keysym::XK_L => "XK_L",
            Keysym::XK_M => "XK_M",
            Keysym::XK_N => "XK_N",
            Keysym::XK_O => "XK_O",
            Keysym::XK_P => "XK_P",
            Keysym::XK_Q => "XK_Q",
            Keysym::XK_R => "XK_R",
            Keysym::XK_S => "XK_S",
            Keysym::XK_T => "XK_T",
            Keysym::XK_U => "XK_U",
            Keysym::XK_V => "XK_V",
            Keysym::XK_W => "XK_W",
            Keysym::XK_X => "XK_X",
            Keysym::XK_Y => "XK_Y",
            Keysym::XK_Z => "XK_Z",
            Keysym::XK_a => "XK_a",
            Keysym::XK_b => "XK_b",
            Keysym::XK_c => "XK_c",
            Keysym::XK_d => "XK_d",
            Keysym::XK_e => "XK_e",
            Keysym::XK_f => "XK_f",
            Keysym::XK_g => "XK_g",
            Keysym::XK_h => "XK_h",
            Keysym::XK_i => "XK_i",
            Keysym::XK_j => "XK_j",
            Keysym::XK_k => "XK_k",
            Keysym::XK_l => "XK_l",
            Keysym::XK_m => "XK_m",
            Keysym::XK_n => "XK_n",
            Keysym::XK_o => "XK_o",
            Keysym::XK_p => "XK_p",
            Keysym::XK_q => "XK_q",
            Keysym::XK_r => "XK_r",
            Keysym::XK_s => "XK_s",
            Keysym::XK_t => "XK_t",
            Keysym::XK_u => "XK_u",
            Keysym::XK_v => "XK_v",
            Keysym::XK_w => "XK_w",
            Keysym::XK_x => "XK_x",
            Keysym::XK_y => "XK_y",
            Keysym::XK_z => "XK_z",
        }
    }

    /// The character this key symbol displays as; empty for control keys.
    pub fn label(&self) -> (r: &'static str)
        ensures
            r@ == spec_keysym_label(*self),
    {
        match self {
            Keysym::XK_BackSpace => "",
            Keysym::XK_Return => "",
            Keysym::XK_0 => "0",
            Keysym::XK_1 => "1",
            Keysym::XK_2 => "2",
            Keysym::XK_3 => "3",
            Keysym::XK_4 => "4",
            Keysym::XK_5 => "5",
            Keysym::XK_6 => "6",
            Keysym::XK_7 => "7",
            Keysym::XK_8 => "8",
            Keysym::XK_9 => "9",
            Keysym::XK_A => "A",
            Keysym::XK_B => "B",
            Keysym::XK_C => "C",
            Keysym::XK_D => "D",
            Keysym::XK_E => "E",
            Keysym::XK_F => "F",
            Keysym::XK_G => "G",
            Keysym::XK_H => "H",
            Keysym::XK_I => "I",
            Keysym::XK_J => "J",
            Keysym::XK_K => "K",
            Keysym::XK_L => "L",
            Keysym::XK_M => "M",
            Keysym::XK_N => "N",
            Keysym::XK_O => "O",
            Keysym::XK_P => "P",
            Keysym::XK_Q => "Q",
            Keysym::XK_R => "R",
            Keysym::XK_S => "S",
            Keysym::XK_T => "T",
            Keysym::XK_U => "U",
            Keysym::XK_V => "V",
            Keysym::XK_W => "W",
            Keysym::XK_X => "X",
            Keysym::XK_Y => "Y",
            Keysym::XK_Z => "Z",
            Keysym::XK_a => "a",
            Keysym::XK_b => "b",
            Keysym::XK_c => "c",
            Keysym::XK_d => "d",
            Keysym::XK_e => "e",
            Keysym::XK_f => "f",
            Keysym::XK_g => "g",
            Keysym::XK_h => "h",
            Keysym::XK_i => "i",
            Keysym::XK_j => "j",
            Keysym::XK_k => "k",
            Keysym::XK_l => "l",
            Keysym::XK_m => "m",
            Keysym::XK_n => "n",
            Keysym::XK_o => "o",
            Keysym::XK_p => "p",
            Keysym::XK_q => "q",
            Keysym::XK_r => "r",
            Keysym::XK_s => "s",
            Keysym::XK_t => "t",
            Keysym::XK_u => "u",
            Keysym::XK_v => "v",
            Keysym::XK_w => "w",
            Keysym::XK_x => "x",
            Keysym::XK_y => "y",
            Keysym::XK_z => "z",
        }
    }

    /// The key symbol a configured key name stands for: a single digit or
    /// lowercase letter, or "Enter".
    pub fn from_name(value: &str) -> (r: Option<Keysym>)
        ensures
            r == spec_keysym_from_name(value@),
    {
        let n = value.unicode_len();
        if n == 1 {
            let c = value.get_char(0);
            match c {
                '0' => Some(Keysym::XK_0),
                '1' => Some(Keysym::XK_1),
                '2' => Some(Keysym::XK_2),
                '3' => Some(Keysym::XK_3),
                '4' => Some(Keysym::XK_4),
                '5' => Some(Keysym::XK_5),
                '6' => Some(Keysym::XK_6),
                '7' => Some(Keysym::XK_7),
                '8' => Some(Keysym::XK_8),
                '9' => Some(Keysym::XK_9),
                'a' => Some(Keysym::XK_a),
                'b' => Some(Keysym::XK_b),
                'c' => Some(Keysym::XK_c),
                'd' => Some(Keysym::XK_d),
                'e' => Some(Keysym::XK_e),
                'f' => Some(Keysym::XK_f),
                'g' => Some(Keysym::XK_g),
                'h' => Some(Keysym::XK_h),
                'i' => Some(Keysym::XK_i),
                'j' => Some(Keysym::XK_j),
                'k' => Some(Keysym::XK_k),
                'l' => Some(Keysym::XK_l),
                'm' => Some(Keysym::XK_m),
                'n' => Some(Keysym::XK_n),
                'o' => Some(Keysym::XK_o),
                'p' => Some(Keysym::XK_p),
                'q' => Some(Keysym::XK_q),
                'r' => Some(Keysym::XK_r),
                's' => Some(Keysym::XK_s),
                't' => Some(Keysym::XK_t),
                'u' => Some(Keysym::XK_u),
                'v' => Some(Keysym::XK_v),
                'w' => Some(Keysym::XK_w),
                'x' => Some(Keysym::XK_x),
                'y' => Some(Keysym::XK_y),
                'z' => Some(Keysym::XK_z),
                _ => None,
            }
        } else if n == 5 {
            proof {
                reveal_strlit("Enter");
            }
            if value.get_char(0) == 'E' && value.get_char(1) == 'n' && value.get_char(2) == 't'
                && value.get_char(3) == 'e' && value.get_char(4) == 'r' {
                proof {
                    assert(value@ =~= "Enter"@);
                }
                Some(Keysym::XK_Return)
            } else {
                proof {
                    assert(value@ != "Enter"@);
                }
                None
            }
        } else {
            proof {
                reveal_strlit("Enter");
            }
            None
        }
    }
}

} // verus!
