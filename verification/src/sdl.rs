//! The SDL game controller database turned into database lines.
//!
//! Each SDL line names a controller by a GUID and maps SDL inputs (`b0`,
//! `a1~`, `h0.4`, ...) to SDL outputs (`a`, `leftx`, `dpup`, ...).  The lines
//! of Linux controllers whose GUID holds a vendor and product become lines
//! of the database that [`crate::remap::Remap::load`] reads.

use vstd::prelude::*;
use vstd::string::StringSliceAdditionalSpecFns;
use vstd::utf8::{decode_utf8, encode_utf8, is_continuation_byte};
use crate::remap::{after_first_line, first_line_len};
use crate::sdb::{drop_last_byte, hex2, push_hex2};
use crate::text::{cuts_at, find_first, find_in, is_byte, lemma_find_first, substr};

verus! {

/// What a token of the SDL database stands for.
#[derive(Clone, Copy, Debug, PartialEq, Eq, Structural)]
pub enum SdlToken {
    /// The code of an input or event in the database.
    Code(u8),
    /// A token that is left out.
    Skip,
    /// A token that the conversion does not know.
    Unknown,
}

/// What an SDL input token stands for: the code of an input, an input
/// that is skipped, or an unknown input.
pub open spec fn sdl_input(t: Seq<u8>) -> SdlToken {
    if t.len() == 2 && t[0] == 0x62u8 && t[1] == 0x30u8 {
        // b0
        SdlToken::Code(0x30)
    } else if t.len() == 2 && t[0] == 0x62u8 && t[1] == 0x31u8 {
        // b1
        SdlToken::Code(0x33)
    } else if t.len() == 2 && t[0] == 0x62u8 && t[1] == 0x32u8 {
        // b2
        SdlToken::Code(0x31)
    } else if t.len() == 2 && t[0] == 0x62u8 && t[1] == 0x33u8 {
        // b3
        SdlToken::Code(0x34)
    } else if t.len() == 2 && t[0] == 0x62u8 && t[1] == 0x34u8 {
        // b4
        SdlToken::Code(0x32)
    } else if t.len() == 2 && t[0] == 0x62u8 && t[1] == 0x35u8 {
        // b5
        SdlToken::Code(0x35)
    } else if t.len() == 2 && t[0] == 0x62u8 && t[1] == 0x36u8 {
        // b6
        SdlToken::Code(0x80)
    } else if t.len() == 2 && t[0] == 0x62u8 && t[1] == 0x37u8 {
        // b7
        SdlToken::Code(0x81)
    } else if t.len() == 2 && t[0] == 0x62u8 && t[1] == 0x38u8 {
        // b8
        SdlToken::Code(0x82)
    } else if t.len() == 2 && t[0] == 0x62u8 && t[1] == 0x39u8 {
        // b9
        SdlToken::Code(0x83)
    } else if t.len() == 3 && t[0] == 0x62u8 && t[1] == 0x31u8 && t[2] == 0x30u8 {
        // b10
        SdlToken::Code(0x84)
    } else if t.len() == 3 && t[0] == 0x62u8 && t[1] == 0x31u8 && t[2] == 0x31u8 {
        // b11
        SdlToken::Code(0x85)
    } else if t.len() == 3 && t[0] == 0x62u8 && t[1] == 0x31u8 && t[2] == 0x32u8 {
        // b12
        SdlToken::Code(0x86)
    } else if t.len() == 3 && t[0] == 0x62u8 && t[1] == 0x31u8 && t[2] == 0x33u8 {
        // b13
        SdlToken::Code(0x87)
    } else if t.len() == 3 && t[0] == 0x62u8 && t[1] == 0x31u8 && t[2] == 0x34u8 {
        // b14
        SdlToken::Code(0x88)
    } else if t.len() == 3 && t[0] == 0x62u8 && t[1] == 0x31u8 && t[2] == 0x35u8 {
        // b15
        SdlToken::Code(0x89)
    } else if t.len() == 3 && t[0] == 0x62u8 && t[1] == 0x31u8 && t[2] == 0x36u8 {
        // b16
        SdlToken::Code(0x02)
    } else if t.len() == 3 && t[0] == 0x62u8 && t[1] == 0x31u8 && t[2] == 0x37u8 {
        // b17
        SdlToken::Code(0x03)
    } else if t.len() == 3 && t[0] == 0x62u8 && t[1] == 0x31u8 && t[2] == 0x38u8 {
        // b18
        SdlToken::Code(0x04)
    } else if t.len() == 3 && t[0] == 0x62u8 && t[1] == 0x31u8 && t[2] == 0x39u8 {
        // b19
        SdlToken::Code(0x06)
    } else if t.len() == 3 && t[0] == 0x62u8 && t[1] == 0x32u8 && t[2] == 0x30u8 {
        // b20
        SdlToken::Code(0x05)
    } else if t.len() == 3 && t[0] == 0x62u8 && t[1] == 0x32u8 && t[2] == 0x31u8 {
        // b21
        SdlToken::Code(0x07)
    } else if t.len() == 3 && t[0] == 0x62u8 && t[1] == 0x32u8 && t[2] == 0x32u8 {
        // b22
        SdlToken::Code(0x0C)
    } else if t.len() == 4 && t[0] == 0x68u8 && t[1] == 0x30u8 && t[2] == 0x2Eu8 && t[3] == 0x31u8 {
        // h0.1
        SdlToken::Code(0x1C)
    } else if t.len() == 4 && t[0] == 0x68u8 && t[1] == 0x30u8 && t[2] == 0x2Eu8 && t[3] == 0x32u8 {
        // h0.2
        SdlToken::Code(0x1F)
    } else if t.len() == 4 && t[0] == 0x68u8 && t[1] == 0x30u8 && t[2] == 0x2Eu8 && t[3] == 0x34u8 {
        // h0.4
        SdlToken::Code(0x1D)
    } else if t.len() == 4 && t[0] == 0x68u8 && t[1] == 0x30u8 && t[2] == 0x2Eu8 && t[3] == 0x38u8 {
        // h0.8
        SdlToken::Code(0x1E)
    } else if t.len() == 2 && t[0] == 0x61u8 && t[1] == 0x30u8 {
        // a0
        SdlToken::Code(0x20)
    } else if t.len() == 3 && t[0] == 0x61u8 && t[1] == 0x30u8 && t[2] == 0x7Eu8 {
        // a0~
        SdlToken::Code(0x20)
    } else if t.len() == 2 && t[0] == 0x61u8 && t[1] == 0x31u8 {
        // a1
        SdlToken::Code(0x21)
    } else if t.len() == 3 && t[0] == 0x61u8 && t[1] == 0x31u8 && t[2] == 0x7Eu8 {
        // a1~
        SdlToken::Code(0x21)
    } else if t.len() == 2 && t[0] == 0x61u8 && t[1] == 0x32u8 {
        // a2
        SdlToken::Code(0x22)
    } else if t.len() == 3 && t[0] == 0x61u8 && t[1] == 0x32u8 && t[2] == 0x7Eu8 {
        // a2~
        SdlToken::Code(0x22)
    } else if t.len() == 2 && t[0] == 0x61u8 && t[1] == 0x33u8 {
        // a3
        SdlToken::Code(0x23)
    } else if t.len() == 3 && t[0] == 0x61u8 && t[1] == 0x33u8 && t[2] == 0x7Eu8 {
        // a3~
        SdlToken::Code(0x23)
    } else if t.len() == 2 && t[0] == 0x61u8 && t[1] == 0x34u8 {
        // a4
        SdlToken::Code(0x24)
    } else if t.len() == 3 && t[0] == 0x61u8 && t[1] == 0x34u8 && t[2] == 0x7Eu8 {
        // a4~
        SdlToken::Code(0x24)
    } else if t.len() == 2 && t[0] == 0x61u8 && t[1] == 0x35u8 {
        // a5
        SdlToken::Code(0x25)
    } else if t.len() == 3 && t[0] == 0x61u8 && t[1] == 0x35u8 && t[2] == 0x7Eu8 {
        // a5~
        SdlToken::Code(0x25)
    } else if t.len() == 2 && t[0] == 0x61u8 && t[1] == 0x36u8 {
        // a6
        SdlToken::Code(0x27)
    } else if t.len() == 3 && t[0] == 0x61u8 && t[1] == 0x36u8 && t[2] == 0x7Eu8 {
        // a6~
        SdlToken::Code(0x27)
    } else if t.len() == 2 && t[0] == 0x61u8 && t[1] == 0x37u8 {
        // a7
        SdlToken::Code(0x2C)
    } else if t.len() == 3 && t[0] == 0x61u8 && t[1] == 0x37u8 && t[2] == 0x7Eu8 {
        // a7~
        SdlToken::Code(0x2C)
    } else if t.len() == 2 && t[0] == 0x61u8 && t[1] == 0x38u8 {
        // a8
        SdlToken::Code(0x2B)
    } else if t.len() == 3 && t[0] == 0x61u8 && t[1] == 0x38u8 && t[2] == 0x7Eu8 {
        // a8~
        SdlToken::Code(0x2B)
    } else if t.len() == 2 && t[0] == 0x61u8 && t[1] == 0x39u8 {
        // a9
        SdlToken::Code(0x2D)
    } else if t.len() == 3 && t[0] == 0x61u8 && t[1] == 0x39u8 && t[2] == 0x7Eu8 {
        // a9~
        SdlToken::Code(0x2D)
    } else if t.len() == 3 && t[0] == 0x61u8 && t[1] == 0x31u8 && t[2] == 0x30u8 {
        // a10
        SdlToken::Code(0x2E)
    } else if t.len() == 4 && t[0] == 0x61u8 && t[1] == 0x31u8 && t[2] == 0x30u8 && t[3] == 0x7Eu8 {
        // a10~
        SdlToken::Code(0x2E)
    } else if t.len() == 3 && t[0] == 0x61u8 && t[1] == 0x31u8 && t[2] == 0x31u8 {
        // a11
        SdlToken::Code(0x26)
    } else if t.len() == 4 && t[0] == 0x61u8 && t[1] == 0x31u8 && t[2] == 0x31u8 && t[3] == 0x7Eu8 {
        // a11~
        SdlToken::Code(0x26)
    } else if t.len() == 3 && t[0] == 0x61u8 && t[1] == 0x31u8 && t[2] == 0x32u8 {
        // a12
        SdlToken::Code(0x28)
    } else if t.len() == 3 && t[0] == 0x61u8 && t[1] == 0x31u8 && t[2] == 0x33u8 {
        // a13
        SdlToken::Code(0x29)
    } else if t.len() == 3 && t[0] == 0x61u8 && t[1] == 0x31u8 && t[2] == 0x34u8 {
        // a14
        SdlToken::Code(0x57)
    } else if t.len() == 4 && t[0] == 0x62u8 && t[1] == 0x31u8 && t[2] == 0x32u8 && t[3] == 0x32u8 {
        // b122
        SdlToken::Code(0x11)
    } else if t.len() == 4 && t[0] == 0x62u8 && t[1] == 0x31u8 && t[2] == 0x31u8 && t[3] == 0x39u8 {
        // b119
        SdlToken::Code(0x12)
    } else if t.len() == 4 && t[0] == 0x62u8 && t[1] == 0x31u8 && t[2] == 0x32u8 && t[3] == 0x30u8 {
        // b120
        SdlToken::Code(0x13)
    } else if t.len() == 4 && t[0] == 0x62u8 && t[1] == 0x31u8 && t[2] == 0x31u8 && t[3] == 0x37u8 {
        // b117
        SdlToken::Code(0x10)
    } else if t.len() == 4 && t[0] == 0x62u8 && t[1] == 0x31u8 && t[2] == 0x36u8 && t[3] == 0x31u8 {
        // b161
        SdlToken::Code(0x8B)
    } else if t.len() == 3 && t[0] == 0x62u8 && t[1] == 0x33u8 && t[2] == 0x32u8 {
        // b32
        SdlToken::Skip
    } else if t.len() == 3 && t[0] == 0x2Bu8 && t[1] == 0x61u8 && t[2] == 0x30u8 {
        // +a0
        SdlToken::Skip
    } else if t.len() == 3 && t[0] == 0x2Bu8 && t[1] == 0x61u8 && t[2] == 0x31u8 {
        // +a1
        SdlToken::Skip
    } else if t.len() == 3 && t[0] == 0x2Bu8 && t[1] == 0x61u8 && t[2] == 0x32u8 {
        // +a2
        SdlToken::Skip
    } else if t.len() == 3 && t[0] == 0x2Bu8 && t[1] == 0x61u8 && t[2] == 0x33u8 {
        // +a3
        SdlToken::Skip
    } else if t.len() == 3 && t[0] == 0x2Bu8 && t[1] == 0x61u8 && t[2] == 0x34u8 {
        // +a4
        SdlToken::Skip
    } else if t.len() == 3 && t[0] == 0x2Bu8 && t[1] == 0x61u8 && t[2] == 0x35u8 {
        // +a5
        SdlToken::Skip
    } else if t.len() == 3 && t[0] == 0x2Du8 && t[1] == 0x61u8 && t[2] == 0x30u8 {
        // -a0
        SdlToken::Skip
    } else if t.len() == 3 && t[0] == 0x2Du8 && t[1] == 0x61u8 && t[2] == 0x31u8 {
        // -a1
        SdlToken::Skip
    } else if t.len() == 3 && t[0] == 0x2Du8 && t[1] == 0x61u8 && t[2] == 0x32u8 {
        // -a2
        SdlToken::Skip
    } else if t.len() == 3 && t[0] == 0x2Du8 && t[1] == 0x61u8 && t[2] == 0x33u8 {
        // -a3
        SdlToken::Skip
    } else if t.len() == 3 && t[0] == 0x2Du8 && t[1] == 0x61u8 && t[2] == 0x34u8 {
        // -a4
        SdlToken::Skip
    } else if t.len() == 3 && t[0] == 0x2Du8 && t[1] == 0x61u8 && t[2] == 0x35u8 {
        // -a5
        SdlToken::Skip
    } else if t.len() == 5 && t[0] == 0x4Cu8 && t[1] == 0x69u8 && t[2] == 0x6Eu8 && t[3] == 0x75u8 && t[4] == 0x78u8 {
        // Linux
        SdlToken::Skip
    } else if t.len() == 4 && t[0] == 0x62u8 && t[1] == 0x31u8 && t[2] == 0x33u8 && t[3] == 0x36u8 {
        // b136
        SdlToken::Skip
    } else {
        SdlToken::Unknown
    }
}

/// What an SDL output name stands for: the code of an event, an output
/// that is skipped, or an unknown output.
pub open spec fn sdl_output(t: Seq<u8>) -> SdlToken {
    if t.len() == 1 && t[0] == 0x61u8 {
        // a
        SdlToken::Code(0x02)
    } else if t.len() == 1 && t[0] == 0x62u8 {
        // b
        SdlToken::Code(0x03)
    } else if t.len() == 1 && t[0] == 0x78u8 {
        // x
        SdlToken::Code(0x05)
    } else if t.len() == 1 && t[0] == 0x79u8 {
        // y
        SdlToken::Code(0x06)
    } else if t.len() == 4 && t[0] == 0x62u8 && t[1] == 0x61u8 && t[2] == 0x63u8 && t[3] == 0x6Bu8 {
        // back
        SdlToken::Code(0x08)
    } else if t.len() == 5 && t[0] == 0x73u8 && t[1] == 0x74u8 && t[2] == 0x61u8 && t[3] == 0x72u8 && t[4] == 0x74u8 {
        // start
        SdlToken::Code(0x09)
    } else if t.len() == 5 && t[0] == 0x67u8 && t[1] == 0x75u8 && t[2] == 0x69u8 && t[3] == 0x64u8 && t[4] == 0x65u8 {
        // guide
        SdlToken::Code(0x01)
    } else if t.len() == 12 && t[0] == 0x6Cu8 && t[1] == 0x65u8 && t[2] == 0x66u8 && t[3] == 0x74u8 && t[4] == 0x73u8 && t[5] == 0x68u8 && t[6] == 0x6Fu8 && t[7] == 0x75u8 && t[8] == 0x6Cu8 && t[9] == 0x64u8 && t[10] == 0x65u8 && t[11] == 0x72u8 {
        // leftshoulder
        SdlToken::Code(0x0C)
    } else if t.len() == 11 && t[0] == 0x6Cu8 && t[1] == 0x65u8 && t[2] == 0x66u8 && t[3] == 0x74u8 && t[4] == 0x74u8 && t[5] == 0x72u8 && t[6] == 0x69u8 && t[7] == 0x67u8 && t[8] == 0x67u8 && t[9] == 0x65u8 && t[10] == 0x72u8 {
        // lefttrigger
        SdlToken::Code(0x0E)
    } else if t.len() == 5 && t[0] == 0x6Cu8 && t[1] == 0x65u8 && t[2] == 0x66u8 && t[3] == 0x74u8 && t[4] == 0x78u8 {
        // leftx
        SdlToken::Code(0x20)
    } else if t.len() == 5 && t[0] == 0x6Cu8 && t[1] == 0x65u8 && t[2] == 0x66u8 && t[3] == 0x74u8 && t[4] == 0x79u8 {
        // lefty
        SdlToken::Code(0x21)
    } else if t.len() == 6 && t[0] == 0x72u8 && t[1] == 0x69u8 && t[2] == 0x67u8 && t[3] == 0x68u8 && t[4] == 0x74u8 && t[5] == 0x78u8 {
        // rightx
        SdlToken::Code(0x23)
    } else if t.len() == 6 && t[0] == 0x72u8 && t[1] == 0x69u8 && t[2] == 0x67u8 && t[3] == 0x68u8 && t[4] == 0x74u8 && t[5] == 0x79u8 {
        // righty
        SdlToken::Code(0x24)
    } else if t.len() == 13 && t[0] == 0x72u8 && t[1] == 0x69u8 && t[2] == 0x67u8 && t[3] == 0x68u8 && t[4] == 0x74u8 && t[5] == 0x73u8 && t[6] == 0x68u8 && t[7] == 0x6Fu8 && t[8] == 0x75u8 && t[9] == 0x6Cu8 && t[10] == 0x64u8 && t[11] == 0x65u8 && t[12] == 0x72u8 {
        // rightshoulder
        SdlToken::Code(0x0D)
    } else if t.len() == 12 && t[0] == 0x72u8 && t[1] == 0x69u8 && t[2] == 0x67u8 && t[3] == 0x68u8 && t[4] == 0x74u8 && t[5] == 0x74u8 && t[6] == 0x72u8 && t[7] == 0x69u8 && t[8] == 0x67u8 && t[9] == 0x67u8 && t[10] == 0x65u8 && t[11] == 0x72u8 {
        // righttrigger
        SdlToken::Code(0x0F)
    } else if t.len() == 9 && t[0] == 0x6Cu8 && t[1] == 0x65u8 && t[2] == 0x66u8 && t[3] == 0x74u8 && t[4] == 0x73u8 && t[5] == 0x74u8 && t[6] == 0x69u8 && t[7] == 0x63u8 && t[8] == 0x6Bu8 {
        // leftstick
        SdlToken::Code(0x0A)
    } else if t.len() == 10 && t[0] == 0x72u8 && t[1] == 0x69u8 && t[2] == 0x67u8 && t[3] == 0x68u8 && t[4] == 0x74u8 && t[5] == 0x73u8 && t[6] == 0x74u8 && t[7] == 0x69u8 && t[8] == 0x63u8 && t[9] == 0x6Bu8 {
        // rightstick
        SdlToken::Code(0x0B)
    } else if t.len() == 6 && t[0] == 0x64u8 && t[1] == 0x70u8 && t[2] == 0x6Cu8 && t[3] == 0x65u8 && t[4] == 0x66u8 && t[5] == 0x74u8 {
        // dpleft
        SdlToken::Code(0x12)
    } else if t.len() == 7 && t[0] == 0x64u8 && t[1] == 0x70u8 && t[2] == 0x72u8 && t[3] == 0x69u8 && t[4] == 0x67u8 && t[5] == 0x68u8 && t[6] == 0x74u8 {
        // dpright
        SdlToken::Code(0x13)
    } else if t.len() == 4 && t[0] == 0x64u8 && t[1] == 0x70u8 && t[2] == 0x75u8 && t[3] == 0x70u8 {
        // dpup
        SdlToken::Code(0x10)
    } else if t.len() == 6 && t[0] == 0x64u8 && t[1] == 0x70u8 && t[2] == 0x64u8 && t[3] == 0x6Fu8 && t[4] == 0x77u8 && t[5] == 0x6Eu8 {
        // dpdown
        SdlToken::Code(0x11)
    } else if t.len() == 5 && t[0] == 0x6Du8 && t[1] == 0x69u8 && t[2] == 0x73u8 && t[3] == 0x63u8 && t[4] == 0x31u8 {
        // misc1
        SdlToken::Code(0x81)
    } else if t.len() == 7 && t[0] == 0x70u8 && t[1] == 0x61u8 && t[2] == 0x64u8 && t[3] == 0x64u8 && t[4] == 0x6Cu8 && t[5] == 0x65u8 && t[6] == 0x31u8 {
        // paddle1
        SdlToken::Code(0x51)
    } else if t.len() == 7 && t[0] == 0x70u8 && t[1] == 0x61u8 && t[2] == 0x64u8 && t[3] == 0x64u8 && t[4] == 0x6Cu8 && t[5] == 0x65u8 && t[6] == 0x32u8 {
        // paddle2
        SdlToken::Code(0x52)
    } else if t.len() == 6 && t[0] == 0x2Bu8 && t[1] == 0x6Cu8 && t[2] == 0x65u8 && t[3] == 0x66u8 && t[4] == 0x74u8 && t[5] == 0x78u8 {
        // +leftx
        SdlToken::Skip
    } else if t.len() == 6 && t[0] == 0x2Du8 && t[1] == 0x6Cu8 && t[2] == 0x65u8 && t[3] == 0x66u8 && t[4] == 0x74u8 && t[5] == 0x78u8 {
        // -leftx
        SdlToken::Skip
    } else if t.len() == 6 && t[0] == 0x2Bu8 && t[1] == 0x6Cu8 && t[2] == 0x65u8 && t[3] == 0x66u8 && t[4] == 0x74u8 && t[5] == 0x79u8 {
        // +lefty
        SdlToken::Skip
    } else if t.len() == 6 && t[0] == 0x2Du8 && t[1] == 0x6Cu8 && t[2] == 0x65u8 && t[3] == 0x66u8 && t[4] == 0x74u8 && t[5] == 0x79u8 {
        // -lefty
        SdlToken::Skip
    } else {
        SdlToken::Unknown
    }
}

fn sdl_input_of(b: &[u8], from: usize, to: usize) -> (r: SdlToken)
    requires
        from <= to <= b@.len(),
    ensures
        r == sdl_input(b@.subrange(from as int, to as int)),
{
    let ghost t = b@.subrange(from as int, to as int);
    assert(forall|k: int| 0 <= k < t.len() ==> #[trigger] t[k] == b@[from + k]);
    if to - from == 2 && b[from] == 0x62u8 && b[from + 1] == 0x30u8 {
        return SdlToken::Code(0x30);
    }
    if to - from == 2 && b[from] == 0x62u8 && b[from + 1] == 0x31u8 {
        return SdlToken::Code(0x33);
    }
    if to - from == 2 && b[from] == 0x62u8 && b[from + 1] == 0x32u8 {
        return SdlToken::Code(0x31);
    }
    if to - from == 2 && b[from] == 0x62u8 && b[from + 1] == 0x33u8 {
        return SdlToken::Code(0x34);
    }
    if to - from == 2 && b[from] == 0x62u8 && b[from + 1] == 0x34u8 {
        return SdlToken::Code(0x32);
    }
    if to - from == 2 && b[from] == 0x62u8 && b[from + 1] == 0x35u8 {
        return SdlToken::Code(0x35);
    }
    if to - from == 2 && b[from] == 0x62u8 && b[from + 1] == 0x36u8 {
        return SdlToken::Code(0x80);
    }
    if to - from == 2 && b[from] == 0x62u8 && b[from + 1] == 0x37u8 {
        return SdlToken::Code(0x81);
    }
    if to - from == 2 && b[from] == 0x62u8 && b[from + 1] == 0x38u8 {
        return SdlToken::Code(0x82);
    }
    if to - from == 2 && b[from] == 0x62u8 && b[from + 1] == 0x39u8 {
        return SdlToken::Code(0x83);
    }
    if to - from == 3 && b[from] == 0x62u8 && b[from + 1] == 0x31u8 && b[from + 2] == 0x30u8 {
        return SdlToken::Code(0x84);
    }
    if to - from == 3 && b[from] == 0x62u8 && b[from + 1] == 0x31u8 && b[from + 2] == 0x31u8 {
        return SdlToken::Code(0x85);
    }
    if to - from == 3 && b[from] == 0x62u8 && b[from + 1] == 0x31u8 && b[from + 2] == 0x32u8 {
        return SdlToken::Code(0x86);
    }
    if to - from == 3 && b[from] == 0x62u8 && b[from + 1] == 0x31u8 && b[from + 2] == 0x33u8 {
        return SdlToken::Code(0x87);
    }
    if to - from == 3 && b[from] == 0x62u8 && b[from + 1] == 0x31u8 && b[from + 2] == 0x34u8 {
        return SdlToken::Code(0x88);
    }
    if to - from == 3 && b[from] == 0x62u8 && b[from + 1] == 0x31u8 && b[from + 2] == 0x35u8 {
        return SdlToken::Code(0x89);
    }
    if to - from == 3 && b[from] == 0x62u8 && b[from + 1] == 0x31u8 && b[from + 2] == 0x36u8 {
        return SdlToken::Code(0x02);
    }
    if to - from == 3 && b[from] == 0x62u8 && b[from + 1] == 0x31u8 && b[from + 2] == 0x37u8 {
        return SdlToken::Code(0x03);
    }
    if to - from == 3 && b[from] == 0x62u8 && b[from + 1] == 0x31u8 && b[from + 2] == 0x38u8 {
        return SdlToken::Code(0x04);
    }
    if to - from == 3 && b[from] == 0x62u8 && b[from + 1] == 0x31u8 && b[from + 2] == 0x39u8 {
        return SdlToken::Code(0x06);
    }
    if to - from == 3 && b[from] == 0x62u8 && b[from + 1] == 0x32u8 && b[from + 2] == 0x30u8 {
        return SdlToken::Code(0x05);
    }
    if to - from == 3 && b[from] == 0x62u8 && b[from + 1] == 0x32u8 && b[from + 2] == 0x31u8 {
        return SdlToken::Code(0x07);
    }
    if to - from == 3 && b[from] == 0x62u8 && b[from + 1] == 0x32u8 && b[from + 2] == 0x32u8 {
        return SdlToken::Code(0x0C);
    }
    if to - from == 4 && b[from] == 0x68u8 && b[from + 1] == 0x30u8 && b[from + 2] == 0x2Eu8 && b[from + 3] == 0x31u8 {
        return SdlToken::Code(0x1C);
    }
    if to - from == 4 && b[from] == 0x68u8 && b[from + 1] == 0x30u8 && b[from + 2] == 0x2Eu8 && b[from + 3] == 0x32u8 {
        return SdlToken::Code(0x1F);
    }
    if to - from == 4 && b[from] == 0x68u8 && b[from + 1] == 0x30u8 && b[from + 2] == 0x2Eu8 && b[from + 3] == 0x34u8 {
        return SdlToken::Code(0x1D);
    }
    if to - from == 4 && b[from] == 0x68u8 && b[from + 1] == 0x30u8 && b[from + 2] == 0x2Eu8 && b[from + 3] == 0x38u8 {
        return SdlToken::Code(0x1E);
    }
    if to - from == 2 && b[from] == 0x61u8 && b[from + 1] == 0x30u8 {
        return SdlToken::Code(0x20);
    }
    if to - from == 3 && b[from] == 0x61u8 && b[from + 1] == 0x30u8 && b[from + 2] == 0x7Eu8 {
        return SdlToken::Code(0x20);
    }
    if to - from == 2 && b[from] == 0x61u8 && b[from + 1] == 0x31u8 {
        return SdlToken::Code(0x21);
    }
    if to - from == 3 && b[from] == 0x61u8 && b[from + 1] == 0x31u8 && b[from + 2] == 0x7Eu8 {
        return SdlToken::Code(0x21);
    }
    if to - from == 2 && b[from] == 0x61u8 && b[from + 1] == 0x32u8 {
        return SdlToken::Code(0x22);
    }
    if to - from == 3 && b[from] == 0x61u8 && b[from + 1] == 0x32u8 && b[from + 2] == 0x7Eu8 {
        return SdlToken::Code(0x22);
    }
    if to - from == 2 && b[from] == 0x61u8 && b[from + 1] == 0x33u8 {
        return SdlToken::Code(0x23);
    }
    if to - from == 3 && b[from] == 0x61u8 && b[from + 1] == 0x33u8 && b[from + 2] == 0x7Eu8 {
        return SdlToken::Code(0x23);
    }
    if to - from == 2 && b[from] == 0x61u8 && b[from + 1] == 0x34u8 {
        return SdlToken::Code(0x24);
    }
    if to - from == 3 && b[from] == 0x61u8 && b[from + 1] == 0x34u8 && b[from + 2] == 0x7Eu8 {
        return SdlToken::Code(0x24);
    }
    if to - from == 2 && b[from] == 0x61u8 && b[from + 1] == 0x35u8 {
        return SdlToken::Code(0x25);
    }
    if to - from == 3 && b[from] == 0x61u8 && b[from + 1] == 0x35u8 && b[from + 2] == 0x7Eu8 {
        return SdlToken::Code(0x25);
    }
    if to - from == 2 && b[from] == 0x61u8 && b[from + 1] == 0x36u8 {
        return SdlToken::Code(0x27);
    }
    if to - from == 3 && b[from] == 0x61u8 && b[from + 1] == 0x36u8 && b[from + 2] == 0x7Eu8 {
        return SdlToken::Code(0x27);
    }
    if to - from == 2 && b[from] == 0x61u8 && b[from + 1] == 0x37u8 {
        return SdlToken::Code(0x2C);
    }
    if to - from == 3 && b[from] == 0x61u8 && b[from + 1] == 0x37u8 && b[from + 2] == 0x7Eu8 {
        return SdlToken::Code(0x2C);
    }
    if to - from == 2 && b[from] == 0x61u8 && b[from + 1] == 0x38u8 {
        return SdlToken::Code(0x2B);
    }
    if to - from == 3 && b[from] == 0x61u8 && b[from + 1] == 0x38u8 && b[from + 2] == 0x7Eu8 {
        return SdlToken::Code(0x2B);
    }
    if to - from == 2 && b[from] == 0x61u8 && b[from + 1] == 0x39u8 {
        return SdlToken::Code(0x2D);
    }
    if to - from == 3 && b[from] == 0x61u8 && b[from + 1] == 0x39u8 && b[from + 2] == 0x7Eu8 {
        return SdlToken::Code(0x2D);
    }
    if to - from == 3 && b[from] == 0x61u8 && b[from + 1] == 0x31u8 && b[from + 2] == 0x30u8 {
        return SdlToken::Code(0x2E);
    }
    if to - from == 4 && b[from] == 0x61u8 && b[from + 1] == 0x31u8 && b[from + 2] == 0x30u8 && b[from + 3] == 0x7Eu8 {
        return SdlToken::Code(0x2E);
    }
    if to - from == 3 && b[from] == 0x61u8 && b[from + 1] == 0x31u8 && b[from + 2] == 0x31u8 {
        return SdlToken::Code(0x26);
    }
    if to - from == 4 && b[from] == 0x61u8 && b[from + 1] == 0x31u8 && b[from + 2] == 0x31u8 && b[from + 3] == 0x7Eu8 {
        return SdlToken::Code(0x26);
    }
    if to - from == 3 && b[from] == 0x61u8 && b[from + 1] == 0x31u8 && b[from + 2] == 0x32u8 {
        return SdlToken::Code(0x28);
    }
    if to - from == 3 && b[from] == 0x61u8 && b[from + 1] == 0x31u8 && b[from + 2] == 0x33u8 {
        return SdlToken::Code(0x29);
    }
    if to - from == 3 && b[from] == 0x61u8 && b[from + 1] == 0x31u8 && b[from + 2] == 0x34u8 {
        return SdlToken::Code(0x57);
    }
    if to - from == 4 && b[from] == 0x62u8 && b[from + 1] == 0x31u8 && b[from + 2] == 0x32u8 && b[from + 3] == 0x32u8 {
        return SdlToken::Code(0x11);
    }
    if to - from == 4 && b[from] == 0x62u8 && b[from + 1] == 0x31u8 && b[from + 2] == 0x31u8 && b[from + 3] == 0x39u8 {
        return SdlToken::Code(0x12);
    }
    if to - from == 4 && b[from] == 0x62u8 && b[from + 1] == 0x31u8 && b[from + 2] == 0x32u8 && b[from + 3] == 0x30u8 {
        return SdlToken::Code(0x13);
    }
    if to - from == 4 && b[from] == 0x62u8 && b[from + 1] == 0x31u8 && b[from + 2] == 0x31u8 && b[from + 3] == 0x37u8 {
        return SdlToken::Code(0x10);
    }
    if to - from == 4 && b[from] == 0x62u8 && b[from + 1] == 0x31u8 && b[from + 2] == 0x36u8 && b[from + 3] == 0x31u8 {
        return SdlToken::Code(0x8B);
    }
    if to - from == 3 && b[from] == 0x62u8 && b[from + 1] == 0x33u8 && b[from + 2] == 0x32u8 {
        return SdlToken::Skip;
    }
    if to - from == 3 && b[from] == 0x2Bu8 && b[from + 1] == 0x61u8 && b[from + 2] == 0x30u8 {
        return SdlToken::Skip;
    }
    if to - from == 3 && b[from] == 0x2Bu8 && b[from + 1] == 0x61u8 && b[from + 2] == 0x31u8 {
        return SdlToken::Skip;
    }
    if to - from == 3 && b[from] == 0x2Bu8 && b[from + 1] == 0x61u8 && b[from + 2] == 0x32u8 {
        return SdlToken::Skip;
    }
    if to - from == 3 && b[from] == 0x2Bu8 && b[from + 1] == 0x61u8 && b[from + 2] == 0x33u8 {
        return SdlToken::Skip;
    }
    if to - from == 3 && b[from] == 0x2Bu8 && b[from + 1] == 0x61u8 && b[from + 2] == 0x34u8 {
        return SdlToken::Skip;
    }
    if to - from == 3 && b[from] == 0x2Bu8 && b[from + 1] == 0x61u8 && b[from + 2] == 0x35u8 {
        return SdlToken::Skip;
    }
    if to - from == 3 && b[from] == 0x2Du8 && b[from + 1] == 0x61u8 && b[from + 2] == 0x30u8 {
        return SdlToken::Skip;
    }
    if to - from == 3 && b[from] == 0x2Du8 && b[from + 1] == 0x61u8 && b[from + 2] == 0x31u8 {
        return SdlToken::Skip;
    }
    if to - from == 3 && b[from] == 0x2Du8 && b[from + 1] == 0x61u8 && b[from + 2] == 0x32u8 {
        return SdlToken::Skip;
    }
    if to - from == 3 && b[from] == 0x2Du8 && b[from + 1] == 0x61u8 && b[from + 2] == 0x33u8 {
        return SdlToken::Skip;
    }
    if to - from == 3 && b[from] == 0x2Du8 && b[from + 1] == 0x61u8 && b[from + 2] == 0x34u8 {
        return SdlToken::Skip;
    }
    if to - from == 3 && b[from] == 0x2Du8 && b[from + 1] == 0x61u8 && b[from + 2] == 0x35u8 {
        return SdlToken::Skip;
    }
    if to - from == 5 && b[from] == 0x4Cu8 && b[from + 1] == 0x69u8 && b[from + 2] == 0x6Eu8 && b[from + 3] == 0x75u8 && b[from + 4] == 0x78u8 {
        return SdlToken::Skip;
    }
    if to - from == 4 && b[from] == 0x62u8 && b[from + 1] == 0x31u8 && b[from + 2] == 0x33u8 && b[from + 3] == 0x36u8 {
        return SdlToken::Skip;
    }
    SdlToken::Unknown
}

fn sdl_output_of(b: &[u8], from: usize, to: usize) -> (r: SdlToken)
    requires
        from <= to <= b@.len(),
    ensures
        r == sdl_output(b@.subrange(from as int, to as int)),
{
    let ghost t = b@.subrange(from as int, to as int);
    assert(forall|k: int| 0 <= k < t.len() ==> #[trigger] t[k] == b@[from + k]);
    if to - from == 1 && b[from] == 0x61u8 {
        return SdlToken::Code(0x02);
    }
    if to - from == 1 && b[from] == 0x62u8 {
        return SdlToken::Code(0x03);
    }
    if to - from == 1 && b[from] == 0x78u8 {
        return SdlToken::Code(0x05);
    }
    if to - from == 1 && b[from] == 0x79u8 {
        return SdlToken::Code(0x06);
    }
    if to - from == 4 && b[from] == 0x62u8 && b[from + 1] == 0x61u8 && b[from + 2] == 0x63u8 && b[from + 3] == 0x6Bu8 {
        return SdlToken::Code(0x08);
    }
    if to - from == 5 && b[from] == 0x73u8 && b[from + 1] == 0x74u8 && b[from + 2] == 0x61u8 && b[from + 3] == 0x72u8 && b[from + 4] == 0x74u8 {
        return SdlToken::Code(0x09);
    }
    if to - from == 5 && b[from] == 0x67u8 && b[from + 1] == 0x75u8 && b[from + 2] == 0x69u8 && b[from + 3] == 0x64u8 && b[from + 4] == 0x65u8 {
        return SdlToken::Code(0x01);
    }
    if to - from == 12 && b[from] == 0x6Cu8 && b[from + 1] == 0x65u8 && b[from + 2] == 0x66u8 && b[from + 3] == 0x74u8 && b[from + 4] == 0x73u8 && b[from + 5] == 0x68u8 && b[from + 6] == 0x6Fu8 && b[from + 7] == 0x75u8 && b[from + 8] == 0x6Cu8 && b[from + 9] == 0x64u8 && b[from + 10] == 0x65u8 && b[from + 11] == 0x72u8 {
        return SdlToken::Code(0x0C);
    }
    if to - from == 11 && b[from] == 0x6Cu8 && b[from + 1] == 0x65u8 && b[from + 2] == 0x66u8 && b[from + 3] == 0x74u8 && b[from + 4] == 0x74u8 && b[from + 5] == 0x72u8 && b[from + 6] == 0x69u8 && b[from + 7] == 0x67u8 && b[from + 8] == 0x67u8 && b[from + 9] == 0x65u8 && b[from + 10] == 0x72u8 {
        return SdlToken::Code(0x0E);
    }
    if to - from == 5 && b[from] == 0x6Cu8 && b[from + 1] == 0x65u8 && b[from + 2] == 0x66u8 && b[from + 3] == 0x74u8 && b[from + 4] == 0x78u8 {
        return SdlToken::Code(0x20);
    }
    if to - from == 5 && b[from] == 0x6Cu8 && b[from + 1] == 0x65u8 && b[from + 2] == 0x66u8 && b[from + 3] == 0x74u8 && b[from + 4] == 0x79u8 {
        return SdlToken::Code(0x21);
    }
    if to - from == 6 && b[from] == 0x72u8 && b[from + 1] == 0x69u8 && b[from + 2] == 0x67u8 && b[from + 3] == 0x68u8 && b[from + 4] == 0x74u8 && b[from + 5] == 0x78u8 {
        return SdlToken::Code(0x23);
    }
    if to - from == 6 && b[from] == 0x72u8 && b[from + 1] == 0x69u8 && b[from + 2] == 0x67u8 && b[from + 3] == 0x68u8 && b[from + 4] == 0x74u8 && b[from + 5] == 0x79u8 {
        return SdlToken::Code(0x24);
    }
    if to - from == 13 && b[from] == 0x72u8 && b[from + 1] == 0x69u8 && b[from + 2] == 0x67u8 && b[from + 3] == 0x68u8 && b[from + 4] == 0x74u8 && b[from + 5] == 0x73u8 && b[from + 6] == 0x68u8 && b[from + 7] == 0x6Fu8 && b[from + 8] == 0x75u8 && b[from + 9] == 0x6Cu8 && b[from + 10] == 0x64u8 && b[from + 11] == 0x65u8 && b[from + 12] == 0x72u8 {
        return SdlToken::Code(0x0D);
    }
    if to - from == 12 && b[from] == 0x72u8 && b[from + 1] == 0x69u8 && b[from + 2] == 0x67u8 && b[from + 3] == 0x68u8 && b[from + 4] == 0x74u8 && b[from + 5] == 0x74u8 && b[from + 6] == 0x72u8 && b[from + 7] == 0x69u8 && b[from + 8] == 0x67u8 && b[from + 9] == 0x67u8 && b[from + 10] == 0x65u8 && b[from + 11] == 0x72u8 {
        return SdlToken::Code(0x0F);
    }
    if to - from == 9 && b[from] == 0x6Cu8 && b[from + 1] == 0x65u8 && b[from + 2] == 0x66u8 && b[from + 3] == 0x74u8 && b[from + 4] == 0x73u8 && b[from + 5] == 0x74u8 && b[from + 6] == 0x69u8 && b[from + 7] == 0x63u8 && b[from + 8] == 0x6Bu8 {
        return SdlToken::Code(0x0A);
    }
    if to - from == 10 && b[from] == 0x72u8 && b[from + 1] == 0x69u8 && b[from + 2] == 0x67u8 && b[from + 3] == 0x68u8 && b[from + 4] == 0x74u8 && b[from + 5] == 0x73u8 && b[from + 6] == 0x74u8 && b[from + 7] == 0x69u8 && b[from + 8] == 0x63u8 && b[from + 9] == 0x6Bu8 {
        return SdlToken::Code(0x0B);
    }
    if to - from == 6 && b[from] == 0x64u8 && b[from + 1] == 0x70u8 && b[from + 2] == 0x6Cu8 && b[from + 3] == 0x65u8 && b[from + 4] == 0x66u8 && b[from + 5] == 0x74u8 {
        return SdlToken::Code(0x12);
    }
    if to - from == 7 && b[from] == 0x64u8 && b[from + 1] == 0x70u8 && b[from + 2] == 0x72u8 && b[from + 3] == 0x69u8 && b[from + 4] == 0x67u8 && b[from + 5] == 0x68u8 && b[from + 6] == 0x74u8 {
        return SdlToken::Code(0x13);
    }
    if to - from == 4 && b[from] == 0x64u8 && b[from + 1] == 0x70u8 && b[from + 2] == 0x75u8 && b[from + 3] == 0x70u8 {
        return SdlToken::Code(0x10);
    }
    if to - from == 6 && b[from] == 0x64u8 && b[from + 1] == 0x70u8 && b[from + 2] == 0x64u8 && b[from + 3] == 0x6Fu8 && b[from + 4] == 0x77u8 && b[from + 5] == 0x6Eu8 {
        return SdlToken::Code(0x11);
    }
    if to - from == 5 && b[from] == 0x6Du8 && b[from + 1] == 0x69u8 && b[from + 2] == 0x73u8 && b[from + 3] == 0x63u8 && b[from + 4] == 0x31u8 {
        return SdlToken::Code(0x81);
    }
    if to - from == 7 && b[from] == 0x70u8 && b[from + 1] == 0x61u8 && b[from + 2] == 0x64u8 && b[from + 3] == 0x64u8 && b[from + 4] == 0x6Cu8 && b[from + 5] == 0x65u8 && b[from + 6] == 0x31u8 {
        return SdlToken::Code(0x51);
    }
    if to - from == 7 && b[from] == 0x70u8 && b[from + 1] == 0x61u8 && b[from + 2] == 0x64u8 && b[from + 3] == 0x64u8 && b[from + 4] == 0x6Cu8 && b[from + 5] == 0x65u8 && b[from + 6] == 0x32u8 {
        return SdlToken::Code(0x52);
    }
    if to - from == 6 && b[from] == 0x2Bu8 && b[from + 1] == 0x6Cu8 && b[from + 2] == 0x65u8 && b[from + 3] == 0x66u8 && b[from + 4] == 0x74u8 && b[from + 5] == 0x78u8 {
        return SdlToken::Skip;
    }
    if to - from == 6 && b[from] == 0x2Du8 && b[from + 1] == 0x6Cu8 && b[from + 2] == 0x65u8 && b[from + 3] == 0x66u8 && b[from + 4] == 0x74u8 && b[from + 5] == 0x78u8 {
        return SdlToken::Skip;
    }
    if to - from == 6 && b[from] == 0x2Bu8 && b[from + 1] == 0x6Cu8 && b[from + 2] == 0x65u8 && b[from + 3] == 0x66u8 && b[from + 4] == 0x74u8 && b[from + 5] == 0x79u8 {
        return SdlToken::Skip;
    }
    if to - from == 6 && b[from] == 0x2Du8 && b[from + 1] == 0x6Cu8 && b[from + 2] == 0x65u8 && b[from + 3] == 0x66u8 && b[from + 4] == 0x74u8 && b[from + 5] == 0x79u8 {
        return SdlToken::Skip;
    }
    SdlToken::Unknown
}

/// The fields of `s` between commas (`s` itself when it has none).
pub open spec fn comma_fields(s: Seq<u8>) -> Seq<Seq<u8>>
    decreases s.len(),
{
    let c = find_first(s, is_byte(0x2C));
    proof {
        lemma_find_first(s, is_byte(0x2C));
    }
    if c == s.len() {
        seq![s]
    } else {
        seq![s.take(c)] + comma_fields(s.skip(c + 1))
    }
}

/// One mapping `output:input` of an SDL line: `None` if it has no `:` or an
/// unknown token, `Some(None)` if it is empty or left out, else the codes
/// of its input and output.
pub open spec fn sdl_mapping(m: Seq<u8>) -> Option<Option<(u8, u8)>> {
    if m.len() == 0 {
        Some(None)
    } else {
        let c = find_first(m, is_byte(0x3A));
        if c == m.len() {
            None
        } else {
            let rest = m.skip(c + 1);
            let js_in = rest.take(find_first(rest, is_byte(0x3A)));
            match sdl_input(js_in) {
                SdlToken::Unknown => None,
                SdlToken::Skip => Some(None),
                SdlToken::Code(i) => match sdl_output(m.take(c)) {
                    SdlToken::Unknown => None,
                    SdlToken::Skip => Some(None),
                    SdlToken::Code(o) => Some(Some((i, o))),
                },
            }
        }
    }
}

/// The database text of mappings `ms`, each kept one as its input and
/// output codes in hexadecimal followed by `;`; `None` if one is malformed.
pub open spec fn mappings_out(ms: Seq<Seq<u8>>) -> Option<Seq<u8>>
    decreases ms.len(),
{
    if ms.len() == 0 {
        Some(Seq::empty())
    } else {
        match (sdl_mapping(ms[0]), mappings_out(ms.drop_first())) {
            (Some(None), Some(rest)) => Some(rest),
            (Some(Some((i, o))), Some(rest)) => Some(hex2(i) + hex2(o) + seq![0x3Bu8] + rest),
            _ => None,
        }
    }
}

/// The characters of `s` in upper case, as `str::to_uppercase` gives them
/// (by Unicode's case mapping).
pub uninterp spec fn upper_case(s: Seq<char>) -> Seq<char>;

/// `str::to_uppercase`.  The contract only names the result: it is
/// `upper_case` of the characters of `s`, a function of them alone.
#[verifier::external_body]
fn to_uppercase(s: &str) -> (r: String)
    ensures
        r@ == upper_case(s@),
{
    s.to_uppercase()
}

/// The bytes of `g[from..to]` in upper case.
pub open spec fn upper_bytes(g: Seq<u8>, from: int, to: int) -> Seq<u8> {
    encode_utf8(upper_case(decode_utf8(g.subrange(from, to))))
}

/// Whether `s` holds `pat` somewhere.
pub open spec fn has_part(s: Seq<u8>, pat: Seq<u8>) -> bool {
    exists|i: int| 0 <= i && i + pat.len() <= s.len() && #[trigger] s.subrange(i, i + pat.len()) == pat
}

/// `platform:Linux`.
pub open spec fn linux_tag() -> Seq<u8> {
    seq![0x70u8, 0x6C, 0x61, 0x74, 0x66, 0x6F, 0x72, 0x6D, 0x3A, 0x4C, 0x69, 0x6E, 0x75, 0x78]
}

/// Whether the bytes `g[from..to]` are all `0`.
pub open spec fn zeros(g: Seq<u8>, from: int, to: int) -> bool {
    forall|k: int| from <= k < to ==> #[trigger] g[k] == 0x30
}

/// One line of the SDL database: `None` if it is malformed (too short for
/// its GUID, cut inside a character, or with a malformed mapping);
/// `Some(None)` if it is left out (empty, a comment, not a Linux line, or a
/// GUID without vendor and product); else its database line: `id` (the
/// GUID's bus, vendor, product and version in upper case), the name, a tab,
/// `w`, then the kept mappings separated by `;` (without any, the `w` is
/// dropped).
pub open spec fn sdl_line_given(line: Seq<u8>, id: Seq<u8>) -> Option<Option<Seq<u8>>> {
    if line.len() == 0 || line[0] == 0x23 {
        Some(None)
    } else if !cuts_at(line, 32) {
        None
    } else if !(zeros(line, 2, 8) && zeros(line, 12, 16) && zeros(line, 20, 24) && zeros(line, 28, 32)
        && has_part(line, linux_tag())) {
        Some(None)
    } else if !(cuts_at(line, 8) && cuts_at(line, 16) && cuts_at(line, 24) && cuts_at(line, 28)
        && cuts_at(line, 33)) {
        None
    } else {
        let fields = comma_fields(line.skip(33));
        match mappings_out(fields.drop_first()) {
            None => None,
            Some(body) => Some(
                Some(
                    drop_last_byte(
                        id + fields[0] + seq![0x09u8, 0x77u8] + body,
                    ),
                ),
            ),
        }
    }
}

/// The upper-case bus, vendor, product and version of a line's GUID.
pub open spec fn guid_upper(line: Seq<u8>) -> Seq<u8> {
    upper_bytes(line, 0, 4) + upper_bytes(line, 8, 12) + upper_bytes(line, 16, 24) + upper_bytes(
        line,
        24,
        28,
    )
}

/// One line of the SDL database (see [`sdl_line_given`]), its GUID's
/// digits in upper case.
pub open spec fn sdl_line(line: Seq<u8>) -> Option<Option<Seq<u8>>> {
    sdl_line_given(line, guid_upper(line))
}

/// The database lines of the lines of `rest`, each followed by a newline;
/// `None` if a line is malformed (or, which the lines of a `str` never do,
/// does not begin and end at a character's start).
pub open spec fn sdl_lines(rest: Seq<u8>) -> Option<Seq<u8>>
    decreases rest.len(),
{
    if rest.len() == 0 {
        Some(Seq::empty())
    } else {
        proof {
            lemma_find_first(rest, is_byte(0x0A));
        }
        if !(cuts_at(rest, 0) && cuts_at(rest, first_line_len(rest))) {
            None
        } else {
        match (sdl_line(rest.take(first_line_len(rest))), sdl_lines(after_first_line(rest))) {
            (Some(None), Some(t)) => Some(t),
            (Some(Some(l)), Some(t)) => Some(l + seq![0x0Au8] + t),
            _ => None,
        }
        }
    }
}

/// The database of the SDL database `text`: its kept lines separated by
/// newlines; `None` if a line is malformed.
pub open spec fn sdl_db(text: Seq<u8>) -> Option<Seq<u8>> {
    match sdl_lines(text) {
        Some(t) => Some(drop_last_byte(t)),
        None => None,
    }
}

fn mapping_of(b: &[u8], from: usize, to: usize) -> (r: Option<Option<(u8, u8)>>)
    requires
        from <= to <= b@.len(),
    ensures
        r == sdl_mapping(b@.subrange(from as int, to as int)),
{
    let ghost m = b@.subrange(from as int, to as int);
    if from == to {
        return Some(None);
    }
    let c = find_in(b, from, to, 0x3A);
    if c == to {
        return None;
    }
    let e = find_in(b, c + 1, to, 0x3A);
    proof {
        let k = c - from;
        assert(m.skip(k + 1) =~= b@.subrange(c + 1, to as int));
        assert(m.skip(k + 1).take(e - c - 1) =~= b@.subrange(c + 1, e as int));
        assert(m.take(k) =~= b@.subrange(from as int, c as int));
    }
    match sdl_input_of(b, c + 1, e) {
        SdlToken::Unknown => None,
        SdlToken::Skip => Some(None),
        SdlToken::Code(i) => match sdl_output_of(b, from, c) {
            SdlToken::Unknown => None,
            SdlToken::Skip => Some(None),
            SdlToken::Code(o) => Some(Some((i, o))),
        },
    }
}

/// What the comma-separated mappings of `s` give (see [`mappings_out`]).
pub open spec fn rest_out(s: Seq<u8>) -> Option<Seq<u8>> {
    mappings_out(comma_fields(s))
}

pub(crate) proof fn lemma_fields_step(s: Seq<u8>, c: int)
    requires
        c == find_first(s, is_byte(0x2C)),
    ensures
        comma_fields(s)[0] == s.take(c),
        comma_fields(s).drop_first() == if c < s.len() {
            comma_fields(s.skip(c + 1))
        } else {
            Seq::<Seq<u8>>::empty()
        },
{
    lemma_find_first(s, is_byte(0x2C));
    if c < s.len() {
        assert((seq![s.take(c)] + comma_fields(s.skip(c + 1))).drop_first() =~= comma_fields(s.skip(c + 1)));
    } else {
        assert(s.take(c) =~= s);
        assert(seq![s].drop_first() =~= Seq::<Seq<u8>>::empty());
    }
}

/// The database text of the mappings in `b[start..]`.
fn mappings_from(b: &[u8], start: usize) -> (r: Option<Vec<u8>>)
    requires
        start <= b@.len(),
    ensures
        match r {
            Some(v) => rest_out(b@.subrange(start as int, b@.len() as int)) == Some(v@),
            None => rest_out(b@.subrange(start as int, b@.len() as int)) is None,
        },
    decreases b@.len() - start,
{
    let ghost s = b@.subrange(start as int, b@.len() as int);
    let len = b.len();
    let c = find_in(b, start, len, 0x2C);
    proof {
        lemma_fields_step(s, c - start);
        assert(s.take(c - start) =~= b@.subrange(start as int, c as int));
        if c < len {
            assert(s.skip(c - start + 1) =~= b@.subrange(c + 1, len as int));
        }
        assert(comma_fields(s) =~= seq![comma_fields(s)[0]] + comma_fields(s).drop_first());
    }
    let m = mapping_of(b, start, c);
    let rest = if c < len {
        mappings_from(b, c + 1)
    } else {
        proof {
            assert(mappings_out(Seq::<Seq<u8>>::empty()) == Some(Seq::<u8>::empty()));
        }
        Some(Vec::new())
    };
    proof {
        let x = comma_fields(s);
        assert(x[0] == b@.subrange(start as int, c as int));
        assert(mappings_out(x) == match (sdl_mapping(x[0]), mappings_out(x.drop_first())) {
            (Some(None), Some(rest)) => Some(rest),
            (Some(Some((i, o))), Some(rest)) => Some(hex2(i) + hex2(o) + seq![0x3Bu8] + rest),
            _ => None,
        });
    }
    match (m, rest) {
        (Some(None), Some(r)) => Some(r),
        (Some(Some((i, o))), Some(r)) => {
            let mut v: Vec<u8> = Vec::new();
            push_hex2(&mut v, i);
            push_hex2(&mut v, o);
            v.push(0x3B);
            let ghost rv = r@;
            let mut r = r;
            v.append(&mut r);
            assert(v@ =~= hex2(i) + hex2(o) + seq![0x3Bu8] + rv);
            Some(v)
        },
        _ => None,
    }
}

fn all_zero(b: &[u8], from: usize, to: usize) -> (r: bool)
    requires
        from <= to <= b@.len(),
    ensures
        r == zeros(b@, from as int, to as int),
{
    let mut k: usize = from;
    while k < to
        invariant
            from <= k <= to <= b@.len(),
            forall|j: int| from <= j < k ==> #[trigger] b@[j] == 0x30,
        decreases to - k,
    {
        if b[k] != 0x30 {
            return false;
        }
        k = k + 1;
    }
    true
}

fn tag_at(b: &[u8], i: usize, tag: &[u8; 14]) -> (r: bool)
    requires
        i + 14 <= b@.len(),
    ensures
        r == (b@.subrange(i as int, i + 14) == tag@),
{
    let n = b.len();
    let mut k: usize = 0;
    while k < 14
        invariant
            n == b@.len(),
            i + 14 <= b@.len(),
            k <= 14,
            forall|j: int| 0 <= j < k ==> b@[i + j] == tag@[j],
        decreases 14 - k,
    {
        if b[i + k] != tag[k] {
            assert(b@.subrange(i as int, i + 14)[k as int] != tag@[k as int]);
            return false;
        }
        k = k + 1;
    }
    assert(b@.subrange(i as int, i + 14) =~= tag@);
    true
}

fn has_linux_tag(b: &[u8]) -> (r: bool)
    ensures
        r == has_part(b@, linux_tag()),
{
    let tag: [u8; 14] = [0x70, 0x6C, 0x61, 0x74, 0x66, 0x6F, 0x72, 0x6D, 0x3A, 0x4C, 0x69, 0x6E, 0x75, 0x78];
    assert(tag@ =~= linux_tag());
    if b.len() < 14 {
        return false;
    }
    let n = b.len();
    let last: usize = n - 14;
    let mut i: usize = 0;
    while i <= last
        invariant
            n == b@.len(),
            last == b@.len() - 14,
            b@.len() >= 14,
            tag@ == linux_tag(),
            forall|j: int| 0 <= j < i ==> #[trigger] b@.subrange(j, j + 14) != linux_tag(),
        decreases last + 1 - i,
    {
        if tag_at(b, i, &tag) {
            assert(linux_tag().len() == 14);
            assert(b@.subrange(i as int, i + linux_tag().len()) == linux_tag());
            return true;
        }
        i = i + 1;
    }
    proof {
        assert forall|j: int| 0 <= j && j + linux_tag().len() <= b@.len() implies #[trigger] b@.subrange(j, j + linux_tag().len()) != linux_tag() by {
            assert(j < i);
        }
    }
    false
}

fn cuts(b: &[u8], i: usize) -> (r: bool)
    ensures
        r == cuts_at(b@, i as int),
{
    i <= b.len() && (i == b.len() || !(0x80 <= b[i] && b[i] <= 0xBF))
}

fn push_upper(out: &mut Vec<u8>, line: &str, from: usize, to: usize)
    requires
        from <= to,
        cuts_at(line.spec_bytes(), from as int),
        cuts_at(line.spec_bytes(), to as int),
    ensures
        final(out)@ == old(out)@ + upper_bytes(line.spec_bytes(), from as int, to as int),
{
    let part = substr(line, from, to);
    let up = to_uppercase(part);
    let ub = up.as_str().as_bytes();
    let mut k: usize = 0;
    while k < ub.len()
        invariant
            k <= ub@.len(),
            out@ == old(out)@ + ub@.take(k as int),
        decreases ub@.len() - k,
    {
        out.push(ub[k]);
        k = k + 1;
        assert(out@ =~= old(out)@ + ub@.take(k as int));
    }
    assert(ub@.take(k as int) =~= ub@);
}

/// The view of an optional database line.
pub open spec fn line_view(r: Option<Option<Vec<u8>>>) -> Option<Option<Seq<u8>>> {
    match r {
        None => None,
        Some(None) => Some(None),
        Some(Some(v)) => Some(Some(v@)),
    }
}

/// The database line of one SDL line whose GUID's digits in upper case are
/// `id` (see [`sdl_line_given`]).
pub fn sdl_line_with_id(line: &str, id: &[u8]) -> (r: Option<Option<Vec<u8>>>)
    ensures
        line_view(r) == sdl_line_given(line.spec_bytes(), id@),
{
    let b = line.as_bytes();
    let len = b.len();
    if len == 0 || b[0] == 0x23 {
        return Some(None);
    }
    if !cuts(b, 32) {
        return None;
    }
    if !(all_zero(b, 2, 8) && all_zero(b, 12, 16) && all_zero(b, 20, 24) && all_zero(b, 28, 32)
        && has_linux_tag(b)) {
        return Some(None);
    }
    if !(cuts(b, 8) && cuts(b, 16) && cuts(b, 24) && cuts(b, 28) && cuts(b, 33)) {
        return None;
    }
    let ghost after = b@.skip(33);
    let n = find_in(b, 33, len, 0x2C);
    proof {
        assert(after =~= b@.subrange(33, len as int));
        lemma_fields_step(after, n - 33);
        assert(after.take(n - 33) =~= b@.subrange(33, n as int));
        if n < len {
            assert(after.skip(n - 33 + 1) =~= b@.subrange(n + 1, len as int));
        }
    }
    let body = if n < len {
        mappings_from(b, n + 1)
    } else {
        Some(Vec::new())
    };
    let mut body = match body {
        Some(v) => v,
        None => {
            return None;
        },
    };
    let mut out: Vec<u8> = Vec::new();
    let mut j: usize = 0;
    while j < id.len()
        invariant
            j <= id@.len(),
            out@ == id@.take(j as int),
        decreases id@.len() - j,
    {
        out.push(id[j]);
        j = j + 1;
        assert(out@ =~= id@.take(j as int));
    }
    assert(id@.take(j as int) =~= id@);
    let mut k: usize = 33;
    while k < n
        invariant
            33 <= k <= n <= len,
            len == b@.len(),
            out@ == id@ + b@.subrange(33, k as int),
        decreases n - k,
    {
        out.push(b[k]);
        k = k + 1;
        assert(out@ =~= id@ + b@.subrange(33, k as int));
    }
    out.push(0x09);
    out.push(0x77);
    out.append(&mut body);
    out.pop();
    Some(Some(out))
}

/// The database line of one SDL line (see [`sdl_line`]): the GUID's digits
/// are put in upper case, and the line is made by [`sdl_line_with_id`].
pub fn sdl_line_of(line: &str) -> (r: Option<Option<Vec<u8>>>)
    ensures
        line_view(r) == sdl_line(line.spec_bytes()),
{
    let b = line.as_bytes();
    let len = b.len();
    let needs_id = len > 0 && b[0] != 0x23 && cuts(b, 32) && all_zero(b, 2, 8) && all_zero(b, 12, 16)
        && all_zero(b, 20, 24) && all_zero(b, 28, 32) && has_linux_tag(b) && cuts(b, 8) && cuts(b, 16)
        && cuts(b, 24) && cuts(b, 28) && cuts(b, 33);
    if !needs_id {
        let none: Vec<u8> = Vec::new();
        return sdl_line_with_id(line, none.as_slice());
    }
    proof {
        broadcast use vstd::utf8::is_char_boundary_start_end_of_seq,
            vstd::utf8::is_char_boundary_iff_not_is_continuation_byte,
            vstd::utf8::encode_utf8_valid_utf8;
        assert(vstd::utf8::is_char_boundary(b@, 0));
        assert(cuts_at(b@, 0));
        assert(cuts_at(b@, 4));
        assert(cuts_at(b@, 12));
    }
    let mut id: Vec<u8> = Vec::new();
    push_upper(&mut id, line, 0, 4);
    push_upper(&mut id, line, 8, 12);
    push_upper(&mut id, line, 16, 24);
    push_upper(&mut id, line, 24, 28);
    assert(id@ =~= guid_upper(b@));
    sdl_line_with_id(line, id.as_slice())
}

/// Lines of the database out of an SDL game controller database (see
/// [`sdl_db`]): `None` if a line is malformed.
pub fn sdlgc_db(text: &str) -> (r: Option<Vec<u8>>)
    ensures
        match r {
            Some(v) => sdl_db(text.spec_bytes()) == Some(v@),
            None => sdl_db(text.spec_bytes()) is None,
        },
{
    let b = text.as_bytes();
    let len = b.len();
    let ghost all = b@;
    let mut out: Vec<u8> = Vec::new();
    let mut start: usize = 0;
    assert(all.subrange(0, len as int) =~= all);
    while start < len
        invariant
            start <= len,
            len == b@.len(),
            all == b@,
            all == text.spec_bytes(),
            sdl_lines(all) == match sdl_lines(all.subrange(start as int, len as int)) {
                Some(t) => Some(out@ + t),
                None => None,
            },
        decreases len - start,
    {
        let ghost rest = all.subrange(start as int, len as int);
        let nl = find_in(b, start, len, 0x0A);
        let le = if nl < len && nl > start && b[nl - 1] == 0x0D {
            nl - 1
        } else {
            nl
        };
        proof {
            lemma_find_first(rest, is_byte(0x0A));
            assert(first_line_len(rest) == le - start);
            if nl < len {
                assert(after_first_line(rest) =~= all.subrange(nl + 1, len as int));
            } else {
                assert(after_first_line(rest) =~= Seq::<u8>::empty());
            }
        }
        if !(cuts(b, start) && cuts(b, le)) {
            proof {
                assert(rest[0] == all[start as int]);
                if le < len {
                    assert(rest[le - start] == all[le as int]);
                }
            }
            return None;
        }
        proof {
            assert(rest[0] == all[start as int]);
            if le < len {
                assert(rest[le - start] == all[le as int]);
            }
            assert(cuts_at(rest, 0) && cuts_at(rest, first_line_len(rest)));
        }
        let line = substr(text, start, le);
        proof {
            assert(rest.take(first_line_len(rest)) =~= line.spec_bytes());
        }
        match sdl_line_of(line) {
            None => {
                return None;
            },
            Some(None) => {},
            Some(Some(v)) => {
                let ghost before = out@;
                let mut v = v;
                let ghost vv = v@;
                out.append(&mut v);
                out.push(0x0A);
                proof {
                    assert(out@ =~= before + (vv + seq![0x0Au8]));
                }
            },
        }
        start = if nl < len {
            nl + 1
        } else {
            len
        };
        proof {
            if nl >= len {
                assert(all.subrange(start as int, len as int) =~= Seq::<u8>::empty());
            }
        }
    }
    out.pop();
    Some(out)
}

} // verus!
