//! Mailbox names in the modified UTF-7 of IMAP4rev1.
//!
//! Outside a shifted section every character stands for itself. `&`
//! opens a shifted section, `-` closes it; `&-` stands for `&`. Between
//! them stand digits of the modified base 64 (`A`-`Z`, `a`-`z`, `0`-`9`,
//! `+`, `,`), six bits each, which spell the units of UTF-16, most
//! significant bit first.

use vstd::prelude::*;
use crate::text::{from_chars, to_chars};

verus! {

/// The version of the protocol that a session speaks.
#[derive(Clone, Copy, Debug, PartialEq, Eq, Structural)]
pub enum ProtocolVersion {
    Rev1,
    Rev2,
}

/// The value of a digit of the modified base 64.
pub open spec fn sextet(c: char) -> Option<u32> {
    let code = c as u32;
    if 0x41 <= code <= 0x5a {
        Some((code - 0x41) as u32)
    } else if 0x61 <= code <= 0x7a {
        Some((code - 0x61 + 26) as u32)
    } else if 0x30 <= code <= 0x39 {
        Some((code - 0x30 + 52) as u32)
    } else if c == '+' {
        Some(62u32)
    } else if c == ',' {
        Some(63u32)
    } else {
        None
    }
}

/// Where a decoder stands inside a name.
pub struct Decoder {
    /// The characters decoded so far.
    pub out: Seq<char>,
    /// Whether a shifted section is open.
    pub shifted: bool,
    /// How many digits the open section has so far.
    pub digits: nat,
    /// The bits of the open section that are not yet used, fewer than
    /// 16 of them.
    pub bits: u32,
    pub nbits: u32,
    /// The high surrogate that waits for its low surrogate.
    pub high: Option<u32>,
    /// Whether the name is malformed.
    pub failed: bool,
}

/// A decoder before the first character.
pub open spec fn begin() -> Decoder {
    Decoder {
        out: Seq::empty(),
        shifted: false,
        digits: 0,
        bits: 0,
        nbits: 0,
        high: None,
        failed: false,
    }
}

/// The decoder after one more unit of UTF-16. A unit outside the
/// surrogates is a character; a high surrogate waits for a low one; a
/// low surrogate completes the pair. Anything else is malformed.
pub open spec fn unit(decoder: Decoder, value: u32) -> Decoder {
    match decoder.high {
        Some(high) => if 0xdc00 <= value <= 0xdfff {
            Decoder {
                out: decoder.out.push(
                    ((0x10000 + (high - 0xd800) * 0x400 + (value - 0xdc00)) as u32) as char,
                ),
                high: None,
                ..decoder
            }
        } else {
            Decoder { failed: true, ..decoder }
        },
        None => if 0xd800 <= value <= 0xdbff {
            Decoder { high: Some(value), ..decoder }
        } else if 0xdc00 <= value <= 0xdfff || value > 0xffff {
            Decoder { failed: true, ..decoder }
        } else {
            Decoder { out: decoder.out.push(value as char), ..decoder }
        },
    }
}

/// The decoder after one more character of the name.
pub open spec fn feed(decoder: Decoder, c: char) -> Decoder {
    if decoder.failed {
        decoder
    } else if !decoder.shifted {
        if c == '&' {
            Decoder { shifted: true, digits: 0, bits: 0, nbits: 0, high: None, ..decoder }
        } else {
            Decoder { out: decoder.out.push(c), ..decoder }
        }
    } else if c == '-' {
        if decoder.digits == 0 {
            Decoder { out: decoder.out.push('&'), shifted: false, ..decoder }
        } else if decoder.high is Some {
            Decoder { failed: true, ..decoder }
        } else {
            Decoder { shifted: false, ..decoder }
        }
    } else {
        match sextet(c) {
            None => Decoder { failed: true, ..decoder },
            Some(value) => {
                let bits = ((decoder.bits * 64 + value) as u32);
                let nbits = (decoder.nbits + 6) as u32;
                let counted = Decoder { digits: decoder.digits + 1, ..decoder };
                if nbits >= 16 {
                    let left = (nbits - 16) as u32;
                    let whole = unit(counted, bits / pow2(left));
                    Decoder { bits: bits % pow2(left), nbits: left, ..whole }
                } else {
                    Decoder { bits, nbits, ..counted }
                }
            },
        }
    }
}

/// Two to the power of a small number.
pub open spec fn pow2(n: u32) -> u32 {
    if n == 0 {
        1
    } else if n == 1 {
        2
    } else if n == 2 {
        4
    } else if n == 3 {
        8
    } else if n == 4 {
        16
    } else {
        32
    }
}

/// The decoder after all characters of a name.
pub open spec fn fed(name: Seq<char>) -> Decoder
    decreases name.len(),
{
    if name.len() == 0 {
        begin()
    } else {
        feed(fed(name.drop_last()), name.last())
    }
}

/// The name that a modified UTF-7 text stands for; `None` if the text
/// is malformed: a shifted section that is not closed, that holds what
/// is no digit, or whose units are not UTF-16.
pub open spec fn utf7_decoded(text: Seq<char>) -> Option<Seq<char>> {
    let end = fed(text);
    if end.failed || end.shifted {
        None
    } else {
        Some(end.out)
    }
}

/// A mailbox name as the session means it: under IMAP4rev2 as it is
/// written, under IMAP4rev1 decoded from modified UTF-7 where it is well
/// formed, and else as it is written.
pub open spec fn maybe_decoded(text: Seq<char>, version: ProtocolVersion) -> Seq<char> {
    match version {
        ProtocolVersion::Rev2 => text,
        ProtocolVersion::Rev1 => match utf7_decoded(text) {
            Some(name) => name,
            None => text,
        },
    }
}

/// The bound on the bits that are left over when so many are unused.
pub open spec fn limit(nbits: u32) -> u32 {
    if nbits == 0 {
        1
    } else if nbits == 2 {
        4
    } else if nbits == 4 {
        16
    } else if nbits == 6 {
        64
    } else if nbits == 8 {
        256
    } else if nbits == 10 {
        1024
    } else if nbits == 12 {
        4096
    } else {
        16384
    }
}

/// Decodes a modified UTF-7 text.
pub fn utf7_decode(text: &str) -> (name: Option<String>)
    ensures
        crate::compare::option_view(name) == utf7_decoded(text@),
{
    let chars = to_chars(text);
    let mut out: Vec<char> = Vec::new();
    let mut shifted = false;
    let mut no_digits = true;
    let mut bits: u32 = 0;
    let mut nbits: u32 = 0;
    let mut high: Option<u32> = None;
    let mut i: usize = 0;
    assert(chars@.take(0) =~= Seq::empty());
    while i < chars.len()
        invariant
            i <= chars.len(),
            chars@ == text@,
            !fed(chars@.take(i as int)).failed,
            fed(chars@.take(i as int)).out == out@,
            fed(chars@.take(i as int)).shifted == shifted,
            shifted ==> (fed(chars@.take(i as int)).digits == 0) == no_digits,
            shifted ==> fed(chars@.take(i as int)).bits == bits,
            shifted ==> fed(chars@.take(i as int)).nbits == nbits,
            shifted ==> fed(chars@.take(i as int)).high == high,
            shifted ==> nbits < 16 && nbits % 2 == 0 && bits < limit(nbits),
            shifted ==> (high matches Some(h) ==> 0xd800 <= h <= 0xdbff),
        decreases chars.len() - i,
    {
        proof {
            assert(chars@.take(i + 1).drop_last() =~= chars@.take(i as int));
            assert(chars@.take(i + 1).last() == chars@[i as int]);
        }
        let ghost before = fed(chars@.take(i as int));
        let c = chars[i];
        if !shifted {
            if c == '&' {
                shifted = true;
                no_digits = true;
                bits = 0;
                nbits = 0;
                high = None;
            } else {
                out.push(c);
            }
        } else if c == '-' {
            if no_digits {
                out.push('&');
            } else if high.is_some() {
                proof {
                    lemma_failed_stays(chars@, i + 1);
                }
                return None;
            }
            shifted = false;
        } else {
            let code = c as u32;
            let value: u32 = if 0x41 <= code && code <= 0x5a {
                code - 0x41
            } else if 0x61 <= code && code <= 0x7a {
                code - 0x61 + 26
            } else if 0x30 <= code && code <= 0x39 {
                code - 0x30 + 52
            } else if c == '+' {
                62
            } else if c == ',' {
                63
            } else {
                proof {
                    lemma_failed_stays(chars@, i + 1);
                }
                return None;
            };
            no_digits = false;
            bits = bits * 64 + value;
            nbits = nbits + 6;
            if nbits >= 16 {
                let left: u32 = nbits - 16;
                let scale: u32 = if left == 0 {
                    1
                } else if left == 2 {
                    4
                } else {
                    16
                };
                assert(scale == pow2(left));
                let whole = bits / scale;
                bits = bits % scale;
                nbits = left;
                match high {
                    Some(first) => {
                        if 0xdc00 <= whole && whole <= 0xdfff {
                            let scalar: u32 = 0x10000 + (first - 0xd800) * 0x400 + (whole - 0xdc00);
                            out.push(char_of(scalar));
                            high = None;
                        } else {
                            proof {
                                lemma_failed_stays(chars@, i + 1);
                            }
                            return None;
                        }
                    },
                    None => {
                        if 0xd800 <= whole && whole <= 0xdbff {
                            high = Some(whole);
                        } else if (0xdc00 <= whole && whole <= 0xdfff) || whole > 0xffff {
                            proof {
                                lemma_failed_stays(chars@, i + 1);
                            }
                            return None;
                        } else {
                            out.push(char_of(whole));
                        }
                    },
                }
            }
        }
        i += 1;
    }
    assert(chars@.take(i as int) =~= chars@);
    if shifted {
        None
    } else {
        Some(from_chars(&out))
    }
}

/// The character with a given scalar value. The body is
/// `char::from_u32` of the standard library, which is documented to
/// give the character of every value that is a Unicode scalar: below
/// `0xD800`, or from `0xE000` to `0x10FFFF`. The contract says that of
/// those values and is not proved here.
#[verifier::external_body]
fn char_of(scalar: u32) -> (c: char)
    requires
        scalar < 0xd800 || 0xe000 <= scalar <= 0x10ffff,
    ensures
        c == scalar as char,
{
    char::from_u32(scalar).unwrap_or(char::REPLACEMENT_CHARACTER)
}

/// A decoder that has failed stays failed.
proof fn lemma_failed_stays(text: Seq<char>, upto: int)
    requires
        0 <= upto <= text.len(),
        fed(text.take(upto)).failed,
    ensures
        fed(text).failed,
    decreases text.len() - upto,
{
    if upto < text.len() {
        assert(text.take(upto + 1).drop_last() =~= text.take(upto));
        lemma_failed_stays(text, upto + 1);
    } else {
        assert(text.take(upto) =~= text);
    }
}

/// A mailbox name as the session means it.
pub fn utf7_maybe_decode(text: String, version: ProtocolVersion) -> (name: String)
    ensures
        name@ == maybe_decoded(text@, version),
{
    match version {
        ProtocolVersion::Rev2 => text,
        ProtocolVersion::Rev1 => match utf7_decode(text.as_str()) {
            Some(name) => name,
            None => text,
        },
    }
}

} // verus!
