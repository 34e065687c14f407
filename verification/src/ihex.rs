//! Firmware files: text in Intel HEX format, one record a line, of which the
//! data records make up the image.

use vstd::prelude::*;
use vstd::slice::slice_subrange;
use crate::firmware::{padded, Firmware};
use crate::text::{
    dec_number, decode_hex, find_byte, hex_decode, index_of, lemma_index_of, line_end,
    parse_decimal, trim, trim_bounds, NEWLINE,
};

verus! {

/// The byte that starts a record (`:`).
pub const RECORD_MARK: u8 = 58u8;

/// The record type of a data record.
pub const DATA_RECORD: u8 = 0u8;

/// The record type of the record that ends a file.
pub const END_RECORD: u8 = 1u8;

/// The sum of the bytes of `s`, modulo 256.
pub open spec fn sum8(s: Seq<u8>) -> u8
    decreases s.len(),
{
    if s.len() == 0 {
        0
    } else {
        ((sum8(s.drop_last()) + s.last()) % 256) as u8
    }
}

/// The sum of the bytes of `s`, modulo 256.
pub fn byte_sum(s: &[u8]) -> (r: u8)
    ensures
        r == sum8(s@),
{
    let mut acc: u8 = 0;
    let mut i: usize = 0;
    while i < s.len()
        invariant
            i <= s.len(),
            acc == sum8(s@.take(i as int)),
        decreases s.len() - i,
    {
        proof {
            assert(s@.take(i as int + 1).drop_last() =~= s@.take(i as int));
        }
        acc = ((acc as u16 + s[i] as u16) % 256) as u8;
        i = i + 1;
    }
    proof {
        assert(s@.take(s.len() as int) =~= s@);
    }
    acc
}

/// The bytes of the record on one line: a colon, then hexadecimal text of a
/// byte count, two address bytes, the record type, as many data bytes as
/// the count says, and a checksum that brings the sum of all bytes to zero.
pub open spec fn record_of(line: Seq<u8>) -> Option<Seq<u8>> {
    if line.len() > 0 && line[0] == RECORD_MARK {
        match hex_decode(line.skip(1)) {
            Some(b) => if b.len() >= 5 && b[0] == b.len() - 5 && sum8(b) == 0 {
                Some(b)
            } else {
                None
            },
            None => None,
        }
    } else {
        None
    }
}

/// The type of a record.
pub open spec fn record_kind(b: Seq<u8>) -> u8 {
    b[3]
}

/// The data bytes of a record.
pub open spec fn record_data(b: Seq<u8>) -> Seq<u8> {
    b.subrange(4, b.len() - 1)
}

/// Decodes the record on one line; `None` where the line holds no sound record.
pub fn decode_record(line: &[u8]) -> (r: Option<Vec<u8>>)
    ensures
        match r {
            Some(b) => record_of(line@) == Some(b@),
            None => record_of(line@) is None,
        },
{
    if line.len() == 0 || line[0] != RECORD_MARK {
        return None;
    }
    let rest = slice_subrange(line, 1, line.len());
    assert(rest@ =~= line@.skip(1));
    match decode_hex(rest) {
        Some(b) => {
            if b.len() >= 5 && b[0] as usize == b.len() - 5 && byte_sum(b.as_slice()) == 0 {
                Some(b)
            } else {
                None
            }
        },
        None => None,
    }
}

/// `a` put in front of `rest`, where there is a rest.
pub open spec fn prepend(a: Seq<u8>, rest: Option<Seq<u8>>) -> Option<Seq<u8>> {
    match rest {
        Some(x) => Some(a + x),
        None => None,
    }
}

/// The image that the lines of `text` from `from` on hold: the data of the
/// data records in order, up to the record that ends the file or the end of
/// the text. Blank lines and records of other types add nothing; a line
/// that holds no sound record makes the whole text unsound.
pub open spec fn ihex_image(text: Seq<u8>, from: int) -> Option<Seq<u8>>
    decreases text.len() - from,
{
    if 0 <= from < text.len() {
        let end = line_end(text, from);
        let line = trim(text.subrange(from, end));
        let rest = if from <= end < text.len() {
            ihex_image(text, end + 1)
        } else {
            Some(Seq::empty())
        };
        if line.len() == 0 {
            rest
        } else {
            match record_of(line) {
                None => None,
                Some(b) => if record_kind(b) == END_RECORD {
                    Some(Seq::empty())
                } else if record_kind(b) == DATA_RECORD {
                    prepend(record_data(b), rest)
                } else {
                    rest
                },
            }
        }
    } else {
        Some(Seq::empty())
    }
}

/// Reads the image out of a text in Intel HEX format.
pub fn parse_ihex(text: &[u8]) -> (r: Option<Vec<u8>>)
    ensures
        match r {
            Some(image) => ihex_image(text@, 0) == Some(image@),
            None => ihex_image(text@, 0) is None,
        },
{
    let mut out: Vec<u8> = Vec::new();
    let mut pos: usize = 0;
    proof {
        assert(prepend(out@, ihex_image(text@, 0)) =~= ihex_image(text@, 0)) by {
            match ihex_image(text@, 0) {
                Some(x) => {
                    assert(out@ + x =~= x);
                },
                None => {},
            }
        }
    }
    while pos < text.len()
        invariant
            pos <= text.len(),
            ihex_image(text@, 0) == prepend(out@, ihex_image(text@, pos as int)),
        decreases text.len() - pos,
    {
        let end = find_byte(text, NEWLINE, pos);
        let next: usize = if end < text.len() {
            end + 1
        } else {
            end
        };
        proof {
            lemma_index_of(text@, NEWLINE, pos as int);
            assert(ihex_image(text@, next as int) == if end < text.len() {
                ihex_image(text@, end as int + 1)
            } else {
                Some(Seq::<u8>::empty())
            });
        }
        let whole = slice_subrange(text, pos, end);
        let (lo, hi) = trim_bounds(whole);
        let line = slice_subrange(whole, lo, hi);
        assert(line@ == trim(text@.subrange(pos as int, end as int)));
        if line.len() > 0 {
            match decode_record(line) {
                None => {
                    return None;
                },
                Some(b) => {
                    if b[3] == END_RECORD {
                        proof {
                            assert(out@ + Seq::<u8>::empty() =~= out@);
                        }
                        return Some(out);
                    } else if b[3] == DATA_RECORD {
                        let data = slice_subrange(b.as_slice(), 4, b.len() - 1);
                        proof {
                            match ihex_image(text@, next as int) {
                                Some(x) => {
                                    assert((out@ + data@) + x =~= out@ + (data@ + x));
                                },
                                None => {},
                            }
                        }
                        out.extend_from_slice(data);
                    }
                },
            }
        }
        pos = next;
    }
    proof {
        assert(out@ + Seq::<u8>::empty() =~= out@);
    }
    Some(out)
}

impl Firmware {
    /// Builds a firmware from the text of its file in Intel HEX format: the
    /// image is read out of the records, padded to whole blocks and summed.
    /// `None` where the text is unsound or the image is too long for its
    /// blocks to be counted in 16 bits.
    pub fn prepare_fw(firmware_type: u16, firmware_version: u16, name: String, text: &[u8]) -> (r:
        Option<Firmware>)
        ensures
            r is Some <==> ihex_image(text@, 0) is Some && ihex_image(text@, 0).unwrap().len() <= 16
                * 0xFFFF,
            r is Some ==> {
                let f = r.unwrap();
                &&& f.wf()
                &&& f.firmware_type == firmware_type
                &&& f.firmware_version == firmware_version
                &&& f.name == name
                &&& f.data@ == padded(ihex_image(text@, 0).unwrap())
            },
    {
        match parse_ihex(text) {
            Some(image) => Firmware::from_image(firmware_type, firmware_version, name, image),
            None => None,
        }
    }
}

/// The byte that separates the parts of the name of a firmware file (`_`), written twice.
pub const NAME_SEPARATOR: u8 = 95u8;

/// The ending of the name of a firmware file: `.hex`.
pub open spec fn hex_suffix() -> Seq<u8> {
    seq![46u8, 104u8, 101u8, 120u8]
}

/// Where the type ends in the name of a firmware file.
pub open spec fn type_end(name: Seq<u8>) -> int {
    index_of(name, NAME_SEPARATOR, 0)
}

/// Where the version ends in the name of a firmware file.
pub open spec fn version_end(name: Seq<u8>) -> int {
    index_of(name, NAME_SEPARATOR, type_end(name) + 2)
}

/// Whether `name` is the name of a firmware file: a type and a version,
/// both 16-bit numbers in decimal, and a name, with two underscores
/// between each, and `.hex` at the end.
pub open spec fn is_file_name(name: Seq<u8>) -> bool {
    let i = type_end(name);
    let j = version_end(name);
    &&& i + 1 < name.len()
    &&& name[i + 1] == NAME_SEPARATOR
    &&& j + 1 < name.len()
    &&& name[j + 1] == NAME_SEPARATOR
    &&& j + 6 <= name.len()
    &&& name.subrange(name.len() - 4, name.len() as int) == hex_suffix()
    &&& dec_number(name.subrange(0, i), 0xFFFF) is Some
    &&& dec_number(name.subrange(i + 2, j), 0xFFFF) is Some
}

/// Takes the name of a firmware file apart into type, version and name.
/// `None` where it is not the name of a firmware file.
pub fn parse_file_name(name: &[u8]) -> (r: Option<(u16, u16, Vec<u8>)>)
    ensures
        r is Some <==> is_file_name(name@),
        r is Some ==> {
            let (t, v, n) = r.unwrap();
            &&& Some(t as int) == dec_number(name@.subrange(0, type_end(name@)), 0xFFFF)
            &&& Some(v as int) == dec_number(
                name@.subrange(type_end(name@) + 2, version_end(name@)),
                0xFFFF,
            )
            &&& n@ == name@.subrange(version_end(name@) + 2, name@.len() - 4)
        },
{
    let len = name.len();
    let i = find_byte(name, NAME_SEPARATOR, 0);
    if !(i < len && i + 1 < len && name[i + 1] == NAME_SEPARATOR) {
        return None;
    }
    let j = find_byte(name, NAME_SEPARATOR, i + 2);
    if !(j < len && j + 1 < len && name[j + 1] == NAME_SEPARATOR) {
        return None;
    }
    if len - j < 6 {
        return None;
    }
    if !(name[len - 4] == 46 && name[len - 3] == 104 && name[len - 2] == 101 && name[len - 1]
        == 120) {
        assert(name@.subrange(len - 4, len as int)[0] == name@[len - 4]);
        assert(name@.subrange(len - 4, len as int)[1] == name@[len - 3]);
        assert(name@.subrange(len - 4, len as int)[2] == name@[len - 2]);
        assert(name@.subrange(len - 4, len as int)[3] == name@[len - 1]);
        return None;
    }
    assert(name@.subrange(len - 4, len as int) =~= hex_suffix());
    let t = match parse_decimal(slice_subrange(name, 0, i), 0xFFFF) {
        Some(t) => t as u16,
        None => {
            return None;
        },
    };
    let v = match parse_decimal(slice_subrange(name, i + 2, j), 0xFFFF) {
        Some(v) => v as u16,
        None => {
            return None;
        },
    };
    let n = vstd::slice::slice_to_vec(slice_subrange(name, j + 2, len - 4));
    Some((t, v, n))
}

} // verus!
