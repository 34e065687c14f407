//! The six-field frame: `node;child;command;ack;type;payload`, ended by a line feed.

use vstd::prelude::*;
use vstd::slice::slice_subrange;
use vstd::utf8::{decode_utf8, valid_utf8};
use crate::error::ErrorKind;
use crate::text::{
    dec_digits, dec_u8, find_sep, is_ascii_bytes, is_space, lemma_ascii_concat,
    lemma_dec_digits_read, lemma_digits_ascii, lemma_index_of_found, lemma_sep_index,
    lemma_trim_line, lossy_text, parse_u8, push_dec, sep_count, sep_index, string_of_bytes, trim,
    trim_bounds, NEWLINE, SEPARATOR,
};

verus! {

/// The command of a frame, by its number on the wire.
#[allow(non_camel_case_types)]
#[derive(Debug, Clone, Copy, PartialEq, Eq, Structural)]
pub enum CommandType {
    PRESENTATION,
    SET,
    REQ,
    INTERNAL,
    STREAM,
}

impl CommandType {
    /// The number that stands for the command on the wire.
    pub open spec fn number(self) -> u8 {
        match self {
            CommandType::PRESENTATION => 0,
            CommandType::SET => 1,
            CommandType::REQ => 2,
            CommandType::INTERNAL => 3,
            CommandType::STREAM => 4,
        }
    }

    /// The command that `value` stands for, if any.
    pub open spec fn of_number(value: u8) -> Option<CommandType> {
        match value {
            0 => Some(CommandType::PRESENTATION),
            1 => Some(CommandType::SET),
            2 => Some(CommandType::REQ),
            3 => Some(CommandType::INTERNAL),
            4 => Some(CommandType::STREAM),
            _ => None,
        }
    }

    /// The command that `value` stands for; `None` above 4.
    pub fn _u8(value: u8) -> (r: Option<CommandType>)
        ensures
            r == CommandType::of_number(value),
            r is Some <==> value <= 4,
            r is Some ==> r.unwrap().number() == value,
    {
        match value {
            0 => Some(CommandType::PRESENTATION),
            1 => Some(CommandType::SET),
            2 => Some(CommandType::REQ),
            3 => Some(CommandType::INTERNAL),
            4 => Some(CommandType::STREAM),
            _ => None,
        }
    }

    /// The number that stands for the command on the wire.
    pub fn to_u8(self) -> (r: u8)
        ensures
            r == self.number(),
            r <= 4,
            CommandType::of_number(r) == Some(self),
    {
        match self {
            CommandType::PRESENTATION => 0,
            CommandType::SET => 1,
            CommandType::REQ => 2,
            CommandType::INTERNAL => 3,
            CommandType::STREAM => 4,
        }
    }
}

/// Where field `k` of a trimmed frame starts: after the separator that ends field `k - 1`.
pub open spec fn field_start(t: Seq<u8>, k: nat) -> int
    decreases k,
{
    if k == 0 {
        0
    } else {
        sep_index(t, field_start(t, (k - 1) as nat)) + 1
    }
}

/// Where field `k` ends: at the next separator, or at the end of the frame.
pub open spec fn field_end(t: Seq<u8>, k: nat) -> int {
    sep_index(t, field_start(t, k))
}

/// Field `k` of a trimmed frame.
pub open spec fn field(t: Seq<u8>, k: nat) -> Seq<u8> {
    t.subrange(field_start(t, k), field_end(t, k))
}

/// A frame is well framed when it holds exactly five separators.
pub open spec fn well_framed(t: Seq<u8>) -> bool {
    sep_count(t, 0) == 5
}

/// Five separators are the ends of fields 0 to 4, and field 5 runs to the end.
pub proof fn lemma_field_bounds(t: Seq<u8>)
    ensures
        well_framed(t) <==> (field_end(t, 4) < t.len() && field_end(t, 5) == t.len()),
        well_framed(t) ==> {
            &&& 0 == field_start(t, 0) <= field_end(t, 0) < field_start(t, 1)
            &&& field_start(t, 1) <= field_end(t, 1) < field_start(t, 2)
            &&& field_start(t, 2) <= field_end(t, 2) < field_start(t, 3)
            &&& field_start(t, 3) <= field_end(t, 3) < field_start(t, 4)
            &&& field_start(t, 4) <= field_end(t, 4) < field_start(t, 5)
            &&& field_start(t, 5) <= field_end(t, 5) == t.len()
            &&& field_start(t, 1) == field_end(t, 0) + 1
            &&& field_start(t, 2) == field_end(t, 1) + 1
            &&& field_start(t, 3) == field_end(t, 2) + 1
            &&& field_start(t, 4) == field_end(t, 3) + 1
            &&& field_start(t, 5) == field_end(t, 4) + 1
            &&& t[field_end(t, 0)] == SEPARATOR
            &&& t[field_end(t, 1)] == SEPARATOR
            &&& t[field_end(t, 2)] == SEPARATOR
            &&& t[field_end(t, 3)] == SEPARATOR
            &&& t[field_end(t, 4)] == SEPARATOR
        },
{
    reveal_with_fuel(field_start, 7);
    lemma_sep_index(t, 0);
    let e0 = sep_index(t, 0);
    if e0 < t.len() {
        lemma_sep_index(t, e0 + 1);
        let e1 = sep_index(t, e0 + 1);
        if e1 < t.len() {
            lemma_sep_index(t, e1 + 1);
            let e2 = sep_index(t, e1 + 1);
            if e2 < t.len() {
                lemma_sep_index(t, e2 + 1);
                let e3 = sep_index(t, e2 + 1);
                if e3 < t.len() {
                    lemma_sep_index(t, e3 + 1);
                    let e4 = sep_index(t, e3 + 1);
                    if e4 < t.len() {
                        lemma_sep_index(t, e4 + 1);
                    }
                }
            }
        }
    }
}

/// No byte of `s` is a separator.
pub open spec fn has_no_separator(s: Seq<u8>) -> bool {
    forall|i: int| 0 <= i < s.len() ==> #[trigger] s[i] != SEPARATOR
}

/// Five fields and a payload without separators, joined, are well framed,
/// and the fields of the whole are the six parts.
pub proof fn lemma_join_fields(
    f0: Seq<u8>,
    f1: Seq<u8>,
    f2: Seq<u8>,
    f3: Seq<u8>,
    f4: Seq<u8>,
    p: Seq<u8>,
)
    requires
        has_no_separator(f0),
        has_no_separator(f1),
        has_no_separator(f2),
        has_no_separator(f3),
        has_no_separator(f4),
        has_no_separator(p),
    ensures
        well_framed(join_head(f0, f1, f2, f3, f4) + p),
        field(join_head(f0, f1, f2, f3, f4) + p, 0) == f0,
        field(join_head(f0, f1, f2, f3, f4) + p, 1) == f1,
        field(join_head(f0, f1, f2, f3, f4) + p, 2) == f2,
        field(join_head(f0, f1, f2, f3, f4) + p, 3) == f3,
        field(join_head(f0, f1, f2, f3, f4) + p, 4) == f4,
        field(join_head(f0, f1, f2, f3, f4) + p, 5) == p,
{
    let t = join_head(f0, f1, f2, f3, f4) + p;
    let e0 = f0.len() as int;
    let e1 = e0 + 1 + f1.len();
    let e2 = e1 + 1 + f2.len();
    let e3 = e2 + 1 + f3.len();
    let e4 = e3 + 1 + f4.len();
    assert(t.len() == e4 + 1 + p.len());
    assert(t.subrange(0, e0) =~= f0);
    assert(t.subrange(e0 + 1, e1) =~= f1);
    assert(t.subrange(e1 + 1, e2) =~= f2);
    assert(t.subrange(e2 + 1, e3) =~= f3);
    assert(t.subrange(e3 + 1, e4) =~= f4);
    assert(t.subrange(e4 + 1, t.len() as int) =~= p);
    assert(t[e0] == SEPARATOR && t[e1] == SEPARATOR && t[e2] == SEPARATOR && t[e3] == SEPARATOR
        && t[e4] == SEPARATOR);
    assert forall|i: int| 0 <= i < e0 implies t[i] != SEPARATOR by {
        assert(t[i] == t.subrange(0, e0)[i]);
    }
    assert forall|i: int| e0 + 1 <= i < e1 implies t[i] != SEPARATOR by {
        assert(t[i] == t.subrange(e0 + 1, e1)[i - e0 - 1]);
    }
    assert forall|i: int| e1 + 1 <= i < e2 implies t[i] != SEPARATOR by {
        assert(t[i] == t.subrange(e1 + 1, e2)[i - e1 - 1]);
    }
    assert forall|i: int| e2 + 1 <= i < e3 implies t[i] != SEPARATOR by {
        assert(t[i] == t.subrange(e2 + 1, e3)[i - e2 - 1]);
    }
    assert forall|i: int| e3 + 1 <= i < e4 implies t[i] != SEPARATOR by {
        assert(t[i] == t.subrange(e3 + 1, e4)[i - e3 - 1]);
    }
    assert forall|i: int| e4 + 1 <= i < t.len() implies t[i] != SEPARATOR by {
        assert(t[i] == t.subrange(e4 + 1, t.len() as int)[i - e4 - 1]);
    }
    lemma_index_of_found(t, SEPARATOR, 0, e0);
    lemma_index_of_found(t, SEPARATOR, e0 + 1, e1);
    lemma_index_of_found(t, SEPARATOR, e1 + 1, e2);
    lemma_index_of_found(t, SEPARATOR, e2 + 1, e3);
    lemma_index_of_found(t, SEPARATOR, e3 + 1, e4);
    lemma_index_of_found(t, SEPARATOR, e4 + 1, t.len() as int);
    reveal_with_fuel(field_start, 7);
    lemma_field_bounds(t);
}

/// A payload that comes back from a frame as it went in: no separator in
/// it, and no whitespace at its ends.
pub open spec fn is_plain_payload(p: Seq<u8>) -> bool {
    &&& has_no_separator(p)
    &&& p.len() > 0 ==> !is_space(p[0]) && !is_space(p.last())
}

/// A frame that is written out with a plain payload reads back as the same
/// fields and payload.
pub proof fn lemma_read_rendered(
    node_id: u8,
    child_sensor_id: u8,
    command: u8,
    ack: u8,
    sub_type: u8,
    payload: Seq<u8>,
)
    requires
        is_plain_payload(payload),
        command <= 4,
    ensures
        ({
            let m = render_frame(node_id, child_sensor_id, command, ack, sub_type, payload);
            &&& frame_error(m) is None
            &&& frame_number(m, 0) == node_id
            &&& frame_number(m, 1) == child_sensor_id
            &&& frame_number(m, 2) == command
            &&& frame_number(m, 3) == ack
            &&& frame_number(m, 4) == sub_type
            &&& frame_payload(m) == payload
        }),
{
    let f0 = dec_digits(node_id);
    let f1 = dec_digits(child_sensor_id);
    let f2 = dec_digits(command);
    let f3 = dec_digits(ack);
    let f4 = dec_digits(sub_type);
    lemma_dec_digits_read(node_id);
    lemma_dec_digits_read(child_sensor_id);
    lemma_dec_digits_read(command);
    lemma_dec_digits_read(ack);
    lemma_dec_digits_read(sub_type);
    let t = join_head(f0, f1, f2, f3, f4) + payload;
    assert(t[0] == f0[0]);
    assert(t.len() > 0 && !is_space(t[0]));
    assert(!is_space(t.last())) by {
        if payload.len() > 0 {
            assert(t.last() == payload.last());
        } else {
            assert(t.last() == SEPARATOR);
        }
    }
    lemma_trim_line(t);
    lemma_join_fields(f0, f1, f2, f3, f4, payload);
}

/// Finds the five separators of a frame: the ends of its first five fields.
/// `None` where the text does not hold exactly five separators.
pub fn field_ends(t: &[u8]) -> (r: Option<(usize, usize, usize, usize, usize)>)
    ensures
        r is Some <==> well_framed(t@),
        r is Some ==> {
            let (e0, e1, e2, e3, e4) = r.unwrap();
            &&& e0 == field_end(t@, 0)
            &&& e1 == field_end(t@, 1)
            &&& e2 == field_end(t@, 2)
            &&& e3 == field_end(t@, 3)
            &&& e4 == field_end(t@, 4)
            &&& e0 < e1 < e2 < e3 < e4 < t@.len()
        },
{
    proof {
        lemma_field_bounds(t@);
        reveal_with_fuel(field_start, 7);
    }
    let e0 = find_sep(t, 0);
    if e0 >= t.len() {
        return None;
    }
    let e1 = find_sep(t, e0 + 1);
    if e1 >= t.len() {
        return None;
    }
    let e2 = find_sep(t, e1 + 1);
    if e2 >= t.len() {
        return None;
    }
    let e3 = find_sep(t, e2 + 1);
    if e3 >= t.len() {
        return None;
    }
    let e4 = find_sep(t, e3 + 1);
    if e4 >= t.len() {
        return None;
    }
    let e5 = find_sep(t, e4 + 1);
    if e5 != t.len() {
        return None;
    }
    Some((e0, e1, e2, e3, e4))
}

/// One frame, its five numeric fields read and its payload kept as it came.
#[derive(Debug, Clone)]
pub struct LineMessage {
    pub node_id: u8,
    pub child_sensor_id: u8,
    pub command: CommandType,
    pub ack: u8,
    pub sub_type: u8,
    pub payload: Vec<u8>,
}

/// Why the frame `m` is refused, if it is.
pub open spec fn frame_error(m: Seq<u8>) -> Option<ErrorKind> {
    let t = trim(m);
    if !well_framed(t) {
        Some(ErrorKind::MalformedFrame)
    } else if dec_u8(field(t, 0)) is None || dec_u8(field(t, 1)) is None || dec_u8(field(t, 2))
        is None {
        Some(ErrorKind::BadField)
    } else if dec_u8(field(t, 2)).unwrap() > 4 {
        Some(ErrorKind::UnknownCommand)
    } else if dec_u8(field(t, 3)) is None || dec_u8(field(t, 4)) is None {
        Some(ErrorKind::BadField)
    } else {
        None
    }
}

/// Numeric field `k` of the frame `m`.
pub open spec fn frame_number(m: Seq<u8>, k: nat) -> u8 {
    dec_u8(field(trim(m), k)).unwrap()
}

/// The payload of the frame `m`: its sixth field.
pub open spec fn frame_payload(m: Seq<u8>) -> Seq<u8> {
    field(trim(m), 5)
}

/// Five fields, each with the separator that ends it.
pub open spec fn join_head(f0: Seq<u8>, f1: Seq<u8>, f2: Seq<u8>, f3: Seq<u8>, f4: Seq<u8>) -> Seq<
    u8,
> {
    f0 + seq![SEPARATOR] + f1 + seq![SEPARATOR] + f2 + seq![SEPARATOR] + f3 + seq![SEPARATOR] + f4
        + seq![SEPARATOR]
}

/// The bytes of a frame with the given fields.
pub open spec fn render_frame(
    node_id: u8,
    child_sensor_id: u8,
    command: u8,
    ack: u8,
    sub_type: u8,
    payload: Seq<u8>,
) -> Seq<u8> {
    join_head(
        dec_digits(node_id),
        dec_digits(child_sensor_id),
        dec_digits(command),
        dec_digits(ack),
        dec_digits(sub_type),
    ) + payload + seq![NEWLINE]
}

/// A frame whose payload is bytes below 128 is bytes below 128.
pub proof fn lemma_render_frame_ascii(
    node_id: u8,
    child_sensor_id: u8,
    command: u8,
    ack: u8,
    sub_type: u8,
    payload: Seq<u8>,
)
    requires
        is_ascii_bytes(payload),
    ensures
        is_ascii_bytes(render_frame(node_id, child_sensor_id, command, ack, sub_type, payload)),
{
    let sep = seq![SEPARATOR];
    let f0 = dec_digits(node_id);
    let f1 = dec_digits(child_sensor_id);
    let f2 = dec_digits(command);
    let f3 = dec_digits(ack);
    let f4 = dec_digits(sub_type);
    lemma_digits_ascii(node_id, payload);
    lemma_digits_ascii(child_sensor_id, payload);
    lemma_digits_ascii(command, payload);
    lemma_digits_ascii(ack, payload);
    lemma_digits_ascii(sub_type, payload);
    assert(is_ascii_bytes(sep));
    assert(is_ascii_bytes(seq![NEWLINE]));
    lemma_ascii_concat(f0, sep);
    lemma_ascii_concat(f0 + sep, f1);
    lemma_ascii_concat(f0 + sep + f1, sep);
    lemma_ascii_concat(f0 + sep + f1 + sep, f2);
    lemma_ascii_concat(f0 + sep + f1 + sep + f2, sep);
    lemma_ascii_concat(f0 + sep + f1 + sep + f2 + sep, f3);
    lemma_ascii_concat(f0 + sep + f1 + sep + f2 + sep + f3, sep);
    lemma_ascii_concat(f0 + sep + f1 + sep + f2 + sep + f3 + sep, f4);
    lemma_ascii_concat(f0 + sep + f1 + sep + f2 + sep + f3 + sep + f4, sep);
    lemma_ascii_concat(join_head(f0, f1, f2, f3, f4), payload);
    lemma_ascii_concat(join_head(f0, f1, f2, f3, f4) + payload, seq![NEWLINE]);
}

/// A well-framed text is its six fields with a separator after each of the first five.
pub proof fn lemma_fields_join(t: Seq<u8>)
    requires
        well_framed(t),
    ensures
        t.subrange(0, field_start(t, 5)) == join_head(
            field(t, 0),
            field(t, 1),
            field(t, 2),
            field(t, 3),
            field(t, 4),
        ),
        t == t.subrange(0, field_start(t, 5)) + field(t, 5),
{
    lemma_field_bounds(t);
    let sep = seq![SEPARATOR];
    let s1 = field_start(t, 1);
    let s2 = field_start(t, 2);
    let s3 = field_start(t, 3);
    let s4 = field_start(t, 4);
    let s5 = field_start(t, 5);
    assert(t.subrange(0, s1) =~= field(t, 0) + sep);
    assert(t.subrange(0, s2) =~= t.subrange(0, s1) + field(t, 1) + sep);
    assert(t.subrange(0, s3) =~= t.subrange(0, s2) + field(t, 2) + sep);
    assert(t.subrange(0, s4) =~= t.subrange(0, s3) + field(t, 3) + sep);
    assert(t.subrange(0, s5) =~= t.subrange(0, s4) + field(t, 4) + sep);
    assert(t =~= t.subrange(0, s5) + field(t, 5));
}

impl LineMessage {
    /// `self` holds what the frame `m` says.
    pub open spec fn is_frame(&self, m: Seq<u8>) -> bool {
        &&& self.node_id == frame_number(m, 0)
        &&& self.child_sensor_id == frame_number(m, 1)
        &&& self.command.number() == frame_number(m, 2)
        &&& self.ack == frame_number(m, 3)
        &&& self.sub_type == frame_number(m, 4)
        &&& self.payload@ == frame_payload(m)
    }

    /// The bytes that `self` is written as.
    pub open spec fn wire(&self) -> Seq<u8> {
        render_frame(
            self.node_id,
            self.child_sensor_id,
            self.command.number(),
            self.ack,
            self.sub_type,
            self.payload@,
        )
    }

    /// Reads one frame. Whitespace around it is ignored; the payload is kept as it is.
    pub fn parse(m: &[u8]) -> (r: Result<LineMessage, ErrorKind>)
        ensures
            match r {
                Ok(msg) => frame_error(m@) is None && msg.is_frame(m@),
                Err(e) => frame_error(m@) == Some(e),
            },
    {
        let (lo, hi) = trim_bounds(m);
        let t = slice_subrange(m, lo, hi);
        let (e0, e1, e2, e3, e4) = match field_ends(t) {
            Some(ends) => ends,
            None => {
                return Err(ErrorKind::MalformedFrame);
            },
        };
        let e5 = t.len();
        proof {
            lemma_field_bounds(t@);
        }
        let node_id = match parse_u8(slice_subrange(t, 0, e0)) {
            Some(v) => v,
            None => {
                return Err(ErrorKind::BadField);
            },
        };
        let child_sensor_id = match parse_u8(slice_subrange(t, e0 + 1, e1)) {
            Some(v) => v,
            None => {
                return Err(ErrorKind::BadField);
            },
        };
        let command_number = match parse_u8(slice_subrange(t, e1 + 1, e2)) {
            Some(v) => v,
            None => {
                return Err(ErrorKind::BadField);
            },
        };
        let command = match CommandType::_u8(command_number) {
            Some(c) => c,
            None => {
                return Err(ErrorKind::UnknownCommand);
            },
        };
        let ack = match parse_u8(slice_subrange(t, e2 + 1, e3)) {
            Some(v) => v,
            None => {
                return Err(ErrorKind::BadField);
            },
        };
        let sub_type = match parse_u8(slice_subrange(t, e3 + 1, e4)) {
            Some(v) => v,
            None => {
                return Err(ErrorKind::BadField);
            },
        };
        let payload = vstd::slice::slice_to_vec(slice_subrange(t, e4 + 1, e5));
        Ok(LineMessage { node_id, child_sensor_id, command, ack, sub_type, payload })
    }

    /// Writes the frame out: decimal fields, separators, the payload and a line feed.
    pub fn serialize(&self) -> (r: Vec<u8>)
        ensures
            r@ == self.wire(),
    {
        write_frame(
            self.node_id,
            self.child_sensor_id,
            self.command.to_u8(),
            self.ack,
            self.sub_type,
            self.payload.as_slice(),
        )
    }

    /// Writes the frame out as one line of text: the characters that the
    /// bytes encode where they are valid UTF-8.
    pub fn to_string(&self) -> (r: String)
        ensures
            r@ == lossy_text(self.wire()),
            valid_utf8(self.wire()) ==> r@ == decode_utf8(self.wire()),
    {
        let bytes = self.serialize();
        string_of_bytes(bytes.as_slice())
    }
}

/// Writes a frame with the given fields.
pub fn write_frame(
    node_id: u8,
    child_sensor_id: u8,
    command: u8,
    ack: u8,
    sub_type: u8,
    payload: &[u8],
) -> (r: Vec<u8>)
    ensures
        r@ == render_frame(node_id, child_sensor_id, command, ack, sub_type, payload@),
{
    let mut out: Vec<u8> = Vec::new();
    push_dec(&mut out, node_id);
    out.push(SEPARATOR);
    push_dec(&mut out, child_sensor_id);
    out.push(SEPARATOR);
    push_dec(&mut out, command);
    out.push(SEPARATOR);
    push_dec(&mut out, ack);
    out.push(SEPARATOR);
    push_dec(&mut out, sub_type);
    out.push(SEPARATOR);
    out.extend_from_slice(payload);
    out.push(NEWLINE);
    proof {
        assert(out@ =~= render_frame(node_id, child_sensor_id, command, ack, sub_type, payload@));
    }
    out
}

} // verus!
