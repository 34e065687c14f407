//! What a transport does to bytes before and after the wire: cutting a
//! stream of bytes into lines, and turning MQTT topics into frames and back.

use vstd::prelude::*;
use vstd::slice::{slice_subrange, slice_to_vec};
use vstd::utf8::valid_utf8;
use crate::frame::{field, field_end, field_ends, field_start, lemma_field_bounds, well_framed};
use crate::text::{
    find_byte, lemma_index_of, lemma_index_of_found, lemma_sep_index, line_end, sep_count, trim,
    trim_bounds, NEWLINE, SEPARATOR,
};

verus! {

/// The byte that separates the levels of a topic (`/`).
pub const TOPIC_SEPARATOR: u8 = 47u8;

/// Tells whether bytes are valid UTF-8, with `std::str::from_utf8`, which
/// succeeds on exactly the byte sequences that are valid UTF-8.
#[verifier::external_body]
fn is_utf8(bytes: &[u8]) -> (r: bool)
    ensures
        r == valid_utf8(bytes@),
{
    std::str::from_utf8(bytes).is_ok()
}

/// What a line buffer gives when it is asked for the next line.
#[derive(Debug, Clone)]
pub enum Pull {
    /// The next whole line, its line feed included.
    Line(Vec<u8>),
    /// The next whole line was no valid text and is gone.
    Skipped,
    /// No whole line has come in yet.
    Pending,
}

/// The bytes that came in and were not yet handed out as lines.
pub struct LineBuffer {
    pub pending: Vec<u8>,
}

impl LineBuffer {
    /// Whether `s` holds a whole line.
    pub open spec fn has_line(s: Seq<u8>) -> bool {
        line_end(s, 0) < s.len()
    }

    /// The first line of `s`, its line feed included.
    pub open spec fn first_line(s: Seq<u8>) -> Seq<u8> {
        s.subrange(0, line_end(s, 0) + 1)
    }

    /// What follows the first line of `s`.
    pub open spec fn after_first_line(s: Seq<u8>) -> Seq<u8> {
        s.subrange(line_end(s, 0) + 1, s.len() as int)
    }

    /// An empty buffer.
    pub fn new() -> (r: LineBuffer)
        ensures
            r.pending@.len() == 0,
    {
        LineBuffer { pending: Vec::new() }
    }

    /// Takes in the bytes of one read, behind those that wait.
    pub fn push(&mut self, chunk: &[u8])
        ensures
            final(self).pending@ == old(self).pending@ + chunk@,
    {
        self.pending.extend_from_slice(chunk);
    }

    /// Hands out the next whole line. While the bytes that wait hold no line
    /// feed, nothing changes. Else the first line leaves the buffer: it is
    /// handed out where it is valid UTF-8, and dropped where it is not.
    pub fn next_line(&mut self) -> (r: Pull)
        ensures
            match r {
                Pull::Pending => !LineBuffer::has_line(old(self).pending@) && final(self).pending@
                    == old(self).pending@,
                Pull::Line(line) => {
                    &&& LineBuffer::has_line(old(self).pending@)
                    &&& line@ == LineBuffer::first_line(old(self).pending@)
                    &&& valid_utf8(line@)
                    &&& final(self).pending@ == LineBuffer::after_first_line(old(self).pending@)
                },
                Pull::Skipped => {
                    &&& LineBuffer::has_line(old(self).pending@)
                    &&& !valid_utf8(LineBuffer::first_line(old(self).pending@))
                    &&& final(self).pending@ == LineBuffer::after_first_line(old(self).pending@)
                },
            },
    {
        let end = find_byte(self.pending.as_slice(), NEWLINE, 0);
        if end >= self.pending.len() {
            return Pull::Pending;
        }
        let line = slice_to_vec(slice_subrange(self.pending.as_slice(), 0, end + 1));
        let rest = slice_to_vec(
            slice_subrange(self.pending.as_slice(), end + 1, self.pending.len()),
        );
        self.pending = rest;
        if is_utf8(line.as_slice()) {
            Pull::Line(line)
        } else {
            Pull::Skipped
        }
    }
}

/// A line that was handed out holds exactly one line feed, at its end, and
/// the line and what stays behind make up what was there.
pub proof fn lemma_first_line(s: Seq<u8>)
    requires
        LineBuffer::has_line(s),
    ensures
        LineBuffer::first_line(s) + LineBuffer::after_first_line(s) == s,
        LineBuffer::first_line(s).len() > 0,
        LineBuffer::first_line(s).last() == NEWLINE,
        forall|i: int|
            0 <= i < LineBuffer::first_line(s).len() - 1 ==> LineBuffer::first_line(s)[i]
                != NEWLINE,
{
    lemma_index_of(s, NEWLINE, 0);
    assert(LineBuffer::first_line(s) + LineBuffer::after_first_line(s) =~= s);
}

/// `s` with every byte `from` turned into `to`.
pub open spec fn swap_byte(s: Seq<u8>, from: u8, to: u8) -> Seq<u8> {
    Seq::new(
        s.len(),
        |i: int|
            if s[i] == from {
                to
            } else {
                s[i]
            },
    )
}

/// Whether `topic` is `prefix`, a topic separator, and more.
pub open spec fn under_prefix(prefix: Seq<u8>, topic: Seq<u8>) -> bool {
    &&& topic.len() > prefix.len()
    &&& topic.subrange(0, prefix.len() as int) == prefix
    &&& topic[prefix.len() as int] == TOPIC_SEPARATOR
}

/// The five levels of `topic` below `prefix`, written as the head of a frame.
pub open spec fn topic_head(prefix: Seq<u8>, topic: Seq<u8>) -> Seq<u8> {
    swap_byte(
        topic.subrange(prefix.len() as int + 1, topic.len() as int),
        TOPIC_SEPARATOR,
        SEPARATOR,
    )
}

/// The frame that a message on `topic` with `payload` stands for: the five
/// levels below the prefix are the five numeric fields. `None` where the
/// topic is not five levels below the prefix.
pub open spec fn topic_frame(prefix: Seq<u8>, topic: Seq<u8>, payload: Seq<u8>) -> Option<Seq<u8>> {
    if under_prefix(prefix, topic) && sep_count(topic_head(prefix, topic), 0) == 4 {
        Some(topic_head(prefix, topic) + seq![SEPARATOR] + payload + seq![NEWLINE])
    } else {
        None
    }
}

/// Counts the field separators in `s`.
pub fn count_separators(s: &[u8]) -> (r: usize)
    ensures
        r == sep_count(s@, 0),
{
    let mut n: usize = 0;
    let mut i: usize = s.len();
    while i > 0
        invariant
            i <= s.len(),
            n == sep_count(s@, i as int),
            n <= s.len() - i,
        decreases i,
    {
        i = i - 1;
        if s[i] == SEPARATOR {
            n = n + 1;
        }
    }
    n
}

/// Copies `s` with every byte `from` turned into `to`.
pub fn swap_bytes(s: &[u8], from: u8, to: u8) -> (r: Vec<u8>)
    ensures
        r@ == swap_byte(s@, from, to),
{
    let mut out: Vec<u8> = Vec::new();
    let mut i: usize = 0;
    while i < s.len()
        invariant
            i <= s.len(),
            out@.len() == i,
            forall|j: int| 0 <= j < i ==> out@[j] == swap_byte(s@, from, to)[j],
        decreases s.len() - i,
    {
        if s[i] == from {
            out.push(to);
        } else {
            out.push(s[i]);
        }
        i = i + 1;
    }
    assert(out@ =~= swap_byte(s@, from, to));
    out
}

/// Whether `s` begins with `prefix`.
fn starts_with(s: &[u8], prefix: &[u8]) -> (r: bool)
    ensures
        r == (s@.len() >= prefix@.len() && s@.subrange(0, prefix@.len() as int) == prefix@),
{
    if s.len() < prefix.len() {
        return false;
    }
    let mut i: usize = 0;
    while i < prefix.len()
        invariant
            i <= prefix.len() <= s.len(),
            forall|j: int| 0 <= j < i ==> s@[j] == prefix@[j],
        decreases prefix.len() - i,
    {
        if s[i] != prefix[i] {
            assert(s@.subrange(0, prefix@.len() as int)[i as int] != prefix@[i as int]);
            return false;
        }
        i = i + 1;
    }
    assert(s@.subrange(0, prefix@.len() as int) =~= prefix@);
    true
}

/// Turns a message that came in on `topic` into the frame that it stands for.
pub fn frame_of_topic(prefix: &[u8], topic: &[u8], payload: &[u8]) -> (r: Option<Vec<u8>>)
    ensures
        match r {
            Some(frame) => topic_frame(prefix@, topic@, payload@) == Some(frame@),
            None => topic_frame(prefix@, topic@, payload@) is None,
        },
{
    if !(topic.len() > prefix.len() && starts_with(topic, prefix) && topic[prefix.len()]
        == TOPIC_SEPARATOR) {
        return None;
    }
    let levels = slice_subrange(topic, prefix.len() + 1, topic.len());
    let mut frame = swap_bytes(levels, TOPIC_SEPARATOR, SEPARATOR);
    if count_separators(frame.as_slice()) != 4 {
        return None;
    }
    frame.push(SEPARATOR);
    frame.extend_from_slice(payload);
    frame.push(NEWLINE);
    Some(frame)
}

/// The five levels below a prefix, each open to any value: `/+/+/+/+/+`.
pub open spec fn any_levels() -> Seq<u8> {
    seq![47u8, 43u8, 47u8, 43u8, 47u8, 43u8, 47u8, 43u8, 47u8, 43u8]
}

/// The topic filter to subscribe to: every topic five levels below the prefix.
pub fn subscription(prefix: &[u8]) -> (r: Vec<u8>)
    ensures
        r@ == prefix@ + any_levels(),
{
    let mut filter = slice_to_vec(prefix);
    let mut i: usize = 0;
    while i < 5
        invariant
            i <= 5,
            filter@.len() == prefix@.len() + 2 * i,
            forall|j: int| 0 <= j < prefix@.len() ==> filter@[j] == prefix@[j],
            forall|j: int| 0 <= j < 2 * i ==> filter@[prefix@.len() + j] == any_levels()[j],
        decreases 5 - i,
    {
        filter.push(TOPIC_SEPARATOR);
        filter.push(43);
        i = i + 1;
    }
    assert(filter@ =~= prefix@ + any_levels());
    filter
}

/// The topic on which the frame `m` goes out: the prefix and its five
/// numeric fields as levels.
pub open spec fn frame_topic(prefix: Seq<u8>, m: Seq<u8>) -> Seq<u8> {
    let t = trim(m);
    prefix + seq![TOPIC_SEPARATOR] + swap_byte(
        t.subrange(0, field_start(t, 5) - 1),
        SEPARATOR,
        TOPIC_SEPARATOR,
    )
}

/// Turns a frame into the topic and the payload of the message that stands
/// for it. `None` where the frame does not have six fields.
pub fn topic_of_frame(prefix: &[u8], m: &[u8]) -> (r: Option<(Vec<u8>, Vec<u8>)>)
    ensures
        r is Some <==> well_framed(trim(m@)),
        r is Some ==> r.unwrap().0@ == frame_topic(prefix@, m@) && r.unwrap().1@ == field(
            trim(m@),
            5,
        ),
{
    let (lo, hi) = trim_bounds(m);
    let t = slice_subrange(m, lo, hi);
    let e4 = match field_ends(t) {
        Some((_, _, _, _, e4)) => e4,
        None => {
            return None;
        },
    };
    let e5 = t.len();
    proof {
        lemma_field_bounds(t@);
    }
    let mut topic = slice_to_vec(prefix);
    topic.push(TOPIC_SEPARATOR);
    let levels = swap_bytes(slice_subrange(t, 0, e4), SEPARATOR, TOPIC_SEPARATOR);
    topic.extend_from_slice(levels.as_slice());
    let payload = slice_to_vec(slice_subrange(t, e4 + 1, e5));
    Some((topic, payload))
}

/// No byte of `s` is a topic separator.
pub open spec fn has_no_topic_separator(s: Seq<u8>) -> bool {
    forall|i: int| 0 <= i < s.len() ==> #[trigger] s[i] != TOPIC_SEPARATOR
}

/// A frame that goes out as a topic and a payload comes back as the same
/// frame, trimmed and ended by a line feed, as long as no topic separator
/// stands in its five numeric fields.
pub proof fn lemma_topic_round_trip(prefix: Seq<u8>, m: Seq<u8>)
    requires
        well_framed(trim(m)),
        has_no_topic_separator(trim(m).subrange(0, field_start(trim(m), 5) - 1)),
    ensures
        topic_frame(prefix, frame_topic(prefix, m), field(trim(m), 5)) == Some(
            trim(m) + seq![NEWLINE],
        ),
{
    let t = trim(m);
    lemma_field_bounds(t);
    let e0 = field_end(t, 0);
    let e1 = field_end(t, 1);
    let e2 = field_end(t, 2);
    let e3 = field_end(t, 3);
    let e4 = field_end(t, 4);
    let head = t.subrange(0, e4);
    let levels = swap_byte(head, SEPARATOR, TOPIC_SEPARATOR);
    let topic = frame_topic(prefix, m);
    assert(topic == prefix + seq![TOPIC_SEPARATOR] + levels);
    assert(topic.subrange(0, prefix.len() as int) =~= prefix);
    assert(topic[prefix.len() as int] == TOPIC_SEPARATOR);
    assert(topic.subrange(prefix.len() as int + 1, topic.len() as int) =~= levels);
    assert(swap_byte(levels, TOPIC_SEPARATOR, SEPARATOR) =~= head);
    assert(topic_head(prefix, topic) == head);
    reveal_with_fuel(field_start, 7);
    lemma_sep_index(t, 0);
    lemma_sep_index(t, e0 + 1);
    lemma_sep_index(t, e1 + 1);
    lemma_sep_index(t, e2 + 1);
    lemma_sep_index(t, e3 + 1);
    lemma_index_of_found(head, SEPARATOR, 0, e0);
    lemma_index_of_found(head, SEPARATOR, e0 + 1, e1);
    lemma_index_of_found(head, SEPARATOR, e1 + 1, e2);
    lemma_index_of_found(head, SEPARATOR, e2 + 1, e3);
    lemma_index_of_found(head, SEPARATOR, e3 + 1, e4);
    lemma_sep_index(head, 0);
    lemma_sep_index(head, e0 + 1);
    lemma_sep_index(head, e1 + 1);
    lemma_sep_index(head, e2 + 1);
    lemma_sep_index(head, e3 + 1);
    assert(sep_count(head, 0) == 4);
    assert(head + seq![SEPARATOR] + field(t, 5) =~= t);
}

} // verus!
