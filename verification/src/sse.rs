//! Server-sent event streams: frames out of bytes, fields out of frames.

use crate::error::{ErrorModel, RiteError};
use crate::text;
use vstd::prelude::*;

verus! {

/// Two carriage-return line-feed pairs.
pub open spec fn crlf_gap() -> Seq<u8> {
    seq![13u8, 10u8, 13u8, 10u8]
}

/// Two line feeds.
pub open spec fn lf_gap() -> Seq<u8> {
    seq![10u8, 10u8]
}

/// Where the first frame of `buffer` ends and how long the delimiter after it
/// is. Two carriage-return line-feed pairs anywhere go before two line feeds.
pub open spec fn first_frame_end(buffer: Seq<u8>) -> Option<(int, int)> {
    match text::position(buffer, crlf_gap()) {
        Some(end) => Some((end, 4)),
        None => match text::position(buffer, lf_gap()) {
            Some(end) => Some((end, 2)),
            None => None,
        },
    }
}

/// A frame ends within its buffer.
pub proof fn first_frame_end_fits(buffer: Seq<u8>)
    ensures
        first_frame_end(buffer) matches Some((end, gap)) ==> 0 <= end && 2 <= gap && end + gap
            <= buffer.len(),
{
    text::position_is_first(buffer, crlf_gap(), 0);
    text::position_is_first(buffer, lf_gap(), 0);
}

/// The complete frames of `buffer`, in order.
pub open spec fn frames(buffer: Seq<u8>) -> Seq<Seq<u8>>
    decreases buffer.len(),
{
    match first_frame_end(buffer) {
        Some((end, gap)) => {
            proof {
                first_frame_end_fits(buffer);
            }
            seq![buffer.take(end)] + frames(buffer.skip(end + gap))
        },
        None => seq![],
    }
}

/// What is left of `buffer` behind its complete frames.
pub open spec fn unfinished(buffer: Seq<u8>) -> Seq<u8>
    decreases buffer.len(),
{
    match first_frame_end(buffer) {
        Some((end, gap)) => {
            proof {
                first_frame_end_fits(buffer);
            }
            unfinished(buffer.skip(end + gap))
        },
        None => buffer,
    }
}

/// The line without one trailing carriage return.
pub open spec fn without_cr(line: Seq<char>) -> Seq<char> {
    if line.len() > 0 && line.last() == '\r' {
        line.drop_last()
    } else {
        line
    }
}

/// The lines of `s`, each without its line feed and a carriage return before it.
/// A last line need not end in a line feed.
pub open spec fn lines(s: Seq<char>) -> Seq<Seq<char>>
    decreases s.len(),
{
    match text::position(s, seq!['\n']) {
        Some(i) => {
            proof {
                text::position_is_first(s, seq!['\n'], 0);
            }
            seq![without_cr(s.take(i))] + lines(s.skip(i + 1))
        },
        None => if s.len() == 0 {
            seq![]
        } else {
            seq![s]
        },
    }
}

/// The field of a line and its value: what stands before and after the first
/// colon, one space after it and one carriage return at the end left out.
pub open spec fn field_of(line: Seq<char>) -> Option<(Seq<char>, Seq<char>)> {
    let line = without_cr(line);
    match text::position(line, seq![':']) {
        Some(i) => {
            let value = line.skip(i + 1);
            Some(
                (
                    line.take(i),
                    if value.len() > 0 && value[0] == ' ' {
                        value.skip(1)
                    } else {
                        value
                    },
                ),
            )
        },
        None => None,
    }
}

/// The value of the last field of this name.
pub open spec fn last_value(lines: Seq<Seq<char>>, name: Seq<char>) -> Option<Seq<char>>
    decreases lines.len(),
{
    if lines.len() == 0 {
        None
    } else {
        match field_of(lines.last()) {
            Some((field, value)) => if field == name {
                Some(value)
            } else {
                last_value(lines.drop_last(), name)
            },
            None => last_value(lines.drop_last(), name),
        }
    }
}

/// The values of all fields of this name, in order.
pub open spec fn all_values(lines: Seq<Seq<char>>, name: Seq<char>) -> Seq<Seq<char>>
    decreases lines.len(),
{
    if lines.len() == 0 {
        seq![]
    } else {
        let earlier = all_values(lines.drop_last(), name);
        match field_of(lines.last()) {
            Some((field, value)) => if field == name {
                earlier.push(value)
            } else {
                earlier
            },
            None => earlier,
        }
    }
}

/// What `std::str::from_utf8` says is wrong with these bytes.
pub uninterp spec fn utf8_error(bytes: Seq<u8>) -> Seq<char>;

/// The event name that the fields of a frame's text give, and the data: the last
/// `event` field, and the `data` fields joined by line feeds.
pub open spec fn fields_of_text(frame: Seq<char>) -> (Option<Seq<char>>, Seq<char>) {
    let all = lines(frame);
    (last_value(all, "event"@), text::joined(all_values(all, "data"@), "\n"@))
}

/// The event name of a frame and its data, or why the frame is refused.
pub open spec fn frame_fields(frame: Seq<u8>) -> Result<(Option<Seq<char>>, Seq<char>), ErrorModel> {
    if vstd::utf8::valid_utf8(frame) {
        Ok(fields_of_text(vstd::utf8::decode_utf8(frame)))
    } else {
        Err(ErrorModel::Parse("invalid UTF-8 in Iris SSE frame: "@ + utf8_error(frame)))
    }
}

/// `std::str::from_utf8`: the text of bytes that are UTF-8, and an error for
/// all others. The error's text is a function of the bytes alone, named
/// `utf8_error`.
#[verifier::external_body]
fn utf8_text(bytes: &[u8]) -> (r: Result<String, String>)
    ensures
        match r {
            Ok(s) => vstd::utf8::valid_utf8(bytes@) && s@ == vstd::utf8::decode_utf8(bytes@),
            Err(error) => !vstd::utf8::valid_utf8(bytes@) && error@ == utf8_error(bytes@),
        },
{
    match std::str::from_utf8(bytes) {
        Ok(s) => Ok(s.to_owned()),
        Err(error) => Err(error.to_string()),
    }
}

/// Whether `pattern` stands in `bytes` at position `i`.
fn stands_at(bytes: &[u8], pattern: &Vec<u8>, i: usize) -> (yes: bool)
    requires
        i <= bytes@.len(),
    ensures
        yes == text::occurs_at(bytes@, pattern@, i as int),
{
    if bytes.len() - i < pattern.len() {
        return false;
    }
    let mut k: usize = 0;
    while k < pattern.len()
        invariant
            i + pattern@.len() <= bytes@.len() == bytes.len(),
            k <= pattern@.len(),
            forall|j: int| 0 <= j < k ==> bytes@[i + j] == #[trigger] pattern@[j],
        decreases pattern@.len() - k,
    {
        if bytes[i + k] != pattern[k] {
            assert(bytes@.subrange(i as int, i + pattern@.len())[k as int] != pattern@[k as int]);
            return false;
        }
        k += 1;
    }
    assert(bytes@.subrange(i as int, i + pattern@.len()) =~= pattern@);
    true
}

/// The first position at which `pattern` stands in `bytes`.
fn find(bytes: &[u8], pattern: &Vec<u8>) -> (r: Option<usize>)
    requires
        pattern@.len() > 0,
    ensures
        match r {
            Some(p) => text::position(bytes@, pattern@) == Some(p as int),
            None => text::position(bytes@, pattern@) is None,
        },
{
    let mut i: usize = 0;
    while pattern.len() <= bytes.len() - i
        invariant
            pattern@.len() > 0,
            i <= bytes@.len(),
            text::position(bytes@, pattern@) == text::position_from(bytes@, pattern@, i as int),
        decreases bytes@.len() - i,
    {
        if stands_at(bytes, pattern, i) {
            return Some(i);
        }
        i += 1;
    }
    None
}

/// Where the first frame of `buffer` ends and how long the delimiter after it is.
pub fn frame_end(buffer: &[u8]) -> (r: Option<(usize, usize)>)
    ensures
        match r {
            Some((end, gap)) => first_frame_end(buffer@) == Some((end as int, gap as int)),
            None => first_frame_end(buffer@) is None,
        },
{
    let crlf: Vec<u8> = vec![13, 10, 13, 10];
    let lf: Vec<u8> = vec![10, 10];
    assert(crlf@ =~= crlf_gap());
    assert(lf@ =~= lf_gap());
    match find(buffer, &crlf) {
        Some(end) => Some((end, 4)),
        None => match find(buffer, &lf) {
            Some(end) => Some((end, 2)),
            None => None,
        },
    }
}

/// The characters from `from` to `to` without one trailing carriage return.
fn line_between(chars: &Vec<char>, from: usize, to: usize) -> (r: String)
    requires
        from <= to <= chars@.len(),
    ensures
        r@ == without_cr(chars@.subrange(from as int, to as int)),
{
    if from < to && chars[to - 1] == '\r' {
        assert(chars@.subrange(from as int, to as int).drop_last() =~= chars@.subrange(
            from as int,
            to - 1,
        ));
        text::string_from(chars, from, to - 1)
    } else {
        text::string_from(chars, from, to)
    }
}

/// The lines of `s`, each without its line feed and a carriage return before it.
fn line_list(s: &str) -> (r: Vec<String>)
    ensures
        text::views(r@) == lines(s@),
{
    let chars = text::char_vec(s);
    let feed: Vec<char> = vec!['\n'];
    assert(feed@ =~= seq!['\n']);
    let mut r: Vec<String> = Vec::new();
    let mut from: usize = 0;
    assert(chars@.skip(0) =~= chars@);
    assert(text::views(r@) + lines(chars@) =~= lines(chars@));
    loop
        invariant
            chars@ == s@,
            feed@ == seq!['\n'],
            from <= chars@.len() == chars.len(),
            text::views(r@) + lines(chars@.skip(from as int)) == lines(s@),
        decreases chars@.len() - from,
    {
        let ghost rest = chars@.skip(from as int);
        let ghost before = text::views(r@);
        proof {
            text::position_in_rest(chars@, feed@, from as int, 0);
            text::position_is_first(rest, feed@, 0);
        }
        match text::find_from(&chars, &feed, from) {
            Some(at) => {
                r.push(line_between(&chars, from, at));
                proof {
                    let i = at - from;
                    assert(rest.take(i) =~= chars@.subrange(from as int, at as int));
                    assert(rest.skip(i + 1) =~= chars@.skip(at + 1));
                    assert(text::views(r@) =~= before.push(without_cr(rest.take(i))));
                    assert(text::views(r@) + lines(rest.skip(i + 1)) =~= before + lines(rest));
                }
                from = at + 1;
            },
            None => {
                if from < chars.len() {
                    r.push(text::string_from(&chars, from, chars.len()));
                    proof {
                        assert(chars@.subrange(from as int, chars@.len() as int) =~= rest);
                        assert(text::views(r@) =~= before + seq![rest]);
                    }
                } else {
                    assert(before + lines(rest) =~= before);
                }
                return r;
            },
        }
    }
}

/// The field of a line and its value.
fn split_field(line: &str) -> (r: Option<(String, String)>)
    ensures
        match r {
            Some((field, value)) => field_of(line@) == Some((field@, value@)),
            None => field_of(line@) is None,
        },
{
    let chars = text::char_vec(line);
    let mut end: usize = chars.len();
    if end > 0 && chars[end - 1] == '\r' {
        end -= 1;
    }
    let ghost bare = without_cr(line@);
    assert(bare =~= chars@.subrange(0, end as int));
    let mut i: usize = 0;
    assert forall|k: int| 0 <= k < bare.len() implies text::occurs_at(bare, seq![':'], k) == (
    #[trigger] bare[k] == ':') by {
        assert(bare.subrange(k, k + 1) =~= seq![bare[k]]);
        if text::occurs_at(bare, seq![':'], k) {
            assert(seq![bare[k]][0] == seq![':'][0]);
        }
    }
    while i < end && chars[i] != ':'
        invariant
            i <= end <= chars@.len(),
            bare == chars@.subrange(0, end as int),
            forall|k: int| 0 <= k < i ==> #[trigger] bare[k] != ':',
        decreases end - i,
    {
        i += 1;
    }
    proof {
        text::position_is_first(bare, seq![':'], 0);
        if i < end {
            assert(bare[i as int] == ':');
            assert(text::occurs_at(bare, seq![':'], i as int));
        }
    }
    if i == end {
        proof {
            if let Some(p) = text::position(bare, seq![':']) {
                assert(bare[p] == ':');
            }
        }
        return None;
    }
    proof {
        let p = text::position(bare, seq![':'])->0;
        assert(bare[p] == ':');
        assert(p == i);
        assert(bare.take(i as int) =~= chars@.subrange(0, i as int));
    }
    let field = text::string_from(&chars, 0, i);
    let from: usize = i + 1;
    if from < end && chars[from] == ' ' {
        assert(bare.skip(i + 1).skip(1) =~= chars@.subrange(from + 1, end as int));
        assert(bare.skip(i + 1)[0] == ' ');
        Some((field, text::string_from(&chars, from + 1, end)))
    } else {
        assert(bare.skip(i + 1) =~= chars@.subrange(from as int, end as int));
        Some((field, text::string_from(&chars, from, end)))
    }
}

/// The event name that the fields of a frame's text give, and the data.
pub fn text_fields(frame: &str) -> (r: (Option<String>, String))
    ensures
        (text::optional(r.0), r.1@) == fields_of_text(frame@),
{
    let list = line_list(frame);
    let ghost all = text::views(list@);
    let mut event: Option<String> = None;
    let mut data: Vec<String> = Vec::new();
    let mut i: usize = 0;
    assert(all.take(0) =~= seq![]);
    assert(text::views(data@) =~= seq![]);
    while i < list.len()
        invariant
            all == text::views(list@),
            i <= list@.len(),
            text::optional(event) == last_value(all.take(i as int), "event"@),
            text::views(data@) == all_values(all.take(i as int), "data"@),
        decreases list@.len() - i,
    {
        assert(all.take(i + 1).drop_last() =~= all.take(i as int));
        assert(all.take(i + 1).last() == list@[i as int]@);
        proof {
            reveal_strlit("event");
            reveal_strlit("data");
            assert("event"@.len() != "data"@.len());
        }
        if let Some((field, value)) = split_field(list[i].as_str()) {
            if text::same(field.as_str(), "event") {
                event = Some(value);
            } else if text::same(field.as_str(), "data") {
                let ghost before = text::views(data@);
                let ghost spoken = value@;
                data.push(value);
                assert(text::views(data@) =~= before.push(spoken));
            }
        }
        i += 1;
    }
    assert(all.take(i as int) =~= all);
    (event, text::join(&data, "\n"))
}

/// The event name of a frame and its data.
pub fn parse_frame(frame: &[u8]) -> (r: Result<(Option<String>, String), RiteError>)
    ensures
        match r {
            Ok((event, data)) => frame_fields(frame@) == Ok::<_, ErrorModel>(
                (text::optional(event), data@),
            ),
            Err(error) => frame_fields(frame@) == Err::<(Option<Seq<char>>, Seq<char>), _>(error@),
        },
{
    match utf8_text(frame) {
        Ok(frame_text) => Ok(text_fields(frame_text.as_str())),
        Err(error) => Err(
            RiteError::Parse(
                "invalid UTF-8 in Iris SSE frame: ".to_owned().concat(error.as_str()),
            ),
        ),
    }
}

/// Bytes of a stream that no complete frame has been taken from yet.
#[derive(Debug)]
pub struct FrameBuffer {
    bytes: Vec<u8>,
}

impl View for FrameBuffer {
    type V = Seq<u8>;

    closed spec fn view(&self) -> Seq<u8> {
        self.bytes@
    }
}

impl FrameBuffer {
    /// An empty buffer.
    pub fn new() -> (r: FrameBuffer)
        ensures
            r@ == Seq::<u8>::empty(),
    {
        FrameBuffer { bytes: Vec::new() }
    }

    /// Appends a chunk of the stream.
    pub fn push(&mut self, chunk: &[u8])
        ensures
            final(self)@ == old(self)@ + chunk@,
    {
        let mut i: usize = 0;
        assert(old(self)@ + chunk@.take(0) =~= old(self)@);
        while i < chunk.len()
            invariant
                i <= chunk@.len(),
                self@ == old(self)@ + chunk@.take(i as int),
            decreases chunk@.len() - i,
        {
            self.bytes.push(chunk[i]);
            assert(old(self)@ + chunk@.take(i + 1) =~= (old(self)@ + chunk@.take(i as int)).push(
                chunk@[i as int],
            ));
            i += 1;
        }
        assert(chunk@.take(i as int) =~= chunk@);
    }

    /// Takes the first complete frame out of the buffer, with its delimiter.
    pub fn next_frame(&mut self) -> (r: Option<Vec<u8>>)
        ensures
            match first_frame_end(old(self)@) {
                Some((end, gap)) => {
                    &&& r is Some
                    &&& r->0@ == old(self)@.take(end)
                    &&& final(self)@ == old(self)@.skip(end + gap)
                },
                None => r is None && final(self)@ == old(self)@,
            },
    {
        proof {
            first_frame_end_fits(self@);
        }
        let total: usize = self.bytes.len();
        match frame_end(self.bytes.as_slice()) {
            Some((end, gap)) => {
                let frame = bytes_between(&self.bytes, 0, end);
                let rest = bytes_between(&self.bytes, end + gap, total);
                assert(frame@ =~= self@.take(end as int));
                assert(rest@ =~= self@.skip(end + gap));
                self.bytes = rest;
                Some(frame)
            },
            None => None,
        }
    }
}

/// The bytes from `from` up to `to`.
fn bytes_between(bytes: &Vec<u8>, from: usize, to: usize) -> (r: Vec<u8>)
    requires
        from <= to <= bytes@.len(),
    ensures
        r@ == bytes@.subrange(from as int, to as int),
{
    let mut r: Vec<u8> = Vec::new();
    let mut i: usize = from;
    while i < to
        invariant
            from <= i <= to <= bytes@.len(),
            r@ == bytes@.subrange(from as int, i as int),
        decreases to - i,
    {
        r.push(bytes[i]);
        i += 1;
    }
    r
}

/// No two line feeds stand in the stream before a frame that ends in two
/// carriage-return line-feed pairs, so that where a frame ends does not depend on
/// how much of the stream has come.
pub open spec fn is_steady(stream: Seq<u8>) -> bool
    decreases stream.len(),
{
    match first_frame_end(stream) {
        Some((end, gap)) => {
            proof {
                first_frame_end_fits(stream);
            }
            &&& gap == 4 ==> forall|p: int| 0 <= p < end ==> !text::occurs_at(stream, lf_gap(), p)
            &&& is_steady(stream.skip(end + gap))
        },
        None => true,
    }
}

/// What stands in the first part of a stream stands in the stream.
proof fn occurs_in_front<T>(front: Seq<T>, back: Seq<T>, pattern: Seq<T>, p: int)
    requires
        0 <= p,
        p + pattern.len() <= front.len(),
    ensures
        text::occurs_at(front, pattern, p) == text::occurs_at(front + back, pattern, p),
{
    assert(front.subrange(p, p + pattern.len()) =~= (front + back).subrange(p, p + pattern.len()));
}

/// A frame that is complete in the first part of a steady stream is the stream's
/// first frame.
proof fn frame_end_in_front(front: Seq<u8>, back: Seq<u8>)
    requires
        is_steady(front + back),
        first_frame_end(front) is Some,
    ensures
        first_frame_end(front + back) == first_frame_end(front),
{
    let stream = front + back;
    text::position_is_first(front, crlf_gap(), 0);
    text::position_is_first(front, lf_gap(), 0);
    text::position_is_first(stream, crlf_gap(), 0);
    text::position_is_first(stream, lf_gap(), 0);
    match text::position(front, crlf_gap()) {
        Some(p) => {
            occurs_in_front(front, back, crlf_gap(), p);
            let q = text::position(stream, crlf_gap())->0;
            if q < p {
                occurs_in_front(front, back, crlf_gap(), q);
            }
        },
        None => {
            let p = text::position(front, lf_gap())->0;
            occurs_in_front(front, back, lf_gap(), p);
            assert(stream.subrange(p, p + 2)[0] == 10u8);
            assert(stream.subrange(p, p + 2)[1] == 10u8);
            assert(stream[p] == 10u8 && stream[p + 1] == 10u8);
            if let Some(q) = text::position(stream, crlf_gap()) {
                if q + 4 <= front.len() {
                    occurs_in_front(front, back, crlf_gap(), q);
                }
                assert(stream.subrange(q, q + 4)[0] == 13u8);
                assert(stream.subrange(q, q + 4)[2] == 13u8);
                assert(stream[q] == 13u8 && stream[q + 2] == 13u8);
                assert(p < q);
                assert(false);
            }
            let q = text::position(stream, lf_gap())->0;
            if q < p {
                occurs_in_front(front, back, lf_gap(), q);
            }
        },
    }
}

/// However a steady stream is cut in two, taking the frames of the first part and
/// then those of what is left with the second part gives the stream's frames.
pub proof fn frames_survive_a_cut(front: Seq<u8>, back: Seq<u8>)
    requires
        is_steady(front + back),
    ensures
        frames(front + back) == frames(front) + frames(unfinished(front) + back),
        unfinished(front + back) == unfinished(unfinished(front) + back),
        is_steady(unfinished(front) + back),
    decreases front.len(),
{
    match first_frame_end(front) {
        Some((end, gap)) => {
            first_frame_end_fits(front);
            frame_end_in_front(front, back);
            let stream = front + back;
            assert(stream.take(end) =~= front.take(end));
            assert(stream.skip(end + gap) =~= front.skip(end + gap) + back);
            frames_survive_a_cut(front.skip(end + gap), back);
            assert(frames(stream) =~= frames(front) + frames(unfinished(front) + back));
        },
        None => {
            assert(frames(front) + frames(front + back) =~= frames(front + back));
        },
    }
}

/// Whether cutting the stream at `k` leaves its frames as they are.
pub open spec fn survives_cut_at(stream: Seq<u8>, k: int) -> bool {
    frames(stream) == frames(stream.take(k)) + frames(
        unfinished(stream.take(k)) + stream.skip(k),
    )
}

/// The frames of a stream that is not steady depend on where it is cut.
pub proof fn unsteady_frames_depend_on_the_cut(stream: Seq<u8>)
    requires
        !is_steady(stream),
    ensures
        exists|k: int| 0 <= k <= stream.len() && !#[trigger] survives_cut_at(stream, k),
    decreases stream.len(),
{
    let (end, gap) = first_frame_end(stream)->0;
    first_frame_end_fits(stream);
    text::position_is_first(stream, crlf_gap(), 0);
    if gap == 4 && exists|p: int| 0 <= p < end && text::occurs_at(stream, lf_gap(), p) {
        let p = choose|p: int| 0 <= p < end && text::occurs_at(stream, lf_gap(), p);
        let front = stream.take(p + 2);
        let back = stream.skip(p + 2);
        assert(front + back =~= stream);
        text::position_is_first(front, crlf_gap(), 0);
        text::position_is_first(front, lf_gap(), 0);
        occurs_in_front(front, back, lf_gap(), p);
        if let Some(q) = text::position(front, crlf_gap()) {
            occurs_in_front(front, back, crlf_gap(), q);
        }
        let (early, short) = first_frame_end(front)->0;
        let pieces = frames(front) + frames(unfinished(front) + back);
        assert(pieces[0] == front.take(early));
        assert(frames(stream)[0] == stream.take(end));
        assert(pieces[0].len() < frames(stream)[0].len());
        assert(!survives_cut_at(stream, p + 2));
    } else {
        let rest = stream.skip(end + gap);
        unsteady_frames_depend_on_the_cut(rest);
        let k = choose|k: int| 0 <= k <= rest.len() && !#[trigger] survives_cut_at(rest, k);
        let front = stream.take(end + gap + k);
        let back = stream.skip(end + gap + k);
        assert(front + back =~= stream);
        first_end_in_long_front(front, back);
        assert(front.take(end) =~= stream.take(end));
        assert(front.skip(end + gap) =~= rest.take(k));
        assert(back =~= rest.skip(k));
        let later = frames(rest.take(k)) + frames(unfinished(rest.take(k)) + rest.skip(k));
        if survives_cut_at(stream, end + gap + k) {
            assert(frames(stream).skip(1) =~= frames(rest));
            assert((frames(front) + frames(unfinished(front) + back)).skip(1) =~= later);
        }
        assert(!survives_cut_at(stream, end + gap + k));
    }
}

/// A part that holds a stream's first frame and its delimiter has the same first
/// frame.
proof fn first_end_in_long_front(front: Seq<u8>, back: Seq<u8>)
    requires
        first_frame_end(front + back) matches Some((end, gap)) && end + gap <= front.len(),
    ensures
        first_frame_end(front) == first_frame_end(front + back),
{
    let stream = front + back;
    text::position_is_first(front, crlf_gap(), 0);
    text::position_is_first(front, lf_gap(), 0);
    text::position_is_first(stream, crlf_gap(), 0);
    text::position_is_first(stream, lf_gap(), 0);
    let (end, gap) = first_frame_end(stream)->0;
    let pattern = if gap == 4 { crlf_gap() } else { lf_gap() };
    occurs_in_front(front, back, pattern, end);
    if let Some(q) = text::position(front, crlf_gap()) {
        occurs_in_front(front, back, crlf_gap(), q);
    }
    if let Some(q) = text::position(front, lf_gap()) {
        occurs_in_front(front, back, lf_gap(), q);
    }
}

/// The stream that arrives in these chunks.
pub open spec fn assembled(chunks: Seq<Seq<u8>>) -> Seq<u8>
    decreases chunks.len(),
{
    if chunks.len() == 0 {
        seq![]
    } else {
        assembled(chunks.drop_last()) + chunks.last()
    }
}

/// The frames taken as the chunks arrive one after the other, and what is left.
pub open spec fn taken(chunks: Seq<Seq<u8>>) -> (Seq<Seq<u8>>, Seq<u8>)
    decreases chunks.len(),
{
    if chunks.len() == 0 {
        (seq![], seq![])
    } else {
        let (before, left) = taken(chunks.drop_last());
        let buffer = left + chunks.last();
        (before + frames(buffer), unfinished(buffer))
    }
}

/// While a steady stream arrives, the frames taken so far and those still in the
/// rest are the stream's frames.
proof fn chunks_lose_nothing(chunks: Seq<Seq<u8>>, rest: Seq<u8>)
    requires
        is_steady(assembled(chunks) + rest),
    ensures
        taken(chunks).0 + frames(taken(chunks).1 + rest) == frames(assembled(chunks) + rest),
        unfinished(taken(chunks).1 + rest) == unfinished(assembled(chunks) + rest),
        is_steady(taken(chunks).1 + rest),
    decreases chunks.len(),
{
    if chunks.len() > 0 {
        let (before, left) = taken(chunks.drop_last());
        let buffer = left + chunks.last();
        let follows = chunks.last() + rest;
        assert(assembled(chunks) + rest =~= assembled(chunks.drop_last()) + follows);
        chunks_lose_nothing(chunks.drop_last(), follows);
        assert(left + follows =~= buffer + rest);
        frames_survive_a_cut(buffer, rest);
        assert(taken(chunks).0 + frames(taken(chunks).1 + rest) =~= before + (frames(buffer)
            + frames(unfinished(buffer) + rest)));
    } else {
        assert(taken(chunks).1 + rest =~= rest);
        assert(assembled(chunks) + rest =~= rest);
        assert(taken(chunks).0 + frames(rest) =~= frames(rest));
    }
}

/// The frames of a steady stream, and what is left behind them, do not depend on
/// the chunks in which it arrives.
pub proof fn chunks_do_not_matter(chunks: Seq<Seq<u8>>)
    requires
        is_steady(assembled(chunks)),
    ensures
        taken(chunks).0 == frames(assembled(chunks)),
        taken(chunks).1 == unfinished(assembled(chunks)),
{
    let stream = assembled(chunks);
    let left = taken(chunks).1;
    assert(stream + Seq::<u8>::empty() =~= stream);
    assert(left + Seq::<u8>::empty() =~= left);
    chunks_lose_nothing(chunks, Seq::<u8>::empty());
    if chunks.len() > 0 {
        unfinished_is_unfinished(taken(chunks.drop_last()).1 + chunks.last());
    } else {
        assert(unfinished(left) =~= left);
    }
    assert(first_frame_end(left) is None) by {
        text::position_is_first(left, crlf_gap(), 0);
        text::position_is_first(left, lf_gap(), 0);
    }
    assert(taken(chunks).0 + frames(left) =~= taken(chunks).0);
}

/// What is left behind the frames holds no complete frame.
pub proof fn unfinished_is_unfinished(buffer: Seq<u8>)
    ensures
        first_frame_end(unfinished(buffer)) is None,
    decreases buffer.len(),
{
    if let Some((end, gap)) = first_frame_end(buffer) {
        first_frame_end_fits(buffer);
        unfinished_is_unfinished(buffer.skip(end + gap));
    }
}

/// A stream that keeps to one of the two delimiters is steady.
pub proof fn uniform_stream_is_steady(stream: Seq<u8>)
    requires
        !text::occurs(stream, lf_gap()) || !text::occurs(stream, crlf_gap()),
    ensures
        is_steady(stream),
    decreases stream.len(),
{
    if let Some((end, gap)) = first_frame_end(stream) {
        first_frame_end_fits(stream);
        text::position_is_first(stream, crlf_gap(), 0);
        let rest = stream.skip(end + gap);
        assert forall|pattern: Seq<u8>| text::occurs(rest, pattern) implies #[trigger] text::occurs(
            stream,
            pattern,
        ) by {
            let p = choose|p: int| text::occurs_at(rest, pattern, p);
            assert(rest.subrange(p, p + pattern.len()) =~= stream.subrange(
                end + gap + p,
                end + gap + p + pattern.len(),
            ));
            assert(text::occurs_at(stream, pattern, end + gap + p));
        }
        uniform_stream_is_steady(rest);
    }
}

/// A frame ends at the first two carriage-return line-feed pairs, wherever they
/// stand, and where there are none at the first two line feeds.
pub proof fn frames_end_at_blank_lines(buffer: Seq<u8>)
    ensures
        ({
            let crlf = "\r\n\r\n"@.map_values(|c: char| c as u8);
            let lf = "\n\n"@.map_values(|c: char| c as u8);
            match first_frame_end(buffer) {
                Some((end, gap)) => {
                    ||| {
                        &&& gap == 4
                        &&& text::occurs_at(buffer, crlf, end)
                        &&& forall|i: int| 0 <= i < end ==> !text::occurs_at(buffer, crlf, i)
                    }
                    ||| {
                        &&& gap == 2
                        &&& !text::occurs(buffer, crlf)
                        &&& text::occurs_at(buffer, lf, end)
                        &&& forall|i: int| 0 <= i < end ==> !text::occurs_at(buffer, lf, i)
                    }
                },
                None => !text::occurs(buffer, crlf) && !text::occurs(buffer, lf),
            }
        }),
{
    reveal_strlit("\r\n\r\n");
    reveal_strlit("\n\n");
    assert("\r\n\r\n"@.map_values(|c: char| c as u8) =~= crlf_gap());
    assert("\n\n"@.map_values(|c: char| c as u8) =~= lf_gap());
    text::position_is_first(buffer, crlf_gap(), 0);
    text::position_is_first(buffer, lf_gap(), 0);
}

proof fn first_gap_ends_frame(frame: Seq<u8>, gap: Seq<u8>, rest: Seq<u8>)
    requires
        gap.len() > 0,
        forall|i: int| 0 <= i < frame.len() ==> !text::occurs_at(frame + gap, gap, i),
    ensures
        text::position(frame + gap + rest, gap) == Some(frame.len() as int),
{
    let stream = frame + gap + rest;
    let n = frame.len() as int;
    assert(text::occurs_at(stream, gap, n)) by {
        assert(stream.subrange(n, n + gap.len()) =~= gap);
    }
    assert forall|j: int| 0 <= j < n implies !text::occurs_at(stream, gap, j) by {
        occurs_in_front(frame + gap, rest, gap, j);
    }
    text::position_passes(stream, gap, 0, n);
}

/// What stands in front of the first two carriage-return line-feed pairs is one
/// frame, and what follows them is taken apart on its own.
pub proof fn pairs_end_frames(frame: Seq<u8>, rest: Seq<u8>)
    requires
        forall|i: int|
            0 <= i < frame.len() ==> !text::occurs_at(
                frame + seq![13u8, 10u8, 13u8, 10u8],
                seq![13u8, 10u8, 13u8, 10u8],
                i,
            ),
    ensures
        frames(frame + seq![13u8, 10u8, 13u8, 10u8] + rest) == seq![frame] + frames(rest),
        unfinished(frame + seq![13u8, 10u8, 13u8, 10u8] + rest) == unfinished(rest),
{
    let stream = frame + crlf_gap() + rest;
    let n = frame.len() as int;
    first_gap_ends_frame(frame, crlf_gap(), rest);
    assert(first_frame_end(stream) == Some((n, 4int)));
    assert(stream.take(n) =~= frame);
    assert(stream.skip(n + 4) =~= rest);
}

/// In a stream without two carriage-return line-feed pairs, what stands in front of
/// the first two line feeds is one frame, and what follows them is taken apart on
/// its own.
pub proof fn line_feeds_end_frames(frame: Seq<u8>, rest: Seq<u8>)
    requires
        forall|i: int|
            0 <= i < frame.len() ==> !text::occurs_at(
                frame + seq![10u8, 10u8],
                seq![10u8, 10u8],
                i,
            ),
        !text::occurs(frame + seq![10u8, 10u8] + rest, seq![13u8, 10u8, 13u8, 10u8]),
    ensures
        frames(frame + seq![10u8, 10u8] + rest) == seq![frame] + frames(rest),
        unfinished(frame + seq![10u8, 10u8] + rest) == unfinished(rest),
{
    let stream = frame + lf_gap() + rest;
    let n = frame.len() as int;
    first_gap_ends_frame(frame, lf_gap(), rest);
    text::position_is_first(stream, crlf_gap(), 0);
    assert(first_frame_end(stream) == Some((n, 2int)));
    assert(stream.take(n) =~= frame);
    assert(stream.skip(n + 2) =~= rest);
}

/// Bytes without either delimiter hold no complete frame and are all left over.
pub proof fn bytes_without_delimiters_wait(buffer: Seq<u8>)
    requires
        !text::occurs(buffer, seq![10u8, 10u8]),
        !text::occurs(buffer, seq![13u8, 10u8, 13u8, 10u8]),
    ensures
        frames(buffer).len() == 0,
        unfinished(buffer) == buffer,
{
    text::position_is_first(buffer, crlf_gap(), 0);
    text::position_is_first(buffer, lf_gap(), 0);
}

proof fn absent_character(s: Seq<char>, c: char)
    requires
        !s.contains(c),
    ensures
        text::position(s, seq![c]) is None,
{
    let mark = seq![c];
    text::position_is_first(s, mark, 0);
    if let Some(p) = text::position(s, mark) {
        assert(s.subrange(p, p + 1)[0] == s[p]);
        assert(s[p] == c);
    }
}

proof fn first_character(front: Seq<char>, c: char, back: Seq<char>)
    requires
        !front.contains(c),
    ensures
        text::position(front + seq![c] + back, seq![c]) == Some(front.len() as int),
{
    let mark = seq![c];
    let s = front + mark + back;
    let n = front.len() as int;
    assert(s.subrange(n, n + 1) =~= mark);
    assert(text::occurs_at(s, mark, n));
    text::position_is_first(s, mark, 0);
    let p = text::position(s, mark)->0;
    if p < n {
        assert(s.subrange(p, p + 1)[0] == s[p]);
        assert(front[p] == c);
    }
}

/// Lines end in line feeds: each is what stands before one, without a carriage
/// return at its end, and a last one need not be ended.
pub proof fn lines_end_in_line_feeds(line: Seq<char>, rest: Seq<char>)
    requires
        !line.contains('\n'),
    ensures
        lines(Seq::empty()) == Seq::<Seq<char>>::empty(),
        line.len() > 0 ==> lines(line) == seq![line],
        line.len() == 0 || line.last() != '\r' ==> lines(line + seq!['\n'] + rest) == seq![line]
            + lines(rest),
        lines(line + seq!['\r', '\n'] + rest) == seq![line] + lines(rest),
{
    let none = Seq::<char>::empty();
    absent_character(none, '\n');
    absent_character(line, '\n');
    let plain = line + seq!['\n'] + rest;
    first_character(line, '\n', rest);
    assert(plain.take(line.len() as int) =~= line);
    assert(plain.skip(line.len() as int + 1) =~= rest);
    let ended = line.push('\r');
    assert(!ended.contains('\n')) by {
        if ended.contains('\n') {
            let k = choose|k: int| 0 <= k < ended.len() && ended[k] == '\n';
            assert(line[k] == '\n');
        }
    }
    let whole = line + seq!['\r', '\n'] + rest;
    assert(whole =~= ended + seq!['\n'] + rest);
    first_character(ended, '\n', rest);
    assert(whole.take(ended.len() as int) =~= ended);
    assert(whole.skip(ended.len() as int + 1) =~= rest);
    assert(ended.drop_last() =~= line);
}

/// A line gives the field before its first colon with the value behind it, one
/// space behind the colon and one carriage return at the end left out. A line
/// without a colon gives nothing.
pub proof fn fields_stand_before_colons(name: Seq<char>, value: Seq<char>)
    requires
        !name.contains(':'),
    ensures
        field_of(name) is None,
        value.len() == 0 || value.last() != '\r' ==> {
            &&& value.len() == 0 || value[0] != ' ' ==> field_of(name + seq![':'] + value) == Some(
                (name, value),
            )
            &&& field_of(name + seq![':', ' '] + value) == Some((name, value))
        },
        field_of(name + seq![':', ' '] + value + seq!['\r']) == Some((name, value)),
{
    assert(!without_cr(name).contains(':')) by {
        if without_cr(name).contains(':') {
            let k = choose|k: int| 0 <= k < without_cr(name).len() && without_cr(name)[k] == ':';
            assert(name[k] == ':');
        }
    }
    absent_character(without_cr(name), ':');
    let n = name.len() as int;
    let tight = name + seq![':'] + value;
    first_character(name, ':', value);
    assert(tight.take(n) =~= name);
    assert(tight.skip(n + 1) =~= value);
    let spaced = seq![' '] + value;
    let loose = name + seq![':', ' '] + value;
    assert(loose =~= name + seq![':'] + spaced);
    first_character(name, ':', spaced);
    assert(loose.take(n) =~= name);
    assert(loose.skip(n + 1) =~= spaced);
    assert(spaced.skip(1) =~= value);
    if value.len() == 0 || value.last() != '\r' {
        assert(tight.last() != '\r');
        assert(loose.last() != '\r');
    }
    let ended = loose + seq!['\r'];
    assert(ended.drop_last() =~= loose);
}

/// Of the fields of a name, the last one gives the event's name; all of them, in
/// their order, give the data.
pub proof fn later_fields_count(
    first: Seq<Seq<char>>,
    second: Seq<Seq<char>>,
    line: Seq<char>,
    name: Seq<char>,
    value: Seq<char>,
)
    ensures
        last_value(Seq::empty(), name) is None,
        all_values(Seq::empty(), name).len() == 0,
        field_of(line) == Some((name, value)) ==> last_value(seq![line], name) == Some(value)
            && all_values(seq![line], name) == seq![value],
        (field_of(line) matches Some((other, _)) ==> other != name) ==> last_value(
            seq![line],
            name,
        ) is None && all_values(seq![line], name).len() == 0,
        last_value(first + second, name) == match last_value(second, name) {
            Some(later) => Some(later),
            None => last_value(first, name),
        },
        all_values(first + second, name) == all_values(first, name) + all_values(second, name),
    decreases second.len(),
{
    assert(seq![line].drop_last() =~= seq![]);
    assert(all_values(seq![line].drop_last(), name) =~= seq![]);
    assert(last_value(seq![line].drop_last(), name) is None);
    assert(seq![line].last() == line);
    assert(Seq::<Seq<char>>::empty().push(value) =~= seq![value]);
    if second.len() == 0 {
        assert(first + second =~= first);
        assert(all_values(first, name) + all_values(second, name) =~= all_values(first, name));
    } else {
        later_fields_count(first, second.drop_last(), line, name, value);
        assert((first + second).drop_last() =~= first + second.drop_last());
        assert((first + second).last() == second.last());
        assert(all_values(first + second, name) =~= all_values(first, name) + all_values(
            second,
            name,
        ));
    }
}

/// A frame of a message event gives the event's name and its data; further data
/// lines are joined by line feeds.
pub proof fn message_frames_are_read(data: Seq<char>, more: Seq<char>)
    requires
        !data.contains('\n'),
        !more.contains('\n'),
        data.len() == 0 || data.last() != '\r',
        more.len() == 0 || more.last() != '\r',
    ensures
        fields_of_text("event: message\ndata: "@ + data) == (Some("message"@), data),
        fields_of_text("event: message\ndata: "@ + data + "\ndata: "@ + more) == (
            Some("message"@),
            data + seq!['\n'] + more,
        ),
{
    reveal_strlit("event: message\ndata: ");
    reveal_strlit("\ndata: ");
    reveal_strlit("event: message");
    reveal_strlit("message");
    reveal_strlit("event");
    reveal_strlit("data: ");
    reveal_strlit("data");
    reveal_strlit("\n");
    assert("\n"@ =~= seq!['\n']);
    let named = "event: message"@;
    assert(named =~= "event"@ + seq![':', ' '] + "message"@);
    assert("data: "@ =~= "data"@ + seq![':', ' ']);
    assert("event"@.len() == 5 && "data"@.len() == 4);
    let one = "data: "@ + data;
    let two = "data: "@ + more;
    assert(one =~= "data"@ + seq![':', ' '] + data);
    assert(two =~= "data"@ + seq![':', ' '] + more);
    assert(!"event"@.contains(':') && !"data"@.contains(':'));
    fields_stand_before_colons("event"@, "message"@);
    fields_stand_before_colons("data"@, data);
    fields_stand_before_colons("data"@, more);
    assert(!named.contains('\n'));
    assert(!one.contains('\n')) by {
        if one.contains('\n') {
            let k = choose|k: int| 0 <= k < one.len() && one[k] == '\n';
            assert(k >= 6 ==> data[k - 6] == '\n');
        }
    }
    assert(!two.contains('\n')) by {
        if two.contains('\n') {
            let k = choose|k: int| 0 <= k < two.len() && two[k] == '\n';
            assert(k >= 6 ==> more[k - 6] == '\n');
        }
    }
    let none = Seq::<char>::empty();
    let short = "event: message\ndata: "@ + data;
    let long = "event: message\ndata: "@ + data + "\ndata: "@ + more;
    assert(short =~= named + seq!['\n'] + one);
    let behind = one + seq!['\n'] + two;
    assert(long =~= named + seq!['\n'] + behind);
    lines_end_in_line_feeds(named, one);
    lines_end_in_line_feeds(named, behind);
    lines_end_in_line_feeds(one, two);
    lines_end_in_line_feeds(two, none);
    assert(one.len() > 0 && one.last() != '\r');
    assert(two.len() > 0 && two.last() != '\r');
    let (e, d) = ("event"@, "data"@);
    let nothing = Seq::<Seq<char>>::empty();
    later_fields_count(seq![named], seq![one], named, e, "message"@);
    later_fields_count(seq![named], seq![one], one, e, data);
    later_fields_count(seq![named], seq![one], named, d, data);
    later_fields_count(seq![named], seq![one], one, d, data);
    later_fields_count(seq![one], seq![two], two, d, more);
    later_fields_count(seq![one], seq![two], two, e, more);
    later_fields_count(seq![named], seq![one] + seq![two], named, d, data);
    later_fields_count(seq![named], seq![one] + seq![two], named, e, data);
    assert(nothing + seq![data] =~= seq![data]);
    assert(all_values(seq![named], d) =~= nothing);
    assert(lines(short) =~= seq![named] + seq![one]);
    assert(lines(long) =~= seq![named] + (seq![one] + seq![two]));
    assert(all_values(lines(short), d) =~= seq![data]);
    assert(all_values(lines(long), d) =~= seq![data, more]);
    text::joining_separates_parts(data, more, nothing, seq!['\n']);
    assert(seq![data, more] + nothing =~= seq![data, more]);
    assert(seq![more] + nothing =~= seq![more]);
    text::joining_separates_parts(more, more, nothing, seq!['\n']);
}

/// A frame is read exactly when it is UTF-8, as the fields of its text.
pub proof fn frames_are_text(frame: Seq<u8>)
    ensures
        vstd::utf8::valid_utf8(frame) ==> frame_fields(frame) == Ok::<_, ErrorModel>(
            fields_of_text(vstd::utf8::decode_utf8(frame)),
        ),
        !vstd::utf8::valid_utf8(frame) ==> frame_fields(frame) == Err::<
            (Option<Seq<char>>, Seq<char>),
            _,
        >(ErrorModel::Parse("invalid UTF-8 in Iris SSE frame: "@ + utf8_error(frame))),
{
}

} // verus!
