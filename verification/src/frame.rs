//! The line-framed wire format spoken over a worker's standard streams.
//!
//! The write side cuts a payload text into chunks of at most [`CHUNK_SIZE`]
//! bytes, never inside a character, and frames each one as a line. The read
//! side classifies the lines a worker prints and reassembles the result text
//! from its `RESULT_CHUNK:` lines.

use vstd::prelude::*;
use vstd::std_specs::iter::IteratorSpec;
use vstd::string::*;
use vstd::utf8::*;

verus! {

/// The largest number of payload bytes carried by one `PAYLOAD_CHUNK:` line.
pub const CHUNK_SIZE: usize = 1000;

/// The largest character boundary of `bytes` that is at most `limit`.
pub open spec fn floor_boundary(bytes: Seq<u8>, limit: int) -> int
    decreases limit,
{
    if limit <= 0 {
        0
    } else if is_char_boundary(bytes, limit) {
        limit
    } else {
        floor_boundary(bytes, limit - 1)
    }
}

/// The length in bytes of the first chunk cut from `bytes`: everything if it
/// fits, else as much as fits without cutting a character.
pub open spec fn first_chunk_len(bytes: Seq<u8>) -> int {
    if bytes.len() <= CHUNK_SIZE {
        floor_boundary(bytes, bytes.len() as int)
    } else {
        floor_boundary(bytes, CHUNK_SIZE as int)
    }
}

/// The chunks that `bytes` is cut into, in order: the first chunk, then the
/// chunks of what is left. (Text that is not valid UTF-8 may have no
/// boundary to cut at; it is then left whole.)
pub open spec fn split_bytes(bytes: Seq<u8>) -> Seq<Seq<u8>>
    decreases bytes.len(),
{
    let k = first_chunk_len(bytes);
    if bytes.len() == 0 {
        Seq::empty()
    } else if 0 < k <= bytes.len() {
        seq![bytes.subrange(0, k)] + split_bytes(bytes.subrange(k, bytes.len() as int))
    } else {
        seq![bytes]
    }
}

/// The chunks that a payload text is cut into, as texts.
pub open spec fn chunks_of(text: Seq<char>) -> Seq<Seq<char>> {
    split_bytes(encode_utf8(text)).map_values(|b: Seq<u8>| decode_utf8(b))
}

/// The views of a sequence of strings.
pub open spec fn texts(strings: Seq<String>) -> Seq<Seq<char>> {
    strings.map_values(|s: String| s@)
}

/// The UTF-8 encodings of a sequence of strings.
pub open spec fn encodings(strings: Seq<String>) -> Seq<Seq<u8>> {
    strings.map_values(|s: String| encode_utf8(s@))
}

/// `floor_boundary` never exceeds its limit, and is a boundary of valid text.
pub proof fn lemma_floor_boundary(bytes: Seq<u8>, limit: int)
    requires
        valid_utf8(bytes),
    ensures
        floor_boundary(bytes, limit) <= limit || limit < 0,
        0 <= floor_boundary(bytes, limit),
        is_char_boundary(bytes, floor_boundary(bytes, limit)),
    decreases limit,
{
    if limit <= 0 {
    } else if is_char_boundary(bytes, limit) {
    } else {
        lemma_floor_boundary(bytes, limit - 1);
    }
}

/// `floor_boundary` is at least every boundary below its limit.
pub proof fn lemma_floor_boundary_is_largest(bytes: Seq<u8>, limit: int, j: int)
    requires
        0 <= j <= limit,
        is_char_boundary(bytes, j),
    ensures
        j <= floor_boundary(bytes, limit),
    decreases limit,
{
    if limit <= 0 {
    } else if is_char_boundary(bytes, limit) {
    } else {
        lemma_floor_boundary_is_largest(bytes, limit - 1, j);
    }
}

/// In valid UTF-8 every window of four consecutive positions holds a character
/// boundary, since no character is longer than four bytes.
pub proof fn lemma_boundary_within_three(bytes: Seq<u8>, i: int)
    requires
        valid_utf8(bytes),
        3 <= i <= bytes.len(),
    ensures
        exists|j: int| i - 3 <= j <= i && is_char_boundary(bytes, j),
    decreases bytes.len(),
{
    let first = length_of_first_scalar(bytes);
    let rest = pop_first_scalar(bytes);
    assert(1 <= first <= 4 && first <= bytes.len());
    assert(is_char_boundary(bytes, 0));
    if i == 3 {
        assert(i - 3 <= 0 <= i && is_char_boundary(bytes, 0));
    } else if i - first >= 3 {
        lemma_boundary_within_three(rest, i - first);
        let j = choose|j: int| i - first - 3 <= j <= i - first && is_char_boundary(rest, j);
        assert(is_char_boundary(bytes, j + first)) by {
            reveal_with_fuel(is_char_boundary, 2);
        }
        assert(i - 3 <= j + first <= i);
    } else {
        assert(is_char_boundary(rest, 0));
        assert(is_char_boundary(bytes, first)) by {
            reveal_with_fuel(is_char_boundary, 2);
        }
        assert(i - 3 <= first <= i);
    }
}

/// The first chunk of a non-empty valid text is non-empty, at most
/// `CHUNK_SIZE` bytes long, and ends on a character boundary.
pub proof fn lemma_first_chunk_len(bytes: Seq<u8>)
    requires
        valid_utf8(bytes),
        bytes.len() > 0,
    ensures
        0 < first_chunk_len(bytes) <= bytes.len(),
        first_chunk_len(bytes) <= CHUNK_SIZE,
        is_char_boundary(bytes, first_chunk_len(bytes)),
        bytes.len() <= CHUNK_SIZE ==> first_chunk_len(bytes) == bytes.len(),
        bytes.len() > CHUNK_SIZE ==> first_chunk_len(bytes) >= CHUNK_SIZE - 3,
{
    if bytes.len() <= CHUNK_SIZE {
        is_char_boundary_start_end_of_seq(bytes);
        lemma_floor_boundary(bytes, bytes.len() as int);
    } else {
        lemma_floor_boundary(bytes, CHUNK_SIZE as int);
        lemma_boundary_within_three(bytes, CHUNK_SIZE as int);
        let j = choose|j: int| CHUNK_SIZE - 3 <= j <= CHUNK_SIZE && is_char_boundary(bytes, j);
        lemma_floor_boundary_is_largest(bytes, CHUNK_SIZE as int, j);
    }
}

/// Cutting a text into chunks and joining them again gives the text back.
pub proof fn lemma_split_bytes_concat(bytes: Seq<u8>)
    ensures
        split_bytes(bytes).flatten() == bytes,
    decreases bytes.len(),
{
    let k = first_chunk_len(bytes);
    if bytes.len() == 0 {
        assert(split_bytes(bytes).flatten() =~= bytes);
    } else if 0 < k <= bytes.len() {
        let head = bytes.subrange(0, k);
        let tail = bytes.subrange(k, bytes.len() as int);
        lemma_split_bytes_concat(tail);
        let rest = split_bytes(tail);
        assert((seq![head] + rest).drop_first() =~= rest);
        assert(split_bytes(bytes).flatten() =~= head + rest.flatten());
        assert(head + tail =~= bytes);
    } else {
        assert(seq![bytes].drop_first() =~= Seq::<Seq<u8>>::empty());
        assert(seq![bytes].flatten() =~= bytes + Seq::<Seq<u8>>::empty().flatten());
        assert(seq![bytes].flatten() =~= bytes);
    }
}

/// Every chunk of a valid text is itself valid text, non-empty and at most
/// `CHUNK_SIZE` bytes long.
pub proof fn lemma_split_bytes_bounded(bytes: Seq<u8>, i: int)
    requires
        valid_utf8(bytes),
        0 <= i < split_bytes(bytes).len(),
    ensures
        valid_utf8(split_bytes(bytes)[i]),
        0 < split_bytes(bytes)[i].len() <= CHUNK_SIZE,
    decreases bytes.len(),
{
    lemma_first_chunk_len(bytes);
    let k = first_chunk_len(bytes);
    valid_utf8_split(bytes, k);
    if i > 0 {
        lemma_split_bytes_bounded(bytes.subrange(k, bytes.len() as int), i - 1);
    }
}

/// The number of bytes in a sequence of chunks.
pub open spec fn total_len(chunks: Seq<Seq<u8>>) -> nat
    decreases chunks.len(),
{
    if chunks.len() == 0 {
        0
    } else {
        chunks[0].len() + total_len(chunks.drop_first())
    }
}

/// The chunks of a text hold as many bytes as the text.
pub proof fn lemma_split_bytes_total(bytes: Seq<u8>)
    ensures
        total_len(split_bytes(bytes)) == bytes.len(),
    decreases bytes.len(),
{
    let k = first_chunk_len(bytes);
    if bytes.len() == 0 {
    } else if 0 < k <= bytes.len() {
        let tail = bytes.subrange(k, bytes.len() as int);
        lemma_split_bytes_total(tail);
        assert(split_bytes(bytes).drop_first() =~= split_bytes(tail));
    } else {
        assert(seq![bytes].drop_first() =~= Seq::<Seq<u8>>::empty());
        assert(total_len(Seq::<Seq<u8>>::empty()) == 0);
    }
}

/// Decoding the chunks of a valid text one by one, and joining what comes
/// out, decodes the text.
pub proof fn lemma_split_bytes_decode(bytes: Seq<u8>)
    requires
        valid_utf8(bytes),
    ensures
        split_bytes(bytes).map_values(|b: Seq<u8>| decode_utf8(b)).flatten() == decode_utf8(bytes),
    decreases bytes.len(),
{
    let decoded = split_bytes(bytes).map_values(|b: Seq<u8>| decode_utf8(b));
    if bytes.len() == 0 {
        assert(decoded.flatten() =~= decode_utf8(bytes));
    } else {
        lemma_first_chunk_len(bytes);
        let k = first_chunk_len(bytes);
        let head = bytes.subrange(0, k);
        let tail = bytes.subrange(k, bytes.len() as int);
        valid_utf8_split(bytes, k);
        decode_utf8_split(bytes, k);
        lemma_split_bytes_decode(tail);
        let rest = split_bytes(tail).map_values(|b: Seq<u8>| decode_utf8(b));
        assert(decoded =~= seq![decode_utf8(head)] + rest);
        assert(decoded.drop_first() =~= rest);
        assert(decoded.flatten() =~= decode_utf8(head) + rest.flatten());
    }
}

/// In valid text, the end of the character that begins at a boundary is a
/// boundary.
pub proof fn lemma_next_boundary(bytes: Seq<u8>, k: int)
    requires
        valid_utf8(bytes),
        is_char_boundary(bytes, k),
        0 <= k < bytes.len(),
    ensures
        valid_first_scalar(bytes.subrange(k, bytes.len() as int)),
        is_char_boundary(
            bytes,
            k + length_of_first_scalar(bytes.subrange(k, bytes.len() as int)),
        ),
{
    let tail = bytes.subrange(k, bytes.len() as int);
    valid_utf8_split(bytes, k);
    let first = length_of_first_scalar(tail);
    let next = k + first;
    assert(valid_first_scalar(tail));
    assert(1 <= first <= tail.len());
    if next == bytes.len() {
        is_char_boundary_start_end_of_seq(bytes);
    } else {
        let rest = pop_first_scalar(tail);
        assert(valid_utf8(rest));
        assert(rest.len() > 0);
        assert(valid_first_scalar(rest));
        assert(rest[0] == bytes[next]);
        assert(!is_continuation_byte(rest[0]));
        is_char_boundary_iff_not_is_continuation_byte(bytes, next);
    }
}

/// A chunk that is not the last one is as long as it can be: the character
/// that follows it would not have fitted.
pub proof fn lemma_split_bytes_greedy(bytes: Seq<u8>, i: int)
    requires
        valid_utf8(bytes),
        0 <= i < split_bytes(bytes).len() - 1,
    ensures
        split_bytes(bytes)[i].len() + length_of_first_scalar(split_bytes(bytes)[i + 1])
            > CHUNK_SIZE,
    decreases bytes.len(),
{
    lemma_first_chunk_len(bytes);
    let k = first_chunk_len(bytes);
    let tail = bytes.subrange(k, bytes.len() as int);
    valid_utf8_split(bytes, k);
    assert(split_bytes(bytes) == seq![bytes.subrange(0, k)] + split_bytes(tail));
    if i > 0 {
        lemma_split_bytes_greedy(tail, i - 1);
    } else {
        assert(tail.len() > 0);
        assert(bytes.len() > CHUNK_SIZE);
        lemma_first_chunk_len(tail);
        let next = first_chunk_len(tail);
        let following = split_bytes(tail)[0];
        assert(following == tail.subrange(0, next));
        lemma_next_boundary(bytes, k);
        let first = length_of_first_scalar(tail);
        assert(valid_first_scalar(tail));
        lemma_next_boundary(tail, 0);
        assert(tail.subrange(0, tail.len() as int) =~= tail);
        lemma_floor_boundary_is_largest(
            tail,
            if tail.len() <= CHUNK_SIZE {
                tail.len() as int
            } else {
                CHUNK_SIZE as int
            },
            first,
        );
        assert(first <= next);
        assert(length_of_first_scalar(following) == first);
        if k + first <= CHUNK_SIZE {
            lemma_floor_boundary_is_largest(bytes, CHUNK_SIZE as int, k + first);
        }
    }
}

/// The chunks of a payload text, joined, are the text; they hold as many
/// bytes as the text; each of them is non-empty and at most `CHUNK_SIZE`
/// bytes long; and each but the last is as long as it can be: together with
/// the character that follows it, it would be too long.
pub proof fn lemma_chunks_cover(text: Seq<char>)
    ensures
        chunks_of(text).flatten() == text,
        total_len(chunks_of(text).map_values(|chunk: Seq<char>| encode_utf8(chunk)))
            == encode_utf8(text).len(),
        forall|i: int|
            0 <= i < chunks_of(text).len() ==> 0 < encode_utf8(#[trigger] chunks_of(text)[i]).len()
                <= CHUNK_SIZE,
        forall|i: int|
            0 <= i < chunks_of(text).len() - 1 ==> encode_utf8(#[trigger] chunks_of(text)[i]).len()
                + encode_utf8(seq![chunks_of(text)[i + 1][0]]).len() > CHUNK_SIZE,
{
    let bytes = encode_utf8(text);
    encode_utf8_valid_utf8(text);
    encode_utf8_decode_utf8(text);
    lemma_split_bytes_decode(bytes);
    lemma_split_bytes_total(bytes);
    let encoded = chunks_of(text).map_values(|chunk: Seq<char>| encode_utf8(chunk));
    assert forall|i: int| 0 <= i < chunks_of(text).len() implies encode_utf8(
        #[trigger] chunks_of(text)[i],
    ) == split_bytes(bytes)[i] && 0 < split_bytes(bytes)[i].len() <= CHUNK_SIZE by {
        lemma_split_bytes_bounded(bytes, i);
        decode_utf8_encode_utf8(split_bytes(bytes)[i]);
    }
    assert(encoded =~= split_bytes(bytes));
    assert forall|i: int| 0 <= i < chunks_of(text).len() - 1 implies encode_utf8(
        #[trigger] chunks_of(text)[i],
    ).len() + encode_utf8(seq![chunks_of(text)[i + 1][0]]).len() > CHUNK_SIZE by {
        lemma_split_bytes_greedy(bytes, i);
        let following = chunks_of(text)[i + 1];
        assert(encode_utf8(following) == split_bytes(bytes)[i + 1]);
        encode_utf8_first_scalar(following);
        reveal_with_fuel(encode_utf8, 2);
        assert(seq![following[0]].drop_first() =~= Seq::<char>::empty());
        assert(encode_utf8(seq![following[0]]) =~= encode_scalar(following[0] as u32));
    }
}

/// Cuts a payload text into the chunks that are sent one per line.
pub fn chunk_payload(text: &str) -> (chunks: Vec<String>)
    ensures
        texts(chunks@) == chunks_of(text@),
{
    let mut chunks: Vec<String> = Vec::new();
    let mut rest: &str = text;
    proof {
        encode_utf8_valid_utf8(text@);
        assert(encodings(chunks@) + split_bytes(rest.spec_bytes()) =~= split_bytes(
            text.spec_bytes(),
        ));
    }
    while rest.as_bytes().len() > 0
        invariant
            encodings(chunks@) + split_bytes(rest.spec_bytes()) == split_bytes(text.spec_bytes()),
        decreases rest.spec_bytes().len(),
    {
        let ghost bytes = rest.spec_bytes();
        proof {
            encode_utf8_valid_utf8(rest@);
            lemma_first_chunk_len(bytes);
        }
        let len = rest.as_bytes().len();
        let mut k: usize = if len <= CHUNK_SIZE {
            len
        } else {
            CHUNK_SIZE
        };
        while !rest.is_char_boundary(k)
            invariant
                bytes == rest.spec_bytes(),
                valid_utf8(bytes),
                0 <= k <= bytes.len(),
                floor_boundary(bytes, k as int) == first_chunk_len(bytes),
            decreases k,
        {
            k = k - 1;
        }
        let (head, tail) = rest.split_at(k);
        let ghost before = chunks@;
        chunks.push(head.to_owned());
        proof {
            let piece = bytes.subrange(0, k as int);
            assert(encodings(chunks@) =~= encodings(before) + seq![piece]);
            assert(split_bytes(bytes) == seq![piece] + split_bytes(tail.spec_bytes()));
            assert(encodings(chunks@) + split_bytes(tail.spec_bytes()) =~= encodings(before)
                + split_bytes(bytes));
        }
        rest = tail;
    }
    proof {
        let bytes = text.spec_bytes();
        assert(split_bytes(rest.spec_bytes()) =~= Seq::<Seq<u8>>::empty());
        assert(encodings(chunks@) =~= split_bytes(bytes));
        assert forall|i: int| 0 <= i < chunks@.len() implies #[trigger] texts(chunks@)[i]
            == chunks_of(text@)[i] by {
            encode_utf8_decode_utf8(chunks@[i]@);
            assert(encodings(chunks@)[i] == encode_utf8(chunks@[i]@));
        }
        assert(texts(chunks@) =~= chunks_of(text@));
    }
    chunks
}

/// A whole-line literal that ends one wait for the worker.
#[derive(Clone, Copy, Debug, PartialEq, Eq, Structural)]
pub enum Sentinel {
    /// `READY`: printed once, after the worker has started.
    Ready,
    /// `PAYLOAD_OK`: the payload text has been received and parsed.
    PayloadOk,
    /// `OK`: the task has finished.
    TaskOk,
}

impl Sentinel {
    /// The literal as it stands on the wire, without its line end.
    pub open spec fn text(self) -> Seq<char> {
        match self {
            Sentinel::Ready => "READY"@,
            Sentinel::PayloadOk => "PAYLOAD_OK"@,
            Sentinel::TaskOk => "OK"@,
        }
    }

    /// The literal as it stands on the wire, without its line end.
    pub fn as_str(&self) -> (s: &'static str)
        ensures
            s@ == self.text(),
    {
        match self {
            Sentinel::Ready => "READY",
            Sentinel::PayloadOk => "PAYLOAD_OK",
            Sentinel::TaskOk => "OK",
        }
    }
}

/// The prefix of a line that carries one slice of the result text.
pub open spec fn result_prefix() -> Seq<char> {
    "RESULT_CHUNK:"@
}

/// The end of every line on the wire.
pub open spec fn line_end() -> Seq<char> {
    "\n"@
}

/// Whether `c` has the Unicode property `White_Space`.
pub open spec fn is_whitespace(c: char) -> bool {
    let u = c as u32;
    ||| 0x09 <= u <= 0x0d
    ||| u == 0x20
    ||| u == 0x85
    ||| u == 0xa0
    ||| u == 0x1680
    ||| 0x2000 <= u <= 0x200a
    ||| u == 0x2028
    ||| u == 0x2029
    ||| u == 0x202f
    ||| u == 0x205f
    ||| u == 0x3000
}

/// Whether `s` holds nothing but whitespace.
pub open spec fn is_blank(s: Seq<char>) -> bool {
    forall|i: int| 0 <= i < s.len() ==> is_whitespace(#[trigger] s[i])
}

/// `s` without its leading whitespace.
pub open spec fn trim_start(s: Seq<char>) -> Seq<char>
    decreases s.len(),
{
    if s.len() > 0 && is_whitespace(s[0]) {
        trim_start(s.drop_first())
    } else {
        s
    }
}

/// `s` without its trailing whitespace.
pub open spec fn trim_end(s: Seq<char>) -> Seq<char>
    decreases s.len(),
{
    if s.len() > 0 && is_whitespace(s.last()) {
        trim_end(s.drop_last())
    } else {
        s
    }
}

/// `s` without its leading and trailing whitespace.
pub open spec fn trim(s: Seq<char>) -> Seq<char> {
    trim_end(trim_start(s))
}

/// What one line printed by the worker means to a reader that waits for a
/// sentinel.
#[derive(Clone, Debug, PartialEq, Eq)]
pub enum LineKind {
    /// Nothing but whitespace: skipped.
    Blank,
    /// Exactly the awaited sentinel: the wait is over.
    Sentinel,
    /// One slice of the result text, already stripped and trimmed.
    ResultChunk(String),
    /// Anything else: informational output of the worker.
    Trace,
}

/// The mathematical model of a [`LineKind`].
pub enum LineKindView {
    Blank,
    Sentinel,
    ResultChunk(Seq<char>),
    Trace,
}

impl View for LineKind {
    type V = LineKindView;

    open spec fn view(&self) -> LineKindView {
        match self {
            LineKind::Blank => LineKindView::Blank,
            LineKind::Sentinel => LineKindView::Sentinel,
            LineKind::ResultChunk(text) => LineKindView::ResultChunk(text@),
            LineKind::Trace => LineKindView::Trace,
        }
    }
}

/// What the line `line`, line end included, means while waiting for `wait`.
pub open spec fn classify(line: Seq<char>, wait: Sentinel) -> LineKindView {
    if is_blank(line) {
        LineKindView::Blank
    } else if line == wait.text() + line_end() {
        LineKindView::Sentinel
    } else if result_prefix().is_prefix_of(line) {
        LineKindView::ResultChunk(trim(line.skip(result_prefix().len() as int)))
    } else {
        LineKindView::Trace
    }
}

/// Whether `c` has the Unicode property `White_Space`.
pub fn is_whitespace_char(c: char) -> (b: bool)
    ensures
        b == is_whitespace(c),
{
    let u: u32 = c as u32;
    (0x09 <= u && u <= 0x0d) || u == 0x20 || u == 0x85 || u == 0xa0 || u == 0x1680 || (0x2000 <= u
        && u <= 0x200a) || u == 0x2028 || u == 0x2029 || u == 0x202f || u == 0x205f || u == 0x3000
}

/// The characters of `s`.
pub fn chars_of(s: &str) -> (chars: Vec<char>)
    ensures
        chars@ == s@,
{
    let mut chars: Vec<char> = Vec::new();
    let start = s.chars();
    for c in it: start
        invariant
            chars@ == it.seq().take(it.index() as int),
            it.seq() == s@,
    {
        chars.push(c);
    }
    chars
}

/// Whether `chars` holds nothing but whitespace.
pub fn is_blank_chars(chars: &Vec<char>) -> (b: bool)
    ensures
        b == is_blank(chars@),
{
    let mut i: usize = 0;
    while i < chars.len()
        invariant
            i <= chars.len(),
            forall|j: int| 0 <= j < i ==> is_whitespace(#[trigger] chars@[j]),
        decreases chars.len() - i,
    {
        if !is_whitespace_char(chars[i]) {
            return false;
        }
        i = i + 1;
    }
    true
}

/// Whether `chars` begins with `prefix`.
pub fn starts_with_chars(chars: &Vec<char>, prefix: &Vec<char>) -> (b: bool)
    ensures
        b == prefix@.is_prefix_of(chars@),
{
    if chars.len() < prefix.len() {
        return false;
    }
    let mut i: usize = 0;
    while i < prefix.len()
        invariant
            i <= prefix.len() <= chars.len(),
            forall|j: int| 0 <= j < i ==> chars@[j] == prefix@[j],
        decreases prefix.len() - i,
    {
        if chars[i] != prefix[i] {
            assert(chars@.subrange(0, prefix@.len() as int)[i as int] != prefix@[i as int]);
            return false;
        }
        i = i + 1;
    }
    assert(chars@.subrange(0, prefix@.len() as int) =~= prefix@);
    true
}

/// The bounds of `chars[from..]` without its leading and trailing
/// whitespace.
pub fn trim_bounds(chars: &Vec<char>, from: usize) -> (bounds: (usize, usize))
    requires
        from <= chars.len(),
    ensures
        from <= bounds.0 <= bounds.1 <= chars.len(),
        chars@.subrange(bounds.0 as int, bounds.1 as int) == trim(chars@.skip(from as int)),
{
    let ghost whole = chars@.skip(from as int);
    let mut start: usize = from;
    while start < chars.len() && is_whitespace_char(chars[start])
        invariant
            from <= start <= chars.len(),
            trim_start(whole) == trim_start(chars@.skip(start as int)),
        decreases chars.len() - start,
    {
        assert(chars@.skip(start as int).drop_first() =~= chars@.skip(start + 1));
        start = start + 1;
    }
    let ghost front = chars@.skip(start as int);
    assert(trim_start(whole) == front);
    let mut end: usize = chars.len();
    assert(chars@.subrange(start as int, end as int) =~= front);
    while end > start && is_whitespace_char(chars[end - 1])
        invariant
            start <= end <= chars.len(),
            trim_end(front) == trim_end(chars@.subrange(start as int, end as int)),
        decreases end - start,
    {
        assert(chars@.subrange(start as int, end as int).drop_last() =~= chars@.subrange(
            start as int,
            end - 1,
        ));
        end = end - 1;
    }
    (start, end)
}

/// Classifies one line printed by the worker, line end included, for a
/// reader that waits for `wait`.
pub fn classify_line(line: &str, wait: Sentinel) -> (kind: LineKind)
    ensures
        kind@ == classify(line@, wait),
{
    let chars = chars_of(line);
    if is_blank_chars(&chars) {
        return LineKind::Blank;
    }
    let mut expected = String::from_str(wait.as_str());
    expected.append("\n");
    if line.to_owned() == expected {
        return LineKind::Sentinel;
    }
    let prefix = chars_of("RESULT_CHUNK:");
    if starts_with_chars(&chars, &prefix) {
        let (start, end) = trim_bounds(&chars, prefix.len());
        let text = line.substring_char(start, end);
        return LineKind::ResultChunk(text.to_owned());
    }
    LineKind::Trace
}

/// Whether `s` neither begins nor ends with whitespace.
pub open spec fn is_tight(s: Seq<char>) -> bool {
    s.len() == 0 || (!is_whitespace(s[0]) && !is_whitespace(s.last()))
}

/// Leading whitespace does not survive `trim_start`.
pub proof fn lemma_trim_start_padded(pad: Seq<char>, rest: Seq<char>)
    requires
        is_blank(pad),
    ensures
        trim_start(pad + rest) == trim_start(rest),
    decreases pad.len(),
{
    if pad.len() == 0 {
        assert(pad + rest =~= rest);
    } else {
        assert((pad + rest)[0] == pad[0]);
        assert((pad + rest).drop_first() =~= pad.drop_first() + rest);
        lemma_trim_start_padded(pad.drop_first(), rest);
    }
}

/// Trailing whitespace does not survive `trim_end`.
pub proof fn lemma_trim_end_padded(rest: Seq<char>, pad: Seq<char>)
    requires
        is_blank(pad),
    ensures
        trim_end(rest + pad) == trim_end(rest),
    decreases pad.len(),
{
    if pad.len() == 0 {
        assert(rest + pad =~= rest);
    } else {
        assert((rest + pad).last() == pad.last());
        assert((rest + pad).drop_last() =~= rest + pad.drop_last());
        lemma_trim_end_padded(rest, pad.drop_last());
    }
}

/// Trimming gives a text back from between any whitespace, if the text
/// itself neither begins nor ends with whitespace.
pub proof fn lemma_trim_padded(before: Seq<char>, piece: Seq<char>, after: Seq<char>)
    requires
        is_blank(before),
        is_blank(after),
        is_tight(piece),
    ensures
        trim(before + piece + after) == piece,
{
    assert(before + piece + after =~= before + (piece + after));
    lemma_trim_start_padded(before, piece + after);
    if piece.len() == 0 {
        assert(piece + after =~= after);
        lemma_trim_start_padded(after, Seq::empty());
        assert(after + Seq::<char>::empty() =~= after);
    } else {
        assert((piece + after)[0] == piece[0]);
        lemma_trim_end_padded(piece, after);
    }
}

/// A line that begins with the result prefix is read as a result chunk,
/// whatever follows the prefix and whatever sentinel is awaited: no result
/// text can end a wait, even if it holds a sentinel.
pub proof fn lemma_result_chunk_is_no_sentinel(line: Seq<char>, wait: Sentinel)
    requires
        result_prefix().is_prefix_of(line),
    ensures
        classify(line, wait) == LineKindView::ResultChunk(
            trim(line.skip(result_prefix().len() as int)),
        ),
{
    reveal_strlit("RESULT_CHUNK:");
    reveal_strlit("READY");
    reveal_strlit("PAYLOAD_OK");
    reveal_strlit("OK");
    let head = line.subrange(0, result_prefix().len() as int);
    assert(head == result_prefix());
    assert(line[0] == head[0] && line[2] == head[2]);
    assert(!is_whitespace(line[0]));
    assert((wait.text() + line_end())[0] != 'R' || (wait.text() + line_end())[2] != 'S');
}

/// A line made of the result prefix, whitespace, a piece of text that
/// neither begins nor ends with whitespace, and whitespace again is read as
/// a result chunk that holds exactly the piece, whatever sentinel is
/// awaited.
pub proof fn lemma_classify_result_line(
    before: Seq<char>,
    piece: Seq<char>,
    after: Seq<char>,
    wait: Sentinel,
)
    requires
        is_blank(before),
        is_blank(after),
        is_tight(piece),
    ensures
        classify(result_prefix() + before + piece + after, wait) == LineKindView::ResultChunk(
            piece,
        ),
{
    let line = result_prefix() + before + piece + after;
    assert(line.subrange(0, result_prefix().len() as int) =~= result_prefix());
    assert(line.skip(result_prefix().len() as int) =~= before + piece + after);
    lemma_result_chunk_is_no_sentinel(line, wait);
    lemma_trim_padded(before, piece, after);
}

/// The line that ends a wait is read as the sentinel.
pub proof fn lemma_classify_sentinel(wait: Sentinel)
    ensures
        classify(wait.text() + line_end(), wait) == LineKindView::Sentinel,
{
    reveal_strlit("READY");
    reveal_strlit("PAYLOAD_OK");
    reveal_strlit("OK");
    let line = wait.text() + line_end();
    assert(!is_whitespace(line[0]));
}

/// The result text that a reader has gathered from `lines`, none of which
/// ended its wait for `wait`.
pub open spec fn gathered(lines: Seq<Seq<char>>, wait: Sentinel) -> Seq<char>
    decreases lines.len(),
{
    if lines.len() == 0 {
        Seq::empty()
    } else {
        gathered(lines.drop_last(), wait) + (match classify(lines.last(), wait) {
            LineKindView::ResultChunk(text) => text,
            _ => Seq::empty(),
        })
    }
}

/// The line in which a worker sends one piece of its result text.
pub open spec fn result_line(piece: Seq<char>) -> Seq<char> {
    result_prefix() + " "@ + piece + line_end()
}

/// A result text that is sent piece by piece, one `RESULT_CHUNK:` line
/// each, comes out whole on the reading side, if no piece begins or ends
/// with whitespace.
pub proof fn lemma_gathered_result_lines(pieces: Seq<Seq<char>>, wait: Sentinel)
    requires
        forall|i: int| 0 <= i < pieces.len() ==> is_tight(#[trigger] pieces[i]),
    ensures
        gathered(pieces.map_values(|piece: Seq<char>| result_line(piece)), wait)
            == pieces.flatten(),
        forall|i: int|
            0 <= i < pieces.len() ==> classify(result_line(#[trigger] pieces[i]), wait)
                == LineKindView::ResultChunk(pieces[i]),
    decreases pieces.len(),
{
    let lines = pieces.map_values(|piece: Seq<char>| result_line(piece));
    reveal_strlit(" ");
    reveal_strlit("\n");
    assert forall|i: int| 0 <= i < pieces.len() implies classify(
        result_line(#[trigger] pieces[i]),
        wait,
    ) == LineKindView::ResultChunk(pieces[i]) by {
        lemma_classify_result_line(" "@, pieces[i], line_end(), wait);
    }
    if pieces.len() == 0 {
        assert(pieces.flatten() =~= Seq::<char>::empty());
    } else {
        lemma_gathered_result_lines(pieces.drop_last(), wait);
        assert(lines.drop_last() =~= pieces.drop_last().map_values(
            |piece: Seq<char>| result_line(piece),
        ));
        assert(lines.last() == result_line(pieces.last()));
        pieces.drop_last().lemma_flatten_push(pieces.last());
        assert(pieces.drop_last().push(pieces.last()) =~= pieces);
    }
}

} // verus!
