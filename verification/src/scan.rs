//! Byte classes, runs of bytes and decimal numerals: the vocabulary in which
//! the lexer is specified.

use vstd::prelude::*;
use vstd::utf8::*;

verus! {

/// The byte `"`, which opens and closes a string literal.
pub const QUOTE: u8 = 0x22;

/// A set of bytes that a run is made of.
#[derive(Clone, Copy, Debug, PartialEq, Eq, Structural)]
pub enum ByteClass {
    /// Space, tab, line feed, form feed and carriage return.
    Space,
    /// `A` to `Z` and `a` to `z`.
    Letter,
    /// `0` to `9`.
    Digit,
    /// Everything but `"`.
    StringBody,
}

impl ByteClass {
    /// The byte `b` belongs to the class.
    pub open spec fn has(self, b: u8) -> bool {
        match self {
            ByteClass::Space => b == 0x20 || b == 0x09 || b == 0x0a || b == 0x0c || b == 0x0d,
            ByteClass::Letter => (0x41 <= b <= 0x5a) || (0x61 <= b <= 0x7a),
            ByteClass::Digit => 0x30 <= b <= 0x39,
            ByteClass::StringBody => b != QUOTE,
        }
    }

    /// Whether `b` belongs to the class.
    pub fn contains(self, b: u8) -> (yes: bool)
        ensures
            yes == self.has(b),
    {
        match self {
            ByteClass::Space => b == 0x20 || b == 0x09 || b == 0x0a || b == 0x0c || b == 0x0d,
            ByteClass::Letter => (0x41 <= b && b <= 0x5a) || (0x61 <= b && b <= 0x7a),
            ByteClass::Digit => 0x30 <= b && b <= 0x39,
            ByteClass::StringBody => b != QUOTE,
        }
    }
}

/// Where the maximal run of `class` bytes that starts at `from` ends: the
/// first offset at or after `from` whose byte is outside `class`, or the
/// length of `src` if there is none.
pub open spec fn run_end(src: Seq<u8>, from: int, class: ByteClass) -> int
    decreases src.len() - from,
{
    if 0 <= from < src.len() && class.has(src[from]) {
        run_end(src, from + 1, class)
    } else {
        from
    }
}

/// A run ends inside the source, consists of bytes of its class, and stops
/// at a byte outside the class.
pub proof fn lemma_run_end(src: Seq<u8>, from: int, class: ByteClass)
    requires
        0 <= from <= src.len(),
    ensures
        from <= run_end(src, from, class) <= src.len(),
        forall|k: int| from <= k < run_end(src, from, class) ==> class.has(#[trigger] src[k]),
        run_end(src, from, class) < src.len() ==> !class.has(src[run_end(src, from, class)]),
    decreases src.len() - from,
{
    if from < src.len() && class.has(src[from]) {
        lemma_run_end(src, from + 1, class);
    }
}

/// A run that is entered in its middle ends where the whole run ends.
pub proof fn lemma_run_end_from_inside(src: Seq<u8>, from: int, mid: int, class: ByteClass)
    requires
        0 <= from <= mid <= src.len(),
        forall|k: int| from <= k < mid ==> class.has(#[trigger] src[k]),
    ensures
        run_end(src, from, class) == run_end(src, mid, class),
    decreases mid - from,
{
    if from < mid {
        lemma_run_end_from_inside(src, from + 1, mid, class);
    }
}

/// Scans the maximal run of `class` bytes that starts at `from`.
pub fn scan_run(source: &[u8], from: usize, class: ByteClass) -> (end: usize)
    requires
        from <= source.len(),
    ensures
        end == run_end(source@, from as int, class),
        from <= end <= source.len(),
{
    let mut end: usize = from;
    while end < source.len() && class.contains(source[end])
        invariant
            from <= end <= source.len(),
            forall|k: int| from <= k < end ==> class.has(#[trigger] source@[k]),
        decreases source.len() - end,
    {
        end += 1;
    }
    proof {
        lemma_run_end_from_inside(source@, from as int, end as int, class);
    }
    end
}

/// The number that a sequence of decimal digits writes.
pub open spec fn decimal(digits: Seq<u8>) -> nat
    decreases digits.len(),
{
    if digits.len() == 0 {
        0
    } else {
        decimal(digits.drop_last()) * 10 + (digits.last() - 0x30) as nat
    }
}

/// The number that a numeral writes, or the largest `i32` where the number
/// does not fit.
pub open spec fn saturated(digits: Seq<u8>) -> i32 {
    if decimal(digits) <= i32::MAX {
        decimal(digits) as i32
    } else {
        i32::MAX
    }
}

/// Reads the numeral `source[start..end]`. The second result tells whether
/// the number is too large for an `i32`.
pub fn read_decimal(source: &[u8], start: usize, end: usize) -> (out: (i32, bool))
    requires
        start <= end <= source.len(),
        forall|k: int| start <= k < end ==> ByteClass::Digit.has(#[trigger] source@[k]),
    ensures
        out.0 == saturated(source@.subrange(start as int, end as int)),
        out.1 == (decimal(source@.subrange(start as int, end as int)) > i32::MAX),
{
    let mut value: i32 = 0;
    let mut overflow = false;
    let mut at: usize = start;
    assert(source@.subrange(start as int, start as int) =~= Seq::<u8>::empty());
    while at < end
        invariant
            start <= at <= end <= source.len(),
            forall|k: int| start <= k < end ==> ByteClass::Digit.has(#[trigger] source@[k]),
            0 <= value,
            !overflow ==> value == decimal(source@.subrange(start as int, at as int)),
            overflow ==> decimal(source@.subrange(start as int, at as int)) > i32::MAX,
        decreases end - at,
    {
        let digit: i32 = (source[at] - 0x30) as i32;
        proof {
            let longer = source@.subrange(start as int, at as int + 1);
            assert(longer.drop_last() =~= source@.subrange(start as int, at as int));
            assert(longer.last() == source@[at as int]);
        }
        if !overflow {
            if value > 214748364 || (value == 214748364 && digit > 7) {
                overflow = true;
            } else {
                value = value * 10 + digit;
            }
        }
        at += 1;
    }
    if overflow {
        (i32::MAX, true)
    } else {
        (value, false)
    }
}

/// The text that a sequence of ASCII bytes writes: each byte is the
/// character of the same code.
pub open spec fn ascii_text(bytes: Seq<u8>) -> Seq<char> {
    Seq::new(bytes.len(), |i: int| bytes[i] as char)
}

/// All bytes are below 128.
pub open spec fn is_ascii_bytes(bytes: Seq<u8>) -> bool {
    forall|i: int| 0 <= i < bytes.len() ==> #[trigger] bytes[i] < 0x80
}

/// ASCII bytes are valid UTF-8, and decode to the characters of the same
/// codes.
pub proof fn lemma_ascii_decodes(bytes: Seq<u8>)
    requires
        is_ascii_bytes(bytes),
    ensures
        valid_utf8(bytes),
        decode_utf8(bytes) == ascii_text(bytes),
        encode_utf8(ascii_text(bytes)) == bytes,
{
    let chars = ascii_text(bytes);
    assert(is_ascii_chars(chars));
    is_ascii_chars_encode_utf8(chars);
    assert(encode_utf8(chars) =~= bytes);
    encode_utf8_valid_utf8(chars);
    encode_utf8_decode_utf8(chars);
}

/// A text is written by ASCII bytes exactly if its UTF-8 encoding is those
/// bytes.
pub proof fn lemma_ascii_text_is(bytes: Seq<u8>, text: Seq<char>)
    requires
        is_ascii_bytes(bytes),
    ensures
        (ascii_text(bytes) == text) <==> (bytes == encode_utf8(text)),
{
    lemma_ascii_decodes(bytes);
    if bytes == encode_utf8(text) {
        encode_utf8_decode_utf8(text);
    }
}

} // verus!
