//! Key derivation paths and their textual form `m/<index>[']/...`.

use vstd::prelude::*;
use vstd::string::*;

verus! {

/// Offset added to an index to mark it as hardened.
pub const HARDENED_PATH: u32 = 2147483648;

/// ASCII `m`, which every path starts with.
pub const MASTER: u8 = 0x6d;

/// ASCII `/`, which separates the components of a path.
pub const SEPARATOR: u8 = 0x2f;

/// ASCII `'`, which marks a component as hardened.
pub const HARDENED_MARK: u8 = 0x27;

/// ASCII `+`, the only sign an index may carry.
pub const PLUS_SIGN: u8 = 0x2b;

/// ASCII `0`.
pub const DIGIT_ZERO: u8 = 0x30;

/// ASCII `9`.
pub const DIGIT_NINE: u8 = 0x39;

/// The value of a run of decimal digits, most significant first.
pub open spec fn digits_value(digits: Seq<u8>) -> nat
    decreases digits.len(),
{
    if digits.len() == 0 {
        0
    } else {
        10 * digits_value(digits.drop_last()) + (digits.last() - DIGIT_ZERO) as nat
    }
}

/// Every byte is an ASCII decimal digit.
pub open spec fn all_digits(digits: Seq<u8>) -> bool {
    forall|i: int| 0 <= i < digits.len() ==> DIGIT_ZERO <= #[trigger] digits[i] <= DIGIT_NINE
}

/// The digits of an index: the text without its optional leading `+`.
pub open spec fn unsigned_part(text: Seq<u8>) -> Seq<u8> {
    if text.len() > 0 && text[0] == PLUS_SIGN {
        text.skip(1)
    } else {
        text
    }
}

/// The index that `text` denotes: an optional `+`, then one or more decimal
/// digits whose value fits 32 bits. `None` for any other text.
pub open spec fn index_of(text: Seq<u8>) -> Option<u32> {
    let digits = unsigned_part(text);
    if digits.len() > 0 && all_digits(digits) && digits_value(digits) <= u32::MAX {
        Some(digits_value(digits) as u32)
    } else {
        None
    }
}

/// The stored value of one path component: an index, or an index below
/// `HARDENED_PATH` followed by `'`, which stores the index plus `HARDENED_PATH`.
pub open spec fn component_of(text: Seq<u8>) -> Option<u32> {
    if text.len() > 0 && text.last() == HARDENED_MARK {
        match index_of(text.drop_last()) {
            Some(n) => if n < HARDENED_PATH {
                Some((n + HARDENED_PATH) as u32)
            } else {
                None
            },
            None => None,
        }
    } else {
        index_of(text)
    }
}

/// Where the component that starts at `from` ends: the position of the next
/// `/`, or the end of the text.
pub open spec fn segment_end(text: Seq<u8>, from: int) -> int
    decreases text.len() - from,
{
    if from >= text.len() || text[from] == SEPARATOR {
        from
    } else {
        segment_end(text, from + 1)
    }
}

pub proof fn lemma_segment_end_bounds(text: Seq<u8>, from: int)
    requires
        0 <= from <= text.len(),
    ensures
        from <= segment_end(text, from) <= text.len(),
        segment_end(text, from) < text.len() ==> text[segment_end(text, from)] == SEPARATOR,
        forall|i: int| from <= i < segment_end(text, from) ==> text[i] != SEPARATOR,
    decreases text.len() - from,
{
    if from < text.len() && text[from] != SEPARATOR {
        lemma_segment_end_bounds(text, from + 1);
    }
}

/// The components of `text` from position `from` on, separated by `/`.
/// `None` as soon as one of them is no component.
pub open spec fn components_from(text: Seq<u8>, from: int) -> Option<Seq<u32>>
    decreases text.len() - from,
{
    if 0 <= from <= text.len() {
        let end = segment_end(text, from);
        match component_of(text.subrange(from, end)) {
            None => None,
            Some(n) => if end >= text.len() {
                Some(seq![n])
            } else {
                proof {
                    lemma_segment_end_bounds(text, from);
                }
                match components_from(text, end + 1) {
                    Some(rest) => Some(seq![n] + rest),
                    None => None,
                }
            },
        }
    } else {
        None
    }
}

/// The text starts with `m/`.
pub open spec fn has_path_prefix(text: Seq<u8>) -> bool {
    text.len() >= 2 && text[0] == MASTER && text[1] == SEPARATOR
}

/// The path that `text` denotes, if it is of the form `m/<index>[']/...`.
pub open spec fn parse_path(text: Seq<u8>) -> Option<Seq<u32>> {
    if has_path_prefix(text) {
        components_from(text, 2)
    } else {
        None
    }
}

/// The character that writes the decimal digit `d`.
pub open spec fn digit_char(d: nat) -> char {
    if d == 0 {
        '0'
    } else if d == 1 {
        '1'
    } else if d == 2 {
        '2'
    } else if d == 3 {
        '3'
    } else if d == 4 {
        '4'
    } else if d == 5 {
        '5'
    } else if d == 6 {
        '6'
    } else if d == 7 {
        '7'
    } else if d == 8 {
        '8'
    } else {
        '9'
    }
}

/// `n` in decimal, without leading zeros.
pub open spec fn decimal_text(n: nat) -> Seq<char>
    decreases n,
{
    if n < 10 {
        seq![digit_char(n)]
    } else {
        decimal_text(n / 10).push(digit_char(n % 10))
    }
}

/// One stored value as text: a hardened one as its index followed by `'`.
pub open spec fn component_text(value: u32) -> Seq<char> {
    if value >= HARDENED_PATH {
        decimal_text((value - HARDENED_PATH) as nat).push('\'')
    } else {
        decimal_text(value as nat)
    }
}

/// The components as text, joined by `/`.
pub open spec fn components_text(indices: Seq<u32>) -> Seq<char>
    decreases indices.len(),
{
    if indices.len() == 0 {
        Seq::empty()
    } else if indices.len() == 1 {
        component_text(indices[0])
    } else {
        components_text(indices.drop_last()).push('/') + component_text(indices.last())
    }
}

/// The textual form of a path: `m/` and the components.
pub open spec fn path_text(indices: Seq<u32>) -> Seq<char> {
    seq!['m', '/'] + components_text(indices)
}

/// An ordered sequence of 32-bit derivation indices.
#[derive(PartialEq, Debug, Clone)]
pub struct KeyDerivationPath(Vec<u32>);

impl View for KeyDerivationPath {
    type V = Seq<u32>;

    closed spec fn view(&self) -> Seq<u32> {
        self.0@
    }
}

proof fn lemma_digits_value_prefix(digits: Seq<u8>, k: int)
    requires
        0 <= k <= digits.len(),
    ensures
        digits_value(digits.take(k)) <= digits_value(digits),
    decreases digits.len(),
{
    if k == digits.len() {
        assert(digits.take(k) =~= digits);
    } else {
        assert(digits.drop_last().take(k) =~= digits.take(k));
        lemma_digits_value_prefix(digits.drop_last(), k);
    }
}

/// Reads the index written in `bytes[from..to]`.
fn parse_index(bytes: &[u8], from: usize, to: usize) -> (r: Option<u32>)
    requires
        from <= to <= bytes@.len(),
    ensures
        r == index_of(bytes@.subrange(from as int, to as int)),
{
    let ghost text = bytes@.subrange(from as int, to as int);
    let mut start: usize = from;
    if from < to && bytes[from] == PLUS_SIGN {
        start = from + 1;
    }
    let ghost digits = bytes@.subrange(start as int, to as int);
    assert(digits =~= unsigned_part(text));
    if start == to {
        return None;
    }
    let mut value: u32 = 0;
    let mut i: usize = start;
    while i < to
        invariant
            start <= i <= to <= bytes@.len(),
            digits == bytes@.subrange(start as int, to as int),
            digits == unsigned_part(bytes@.subrange(from as int, to as int)),
            all_digits(digits.take(i - start)),
            value == digits_value(digits.take(i - start)),
        decreases to - i,
    {
        let b: u8 = bytes[i];
        if b < DIGIT_ZERO || b > DIGIT_NINE {
            assert(digits[i - start] == b);
            return None;
        }
        let d: u32 = (b - DIGIT_ZERO) as u32;
        proof {
            let next = digits.take(i - start + 1);
            assert(next.drop_last() =~= digits.take(i - start));
            assert(next.last() == b);
            assert(digits_value(next) == 10 * value + d);
            lemma_digits_value_prefix(digits, i - start + 1);
            assert forall|j: int| 0 <= j < next.len() implies DIGIT_ZERO <= #[trigger] next[j]
                <= DIGIT_NINE by {
                if j < i - start {
                    assert(next[j] == digits.take(i - start)[j]);
                }
            }
        }
        if value > (u32::MAX - d) / 10 {
            return None;
        }
        value = value * 10 + d;
        i = i + 1;
    }
    assert(digits.take(i - start) =~= digits);
    Some(value)
}

/// Reads the component written in `bytes[from..to]`.
fn parse_component(bytes: &[u8], from: usize, to: usize) -> (r: Option<u32>)
    requires
        from <= to <= bytes@.len(),
    ensures
        r == component_of(bytes@.subrange(from as int, to as int)),
{
    let ghost text = bytes@.subrange(from as int, to as int);
    if from < to && bytes[to - 1] == HARDENED_MARK {
        assert(text.drop_last() =~= bytes@.subrange(from as int, to - 1));
        match parse_index(bytes, from, to - 1) {
            Some(n) => if n < HARDENED_PATH {
                Some(n + HARDENED_PATH)
            } else {
                None
            },
            None => None,
        }
    } else {
        parse_index(bytes, from, to)
    }
}

/// Finds where the component that starts at `from` ends.
fn find_segment_end(bytes: &[u8], from: usize) -> (end: usize)
    requires
        from <= bytes@.len(),
    ensures
        end == segment_end(bytes@, from as int),
        from <= end <= bytes@.len(),
{
    let mut end: usize = from;
    while end < bytes.len() && bytes[end] != SEPARATOR
        invariant
            from <= end <= bytes@.len(),
            segment_end(bytes@, from as int) == segment_end(bytes@, end as int),
        decreases bytes@.len() - end,
    {
        end = end + 1;
    }
    end
}

/// The text of one decimal digit.
fn digit_text(d: u32) -> (r: &'static str)
    requires
        d < 10,
    ensures
        r@ == seq![digit_char(d as nat)],
{
    proof {
        reveal_strlit("0");
        reveal_strlit("1");
        reveal_strlit("2");
        reveal_strlit("3");
        reveal_strlit("4");
        reveal_strlit("5");
        reveal_strlit("6");
        reveal_strlit("7");
        reveal_strlit("8");
        reveal_strlit("9");
    }
    let r = match d {
        0 => "0",
        1 => "1",
        2 => "2",
        3 => "3",
        4 => "4",
        5 => "5",
        6 => "6",
        7 => "7",
        8 => "8",
        _ => "9",
    };
    assert(r@ =~= seq![digit_char(d as nat)]);
    r
}

/// Appends `n` in decimal to `out`.
fn append_decimal(out: &mut String, n: u32)
    ensures
        final(out)@ == old(out)@ + decimal_text(n as nat),
    decreases n,
{
    if n >= 10 {
        append_decimal(out, n / 10);
    }
    out.append(digit_text(n % 10));
    assert(out@ =~= old(out)@ + decimal_text(n as nat));
}

/// Appends one stored value to `out`.
fn append_component(out: &mut String, value: u32)
    ensures
        final(out)@ == old(out)@ + component_text(value),
{
    if value >= HARDENED_PATH {
        append_decimal(out, value - HARDENED_PATH);
        proof {
            reveal_strlit("'");
        }
        out.append("'");
        assert(out@ =~= old(out)@ + component_text(value));
    } else {
        append_decimal(out, value);
    }
}

/// The bytes of a text of ASCII characters.
spec fn ascii_bytes(text: Seq<char>) -> Seq<u8> {
    Seq::new(text.len(), |i: int| text[i] as u8)
}

/// Every character of the text is a decimal digit.
spec fn digit_chars(text: Seq<char>) -> bool {
    forall|i: int| 0 <= i < text.len() ==> '0' <= #[trigger] text[i] <= '9'
}

/// No character of the text is beyond ASCII, and none is a `/`.
spec fn plain_chars(text: Seq<char>) -> bool {
    forall|i: int|
        0 <= i < text.len() ==> '\0' <= (#[trigger] text[i]) <= '\u{7f}' && (text[i] < '/' || '/'
            < text[i])
}

/// A number's decimal text is made of digits, and has the number as its value.
proof fn lemma_decimal_text(n: nat)
    ensures
        decimal_text(n).len() >= 1,
        digit_chars(decimal_text(n)),
        all_digits(ascii_bytes(decimal_text(n))),
        digits_value(ascii_bytes(decimal_text(n))) == n,
    decreases n,
{
    let text = decimal_text(n);
    let bytes = ascii_bytes(text);
    if n < 10 {
        assert(bytes.drop_last() =~= Seq::<u8>::empty());
        assert(digits_value(bytes.drop_last()) == 0);
        assert(bytes.last() == DIGIT_ZERO + n);
        assert(digits_value(bytes) == n);
    } else {
        lemma_decimal_text(n / 10);
        let front = decimal_text(n / 10);
        assert(bytes.drop_last() =~= ascii_bytes(front));
        assert(bytes.last() == DIGIT_ZERO + n % 10);
        assert(digits_value(bytes) == 10 * (n / 10) + n % 10);
        assert forall|i: int| 0 <= i < text.len() implies '0' <= #[trigger] text[i] <= '9' by {
            if i < front.len() {
                assert(text[i] == front[i]);
            }
        }
        assert forall|i: int| 0 <= i < bytes.len() implies DIGIT_ZERO <= #[trigger] bytes[i]
            <= DIGIT_NINE by {
            assert('0' <= text[i] <= '9');
        }
    }
}

/// The text of a stored value is read as that value, and holds no `/`.
proof fn lemma_component_text(value: u32)
    ensures
        component_text(value).len() >= 1,
        plain_chars(component_text(value)),
        component_of(ascii_bytes(component_text(value))) == Some(value),
{
    let text = component_text(value);
    let bytes = ascii_bytes(text);
    if value >= HARDENED_PATH {
        let index = (value - HARDENED_PATH) as nat;
        lemma_decimal_text(index);
        let digits = decimal_text(index);
        assert(bytes.last() == HARDENED_MARK);
        assert(bytes.drop_last() =~= ascii_bytes(digits));
        assert(ascii_bytes(digits)[0] != PLUS_SIGN) by {
            assert('0' <= digits[0] <= '9');
        }
        assert forall|i: int| 0 <= i < text.len() implies '\0' <= (#[trigger] text[i])
            <= '\u{7f}' && (text[i] < '/' || '/' < text[i]) by {
            if i < digits.len() {
                assert('0' <= digits[i] <= '9');
            }
        }
    } else {
        lemma_decimal_text(value as nat);
        let digits = decimal_text(value as nat);
        assert(bytes.last() != HARDENED_MARK) by {
            assert('0' <= digits[digits.len() - 1] <= '9');
        }
        assert(bytes[0] != PLUS_SIGN) by {
            assert('0' <= digits[0] <= '9');
        }
        assert forall|i: int| 0 <= i < text.len() implies '\0' <= (#[trigger] text[i])
            <= '\u{7f}' && (text[i] < '/' || '/' < text[i]) by {
            assert('0' <= digits[i] <= '9');
        }
    }
}

/// A stretch of text without a `/`, up to a `/` or to the end of the text,
/// is one segment.
proof fn lemma_segment(text: Seq<u8>, from: int, len: int)
    requires
        0 <= from,
        0 <= len,
        from + len <= text.len(),
        forall|i: int| from <= i < from + len ==> text[i] != SEPARATOR,
        from + len == text.len() || text[from + len] == SEPARATOR,
    ensures
        segment_end(text, from) == from + len,
    decreases len,
{
    if len > 0 {
        lemma_segment(text, from + 1, len - 1);
    }
}

/// The text of two or more components is the text of the first, a `/`, and
/// the text of the others.
proof fn lemma_components_text_front(indices: Seq<u32>)
    requires
        indices.len() >= 2,
    ensures
        components_text(indices) == component_text(indices[0]).push('/') + components_text(
            indices.skip(1),
        ),
    decreases indices.len(),
{
    let front = indices.drop_last();
    let rest = indices.skip(1);
    if indices.len() == 2 {
        assert(front =~= seq![indices[0]]);
        assert(rest =~= seq![indices[1]]);
        assert(components_text(front) == component_text(indices[0]));
        assert(components_text(rest) == component_text(indices[1]));
    } else {
        lemma_components_text_front(front);
        assert(rest.drop_last() =~= front.skip(1));
        assert(components_text(indices) =~= component_text(indices[0]).push('/')
            + components_text(rest));
    }
}

/// Where the text from `from` on is the text of some components, those
/// components are read from there.
proof fn lemma_components_parse(text: Seq<u8>, from: int, indices: Seq<u32>)
    requires
        indices.len() >= 1,
        0 <= from <= text.len(),
        text.subrange(from, text.len() as int) == ascii_bytes(components_text(indices)),
    ensures
        components_from(text, from) == Some(indices),
    decreases indices.len(),
{
    let first = component_text(indices[0]);
    let tail = text.subrange(from, text.len() as int);
    lemma_component_text(indices[0]);
    assert(tail.len() == components_text(indices).len());
    if indices.len() == 1 {
        assert(components_text(indices) == first);
        assert forall|i: int| from <= i < from + first.len() implies text[i] != SEPARATOR by {
            assert(text[i] == tail[i - from]);
            assert(tail[i - from] == first[i - from] as u8);
            assert(first[i - from] < '/' || '/' < first[i - from]);
        }
        lemma_segment(text, from, first.len() as int);
        assert(text.subrange(from, from + first.len()) =~= ascii_bytes(first));
    } else {
        let rest = indices.skip(1);
        lemma_components_text_front(indices);
        let joined = first.push('/') + components_text(rest);
        assert(tail == ascii_bytes(joined));
        assert(joined.len() == first.len() + 1 + components_text(rest).len());
        assert forall|i: int| from <= i < from + first.len() implies text[i] != SEPARATOR by {
            assert(text[i] == tail[i - from]);
            assert(tail[i - from] == joined[i - from] as u8);
            assert(joined[i - from] == first[i - from]);
            assert(first[i - from] < '/' || '/' < first[i - from]);
        }
        assert(text[from + first.len()] == SEPARATOR) by {
            assert(text[from + first.len()] == tail[first.len() as int]);
            assert(joined[first.len() as int] == '/');
        }
        lemma_segment(text, from, first.len() as int);
        assert(text.subrange(from, from + first.len()) =~= ascii_bytes(first)) by {
            assert forall|i: int| 0 <= i < first.len() implies text[from + i] == first[i] as u8 by {
                assert(text[from + i] == tail[i]);
                assert(joined[i] == first[i]);
            }
        }
        let next = from + first.len() + 1;
        assert(text.subrange(next, text.len() as int) =~= ascii_bytes(components_text(rest))) by {
            assert forall|i: int| 0 <= i < components_text(rest).len() implies text[next + i]
                == components_text(rest)[i] as u8 by {
                assert(text[next + i] == tail[first.len() + 1 + i]);
                assert(joined[first.len() + 1 + i] == components_text(rest)[i]);
            }
        }
        lemma_components_parse(text, next, rest);
        assert(seq![indices[0]] + rest =~= indices);
    }
}

/// The text of some components holds no character beyond ASCII.
proof fn lemma_components_text_is_ascii(indices: Seq<u32>)
    ensures
        vstd::utf8::is_ascii_chars(components_text(indices)),
    decreases indices.len(),
{
    let text = components_text(indices);
    if indices.len() == 0 {
    } else if indices.len() == 1 {
        lemma_component_text(indices[0]);
        assert forall|i: int| 0 <= i < text.len() implies '\0' <= #[trigger] text[i]
            <= '\u{7f}' by {
            assert('\0' <= component_text(indices[0])[i] <= '\u{7f}');
        }
    } else {
        lemma_components_text_is_ascii(indices.drop_last());
        lemma_component_text(indices.last());
        let front = components_text(indices.drop_last());
        let last = component_text(indices.last());
        assert forall|i: int| 0 <= i < text.len() implies '\0' <= #[trigger] text[i]
            <= '\u{7f}' by {
            if i < front.len() {
                assert(text[i] == front[i]);
            } else if i > front.len() {
                assert(text[i] == last[i - front.len() - 1]);
                assert('\0' <= last[i - front.len() - 1] <= '\u{7f}');
            }
        }
    }
}

/// What is written is read back: the text of a path that has at least one
/// index parses to that path.
pub proof fn lemma_text_parses_back(indices: Seq<u32>)
    requires
        indices.len() >= 1,
    ensures
        parse_path(vstd::utf8::encode_utf8(path_text(indices))) == Some(indices),
{
    let text = path_text(indices);
    let components = components_text(indices);
    lemma_components_text_is_ascii(indices);
    assert(vstd::utf8::is_ascii_chars(text)) by {
        assert forall|i: int| 0 <= i < text.len() implies '\0' <= #[trigger] text[i]
            <= '\u{7f}' by {
            if i >= 2 {
                assert(text[i] == components[i - 2]);
            }
        }
    }
    vstd::utf8::is_ascii_chars_encode_utf8(text);
    let bytes = vstd::utf8::encode_utf8(text);
    assert(bytes =~= ascii_bytes(text));
    assert(bytes.subrange(2, bytes.len() as int) =~= ascii_bytes(components)) by {
        assert forall|i: int| 0 <= i < components.len() implies bytes[2 + i] == components[i] as u8 by {
            assert(text[2 + i] == components[i]);
        }
    }
    lemma_components_parse(bytes, 2, indices);
}

impl KeyDerivationPath {
    /// What `from_str` reports for a text that is no path.
    pub open spec fn parse_error(path: &str) -> Seq<char> {
        if has_path_prefix(path.spec_bytes()) {
            "Bad number. Path: "@ + path@
        } else {
            "Bad prefix. Path: "@ + path@
        }
    }

    /// Parses the textual form `m/<index>[']/...`.
    ///
    /// The text has to start with `m/`, and what follows has to be one or
    /// more components separated by `/`. A component is an index, which may
    /// carry a `+`, or an index below `HARDENED_PATH` followed by `'`. Any
    /// other text is refused, with `Bad prefix` where it does not start with
    /// `m/` and with `Bad number` where a component is none.
    pub fn from_str(path: &str) -> (r: Result<KeyDerivationPath, String>)
        ensures
            match parse_path(path.spec_bytes()) {
                Some(indices) => r matches Ok(p) && p@ == indices,
                None => r matches Err(e) && e@ == Self::parse_error(path),
            },
    {
        let bytes = path.as_bytes();
        let len = bytes.len();
        if len < 2 || bytes[0] != MASTER || bytes[1] != SEPARATOR {
            return Err("Bad prefix. Path: ".to_owned().concat(path));
        }
        let mut indices: Vec<u32> = Vec::new();
        let mut pos: usize = 2;
        loop
            invariant
                2 <= pos <= len,
                len == bytes@.len(),
                bytes@ == path.spec_bytes(),
                has_path_prefix(bytes@),
                parse_path(bytes@) == match components_from(bytes@, pos as int) {
                    Some(rest) => Some(indices@ + rest),
                    None => None,
                },
            decreases len - pos,
        {
            let end = find_segment_end(bytes, pos);
            match parse_component(bytes, pos, end) {
                None => {
                    return Err("Bad number. Path: ".to_owned().concat(path));
                },
                Some(n) => {
                    let ghost before = indices@;
                    indices.push(n);
                    if end >= len {
                        assert(before + seq![n] =~= indices@);
                        return Ok(KeyDerivationPath(indices));
                    }
                    proof {
                        let rest = components_from(bytes@, end + 1);
                        if rest is Some {
                            assert(before + (seq![n] + rest->0) =~= indices@ + rest->0);
                        }
                    }
                    pos = end + 1;
                },
            }
        }
    }

    /// The textual form `m/<index>[']/...` of the path.
    pub fn to_string(&self) -> (text: String)
        ensures
            text@ == path_text(self@),
    {
        proof {
            reveal_strlit("m/");
            reveal_strlit("/");
        }
        let mut text = "m/".to_owned();
        assert(text@ =~= seq!['m', '/']);
        let mut i: usize = 0;
        while i < self.0.len()
            invariant
                i <= self.0@.len(),
                text@ == seq!['m', '/'] + components_text(self.0@.take(i as int)),
            decreases self.0@.len() - i,
        {
            let ghost before = self.0@.take(i as int);
            let ghost after = self.0@.take(i + 1);
            assert(after.drop_last() =~= before);
            if i > 0 {
                proof {
                    reveal_strlit("/");
                }
                text.append("/");
            }
            append_component(&mut text, self.0[i]);
            assert(text@ =~= seq!['m', '/'] + components_text(after));
            i = i + 1;
        }
        assert(self.0@.take(i as int) =~= self.0@);
        text
    }

    /// The indices, in order.
    pub fn as_ref(&self) -> (indices: &[u32])
        ensures
            indices@ == self@,
    {
        self.0.as_slice()
    }

    /// The number of indices.
    pub fn len(&self) -> (n: usize)
        ensures
            n == self@.len(),
    {
        self.0.len()
    }

    /// Gives up the indices.
    pub fn take(self) -> (indices: Vec<u32>)
        ensures
            indices@ == self@,
    {
        self.0
    }
}

impl core::str::FromStr for KeyDerivationPath {
    type Err = String;

    /// As `KeyDerivationPath::from_str`.
    fn from_str(path: &str) -> (r: Result<KeyDerivationPath, String>)
        ensures
            match parse_path(path.spec_bytes()) {
                Some(indices) => r matches Ok(p) && p@ == indices,
                None => r matches Err(e) && e@ == KeyDerivationPath::parse_error(path),
            },
    {
        KeyDerivationPath::from_str(path)
    }
}

} // verus!
