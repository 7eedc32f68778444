//! Byte-level text helpers: searching, trimming and case folding of ASCII
//! inside arbitrary byte strings, and the conversion of bytes to text.

use vstd::prelude::*;
use vstd::slice::slice_subrange;
use vstd::string::*;
use vstd::utf8::{
    decode_utf8, encode_utf8, encode_utf8_decode_utf8, encode_utf8_valid_utf8, is_ascii_chars,
    is_ascii_chars_encode_utf8, valid_utf8,
};

verus! {

/// `s` begins with `p`.
pub open spec fn starts_with(s: Seq<u8>, p: Seq<u8>) -> bool {
    p.len() <= s.len() && s.subrange(0, p.len() as int) == p
}

/// `p` occurs in `s` at offset `i`.
pub open spec fn occurs_at(s: Seq<u8>, p: Seq<u8>, i: int) -> bool {
    0 <= i && i + p.len() <= s.len() && s.subrange(i, i + p.len()) == p
}

/// `p` occurs somewhere in `s`.
pub open spec fn contains(s: Seq<u8>, p: Seq<u8>) -> bool {
    exists|i: int| occurs_at(s, p, i)
}

/// `s` without its trailing NUL bytes.
pub open spec fn trim_nuls(s: Seq<u8>) -> Seq<u8>
    decreases s.len(),
{
    if s.len() > 0 && s.last() == 0u8 {
        trim_nuls(s.drop_last())
    } else {
        s
    }
}

/// What is left without trailing NUL bytes is the beginning of `s`.
pub proof fn lemma_trim_nuls_is_prefix(s: Seq<u8>)
    ensures
        trim_nuls(s).len() <= s.len(),
        trim_nuls(s) == s.subrange(0, trim_nuls(s).len() as int),
    decreases s.len(),
{
    if s.len() > 0 && s.last() == 0u8 {
        lemma_trim_nuls_is_prefix(s.drop_last());
        let t = trim_nuls(s.drop_last());
        assert(t =~= s.subrange(0, t.len() as int));
    } else {
        assert(s =~= s.subrange(0, s.len() as int));
    }
}

/// `s` with every leading repetition of `p` removed.
pub open spec fn strip_prefix_all(s: Seq<u8>, p: Seq<u8>) -> Seq<u8>
    decreases s.len(),
{
    if p.len() > 0 && starts_with(s, p) {
        strip_prefix_all(s.skip(p.len() as int), p)
    } else {
        s
    }
}

/// The text that lossy UTF-8 decoding makes of bytes that are not valid
/// UTF-8: valid sequences decode to their characters, every invalid one to
/// U+FFFD.
pub uninterp spec fn lossy_text(bytes: Seq<u8>) -> Seq<char>;

/// The text read from `bytes`: their plain decoding when they are valid
/// UTF-8, else what lossy decoding makes of them.
pub open spec fn text_from(bytes: Seq<u8>) -> Seq<char> {
    if valid_utf8(bytes) {
        decode_utf8(bytes)
    } else {
        lossy_text(bytes)
    }
}

/// The characters of bytes that are all ASCII.
pub open spec fn ascii_text(bytes: Seq<u8>) -> Seq<char> {
    Seq::new(bytes.len(), |i: int| bytes[i] as char)
}

/// Bytes that are all ASCII read as the characters they are.
pub proof fn lemma_ascii_reads_plainly(bytes: Seq<u8>)
    requires
        forall|i: int| 0 <= i < bytes.len() ==> bytes[i] < 0x80,
    ensures
        valid_utf8(bytes),
        text_from(bytes) == ascii_text(bytes),
{
    let chars = ascii_text(bytes);
    assert forall|i: int| 0 <= i < chars.len() implies '\0' <= #[trigger] chars[i] <= '\u{7f}' by {
        assert(chars[i] == bytes[i] as char);
    }
    assert(is_ascii_chars(chars));
    is_ascii_chars_encode_utf8(chars);
    assert forall|i: int| 0 <= i < bytes.len() implies encode_utf8(chars)[i] == bytes[i] by {
        assert(chars[i] as u8 == encode_utf8(chars)[i]);
        assert(chars[i] == bytes[i] as char);
    }
    assert(encode_utf8(chars) =~= bytes);
    encode_utf8_valid_utf8(chars);
    encode_utf8_decode_utf8(chars);
}

/// Decodes `bytes` with `String::from_utf8_lossy`. For input that is valid
/// UTF-8 the standard library documents that the text is the plain decoding;
/// what becomes of other input is named `lossy_text`.
#[verifier::external_body]
pub(crate) fn decode_lossy(bytes: &[u8]) -> (text: String)
    ensures
        text@ == text_from(bytes@),
        !valid_utf8(bytes@) ==> text@ == lossy_text(bytes@),
{
    String::from_utf8_lossy(bytes).into_owned()
}

/// The lower-case form of a text by the Unicode case mapping.
pub uninterp spec fn lowercase_text(text: Seq<char>) -> Seq<char>;

/// Lower-cases `text` with `str::to_lowercase`. The Unicode case mapping
/// takes tables to state, so the result is named `lowercase_text` and nothing
/// more is claimed of it.
#[verifier::external_body]
pub(crate) fn lowercase(text: &str) -> (lower: String)
    ensures
        lower@ == lowercase_text(text@),
{
    text.to_lowercase()
}

/// Whether `data` begins with `pat`.
pub fn has_prefix(data: &[u8], pat: &[u8]) -> (b: bool)
    ensures
        b == starts_with(data@, pat@),
{
    if pat.len() > data.len() {
        return false;
    }
    let mut i: usize = 0;
    while i < pat.len()
        invariant
            i <= pat@.len() <= data@.len(),
            forall|j: int| 0 <= j < i ==> data@[j] == pat@[j],
        decreases pat@.len() - i,
    {
        if data[i] != pat[i] {
            proof {
                assert(data@.subrange(0, pat@.len() as int)[i as int] == data@[i as int]);
            }
            return false;
        }
        i += 1;
    }
    proof {
        assert(data@.subrange(0, pat@.len() as int) =~= pat@);
    }
    true
}

/// Whether `pat` occurs somewhere in `data`.
pub fn has_infix(data: &[u8], pat: &[u8]) -> (b: bool)
    ensures
        b == contains(data@, pat@),
{
    if pat.len() > data.len() {
        return false;
    }
    let last: usize = data.len() - pat.len();
    let mut i: usize = 0;
    loop
        invariant
            i <= last,
            last == data@.len() - pat@.len(),
            forall|j: int| 0 <= j < i ==> !occurs_at(data@, pat@, j),
        decreases last - i,
    {
        let tail: &[u8] = slice_subrange(data, i, data.len());
        proof {
            assert(tail@.subrange(0, pat@.len() as int) =~= data@.subrange(
                i as int,
                i + pat@.len(),
            ));
        }
        if has_prefix(tail, pat) {
            assert(occurs_at(data@, pat@, i as int));
            return true;
        }
        if i == last {
            return false;
        }
        i += 1;
    }
}

/// `data` cut off in front of its trailing NUL bytes.
pub fn trim_trailing_nuls(data: &[u8]) -> (r: &[u8])
    ensures
        r@ == trim_nuls(data@),
{
    let mut end: usize = data.len();
    proof {
        assert(data@.subrange(0, data@.len() as int) =~= data@);
    }
    while end > 0 && data[end - 1] == 0
        invariant
            end <= data@.len(),
            trim_nuls(data@) == trim_nuls(data@.subrange(0, end as int)),
        decreases end,
    {
        proof {
            let cur = data@.subrange(0, end as int);
            assert(cur.drop_last() =~= data@.subrange(0, end - 1));
        }
        end -= 1;
    }
    slice_subrange(data, 0, end)
}

/// `data` with every leading repetition of `pat` removed.
pub fn strip_leading<'a>(data: &'a [u8], pat: &[u8]) -> (r: &'a [u8])
    ensures
        r@ == strip_prefix_all(data@, pat@),
{
    let mut rest: &[u8] = data;
    if pat.len() == 0 {
        return rest;
    }
    while has_prefix(rest, pat)
        invariant
            pat@.len() > 0,
            strip_prefix_all(data@, pat@) == strip_prefix_all(rest@, pat@),
        decreases rest@.len(),
    {
        proof {
            assert(rest@.skip(pat@.len() as int) =~= rest@.subrange(
                pat@.len() as int,
                rest@.len() as int,
            ));
        }
        rest = slice_subrange(rest, pat.len(), rest.len());
    }
    rest
}

/// The character of a decimal digit.
pub open spec fn digit_char(d: int) -> char {
    if d == 0 {
        '0'
    } else if d == 1 {
        '1'
    } else if d == 2 {
        '2'
    } else if d == 3 {
        '3'
    } else if d == 4 {
        '4'
    } else if d == 5 {
        '5'
    } else if d == 6 {
        '6'
    } else if d == 7 {
        '7'
    } else if d == 8 {
        '8'
    } else {
        '9'
    }
}

/// Decimal notation of `n`, without leading zeros.
pub open spec fn decimal(n: nat) -> Seq<char>
    decreases n,
{
    if n < 10 {
        seq![digit_char(n as int)]
    } else {
        decimal(n / 10).push(digit_char((n % 10) as int))
    }
}

/// Notation with one decimal place of a quantity given in thousandths,
/// rounded half away from zero: 1030 reads `1.0`, 1250 reads `1.3`, -49
/// reads `0.0`.
pub open spec fn one_decimal(thousandths: int) -> Seq<char> {
    let magnitude = if thousandths < 0 {
        -thousandths
    } else {
        thousandths
    };
    let tenths = (magnitude + 50) / 100;
    let digits = decimal((tenths / 10) as nat) + seq!['.', digit_char(tenths % 10)];
    if thousandths < 0 && tenths > 0 {
        seq!['-'] + digits
    } else {
        digits
    }
}

fn digit_str(d: u64) -> (text: &'static str)
    requires
        d < 10,
    ensures
        text@ == seq![digit_char(d as int)],
{
    proof {
        reveal_strlit("0");
        reveal_strlit("1");
        reveal_strlit("2");
        reveal_strlit("3");
        reveal_strlit("4");
        reveal_strlit("5");
        reveal_strlit("6");
        reveal_strlit("7");
        reveal_strlit("8");
        reveal_strlit("9");
    }
    let text: &'static str = if d == 0 {
        "0"
    } else if d == 1 {
        "1"
    } else if d == 2 {
        "2"
    } else if d == 3 {
        "3"
    } else if d == 4 {
        "4"
    } else if d == 5 {
        "5"
    } else if d == 6 {
        "6"
    } else if d == 7 {
        "7"
    } else if d == 8 {
        "8"
    } else {
        "9"
    };
    proof {
        assert(text@ =~= seq![digit_char(d as int)]);
    }
    text
}

/// Appends the decimal notation of `n` to `out`.
pub fn append_decimal(out: &mut String, n: u64)
    ensures
        final(out)@ == old(out)@ + decimal(n as nat),
    decreases n,
{
    if n >= 10 {
        append_decimal(out, n / 10);
    }
    out.append(digit_str(n % 10));
    proof {
        if n >= 10 {
            assert(out@ =~= old(out)@ + decimal(n as nat));
        }
    }
}

/// Appends, with one decimal place, a non-negative quantity given in
/// thousandths.
pub fn append_one_decimal_unsigned(out: &mut String, thousandths: u64)
    ensures
        final(out)@ == old(out)@ + one_decimal(thousandths as int),
{
    let tenths: u64 = (thousandths / 100) + (if thousandths % 100 >= 50 {
        1u64
    } else {
        0u64
    });
    assert(tenths == (thousandths + 50) / 100);
    append_decimal(out, tenths / 10);
    proof {
        reveal_strlit(".");
    }
    out.append(".");
    out.append(digit_str(tenths % 10));
    proof {
        assert(out@ =~= old(out)@ + one_decimal(thousandths as int));
    }
}

/// Appends, with one decimal place, a quantity given in thousandths.
pub fn append_one_decimal(out: &mut String, thousandths: i64)
    ensures
        final(out)@ == old(out)@ + one_decimal(thousandths as int),
{
    if thousandths >= 0 {
        append_one_decimal_unsigned(out, thousandths as u64);
    } else {
        let magnitude: u64 = (-(thousandths + 1)) as u64 + 1;
        if magnitude >= 50 {
            proof {
                reveal_strlit("-");
            }
            out.append("-");
        }
        append_one_decimal_unsigned(out, magnitude);
        proof {
            assert(one_decimal(thousandths as int) =~= if magnitude >= 50 {
                seq!['-'] + one_decimal(magnitude as int)
            } else {
                one_decimal(magnitude as int)
            });
            assert(out@ =~= old(out)@ + one_decimal(thousandths as int));
        }
    }
}

/// The characters of an optional text.
pub open spec fn text_of(text: Option<String>) -> Option<Seq<char>> {
    match text {
        Some(t) => Some(t@),
        None => None,
    }
}

/// A copy of an optional text.
pub fn clone_text(text: &Option<String>) -> (copy: Option<String>)
    ensures
        copy == *text,
{
    match text {
        Some(t) => Some(t.clone()),
        None => None,
    }
}

/// The characters of each text of a list.
pub open spec fn texts(list: Seq<String>) -> Seq<Seq<char>> {
    list.map_values(|s: String| s@)
}

/// A copy of a list of texts.
pub fn clone_texts(list: &Vec<String>) -> (copy: Vec<String>)
    ensures
        texts(copy@) == texts(list@),
{
    let mut copy: Vec<String> = Vec::new();
    let mut i: usize = 0;
    while i < list.len()
        invariant
            i <= list@.len(),
            copy@.len() == i,
            forall|j: int| 0 <= j < i ==> (#[trigger] copy@[j])@ == list@[j]@,
        decreases list@.len() - i,
    {
        copy.push(list[i].clone());
        i += 1;
    }
    proof {
        assert(texts(copy@) =~= texts(list@));
    }
    copy
}

/// White space in the sense of the Unicode property `White_Space`.
pub open spec fn is_space(c: char) -> bool {
    let u = c as u32;
    (0x09 <= u <= 0x0D) || u == 0x20 || u == 0x85 || u == 0xA0 || u == 0x1680 || (0x2000 <= u
        <= 0x200A) || u == 0x2028 || u == 0x2029 || u == 0x202F || u == 0x205F || u == 0x3000
}

/// Offset of the first character at or after `from` that is not white space;
/// `text.len()` when there is none.
pub open spec fn skip_spaces(text: Seq<char>, from: int) -> int
    decreases text.len() - from,
{
    if from < 0 || from >= text.len() {
        text.len() as int
    } else if is_space(text[from]) {
        skip_spaces(text, from + 1)
    } else {
        from
    }
}

/// End of `text[start..to]` once the white space at its end is dropped.
pub open spec fn drop_spaces(text: Seq<char>, start: int, to: int) -> int
    decreases to - start,
{
    if start < 0 || to <= start || to > text.len() {
        start
    } else if is_space(text[to - 1]) {
        drop_spaces(text, start, to - 1)
    } else {
        to
    }
}

/// `text` without the white space at its two ends.
pub open spec fn trimmed(text: Seq<char>) -> Seq<char> {
    let start = skip_spaces(text, 0);
    text.subrange(start, drop_spaces(text, start, text.len() as int))
}

/// `line` without a carriage return at its end.
pub open spec fn without_cr(line: Seq<char>) -> Seq<char> {
    if line.len() > 0 && line.last() == '\r' {
        line.drop_last()
    } else {
        line
    }
}

/// The lines that end within the first `i` characters of `text`, and the
/// offset at which the line that is still open begins. A line ends at a line
/// feed; a carriage return in front of the line feed belongs to the line
/// ending.
pub open spec fn lines_upto(text: Seq<char>, i: int) -> (Seq<Seq<char>>, int)
    decreases i,
{
    if i <= 0 {
        (Seq::empty(), 0)
    } else {
        let (done, start) = lines_upto(text, i - 1);
        if text[i - 1] == '\n' {
            (done.push(without_cr(text.subrange(start, i - 1))), i)
        } else {
            (done, start)
        }
    }
}

/// The lines of `text`. A last line without line ending counts when it is
/// not empty.
pub open spec fn lines_of(text: Seq<char>) -> Seq<Seq<char>> {
    let (done, start) = lines_upto(text, text.len() as int);
    if start < text.len() {
        done.push(text.subrange(start, text.len() as int))
    } else {
        done
    }
}

/// The characters of each slice of a list.
pub open spec fn slices(list: Seq<&str>) -> Seq<Seq<char>> {
    list.map_values(|s: &str| s@)
}

fn is_space_char(c: char) -> (b: bool)
    ensures
        b == is_space(c),
{
    let u: u32 = c as u32;
    (0x09 <= u && u <= 0x0D) || u == 0x20 || u == 0x85 || u == 0xA0 || u == 0x1680 || (0x2000 <= u
        && u <= 0x200A) || u == 0x2028 || u == 0x2029 || u == 0x202F || u == 0x205F || u
        == 0x3000
}

/// `text` without the white space at its two ends.
pub fn trim(text: &str) -> (inner: &str)
    ensures
        inner@ == trimmed(text@),
{
    let n: usize = text.unicode_len();
    let mut start: usize = 0;
    while start < n && is_space_char(text.get_char(start))
        invariant
            start <= n,
            n == text@.len(),
            skip_spaces(text@, 0) == skip_spaces(text@, start as int),
        decreases n - start,
    {
        start += 1;
    }
    let mut end: usize = n;
    while end > start && is_space_char(text.get_char(end - 1))
        invariant
            start <= end <= n,
            n == text@.len(),
            drop_spaces(text@, start as int, n as int) == drop_spaces(
                text@,
                start as int,
                end as int,
            ),
        decreases end,
    {
        end -= 1;
    }
    text.substring_char(start, end)
}

/// The lines of `text`.
pub fn split_lines<'a>(text: &'a str) -> (lines: Vec<&'a str>)
    ensures
        slices(lines@) == lines_of(text@),
{
    let n: usize = text.unicode_len();
    let mut lines: Vec<&'a str> = Vec::new();
    let mut start: usize = 0;
    let mut i: usize = 0;
    while i < n
        invariant
            start <= i <= n,
            n == text@.len(),
            (slices(lines@), start as int) == lines_upto(text@, i as int),
        decreases n - i,
    {
        if text.get_char(i) == '\n' {
            let end: usize = if i > start && text.get_char(i - 1) == '\r' {
                i - 1
            } else {
                i
            };
            let line: &'a str = text.substring_char(start, end);
            proof {
                let raw = text@.subrange(start as int, i as int);
                assert(line@ =~= without_cr(raw));
                assert(slices(lines@.push(line)) =~= slices(lines@).push(line@));
            }
            lines.push(line);
            start = i + 1;
        }
        i += 1;
    }
    if start < n {
        let line: &'a str = text.substring_char(start, n);
        proof {
            assert(slices(lines@.push(line)) =~= slices(lines@).push(line@));
        }
        lines.push(line);
    }
    lines
}

} // verus!
