//! Text conversions: unsigned decimal numbers, whitespace trimming and the
//! comma separated lists that hold a layer's tile data.

use vstd::prelude::*;
use vstd::utf8::{decode_utf8, valid_utf8};

verus! {

/// Errors of the conversion of a text into a value.
#[derive(Clone, Debug, PartialEq, Eq)]
pub enum ParsingError {
    /// The text is empty.
    EmptyString,
    /// The text does not stand for a value of the wanted type.
    InvalidString(String),
}

/// `c` is a decimal digit.
pub open spec fn is_digit(c: char) -> bool {
    '0' <= c && c <= '9'
}

/// The value of the decimal digits `s`, the most significant first.
pub open spec fn decimal_value(s: Seq<char>) -> nat
    decreases s.len(),
{
    if s.len() == 0 {
        0
    } else {
        decimal_value(s.drop_last()) * 10 + (s.last() as nat - '0' as nat) as nat
    }
}

/// `s` without its leading `+`, if it has one.
pub open spec fn unsigned_digits(s: Seq<char>) -> Seq<char> {
    if s.len() > 0 && s[0] == '+' {
        s.drop_first()
    } else {
        s
    }
}

/// The `u32` that `s` writes in decimal, with an optional leading `+`; `None`
/// when `s` holds anything else or a value above `u32::MAX`.
pub open spec fn decimal_u32(s: Seq<char>) -> Option<u32> {
    let d = unsigned_digits(s);
    if d.len() > 0 && (forall|i: int| 0 <= i < d.len() ==> is_digit(#[trigger] d[i]))
        && decimal_value(d) <= u32::MAX {
        Some(decimal_value(d) as u32)
    } else {
        None
    }
}

/// Reads the unsigned decimal number that `s` writes.
pub fn parse_decimal(s: &[char]) -> (r: Option<u32>)
    ensures
        r == decimal_u32(s@),
{
    let n = s.len();
    let start: usize = if n > 0 && s[0] == '+' { 1 } else { 0 };
    let ghost d = unsigned_digits(s@);
    assert(d == s@.subrange(start as int, n as int));
    if start == n {
        return None;
    }
    let mut value: u64 = 0;
    let mut too_big = false;
    let mut i: usize = start;
    while i < n
        invariant
            start <= i <= n,
            n == s@.len(),
            d == s@.subrange(start as int, n as int),
            d == unsigned_digits(s@),
            forall|j: int| start <= j < i ==> is_digit(#[trigger] s@[j]),
            !too_big ==> value == decimal_value(s@.subrange(start as int, i as int)),
            !too_big ==> value <= u32::MAX,
            too_big ==> decimal_value(s@.subrange(start as int, i as int)) > u32::MAX,
        decreases n - i,
    {
        let c = s[i];
        if !('0' <= c && c <= '9') {
            assert(d[i - start] == c);
            assert(!is_digit(d[i - start]));
            return None;
        }
        let ghost prev = s@.subrange(start as int, i as int);
        assert(s@.subrange(start as int, i + 1) == prev.push(c));
        assert(s@.subrange(start as int, i + 1).drop_last() == prev);
        if !too_big {
            let digit = (c as u32 - '0' as u32) as u64;
            value = value * 10 + digit;
            if value > u32::MAX as u64 {
                too_big = true;
            }
        }
        i = i + 1;
    }
    assert(s@.subrange(start as int, n as int) == d);
    if too_big {
        None
    } else {
        Some(value as u32)
    }
}


impl ParsingError {
    /// A sentence that describes the error.
    pub fn description(&self) -> (r: String)
        ensures
            match self {
                ParsingError::EmptyString => r@ == "cannot parse from an empty string"@,
                ParsingError::InvalidString(s) => r@ == "this string is invalid: "@ + s@,
            },
    {
        match self {
            ParsingError::EmptyString => "cannot parse from an empty string".to_owned(),
            ParsingError::InvalidString(s) => {
                let mut r = "this string is invalid: ".to_owned();
                r.append(s.as_str());
                r
            },
        }
    }
}

/// How a conversion of the text `s` fails: `EmptyString` when `s` is empty,
/// else `InvalidString` with `s` itself.
pub open spec fn rejects<T>(r: Result<T, ParsingError>, s: Seq<char>) -> bool {
    match r {
        Ok(_) => false,
        Err(ParsingError::EmptyString) => s.len() == 0,
        Err(ParsingError::InvalidString(t)) => s.len() > 0 && t@ == s,
    }
}

/// The characters of `s`.
pub fn chars_of(s: &str) -> (r: Vec<char>)
    ensures
        r@ == s@,
{
    let mut r: Vec<char> = Vec::new();
    for c in it: s.chars()
        invariant
            it.seq() == s@,
            r@ == s@.take(it.index() as int),
    {
        assert(s@.take(it.index() + 1) == s@.take(it.index() as int).push(c));
        r.push(c);
    }
    assert(s@.take(s@.len() as int) == s@);
    r
}

/// Reads the unsigned decimal number that `s` writes: a `u32`, with an
/// optional leading `+` and nothing around it.
pub fn parse_u32(s: &str) -> (r: Result<u32, ParsingError>)
    ensures
        match decimal_u32(s@) {
            Some(v) => r == Ok::<u32, ParsingError>(v),
            None => rejects(r, s@),
        },
{
    let cs = chars_of(s);
    match parse_decimal(cs.as_slice()) {
        Some(v) => Ok(v),
        None => {
            if cs.len() == 0 {
                Err(ParsingError::EmptyString)
            } else {
                Err(ParsingError::InvalidString(s.to_owned()))
            }
        },
    }
}

/// `c` in lower case, where it is an ASCII capital letter.
pub open spec fn ascii_lower(c: char) -> char {
    if 'A' <= c && c <= 'Z' {
        ((c as u32) + 32) as char
    } else {
        c
    }
}

/// `s` with its ASCII capital letters in lower case.
pub open spec fn ascii_lowered(s: Seq<char>) -> Seq<char> {
    s.map_values(|c: char| ascii_lower(c))
}

/// Whether `s` is `word` up to the case of ASCII letters; `word` is in lower
/// case.
pub fn same_word_ignoring_case(s: &[char], word: &[char]) -> (r: bool)
    ensures
        r == (ascii_lowered(s@) == word@),
{
    if s.len() != word.len() {
        assert(ascii_lowered(s@).len() != word@.len());
        return false;
    }
    let mut i: usize = 0;
    while i < s.len()
        invariant
            i <= s@.len() == word@.len(),
            forall|j: int| 0 <= j < i ==> ascii_lower(#[trigger] s@[j]) == word@[j],
        decreases s.len() - i,
    {
        let c = s[i];
        let lower: char = if 'A' <= c && c <= 'Z' { ((c as u8) + 32) as char } else { c };
        if lower != word[i] {
            assert(ascii_lowered(s@)[i as int] != word@[i as int]);
            return false;
        }
        i = i + 1;
    }
    assert(ascii_lowered(s@) == word@);
    true
}


/// `c` has the Unicode `White_Space` property.
pub open spec fn is_white_space(c: char) -> bool {
    ('\t' <= c && c <= '\r') || c == ' ' || c == '\u{85}' || c == '\u{a0}' || c == '\u{1680}'
        || ('\u{2000}' <= c && c <= '\u{200a}') || c == '\u{2028}' || c == '\u{2029}'
        || c == '\u{202f}' || c == '\u{205f}' || c == '\u{3000}'
}

/// Whether `c` has the Unicode `White_Space` property.
pub fn white_space(c: char) -> (r: bool)
    ensures
        r == is_white_space(c),
{
    ('\t' <= c && c <= '\r') || c == ' ' || c == '\u{85}' || c == '\u{a0}' || c == '\u{1680}'
        || ('\u{2000}' <= c && c <= '\u{200a}') || c == '\u{2028}' || c == '\u{2029}'
        || c == '\u{202f}' || c == '\u{205f}' || c == '\u{3000}'
}

/// `s` without its leading whitespace.
pub open spec fn trim_start(s: Seq<char>) -> Seq<char>
    decreases s.len(),
{
    if s.len() > 0 && is_white_space(s[0]) {
        trim_start(s.drop_first())
    } else {
        s
    }
}

/// `s` without its trailing whitespace.
pub open spec fn trim_end(s: Seq<char>) -> Seq<char>
    decreases s.len(),
{
    if s.len() > 0 && is_white_space(s.last()) {
        trim_end(s.drop_last())
    } else {
        s
    }
}

/// `s` without whitespace at either end.
pub open spec fn trim(s: Seq<char>) -> Seq<char> {
    trim_end(trim_start(s))
}

/// The bounds of `s` without whitespace at either end.
fn trimmed_bounds(s: &[char]) -> (r: (usize, usize))
    ensures
        r.0 <= r.1 <= s@.len(),
        s@.subrange(r.0 as int, r.1 as int) == trim(s@),
{
    let n = s.len();
    let mut lo: usize = 0;
    assert(s@.subrange(0, n as int) == s@);
    while lo < n && white_space(s[lo])
        invariant
            lo <= n == s@.len(),
            trim_start(s@) == trim_start(s@.subrange(lo as int, n as int)),
        decreases n - lo,
    {
        assert(s@.subrange(lo as int, n as int).drop_first() == s@.subrange(lo + 1, n as int));
        lo = lo + 1;
    }
    let ghost front = s@.subrange(lo as int, n as int);
    assert(trim_start(s@) == front);
    let mut hi: usize = n;
    while hi > lo && white_space(s[hi - 1])
        invariant
            lo <= hi <= n == s@.len(),
            front == s@.subrange(lo as int, n as int),
            trim_end(front) == trim_end(s@.subrange(lo as int, hi as int)),
        decreases hi,
    {
        assert(s@.subrange(lo as int, hi as int).drop_last() == s@.subrange(lo as int, hi - 1));
        hi = hi - 1;
    }
    (lo, hi)
}

/// A separator of the fields of a layer's tile data.
pub open spec fn is_separator(c: char) -> bool {
    c == ',' || c == '\n'
}

/// The fields of `s` between separators, in order: one more than there are
/// separators.
pub open spec fn fields(s: Seq<char>) -> Seq<Seq<char>>
    decreases s.len(),
{
    if s.len() == 0 {
        seq![Seq::empty()]
    } else {
        let f = fields(s.drop_last());
        if is_separator(s.last()) {
            f.push(Seq::empty())
        } else {
            f.update(f.len() - 1, f.last().push(s.last()))
        }
    }
}

/// The numbers that the fields `fs` write, in order, with surrounding
/// whitespace ignored; a field that writes none is left out.
pub open spec fn field_numbers(fs: Seq<Seq<char>>) -> Seq<u32>
    decreases fs.len(),
{
    if fs.len() == 0 {
        Seq::empty()
    } else {
        let r = field_numbers(fs.drop_last());
        match decimal_u32(trim(fs.last())) {
            Some(v) => r.push(v),
            None => r,
        }
    }
}

/// The global tile ids that a layer's tile data `s` lists.
pub open spec fn csv_gids(s: Seq<char>) -> Seq<u32> {
    field_numbers(fields(s))
}

/// Reads a field of a layer's tile data.
fn field_number(field: &Vec<char>) -> (r: Option<u32>)
    ensures
        r == decimal_u32(trim(field@)),
{
    let (lo, hi) = trimmed_bounds(field.as_slice());
    parse_decimal(&field.as_slice()[lo..hi])
}

/// Decodes a layer's tile data: numbers separated by commas and line breaks,
/// each with any whitespace around it. A field that does not write an
/// unsigned number is dropped.
pub fn decode_csv_data(data: &str) -> (r: Vec<u32>)
    ensures
        r@ == csv_gids(data@),
{
    let mut out: Vec<u32> = Vec::new();
    let mut field: Vec<char> = Vec::new();
    for c in it: data.chars()
        invariant
            it.seq() == data@,
            fields(data@.take(it.index() as int)).len() >= 1,
            out@ == field_numbers(fields(data@.take(it.index() as int)).drop_last()),
            field@ == fields(data@.take(it.index() as int)).last(),
    {
        let ghost p = data@.take(it.index() as int);
        let ghost fp = fields(p);
        assert(data@.take(it.index() + 1) == p.push(c));
        assert(p.push(c).drop_last() == p);
        if c == ',' || c == '\n' {
            let v = field_number(&field);
            assert(fp.push(Seq::empty()).drop_last() == fp);
            assert(fp.drop_last().push(fp.last()) == fp);
            match v {
                Some(v) => out.push(v),
                None => {},
            }
            field = Vec::new();
        } else {
            assert(fp.update(fp.len() - 1, fp.last().push(c)).drop_last() == fp.drop_last());
            field.push(c);
        }
    }
    assert(data@.take(data@.len() as int) == data@);
    let ghost fs = fields(data@);
    assert(fs.drop_last().push(fs.last()) == fs);
    match field_number(&field) {
        Some(v) => out.push(v),
        None => {},
    }
    out
}


/// The bytes `name` write the ASCII word `word`.
pub open spec fn tag_spells(name: Seq<u8>, word: Seq<char>) -> bool {
    name.len() == word.len() && forall|i: int| 0 <= i < name.len() ==> name[i] as u32 == #[trigger] word[i] as u32
}

/// Whether the bytes `name` write the ASCII word `word`.
pub fn spells(name: &[u8], word: &str) -> (r: bool)
    ensures
        r == tag_spells(name@, word@),
{
    let w = chars_of(word);
    if name.len() != w.len() {
        return false;
    }
    let mut i: usize = 0;
    while i < name.len()
        invariant
            i <= name@.len() == w@.len(),
            w@ == word@,
            forall|j: int| 0 <= j < i ==> name@[j] as u32 == #[trigger] w@[j] as u32,
        decreases name.len() - i,
    {
        if name[i] as u32 != w[i] as u32 {
            return false;
        }
        i = i + 1;
    }
    true
}


/// Names the text that `String::from_utf8_lossy` makes of the bytes `b`,
/// where each invalid sequence becomes a replacement character.
pub uninterp spec fn lossy_utf8(b: Seq<u8>) -> Seq<char>;

/// Relies on `std::str::from_utf8`: it accepts exactly the byte sequences
/// that are valid UTF-8, and decodes them.
#[verifier::external_body]
pub(crate) fn utf8_text(b: &[u8]) -> (r: Option<String>)
    ensures
        r is Some <==> valid_utf8(b@),
        r matches Some(s) ==> s@ == decode_utf8(b@),
{
    std::str::from_utf8(b).ok().map(|s| s.to_owned())
}

/// Relies on `String::from_utf8_lossy`: the text of `b` with each invalid
/// sequence replaced, which is the decoded text when `b` is valid UTF-8.
#[verifier::external_body]
pub(crate) fn utf8_lossy(b: &[u8]) -> (r: String)
    ensures
        r@ == lossy_utf8(b@),
        valid_utf8(b@) ==> r@ == decode_utf8(b@),
{
    String::from_utf8_lossy(b).into_owned()
}

/// A value that a text stands for.
pub trait FieldValue: Sized {
    /// The value that the text `s` stands for, if any.
    spec fn read(s: Seq<char>) -> Option<Self>;

    /// Reads the value that `s` stands for.
    fn read_text(s: &str) -> (r: Result<Self, ParsingError>)
        ensures
            match Self::read(s@) {
                Some(v) => r == Ok::<Self, ParsingError>(v),
                None => rejects(r, s@),
            },
    ;
}

impl FieldValue for u32 {
    open spec fn read(s: Seq<char>) -> Option<u32> {
        decimal_u32(s)
    }

    fn read_text(s: &str) -> (r: Result<u32, ParsingError>) {
        parse_u32(s)
    }
}

/// Stores in `buffer` the value that `text` stands for; leaves `buffer` as it
/// is when `text` stands for none.
pub fn register_data<T: FieldValue>(buffer: &mut T, text: &str)
    ensures
        *final(buffer) == match T::read(text@) {
            Some(v) => v,
            None => *old(buffer),
        },
{
    match T::read_text(text) {
        Ok(v) => *buffer = v,
        Err(_) => {},
    }
}

} // verus!
