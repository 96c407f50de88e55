//! Readings of the display front end: the raw bytes of a sensor's input
//! file, shown as text.

use vstd::prelude::*;
use vstd::utf8::{decode_utf8, valid_utf8};

use crate::text::{trim, trimmed};

verus! {

/// The raw contents of a sensor's input file, with the sensor's name.
#[derive(Debug)]
pub struct ReadResult {
    pub _bytes: Vec<u8>,
    pub name: String,
}

/// Lower-case hexadecimal digits.
pub open spec fn hex_digits() -> Seq<char> {
    seq!['0', '1', '2', '3', '4', '5', '6', '7', '8', '9', 'a', 'b', 'c', 'd', 'e', 'f']
}

/// The lower-case hexadecimal numeral of `b`, without leading zeros.
pub open spec fn hex_of(b: u8) -> Seq<char> {
    if b < 16 {
        seq![hex_digits()[b as int]]
    } else {
        seq![hex_digits()[(b / 16) as int], hex_digits()[(b % 16) as int]]
    }
}

/// The numerals of `bs`, separated by a comma and a space.
pub open spec fn hex_list(bs: Seq<u8>) -> Seq<char>
    decreases bs.len(),
{
    if bs.len() == 0 {
        Seq::empty()
    } else if bs.len() == 1 {
        hex_of(bs[0])
    } else {
        hex_list(bs.drop_last()) + seq![',', ' '] + hex_of(bs.last())
    }
}

/// The debug form of `bs` in lower-case hexadecimal: the numerals of the
/// bytes, separated by a comma and a space, in square brackets.
pub open spec fn hex_debug(bs: Seq<u8>) -> Seq<char> {
    seq!['['] + hex_list(bs) + seq![']']
}

/// The text shown for the contents `bs`: where they are valid UTF-8, the
/// decoded text without leading and trailing white space; else their debug
/// form in hexadecimal.
pub open spec fn shown_value(bs: Seq<u8>) -> Seq<char> {
    if valid_utf8(bs) {
        trimmed(decode_utf8(bs))
    } else {
        hex_debug(bs)
    }
}

/// Calls `String::from_utf8`. The contract claims that it succeeds exactly
/// on valid UTF-8, as the documentation of `String::from_utf8` states, and
/// then holds the decoded characters.
#[verifier::external_body]
fn string_from_utf8(bytes: Vec<u8>) -> (r: Option<String>)
    ensures
        r is Some <==> valid_utf8(bytes@),
        r matches Some(s) ==> s@ == decode_utf8(bytes@),
{
    String::from_utf8(bytes).ok()
}

/// Calls `String::push`. The contract claims that `c` is appended, as the
/// documentation of `String::push` states.
#[verifier::external_body]
fn push_char(s: &mut String, c: char)
    ensures
        final(s)@ == old(s)@.push(c),
{
    s.push(c);
}

fn hex_digit(d: u8) -> (c: char)
    requires
        d < 16,
    ensures
        c == hex_digits()[d as int],
{
    let digits = ['0', '1', '2', '3', '4', '5', '6', '7', '8', '9', 'a', 'b', 'c', 'd', 'e', 'f'];
    assert(digits@ =~= hex_digits());
    digits[d as usize]
}

fn push_hex(s: &mut String, b: u8)
    ensures
        final(s)@ == old(s)@ + hex_of(b),
{
    if b < 16 {
        push_char(s, hex_digit(b));
    } else {
        push_char(s, hex_digit(b / 16));
        push_char(s, hex_digit(b % 16));
    }
}

/// The debug form of `bs` in hexadecimal (see [`hex_debug`]).
pub fn format_hex_debug(bs: &Vec<u8>) -> (r: String)
    ensures
        r@ == hex_debug(bs@),
{
    let mut r = String::new();
    push_char(&mut r, '[');
    let n = bs.len();
    for i in 0..n
        invariant
            n == bs@.len(),
            r@ == seq!['['] + hex_list(bs@.take(i as int)),
    {
        let ghost before = r@;
        let ghost t = bs@.take(i + 1);
        assert(t.drop_last() =~= bs@.take(i as int));
        if i > 0 {
            push_char(&mut r, ',');
            push_char(&mut r, ' ');
        }
        push_hex(&mut r, bs[i]);
        assert(r@ =~= seq!['['] + hex_list(t));
    }
    assert(bs@.take(n as int) =~= bs@);
    push_char(&mut r, ']');
    r
}

impl ReadResult {
    /// The reading `bytes` of the sensor `name`.
    pub fn new(name: &str, bytes: Vec<u8>) -> (r: ReadResult)
        ensures
            r.name@ == name@,
            r._bytes@ == bytes@,
    {
        ReadResult { _bytes: bytes, name: name.to_owned() }
    }

    /// The text shown for this reading (see [`shown_value`]).
    pub fn get_value(&self) -> (r: String)
        ensures
            r@ == shown_value(self._bytes@),
    {
        let copy = self._bytes.clone();
        assert(copy@ =~= self._bytes@);
        match string_from_utf8(copy) {
            Some(s) => trim(s.as_str()),
            None => {
                let f = format_hex_debug(&self._bytes);
                let t = trim(f.as_str());
                proof {
                    lemma_hex_debug_trimmed(self._bytes@);
                }
                t
            },
        }
    }
}

/// A sensor's reading as shown by the front end: its name and shown text.
#[derive(Debug)]
pub struct SensorEvent {
    pub sensor_name: String,
    pub sensor_value: String,
}

impl SensorEvent {
    /// The event of the reading `r`: its sensor's name and its shown text
    /// (see [`shown_value`]).
    pub fn from(r: ReadResult) -> (e: SensorEvent)
        ensures
            e.sensor_name@ == r.name@,
            e.sensor_value@ == shown_value(r._bytes@),
    {
        let value = r.get_value();
        SensorEvent { sensor_name: r.name, sensor_value: value }
    }
}

proof fn lemma_hex_debug_trimmed(bs: Seq<u8>)
    ensures
        trimmed(hex_debug(bs)) == hex_debug(bs),
{
    let h = hex_debug(bs);
    assert(h[0] == '[');
    assert(crate::text::trim_start(h) == h);
    assert(h.last() == ']');
    assert(crate::text::trim_end(h) == h);
}

} // verus!
