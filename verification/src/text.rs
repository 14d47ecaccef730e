//! The text of single keys and values, as `{:?}` prints them.
//!
//! Integers and truth values are written out here, digit by digit. The text
//! of a string is left to std, which knows what to escape.

use vstd::prelude::*;
use vstd::string::*;

verus! {

/// A value that knows the text `{:?}` prints for it.
///
/// Keys and values of a map need this to be laid out. A type of one's own
/// joins by saying what its text is and writing it.
pub trait DebugText {
    /// The text of the value.
    spec fn debug_text(&self) -> Seq<char>;

    /// Writes the value out.
    fn debug_string(&self) -> (text: String)
        ensures
            text@ == self.debug_text(),
    ;
}

/// The character of a decimal digit.
pub open spec fn digit_char(digit: int) -> char
    recommends
        0 <= digit < 10,
{
    seq!['0', '1', '2', '3', '4', '5', '6', '7', '8', '9'][digit]
}

/// The decimal digits of a natural number, most significant first, without
/// leading zeros.
pub open spec fn decimal_text(n: nat) -> Seq<char>
    decreases n,
{
    if n < 10 {
        seq![digit_char(n as int)]
    } else {
        decimal_text(n / 10).push(digit_char((n % 10) as int))
    }
}

/// The decimal text of an integer: a minus sign before the digits of a
/// negative one.
pub open spec fn int_text(x: int) -> Seq<char> {
    if x < 0 {
        seq!['-'] + decimal_text((-x) as nat)
    } else {
        decimal_text(x as nat)
    }
}

/// The one-character string of a decimal digit.
fn digit_str(digit: u8) -> (s: &'static str)
    requires
        digit < 10,
    ensures
        s@ == seq![digit_char(digit as int)],
{
    proof {
        reveal_strlit("0");
        reveal_strlit("1");
        reveal_strlit("2");
        reveal_strlit("3");
        reveal_strlit("4");
        reveal_strlit("5");
        reveal_strlit("6");
        reveal_strlit("7");
        reveal_strlit("8");
        reveal_strlit("9");
    }
    match digit {
        0 => "0",
        1 => "1",
        2 => "2",
        3 => "3",
        4 => "4",
        5 => "5",
        6 => "6",
        7 => "7",
        8 => "8",
        _ => "9",
    }
}

/// Appends the decimal digits of `n` to `text`.
fn append_decimal(text: &mut String, n: u128)
    ensures
        final(text)@ == old(text)@ + decimal_text(n as nat),
    decreases n,
{
    if n >= 10 {
        append_decimal(text, n / 10);
    }
    text.append(digit_str((n % 10) as u8));
}

/// The decimal text of an unsigned integer.
pub fn unsigned_string(n: u128) -> (text: String)
    ensures
        text@ == int_text(n as int),
{
    let mut text = String::new();
    append_decimal(&mut text, n);
    text
}

/// The decimal text of a signed integer.
pub fn signed_string(x: i128) -> (text: String)
    ensures
        text@ == int_text(x as int),
{
    let mut text = String::new();
    if x < 0 {
        text.append("-");
        proof {
            reveal_strlit("-");
        }
        let magnitude: u128 = (-(x + 1)) as u128 + 1;
        append_decimal(&mut text, magnitude);
    } else {
        append_decimal(&mut text, x as u128);
    }
    text
}

impl DebugText for u8 {
    open spec fn debug_text(&self) -> Seq<char> {
        int_text(*self as int)
    }

    fn debug_string(&self) -> (text: String) {
        unsigned_string(*self as u128)
    }
}

impl DebugText for u16 {
    open spec fn debug_text(&self) -> Seq<char> {
        int_text(*self as int)
    }

    fn debug_string(&self) -> (text: String) {
        unsigned_string(*self as u128)
    }
}

impl DebugText for u32 {
    open spec fn debug_text(&self) -> Seq<char> {
        int_text(*self as int)
    }

    fn debug_string(&self) -> (text: String) {
        unsigned_string(*self as u128)
    }
}

impl DebugText for u64 {
    open spec fn debug_text(&self) -> Seq<char> {
        int_text(*self as int)
    }

    fn debug_string(&self) -> (text: String) {
        unsigned_string(*self as u128)
    }
}

impl DebugText for u128 {
    open spec fn debug_text(&self) -> Seq<char> {
        int_text(*self as int)
    }

    fn debug_string(&self) -> (text: String) {
        unsigned_string(*self)
    }
}

impl DebugText for usize {
    open spec fn debug_text(&self) -> Seq<char> {
        int_text(*self as int)
    }

    fn debug_string(&self) -> (text: String) {
        unsigned_string(*self as u128)
    }
}

impl DebugText for i8 {
    open spec fn debug_text(&self) -> Seq<char> {
        int_text(*self as int)
    }

    fn debug_string(&self) -> (text: String) {
        signed_string(*self as i128)
    }
}

impl DebugText for i16 {
    open spec fn debug_text(&self) -> Seq<char> {
        int_text(*self as int)
    }

    fn debug_string(&self) -> (text: String) {
        signed_string(*self as i128)
    }
}

impl DebugText for i32 {
    open spec fn debug_text(&self) -> Seq<char> {
        int_text(*self as int)
    }

    fn debug_string(&self) -> (text: String) {
        signed_string(*self as i128)
    }
}

impl DebugText for i64 {
    open spec fn debug_text(&self) -> Seq<char> {
        int_text(*self as int)
    }

    fn debug_string(&self) -> (text: String) {
        signed_string(*self as i128)
    }
}

impl DebugText for i128 {
    open spec fn debug_text(&self) -> Seq<char> {
        int_text(*self as int)
    }

    fn debug_string(&self) -> (text: String) {
        signed_string(*self)
    }
}

impl DebugText for isize {
    open spec fn debug_text(&self) -> Seq<char> {
        int_text(*self as int)
    }

    fn debug_string(&self) -> (text: String) {
        signed_string(*self as i128)
    }
}

/// The text of a truth value: its keyword.
pub open spec fn bool_text(b: bool) -> Seq<char> {
    if b {
        seq!['t', 'r', 'u', 'e']
    } else {
        seq!['f', 'a', 'l', 's', 'e']
    }
}

impl DebugText for bool {
    open spec fn debug_text(&self) -> Seq<char> {
        bool_text(*self)
    }

    fn debug_string(&self) -> (text: String) {
        proof {
            reveal_strlit("true");
            reveal_strlit("false");
        }
        if *self {
            String::from_str("true")
        } else {
            String::from_str("false")
        }
    }
}

/// The text that `{:?}` prints for a string with the given characters: the
/// characters between double quotes, with quotes, backslashes, control
/// characters and other unprintable characters written as escapes.
pub uninterp spec fn str_debug_text(chars: Seq<char>) -> Seq<char>;

/// Formats a string slice with `{:?}`, that is by `<str as Debug>::fmt`. The
/// contract claims only that the text is the one that its characters
/// determine.
#[verifier::external_body]
pub(crate) fn str_debug_string(s: &str) -> (text: String)
    ensures
        text@ == str_debug_text(s@),
{
    format!("{:?}", s)
}

impl DebugText for str {
    open spec fn debug_text(&self) -> Seq<char> {
        str_debug_text(self@)
    }

    fn debug_string(&self) -> (text: String) {
        str_debug_string(self)
    }
}

impl DebugText for String {
    open spec fn debug_text(&self) -> Seq<char> {
        str_debug_text(self@)
    }

    fn debug_string(&self) -> (text: String) {
        str_debug_string(self.as_str())
    }
}

impl<T: DebugText + ?Sized> DebugText for &T {
    open spec fn debug_text(&self) -> Seq<char> {
        (**self).debug_text()
    }

    fn debug_string(&self) -> (text: String) {
        (**self).debug_string()
    }
}

} // verus!
