//! Display text of cells: what a value looks like once written out, and the
//! decimal notation of the integer types.

use vstd::prelude::*;
use vstd::string::*;

verus! {

/// A value that can be written out as text. The text depends on the value
/// alone, so the same value is always written the same way.
pub trait Show {
    /// The text that stands for this value.
    spec fn text(&self) -> Seq<char>;

    /// Writes the value out.
    fn show(&self) -> (s: String)
        ensures
            s@ == self.text(),
    ;
}

/// The character of a single decimal digit.
pub open spec fn digit(d: nat) -> char
    recommends
        d < 10,
{
    seq!['0', '1', '2', '3', '4', '5', '6', '7', '8', '9'][d as int]
}

/// Decimal notation of a natural number, without leading zeros.
pub open spec fn decimal(n: nat) -> Seq<char>
    decreases n,
{
    if n < 10 {
        seq![digit(n)]
    } else {
        decimal(n / 10).push(digit(n % 10))
    }
}

/// Decimal notation of an integer: a minus sign before the magnitude of a
/// negative number.
pub open spec fn signed_decimal(n: int) -> Seq<char> {
    if n < 0 {
        seq!['-'] + decimal((-n) as nat)
    } else {
        decimal(n as nat)
    }
}

/// A text is solid when it is not empty and holds no space.
pub open spec fn solid(t: Seq<char>) -> bool {
    &&& t.len() > 0
    &&& forall|i: int| 0 <= i < t.len() ==> t[i] != ' '
}

/// Decimal notation is solid.
pub proof fn lemma_decimal_solid(n: nat)
    ensures
        solid(decimal(n)),
    decreases n,
{
    if n >= 10 {
        lemma_decimal_solid(n / 10);
    }
}

/// Signed decimal notation is solid.
pub proof fn lemma_signed_decimal_solid(n: int)
    ensures
        solid(signed_decimal(n)),
{
    if n < 0 {
        lemma_decimal_solid((-n) as nat);
    } else {
        lemma_decimal_solid(n as nat);
    }
}

/// The one-character text of a digit.
fn digit_text(d: u64) -> (s: &'static str)
    requires
        d < 10,
    ensures
        s@ == seq![digit(d as nat)],
{
    let all: &'static str = "0123456789";
    proof {
        reveal_strlit("0123456789");
        assert(all.is_ascii());
    }
    let s = all.substring_ascii(d as usize, d as usize + 1);
    assert(s@ =~= seq![digit(d as nat)]);
    s
}

/// Appends the decimal notation of `n` to `out`.
pub fn push_decimal(out: &mut String, n: u64)
    ensures
        final(out)@ == old(out)@ + decimal(n as nat),
    decreases n,
{
    if n >= 10 {
        push_decimal(out, n / 10);
    }
    out.append(digit_text(n % 10));
    assert(final(out)@ =~= old(out)@ + decimal(n as nat));
}

/// The decimal notation of an unsigned number.
pub fn unsigned_text(n: u64) -> (s: String)
    ensures
        s@ == decimal(n as nat),
{
    let mut s = String::new();
    push_decimal(&mut s, n);
    assert(s@ =~= decimal(n as nat));
    s
}

/// The decimal notation of a signed number.
pub fn signed_text(n: i64) -> (s: String)
    ensures
        s@ == signed_decimal(n as int),
{
    let mut s = String::new();
    if n < 0 {
        let magnitude: u64 = (-(n + 1)) as u64 + 1;
        proof {
            reveal_strlit("-");
        }
        s.append("-");
        push_decimal(&mut s, magnitude);
        assert(s@ =~= signed_decimal(n as int));
    } else {
        push_decimal(&mut s, n as u64);
        assert(s@ =~= signed_decimal(n as int));
    }
    s
}

impl Show for String {
    open spec fn text(&self) -> Seq<char> {
        self@
    }

    fn show(&self) -> (s: String) {
        self.clone()
    }
}

impl<'a> Show for &'a str {
    open spec fn text(&self) -> Seq<char> {
        (*self)@
    }

    fn show(&self) -> (s: String) {
        String::from_str(*self)
    }
}

impl Show for u8 {
    open spec fn text(&self) -> Seq<char> {
        decimal(*self as nat)
    }

    fn show(&self) -> (s: String) {
        unsigned_text(*self as u64)
    }
}

impl Show for u16 {
    open spec fn text(&self) -> Seq<char> {
        decimal(*self as nat)
    }

    fn show(&self) -> (s: String) {
        unsigned_text(*self as u64)
    }
}

impl Show for u32 {
    open spec fn text(&self) -> Seq<char> {
        decimal(*self as nat)
    }

    fn show(&self) -> (s: String) {
        unsigned_text(*self as u64)
    }
}

impl Show for u64 {
    open spec fn text(&self) -> Seq<char> {
        decimal(*self as nat)
    }

    fn show(&self) -> (s: String) {
        unsigned_text(*self)
    }
}

impl Show for usize {
    open spec fn text(&self) -> Seq<char> {
        decimal(*self as nat)
    }

    fn show(&self) -> (s: String) {
        unsigned_text(*self as u64)
    }
}

impl Show for i8 {
    open spec fn text(&self) -> Seq<char> {
        signed_decimal(*self as int)
    }

    fn show(&self) -> (s: String) {
        signed_text(*self as i64)
    }
}

impl Show for i16 {
    open spec fn text(&self) -> Seq<char> {
        signed_decimal(*self as int)
    }

    fn show(&self) -> (s: String) {
        signed_text(*self as i64)
    }
}

impl Show for i32 {
    open spec fn text(&self) -> Seq<char> {
        signed_decimal(*self as int)
    }

    fn show(&self) -> (s: String) {
        signed_text(*self as i64)
    }
}

impl Show for i64 {
    open spec fn text(&self) -> Seq<char> {
        signed_decimal(*self as int)
    }

    fn show(&self) -> (s: String) {
        signed_text(*self)
    }
}

impl Show for isize {
    open spec fn text(&self) -> Seq<char> {
        signed_decimal(*self as int)
    }

    fn show(&self) -> (s: String) {
        signed_text(*self as i64)
    }
}

} // verus!
