//! Text of the results table: one cell per operation, right-aligned rates in
//! MB/s with the digits the rate was measured to, and a blank cell for an operation that was not
//! measured, so that "not measured" never reads as a rate of zero.
use crate::throughput::{pow10, Throughput};
use crate::timer::BenchError;
use vstd::prelude::*;

verus! {

/// Width of the number part of a cell.
pub const RATE_WIDTH: usize = 6;

/// Width of a whole cell: the number and the unit " MB/s".
pub const CELL_WIDTH: usize = 11;

pub open spec fn digit_char(d: int) -> char {
    if d == 0 { '0' }
    else if d == 1 { '1' }
    else if d == 2 { '2' }
    else if d == 3 { '3' }
    else if d == 4 { '4' }
    else if d == 5 { '5' }
    else if d == 6 { '6' }
    else if d == 7 { '7' }
    else if d == 8 { '8' }
    else { '9' }
}

/// `n` written in decimal, without leading zeros.
pub open spec fn decimal_text(n: nat) -> Seq<char>
    decreases n,
{
    if n < 10 {
        seq![digit_char(n as int)]
    } else {
        decimal_text(n / 10) + seq![digit_char((n % 10) as int)]
    }
}

proof fn lemma_decimal_len(n: nat, j: nat)
    requires
        j >= 1,
        n < pow10(j),
    ensures
        decimal_text(n).len() <= j,
    decreases n,
{
    if n >= 10 {
        assert(j >= 2) by {
            if j == 1 {
                assert(pow10(1) == 10 * pow10(0));
            }
        }
        let p = pow10((j - 1) as nat);
        assert(n / 10 < p) by (nonlinear_arith)
            requires n < 10 * p;
        lemma_decimal_len(n / 10, (j - 1) as nat);
    }
}

proof fn lemma_u128_decimal_len(n: u128)
    ensures
        decimal_text(n as nat).len() <= 39,
{
    reveal_with_fuel(pow10, 40);
    assert(pow10(39) == 1_000_000_000_000_000_000_000_000_000_000_000_000_000nat);
    lemma_decimal_len(n as nat, 39);
}

/// `n` with its last `k` decimal digits dropped.
pub open spec fn drop_digits(n: nat, k: nat) -> nat
    decreases k,
{
    if k == 0 {
        n
    } else {
        drop_digits(n / 10, (k - 1) as nat)
    }
}

/// The last `k` decimal digits of `n`, leading zeros included.
pub open spec fn last_digits(n: nat, k: nat) -> Seq<char>
    decreases k,
{
    if k == 0 {
        Seq::empty()
    } else {
        last_digits(n / 10, (k - 1) as nat) + seq![digit_char((n % 10) as int)]
    }
}

proof fn lemma_last_digits_len(n: nat, k: nat)
    ensures
        last_digits(n, k).len() == k,
    decreases k,
{
    if k > 0 {
        lemma_last_digits_len(n / 10, (k - 1) as nat);
    }
}

/// A rate as text: `digits` with a decimal point `scale` places from the
/// right; or "inf" for a rate without bound.
pub open spec fn rate_text(t: Throughput) -> Seq<char> {
    match t {
        Throughput::Unbounded => seq!['i', 'n', 'f'],
        Throughput::Rate { digits, scale } => if scale == 0 {
            decimal_text(digits as nat)
        } else {
            decimal_text(drop_digits(digits as nat, scale as nat)) + seq!['.'] + last_digits(
                digits as nat,
                scale as nat,
            )
        },
    }
}

pub open spec fn spaces(k: int) -> Seq<char> {
    Seq::new(if k > 0 { k as nat } else { 0 }, |i: int| ' ')
}

/// `s` right-aligned in a field of `w` characters; longer text is kept whole.
pub open spec fn pad_left(s: Seq<char>, w: int) -> Seq<char> {
    spaces(w - s.len()) + s
}

/// A table cell: blank when nothing was measured, else the rate and unit.
pub open spec fn cell_text(m: Option<Throughput>) -> Seq<char> {
    match m {
        None => spaces(CELL_WIDTH as int),
        Some(t) => pad_left(rate_text(t), RATE_WIDTH as int) + seq![' ', 'M', 'B', '/', 's'],
    }
}

fn digit_str(d: u128) -> (r: &'static str)
    requires
        d < 10,
    ensures
        r@ == seq![digit_char(d as int)],
{
    if d == 0 { proof { reveal_strlit("0"); } "0" }
    else if d == 1 { proof { reveal_strlit("1"); } "1" }
    else if d == 2 { proof { reveal_strlit("2"); } "2" }
    else if d == 3 { proof { reveal_strlit("3"); } "3" }
    else if d == 4 { proof { reveal_strlit("4"); } "4" }
    else if d == 5 { proof { reveal_strlit("5"); } "5" }
    else if d == 6 { proof { reveal_strlit("6"); } "6" }
    else if d == 7 { proof { reveal_strlit("7"); } "7" }
    else if d == 8 { proof { reveal_strlit("8"); } "8" }
    else { proof { reveal_strlit("9"); } "9" }
}

/// Appends `n` in decimal to `out`, and returns how many characters that was.
fn push_decimal(out: &mut String, n: u128) -> (k: usize)
    ensures
        final(out)@ == old(out)@ + decimal_text(n as nat),
        k == decimal_text(n as nat).len(),
        k <= 39,
    decreases n,
{
    proof { lemma_u128_decimal_len(n); }
    let mut k: usize = 0;
    if n >= 10 {
        k = push_decimal(out, n / 10);
    }
    out.append(digit_str(n % 10));
    proof {
        if n < 10 {
            assert(decimal_text(n as nat) == seq![digit_char(n as int)]);
        }
    }
    assert(final(out)@ =~= old(out)@ + decimal_text(n as nat));
    k + 1
}

fn push_spaces(out: &mut String, k: usize)
    ensures
        final(out)@ == old(out)@ + spaces(k as int),
{
    let mut i: usize = 0;
    while i < k
        invariant
            i <= k,
            out@ == old(out)@ + spaces(i as int),
        decreases k - i,
    {
        proof { reveal_strlit(" "); }
        out.append(" ");
        i = i + 1;
        assert(out@ =~= old(out)@ + spaces(i as int));
    }
}

/// Appends the last `k` digits of `n` to `out`.
fn push_last_digits(out: &mut String, n: u128, k: u8)
    ensures
        final(out)@ == old(out)@ + last_digits(n as nat, k as nat),
    decreases k,
{
    if k > 0 {
        push_last_digits(out, n / 10, k - 1);
        out.append(digit_str(n % 10));
        assert(final(out)@ =~= old(out)@ + last_digits(n as nat, k as nat));
    } else {
        assert(final(out)@ =~= old(out)@ + last_digits(n as nat, k as nat));
    }
}

/// The text of one cell of the results table for a measured rate, or for
/// an operation that was not measured.
pub fn format_cell(m: Option<Throughput>) -> (r: String)
    ensures
        r@ == cell_text(m),
{
    let mut out = String::new();
    match m {
        None => {
            push_spaces(&mut out, CELL_WIDTH);
        },
        Some(t) => {
            let mut num = String::new();
            let len: usize = match t {
                Throughput::Unbounded => {
                    proof { reveal_strlit("inf"); }
                    num.append("inf");
                    3
                },
                Throughput::Rate { digits, scale } => {
                    let mut whole: u128 = digits;
                    let mut j: u8 = 0;
                    while j < scale
                        invariant
                            j <= scale,
                            drop_digits(digits as nat, scale as nat) == drop_digits(
                                whole as nat,
                                (scale - j) as nat,
                            ),
                        decreases scale - j,
                    {
                        whole = whole / 10;
                        j = j + 1;
                    }
                    let k = push_decimal(&mut num, whole);
                    if scale > 0 {
                        proof { reveal_strlit("."); }
                        num.append(".");
                        push_last_digits(&mut num, digits, scale);
                        proof { lemma_last_digits_len(digits as nat, scale as nat); }
                        k + 1 + scale as usize
                    } else {
                        k
                    }
                },
            };
            assert(num@ =~= rate_text(t));
            if len < RATE_WIDTH {
                push_spaces(&mut out, RATE_WIDTH - len);
            }
            assert(out@ =~= spaces(RATE_WIDTH - rate_text(t).len()));
            out.append(num.as_str());
            proof { reveal_strlit(" MB/s"); }
            out.append(" MB/s");
            assert(out@ =~= cell_text(m));
        },
    }
    assert(m is None ==> out@ =~= cell_text(m));
    out
}

/// The operations that a row of the table reports, in column order.
#[derive(PartialEq, Eq, Structural, Clone, Copy, Debug)]
pub enum Operation {
    ParseDom,
    StringifyDom,
    ParseStruct,
    StringifyStruct,
}

/// The rates measured for one library on one fixture; `None` marks an
/// operation that was not measured.
#[derive(PartialEq, Eq, Structural, Clone, Copy, Debug)]
pub struct ResultRow {
    pub parse_dom: Option<Throughput>,
    pub stringify_dom: Option<Throughput>,
    pub parse_struct: Option<Throughput>,
    pub stringify_struct: Option<Throughput>,
}

impl ResultRow {
    /// The cell of the row that holds `op`.
    pub open spec fn cell(&self, op: Operation) -> Option<Throughput> {
        match op {
            Operation::ParseDom => self.parse_dom,
            Operation::StringifyDom => self.stringify_dom,
            Operation::ParseStruct => self.parse_struct,
            Operation::StringifyStruct => self.stringify_struct,
        }
    }

    /// A row in which nothing has been measured.
    pub fn new() -> (r: ResultRow)
        ensures
            forall|op: Operation| r.cell(op) is None,
    {
        ResultRow { parse_dom: None, stringify_dom: None, parse_struct: None, stringify_struct: None }
    }

    /// Records the rate measured for `op`, leaving the other cells as they were.
    pub fn set(&mut self, op: Operation, t: Throughput)
        ensures
            final(self).cell(op) == Some(t),
            forall|o: Operation| o != op ==> final(self).cell(o) == old(self).cell(o),
    {
        match op {
            Operation::ParseDom => self.parse_dom = Some(t),
            Operation::StringifyDom => self.stringify_dom = Some(t),
            Operation::ParseStruct => self.parse_struct = Some(t),
            Operation::StringifyStruct => self.stringify_struct = Some(t),
        }
    }

    /// Files the outcome of measuring `op`: a rate fills its cell; a failed
    /// measurement is handed back and leaves every cell, those measured
    /// before included, as it was.
    pub fn record<E>(&mut self, op: Operation, m: Result<Throughput, BenchError<E>>) -> (r: Result<(), BenchError<E>>)
        ensures
            m matches Ok(t) ==> r is Ok && final(self).cell(op) == Some(t) && forall|o: Operation|
                o != op ==> final(self).cell(o) == old(self).cell(o),
            m is Err ==> *final(self) == *old(self),
            m matches Err(BenchError::NoTrials) ==> r matches Err(BenchError::NoTrials),
            m matches Err(BenchError::Operation(e)) ==> (r matches Err(BenchError::Operation(f))
                && f == e),
    {
        match m {
            Ok(t) => {
                self.set(op, t);
                Ok(())
            },
            Err(e) => Err(e),
        }
    }

    /// The row's cells side by side, in column order.
    pub fn format(&self) -> (r: String)
        ensures
            r@ == cell_text(self.parse_dom) + cell_text(self.stringify_dom) + cell_text(
                self.parse_struct,
            ) + cell_text(self.stringify_struct),
    {
        let mut out = format_cell(self.parse_dom);
        let c = format_cell(self.stringify_dom);
        out.append(c.as_str());
        let c = format_cell(self.parse_struct);
        out.append(c.as_str());
        let c = format_cell(self.stringify_struct);
        out.append(c.as_str());
        out
    }
}

} // verus!
