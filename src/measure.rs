//! Measurements as the results table reports them: the shortest trial of an
//! operation turned into a rate. Parsing is rated against the size of its
//! input; serializing against the size of the output it actually produced,
//! which can differ from the input it was made from.
use crate::report::Operation;
use crate::throughput::{throughput, throughput_spec, Throughput};
use crate::timer::{bench, bench_into, bench_on_input, bench_private_copy, min_of, BenchError};
use vstd::prelude::*;

verus! {

/// The rate of an operation that reads a payload of `payload_len` bytes,
/// measured over `trials` trials.
pub fn parse_rate<R, E, F: FnMut() -> Result<R, E>>(trials: u64, payload_len: usize, op: F) -> (r: Result<Throughput, BenchError<E>>)
    requires
        call_requires(op, ()),
    ensures
        r matches Err(BenchError::NoTrials) <==> trials == 0,
        r matches Ok(t) ==> exists|s: Seq<u128>|
            s.len() == trials && t == throughput_spec(min_of(s) as int, payload_len as int),
        r is Ok ==> exists|x: Result<R, E>| call_ensures(op, (), x) && x is Ok,
        r matches Err(BenchError::Operation(e)) ==> call_ensures(op, (), Err(e)),
        trials > 0 && (forall|x: Result<R, E>| call_ensures(op, (), x) ==> x is Ok) ==> r is Ok,
{
    match bench(trials, op) {
        Ok(d) => Ok(throughput(d, payload_len)),
        Err(e) => Err(e),
    }
}

/// Like `parse_rate`, for an operation that rewrites its input in place: each
/// trial gets a fresh copy of `input`, made before its clock starts.
pub fn parse_rate_private_copy<R, E, F: FnMut(&mut Vec<u8>) -> Result<R, E>>(
    trials: u64,
    input: &Vec<u8>,
    op: F,
) -> (r: Result<Throughput, BenchError<E>>)
    requires
        forall|b: &mut Vec<u8>| (*b)@ == input@ ==> call_requires(op, (b,)),
    ensures
        r matches Err(BenchError::NoTrials) <==> trials == 0,
        r matches Ok(t) ==> exists|s: Seq<u128>|
            s.len() == trials && t == throughput_spec(min_of(s) as int, input@.len() as int),
        r is Ok ==> exists|b: &mut Vec<u8>, x: Result<R, E>|
            (*b)@ == input@ && call_ensures(op, (b,), x) && x is Ok,
        r matches Err(BenchError::Operation(e)) ==> exists|b: &mut Vec<u8>|
            (*b)@ == input@ && call_ensures(op, (b,), Err(e)),
        trials > 0 && (forall|b: &mut Vec<u8>, x: Result<R, E>|
            (*b)@ == input@ && call_ensures(op, (b,), x) ==> x is Ok) ==> r is Ok,
{
    match bench_private_copy(trials, input, op) {
        Ok(d) => Ok(throughput(d, input.len())),
        Err(e) => Err(e),
    }
}

/// The rate of an operation that writes its output into a buffer, measured
/// over `trials` trials on one scratch buffer allocated with room for
/// `expected_len` bytes. The rate counts the bytes that one run writes
/// into an empty buffer.
pub fn stringify_rate<R, E, F: FnMut(&mut Vec<u8>) -> Result<R, E>>(
    trials: u64,
    expected_len: usize,
    op: F,
) -> (r: Result<Throughput, BenchError<E>>)
    requires
        forall|b: &mut Vec<u8>| (*b)@ == Seq::<u8>::empty() ==> call_requires(op, (b,)),
    ensures
        r matches Err(BenchError::NoTrials) <==> trials == 0,
        r matches Ok(t) ==> exists|s: Seq<u128>, n: int|
            s.len() == trials && t == throughput_spec(min_of(s) as int, n)
                && exists|b: &mut Vec<u8>, x: Result<R, E>|
                    (*b)@ == Seq::<u8>::empty() && (*final(b))@.len() == n
                        && call_ensures(op, (b,), x) && x is Ok,
        r matches Err(BenchError::Operation(e)) ==> exists|b: &mut Vec<u8>|
            (*b)@ == Seq::<u8>::empty() && call_ensures(op, (b,), Err(e)),
        trials > 0 && (forall|b: &mut Vec<u8>, x: Result<R, E>|
            (*b)@ == Seq::<u8>::empty() && call_ensures(op, (b,), x) ==> x is Ok) ==> r is Ok,
{
    let mut buf: Vec<u8> = Vec::with_capacity(expected_len);
    match bench_into(trials, &mut buf, op) {
        Ok(d) => Ok(throughput(d, buf.len())),
        Err(e) => Err(e),
    }
}

/// What a codec adapter offers: the operations it can run, and whether its
/// parser rewrites its input, so that each trial needs a private copy.
#[derive(PartialEq, Eq, Structural, Clone, Copy, Debug)]
pub struct Capabilities {
    pub parse_dom: bool,
    pub stringify_dom: bool,
    pub parse_struct: bool,
    pub stringify_struct: bool,
    pub needs_private_copy: bool,
}

impl Capabilities {
    pub open spec fn spec_supports(&self, op: Operation) -> bool {
        match op {
            Operation::ParseDom => self.parse_dom,
            Operation::StringifyDom => self.stringify_dom,
            Operation::ParseStruct => self.parse_struct,
            Operation::StringifyStruct => self.stringify_struct,
        }
    }

    /// Whether the adapter can run `op`; a run skips the operations it cannot.
    pub fn supports(&self, op: Operation) -> (r: bool)
        ensures
            r == self.spec_supports(op),
    {
        match op {
            Operation::ParseDom => self.parse_dom,
            Operation::StringifyDom => self.stringify_dom,
            Operation::ParseStruct => self.parse_struct,
            Operation::StringifyStruct => self.stringify_struct,
        }
    }
}

/// The rate of a parse of `input` by an adapter with capabilities `caps`:
/// on a private copy of `input` that is restored before every trial when
/// the adapter rewrites its input, else on one copy made before the first
/// trial, which an adapter without that flag must leave unchanged.
pub fn parse_rate_with<R, E, F: FnMut(&mut Vec<u8>) -> Result<R, E>>(
    caps: &Capabilities,
    trials: u64,
    input: &Vec<u8>,
    op: F,
) -> (r: Result<Throughput, BenchError<E>>)
    requires
        forall|b: &mut Vec<u8>| (*b)@ == input@ ==> call_requires(op, (b,)),
        !caps.needs_private_copy ==> forall|b: &mut Vec<u8>, x: Result<R, E>|
            (*b)@ == input@ && call_ensures(op, (b,), x) ==> (*final(b))@ == input@,
    ensures
        r matches Err(BenchError::NoTrials) <==> trials == 0,
        r matches Ok(t) ==> exists|s: Seq<u128>|
            s.len() == trials && t == throughput_spec(min_of(s) as int, input@.len() as int),
        r is Ok ==> exists|b: &mut Vec<u8>, x: Result<R, E>|
            (*b)@ == input@ && call_ensures(op, (b,), x) && x is Ok,
        r matches Err(BenchError::Operation(e)) ==> exists|b: &mut Vec<u8>|
            (*b)@ == input@ && call_ensures(op, (b,), Err(e)),
        trials > 0 && (forall|b: &mut Vec<u8>, x: Result<R, E>|
            (*b)@ == input@ && call_ensures(op, (b,), x) ==> x is Ok) ==> r is Ok,
{
    match bench_on_input(trials, input, caps.needs_private_copy, op) {
        Ok(d) => Ok(throughput(d, input.len())),
        Err(e) => Err(e),
    }
}

} // verus!
