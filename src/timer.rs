//! Repeated trials of an operation, keeping the shortest elapsed time.
//!
//! Durations are whole nanoseconds read from the monotonic clock. Only the
//! operation itself runs between the two clock readings of a trial: any
//! buffer reset or input copy happens before the first reading.
use crate::clock;
use std::time::Instant;
use vstd::prelude::*;

verus! {

/// The smallest of the durations in `s` (meaningful when `s` is non-empty).
pub open spec fn min_of(s: Seq<u128>) -> u128
    decreases s.len(),
{
    if s.len() <= 1 {
        s[0]
    } else {
        let m = min_of(s.drop_last());
        if s.last() < m {
            s.last()
        } else {
            m
        }
    }
}

/// Why a measurement produced no duration.
#[derive(Debug)]
pub enum BenchError<E> {
    /// A trial count of zero was asked for; nothing was run.
    NoTrials,
    /// The operation failed; the remaining trials were not run.
    Operation(E),
}

/// A benchmark session: the durations of the trials recorded so far, of
/// which only the running minimum is kept at run time.
pub struct Benchmark {
    min: Option<u128>,
    samples: Ghost<Seq<u128>>,
}

/// A started trial: the clock reading taken just before the operation.
pub struct Timer {
    start: Instant,
}

impl Benchmark {
    /// The durations recorded in this session, in order.
    pub closed spec fn view(&self) -> Seq<u128> {
        self.samples@
    }

    /// The running minimum agrees with the recorded durations.
    pub closed spec fn wf(&self) -> bool {
        match self.min {
            None => self.samples@.len() == 0,
            Some(m) => self.samples@.len() > 0 && m == min_of(self.samples@),
        }
    }

    /// A session with no trials recorded.
    pub fn new() -> (b: Benchmark)
        ensures
            b.wf(),
            b@ == Seq::<u128>::empty(),
    {
        Benchmark { min: None, samples: Ghost(Seq::empty()) }
    }

    /// Folds the duration of one trial into the running minimum.
    pub fn record(&mut self, nanos: u128)
        requires
            old(self).wf(),
        ensures
            final(self).wf(),
            final(self)@ == old(self)@.push(nanos),
    {
        let ghost s = self.samples@.push(nanos);
        assert(s.drop_last() =~= self.samples@);
        self.min = match self.min {
            None => Some(nanos),
            Some(m) => if nanos < m {
                Some(nanos)
            } else {
                Some(m)
            },
        };
        self.samples = Ghost(s);
    }

    /// Starts a trial by reading the clock. Work done by the caller before
    /// this call (copying or restoring an input) is not timed.
    pub fn start(&self) -> (t: Timer) {
        Timer { start: clock::now() }
    }

    /// Ends a trial by reading the clock, and records its duration, which is
    /// returned.
    pub fn stop(&mut self, timer: Timer) -> (nanos: u128)
        requires
            old(self).wf(),
        ensures
            final(self).wf(),
            final(self)@ == old(self)@.push(nanos),
    {
        let d = clock::elapsed(&timer.start);
        let nanos = clock::as_nanos(&d);
        self.record(nanos);
        nanos
    }

    /// The shortest recorded duration, or `None` when no trial was recorded.
    pub fn min_elapsed(&self) -> (r: Option<u128>)
        requires
            self.wf(),
        ensures
            r is None <==> self@.len() == 0,
            r matches Some(m) ==> m == min_of(self@),
    {
        self.min
    }
}

/// Runs `op` `trials` times, timing each run, and returns the shortest
/// duration. The value an operation returns is dropped only after its
/// trial's clock reading. The first failure of `op` ends the measurement
/// and is returned; a trial count of zero is refused before anything runs.
pub fn bench<R, E, F: FnMut() -> Result<R, E>>(trials: u64, op: F) -> (r: Result<u128, BenchError<E>>)
    requires
        call_requires(op, ()),
    ensures
        r matches Err(BenchError::NoTrials) <==> trials == 0,
        r matches Ok(d) ==> exists|s: Seq<u128>| s.len() == trials && d == min_of(s),
        r is Ok ==> exists|x: Result<R, E>| call_ensures(op, (), x) && x is Ok,
        r matches Err(BenchError::Operation(e)) ==> call_ensures(op, (), Err(e)),
        trials > 0 && (forall|x: Result<R, E>| call_ensures(op, (), x) ==> x is Ok) ==> r is Ok,
{
    if trials == 0 {
        return Err(BenchError::NoTrials);
    }
    let mut f = op;
    let mut session = Benchmark::new();
    let mut i: u64 = 0;
    while i < trials
        invariant
            f == op,
            call_requires(op, ()),
            session.wf(),
            session@.len() == i,
            i <= trials,
            i > 0 ==> exists|x: Result<R, E>| call_ensures(op, (), x) && x is Ok,
        decreases trials - i,
    {
        let timer = session.start();
        let out = f();
        session.stop(timer);
        match out {
            Ok(_) => {},
            Err(e) => {
                return Err(BenchError::Operation(e));
            },
        }
        i = i + 1;
    }
    match session.min_elapsed() {
        Some(m) => Ok(m),
        None => Err(BenchError::NoTrials),
    }
}

/// Runs `op` `trials` times on `buf`, timing each run, and returns the
/// shortest duration. Before each trial, outside the timed window, `buf` is
/// emptied without giving up its storage, so each run writes into an empty
/// buffer and what a run leaves there is never seen by the next. After a
/// successful measurement `buf` holds what one run on an empty buffer wrote.
pub fn bench_into<R, E, F: FnMut(&mut Vec<u8>) -> Result<R, E>>(
    trials: u64,
    buf: &mut Vec<u8>,
    op: F,
) -> (r: Result<u128, BenchError<E>>)
    requires
        forall|b: &mut Vec<u8>| (*b)@ == Seq::<u8>::empty() ==> call_requires(op, (b,)),
    ensures
        r matches Err(BenchError::NoTrials) <==> trials == 0,
        trials == 0 ==> final(buf)@ == old(buf)@,
        r matches Ok(d) ==> exists|s: Seq<u128>| s.len() == trials && d == min_of(s),
        r is Ok ==> exists|b: &mut Vec<u8>, x: Result<R, E>|
            (*b)@ == Seq::<u8>::empty() && (*final(b))@ == final(buf)@
                && call_ensures(op, (b,), x) && x is Ok,
        r matches Err(BenchError::Operation(e)) ==> exists|b: &mut Vec<u8>|
            (*b)@ == Seq::<u8>::empty() && call_ensures(op, (b,), Err(e)),
        trials > 0 && (forall|b: &mut Vec<u8>, x: Result<R, E>|
            (*b)@ == Seq::<u8>::empty() && call_ensures(op, (b,), x) ==> x is Ok) ==> r is Ok,
{
    if trials == 0 {
        return Err(BenchError::NoTrials);
    }
    let mut f = op;
    let mut session = Benchmark::new();
    let mut i: u64 = 0;
    while i < trials
        invariant
            f == op,
            forall|b: &mut Vec<u8>| (*b)@ == Seq::<u8>::empty() ==> call_requires(op, (b,)),
            session.wf(),
            session@.len() == i,
            i <= trials,
            i > 0 ==> exists|b: &mut Vec<u8>, x: Result<R, E>|
                (*b)@ == Seq::<u8>::empty() && (*final(b))@ == buf@
                    && call_ensures(op, (b,), x) && x is Ok,
        decreases trials - i,
    {
        buf.clear();
        let timer = session.start();
        let out = f(buf);
        session.stop(timer);
        match out {
            Ok(_) => {},
            Err(e) => {
                return Err(BenchError::Operation(e));
            },
        }
        i = i + 1;
    }
    match session.min_elapsed() {
        Some(m) => Ok(m),
        None => Err(BenchError::NoTrials),
    }
}

/// Like `bench_into`, on a scratch buffer of its own that is allocated once,
/// before any trial, with room for `expected_len` bytes. The buffer grows if
/// a run writes more.
pub fn bench_with_buf<R, E, F: FnMut(&mut Vec<u8>) -> Result<R, E>>(
    trials: u64,
    expected_len: usize,
    op: F,
) -> (r: Result<u128, BenchError<E>>)
    requires
        forall|b: &mut Vec<u8>| (*b)@ == Seq::<u8>::empty() ==> call_requires(op, (b,)),
    ensures
        r matches Err(BenchError::NoTrials) <==> trials == 0,
        r matches Ok(d) ==> exists|s: Seq<u128>| s.len() == trials && d == min_of(s),
        r is Ok ==> exists|b: &mut Vec<u8>, x: Result<R, E>|
            (*b)@ == Seq::<u8>::empty() && call_ensures(op, (b,), x) && x is Ok,
        r matches Err(BenchError::Operation(e)) ==> exists|b: &mut Vec<u8>|
            (*b)@ == Seq::<u8>::empty() && call_ensures(op, (b,), Err(e)),
        trials > 0 && (forall|b: &mut Vec<u8>, x: Result<R, E>|
            (*b)@ == Seq::<u8>::empty() && call_ensures(op, (b,), x) ==> x is Ok) ==> r is Ok,
{
    let mut buf: Vec<u8> = Vec::with_capacity(expected_len);
    bench_into(trials, &mut buf, op)
}

/// Makes `dst` an exact copy of `src`, keeping the storage of `dst`.
fn restore(dst: &mut Vec<u8>, src: &Vec<u8>)
    ensures
        final(dst)@ == src@,
{
    dst.clear();
    let mut i: usize = 0;
    while i < src.len()
        invariant
            i <= src@.len(),
            dst@ == src@.take(i as int),
        decreases src@.len() - i,
    {
        dst.push(src[i]);
        i = i + 1;
        assert(dst@ =~= src@.take(i as int));
    }
    assert(src@.take(src@.len() as int) =~= src@);
}

/// Runs `op` `trials` times on a private copy of `input`, timing each run,
/// and returns the shortest duration. The copy is made before the first
/// trial; with `restore_each` it is made anew before every trial, outside
/// the timed window, for operations that consume or rewrite their input.
/// Without it, `op` must leave its input as it found it. Either way every
/// call is handed bytes equal to `input`, and `input` itself is never
/// handed to `op`.
pub fn bench_on_input<R, E, F: FnMut(&mut Vec<u8>) -> Result<R, E>>(
    trials: u64,
    input: &Vec<u8>,
    restore_each: bool,
    op: F,
) -> (r: Result<u128, BenchError<E>>)
    requires
        forall|b: &mut Vec<u8>| (*b)@ == input@ ==> call_requires(op, (b,)),
        !restore_each ==> forall|b: &mut Vec<u8>, x: Result<R, E>|
            (*b)@ == input@ && call_ensures(op, (b,), x) ==> (*final(b))@ == input@,
    ensures
        r matches Err(BenchError::NoTrials) <==> trials == 0,
        r matches Ok(d) ==> exists|s: Seq<u128>| s.len() == trials && d == min_of(s),
        r is Ok ==> exists|b: &mut Vec<u8>, x: Result<R, E>|
            (*b)@ == input@ && call_ensures(op, (b,), x) && x is Ok,
        r matches Err(BenchError::Operation(e)) ==> exists|b: &mut Vec<u8>|
            (*b)@ == input@ && call_ensures(op, (b,), Err(e)),
        trials > 0 && (forall|b: &mut Vec<u8>, x: Result<R, E>|
            (*b)@ == input@ && call_ensures(op, (b,), x) ==> x is Ok) ==> r is Ok,
{
    if trials == 0 {
        return Err(BenchError::NoTrials);
    }
    let mut f = op;
    let mut data: Vec<u8> = Vec::with_capacity(input.len());
    restore(&mut data, input);
    let mut session = Benchmark::new();
    let mut i: u64 = 0;
    while i < trials
        invariant
            f == op,
            forall|b: &mut Vec<u8>| (*b)@ == input@ ==> call_requires(op, (b,)),
            !restore_each ==> forall|b: &mut Vec<u8>, x: Result<R, E>|
                (*b)@ == input@ && call_ensures(op, (b,), x) ==> (*final(b))@ == input@,
            !restore_each ==> data@ == input@,
            session.wf(),
            session@.len() == i,
            i <= trials,
            i > 0 ==> exists|b: &mut Vec<u8>, x: Result<R, E>|
                (*b)@ == input@ && call_ensures(op, (b,), x) && x is Ok,
        decreases trials - i,
    {
        if restore_each {
            restore(&mut data, input);
        }
        let timer = session.start();
        let out = f(&mut data);
        session.stop(timer);
        match out {
            Ok(_) => {},
            Err(e) => {
                return Err(BenchError::Operation(e));
            },
        }
        i = i + 1;
    }
    match session.min_elapsed() {
        Some(m) => Ok(m),
        None => Err(BenchError::NoTrials),
    }
}

/// For operations that consume or rewrite their input in place: runs `op`
/// `trials` times, each time on a private copy of `input` that is restored
/// before the trial's clock starts, and returns the shortest duration.
/// `input` itself is never handed to `op`.
pub fn bench_private_copy<R, E, F: FnMut(&mut Vec<u8>) -> Result<R, E>>(
    trials: u64,
    input: &Vec<u8>,
    op: F,
) -> (r: Result<u128, BenchError<E>>)
    requires
        forall|b: &mut Vec<u8>| (*b)@ == input@ ==> call_requires(op, (b,)),
    ensures
        r matches Err(BenchError::NoTrials) <==> trials == 0,
        r matches Ok(d) ==> exists|s: Seq<u128>| s.len() == trials && d == min_of(s),
        r is Ok ==> exists|b: &mut Vec<u8>, x: Result<R, E>|
            (*b)@ == input@ && call_ensures(op, (b,), x) && x is Ok,
        r matches Err(BenchError::Operation(e)) ==> exists|b: &mut Vec<u8>|
            (*b)@ == input@ && call_ensures(op, (b,), Err(e)),
        trials > 0 && (forall|b: &mut Vec<u8>, x: Result<R, E>|
            (*b)@ == input@ && call_ensures(op, (b,), x) ==> x is Ok) ==> r is Ok,
{
    bench_on_input(trials, input, true, op)
}

/// The minimum of a non-empty run of trials is no longer than any trial and
/// is the duration of one of them.
pub proof fn lemma_min_of_bounds(s: Seq<u128>)
    requires
        s.len() >= 1,
    ensures
        forall|i: int| 0 <= i < s.len() ==> min_of(s) <= #[trigger] s[i],
        exists|i: int| 0 <= i < s.len() && s[i] == min_of(s),
    decreases s.len(),
{
    if s.len() > 1 {
        let t = s.drop_last();
        lemma_min_of_bounds(t);
        assert forall|i: int| 0 <= i < s.len() implies min_of(s) <= #[trigger] s[i] by {
            if i < s.len() - 1 {
                assert(s[i] == t[i]);
            }
        }
        if s.last() >= min_of(t) {
            let j = choose|j: int| 0 <= j < t.len() && t[j] == min_of(t);
            assert(s[j] == t[j]);
        } else {
            assert(s[s.len() - 1] == min_of(s));
        }
    } else {
        assert(s[0] == min_of(s));
    }
}

/// Running more trials never gives a longer minimum: the minimum over all
/// trials is at most the minimum over the first `n` of them.
pub proof fn lemma_min_of_more_trials(s: Seq<u128>, n: int)
    requires
        1 <= n <= s.len(),
    ensures
        min_of(s) <= min_of(s.take(n)),
    decreases s.len(),
{
    if n < s.len() {
        let t = s.drop_last();
        assert(t.take(n) =~= s.take(n));
        lemma_min_of_more_trials(t, n);
    } else {
        assert(s.take(n) =~= s);
    }
}

} // verus!
