use json_benchmark::timer::{bench, bench_into, bench_on_input, bench_private_copy, bench_with_buf, BenchError, Benchmark};

#[test]
fn minimum_of_hundred_trials_is_the_fast_one() {
    let mut b = Benchmark::new();
    for _ in 0..99 {
        b.record(1_000_000);
    }
    b.record(500_000);
    assert_eq!(b.min_elapsed(), Some(500_000));
}

#[test]
fn empty_session_has_no_minimum() {
    let b = Benchmark::new();
    assert_eq!(b.min_elapsed(), None);
}

#[test]
fn minimum_does_not_grow_with_more_trials() {
    let samples: [u128; 6] = [40, 70, 30, 90, 30, 55];
    let mut b = Benchmark::new();
    let mut last = u128::MAX;
    for s in samples {
        b.record(s);
        let m = b.min_elapsed().unwrap();
        assert!(m <= last);
        last = m;
    }
    assert_eq!(last, 30);
}

#[test]
fn manual_trials_report_the_shortest_observed() {
    let mut b = Benchmark::new();
    let mut observed = Vec::new();
    for i in 0..5u64 {
        let t = b.start();
        let mut x: u64 = 0;
        for j in 0..(1000 * (i + 1)) {
            x = x.wrapping_add(j);
        }
        assert!(x > 0);
        observed.push(b.stop(t));
    }
    let m = b.min_elapsed().unwrap();
    assert_eq!(m, *observed.iter().min().unwrap());
    assert!(observed.iter().all(|&d| m <= d));
}

#[test]
fn bench_runs_the_operation_once_per_trial() {
    let mut calls = 0u32;
    let r: Result<u128, BenchError<()>> = bench(7, || {
        calls += 1;
        Ok(calls)
    });
    assert!(r.is_ok());
    assert_eq!(calls, 7);
}

#[test]
fn bench_refuses_zero_trials() {
    let mut calls = 0u32;
    let r: Result<u128, BenchError<()>> = bench(0, || {
        calls += 1;
        Ok(())
    });
    assert!(matches!(r, Err(BenchError::NoTrials)));
    assert_eq!(calls, 0);
}

#[test]
fn failing_operation_aborts_only_its_own_measurement() {
    let earlier: Result<u128, BenchError<&str>> = bench(3, || Ok(1u8));
    let earlier = earlier.unwrap();
    let mut calls = 0u32;
    let r = bench(10, || {
        calls += 1;
        if calls == 3 {
            Err("malformed input")
        } else {
            Ok(())
        }
    });
    assert!(matches!(r, Err(BenchError::Operation("malformed input"))));
    assert_eq!(calls, 3);
    let later: Result<u128, BenchError<&str>> = bench(3, || Ok(1u8));
    assert!(later.is_ok());
    assert!(earlier < u128::MAX);
}

#[test]
fn always_failing_operation_stops_at_first_trial() {
    let mut calls = 0u32;
    let r: Result<u128, BenchError<u8>> = bench(256, || {
        calls += 1;
        Err::<(), u8>(9)
    });
    assert!(matches!(r, Err(BenchError::Operation(9))));
    assert_eq!(calls, 1);
}

#[test]
fn buffer_holds_one_isolated_run() {
    let mut buf = b"leftover bytes".to_vec();
    let r: Result<u128, BenchError<()>> = bench_into(5, &mut buf, |out: &mut Vec<u8>| {
        out.extend_from_slice(b"{\"a\":1}");
        Ok(())
    });
    assert!(r.is_ok());
    assert_eq!(buf, b"{\"a\":1}".to_vec());
}

#[test]
fn buffer_is_empty_at_each_trial() {
    let mut buf = Vec::new();
    let mut seen = Vec::new();
    let r: Result<u128, BenchError<()>> = bench_into(4, &mut buf, |out: &mut Vec<u8>| {
        seen.push(out.len());
        out.push(1);
        Ok(())
    });
    assert!(r.is_ok());
    assert_eq!(seen, vec![0, 0, 0, 0]);
}

#[test]
fn buffer_untouched_on_zero_trials() {
    let mut buf = b"kept".to_vec();
    let r: Result<u128, BenchError<()>> = bench_into(0, &mut buf, |out: &mut Vec<u8>| {
        out.push(1);
        Ok(())
    });
    assert!(matches!(r, Err(BenchError::NoTrials)));
    assert_eq!(buf, b"kept".to_vec());
}

#[test]
fn bench_with_buf_grows_past_the_hint() {
    let mut sizes = Vec::new();
    let r: Result<u128, BenchError<()>> = bench_with_buf(3, 2, |out: &mut Vec<u8>| {
        out.extend_from_slice(&[7u8; 100]);
        sizes.push(out.len());
        Ok(())
    });
    assert!(r.is_ok());
    assert_eq!(sizes, vec![100, 100, 100]);
}

#[test]
fn bench_with_buf_reports_failure_and_zero_trials() {
    let r: Result<u128, BenchError<&str>> = bench_with_buf(4, 8, |_out: &mut Vec<u8>| Err::<(), &str>("encode"));
    assert!(matches!(r, Err(BenchError::Operation("encode"))));
    let z: Result<u128, BenchError<&str>> = bench_with_buf(0, 8, |_out: &mut Vec<u8>| Ok(()));
    assert!(matches!(z, Err(BenchError::NoTrials)));
}

#[test]
fn private_copy_restores_input_before_each_trial() {
    let input = b"[1,2,3]".to_vec();
    let mut seen = Vec::new();
    let r: Result<u128, BenchError<()>> = bench_private_copy(3, &input, |data: &mut Vec<u8>| {
        seen.push(data.clone());
        data.reverse();
        data.push(0);
        Ok(())
    });
    assert!(r.is_ok());
    assert_eq!(seen, vec![input.clone(), input.clone(), input.clone()]);
    assert_eq!(input, b"[1,2,3]".to_vec());
}

#[test]
fn private_copy_reports_failure_and_zero_trials() {
    let input = b"x".to_vec();
    let r: Result<u128, BenchError<u8>> = bench_private_copy(5, &input, |_d: &mut Vec<u8>| Err::<(), u8>(1));
    assert!(matches!(r, Err(BenchError::Operation(1))));
    let z: Result<u128, BenchError<u8>> = bench_private_copy(0, &input, |_d: &mut Vec<u8>| Ok(()));
    assert!(matches!(z, Err(BenchError::NoTrials)));
}

#[test]
fn shared_copy_is_made_once_when_not_restoring() {
    let input = b"abc".to_vec();
    let mut lens = Vec::new();
    let r: Result<u128, BenchError<()>> = bench_on_input(3, &input, false, |d: &mut Vec<u8>| {
        lens.push(d.len());
        Ok(())
    });
    assert!(r.is_ok());
    assert_eq!(lens, vec![3, 3, 3]);
}
