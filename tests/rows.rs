use json_benchmark::measure::{parse_rate, parse_rate_private_copy, parse_rate_with, stringify_rate, Capabilities};
use json_benchmark::report::{Operation, ResultRow};
use json_benchmark::throughput::Throughput;
use json_benchmark::timer::BenchError;

#[test]
fn stringify_rate_measures_large_output() {
    let r: Result<Throughput, BenchError<()>> = stringify_rate(2, 10, |out: &mut Vec<u8>| {
        out.resize(2_000_000, b' ');
        Ok(())
    });
    assert!(r.is_ok());
}

#[test]
fn rates_report_errors_and_zero_trials() {
    let z: Result<Throughput, BenchError<u8>> = parse_rate(0, 10, || Ok::<u8, u8>(1));
    assert!(matches!(z, Err(BenchError::NoTrials)));
    let e: Result<Throughput, BenchError<u8>> = parse_rate(5, 10, || Err::<u8, u8>(4));
    assert!(matches!(e, Err(BenchError::Operation(4))));
    let s: Result<Throughput, BenchError<u8>> = stringify_rate(5, 10, |_o: &mut Vec<u8>| Err::<(), u8>(5));
    assert!(matches!(s, Err(BenchError::Operation(5))));
    let input = b"abc".to_vec();
    let p: Result<Throughput, BenchError<u8>> = parse_rate_private_copy(0, &input, |_d: &mut Vec<u8>| Ok::<(), u8>(()));
    assert!(matches!(p, Err(BenchError::NoTrials)));
}

#[test]
fn private_copy_rate_succeeds_on_fresh_input() {
    let input = b"{\"k\":[1,2]}".to_vec();
    let r: Result<Throughput, BenchError<&str>> = parse_rate_private_copy(4, &input, |d: &mut Vec<u8>| {
        if d.as_slice() != b"{\"k\":[1,2]}" {
            return Err("saw a rewritten input");
        }
        d.clear();
        Ok(())
    });
    assert!(r.is_ok());
}

#[test]
fn capabilities_select_operations() {
    let caps = Capabilities {
        parse_dom: true,
        stringify_dom: false,
        parse_struct: true,
        stringify_struct: false,
        needs_private_copy: true,
    };
    assert!(caps.supports(Operation::ParseDom));
    assert!(!caps.supports(Operation::StringifyDom));
    assert!(caps.supports(Operation::ParseStruct));
    assert!(!caps.supports(Operation::StringifyStruct));
}

#[test]
fn unmeasured_cells_are_blank() {
    let mut row = ResultRow::new();
    row.set(Operation::StringifyDom, Throughput::Rate { digits: 0, scale: 2 });
    assert_eq!(row.format(), format!("{}{}{}{}", " ".repeat(11), "  0.00 MB/s", " ".repeat(11), " ".repeat(11)));
}

#[test]
fn failed_measurement_keeps_earlier_cells() {
    let mut row = ResultRow::new();
    assert!(row.record::<&str>(Operation::ParseDom, Ok(Throughput::Rate { digits: 12_345, scale: 2 })).is_ok());
    let before = row;
    let r = row.record(Operation::StringifyDom, Err(BenchError::Operation("encoding error")));
    assert!(matches!(r, Err(BenchError::Operation("encoding error"))));
    assert_eq!(row, before);
    assert_eq!(row.parse_dom, Some(Throughput::Rate { digits: 12_345, scale: 2 }));
    assert_eq!(row.stringify_dom, None);
    assert_eq!(row.format(), format!("{}{}", "123.45 MB/s", " ".repeat(33)));
}

#[test]
fn capability_flag_picks_restore_per_trial() {
    let input = b"[true]".to_vec();
    let rewrites = Capabilities {
        parse_dom: true,
        stringify_dom: true,
        parse_struct: false,
        stringify_struct: false,
        needs_private_copy: true,
    };
    let mut seen = Vec::new();
    let r: Result<Throughput, BenchError<()>> = parse_rate_with(&rewrites, 3, &input, |d: &mut Vec<u8>| {
        seen.push(d.clone());
        d.clear();
        Ok(())
    });
    assert!(r.is_ok());
    assert_eq!(seen, vec![input.clone(), input.clone(), input.clone()]);

    let reads_only = Capabilities { needs_private_copy: false, ..rewrites };
    let mut seen = Vec::new();
    let r: Result<Throughput, BenchError<()>> = parse_rate_with(&reads_only, 3, &input, |d: &mut Vec<u8>| {
        seen.push(d.clone());
        Ok(())
    });
    assert!(r.is_ok());
    assert_eq!(seen, vec![input.clone(), input.clone(), input.clone()]);
    assert_eq!(input, b"[true]".to_vec());
}

#[test]
fn capability_path_reports_errors_and_zero_trials() {
    let input = b"{".to_vec();
    let caps = Capabilities {
        parse_dom: true,
        stringify_dom: false,
        parse_struct: false,
        stringify_struct: false,
        needs_private_copy: false,
    };
    let mut calls = 0u32;
    let r: Result<Throughput, BenchError<&str>> = parse_rate_with(&caps, 9, &input, |_d: &mut Vec<u8>| {
        calls += 1;
        Err::<(), &str>("EOF while parsing")
    });
    assert!(matches!(r, Err(BenchError::Operation("EOF while parsing"))));
    assert_eq!(calls, 1);
    let z: Result<Throughput, BenchError<&str>> = parse_rate_with(&caps, 0, &input, |_d: &mut Vec<u8>| Ok::<(), &str>(()));
    assert!(matches!(z, Err(BenchError::NoTrials)));
}
