use speedtest::api::{ApiResponse, Client, Location, Target};
use speedtest::error::SpeedTestError;
use speedtest::fetcher::{Fetcher, StreamEvent};
use speedtest::speed_test::{run, SpeedTest};

fn sized(lengths: &[u64]) -> Vec<Option<u64>> {
    lengths.iter().map(|l| Some(*l)).collect()
}

#[test]
fn expected_is_sum_of_truncated_shares() {
    // Truncation happens per endpoint, not on the sum: 3 + 3 + 4, not 33 / 3.
    let st = SpeedTest::new(&sized(&[10, 11, 12])).unwrap();
    assert_eq!(st.total_size, 10);
    assert_eq!(st.shares, vec![3, 3, 4]);
    assert_eq!(st.current_size, 0);
}

#[test]
fn sizing_fails_without_content_length() {
    let r = SpeedTest::new(&vec![Some(5), None]);
    assert_eq!(r.unwrap_err(), SpeedTestError::SizeUnknown);
}

#[test]
fn sizing_of_no_endpoints_is_zero() {
    let st = SpeedTest::new(&Vec::new()).unwrap();
    assert_eq!(st.total_size, 0);
}

#[test]
fn three_endpoints_full_run() {
    // 3 endpoints of 9,000,000 each: expected = 3 x 3,000,000; each fetcher
    // stops exactly at its share, so received equals expected.
    let lengths = sized(&[9_000_000, 9_000_000, 9_000_000]);
    let stream: Vec<StreamEvent> = vec![
        StreamEvent::Chunk(1_000_000),
        StreamEvent::Chunk(1_000_000),
        StreamEvent::Chunk(1_000_000),
        StreamEvent::Chunk(1_000_000),
    ];
    let streams = vec![stream.clone(), stream.clone(), stream];
    let report = run(&lengths, &streams);
    assert_eq!(report.expected, 9_000_000);
    assert_eq!(report.received, 9_000_000);
    assert_eq!(report.outcome, Ok(9_000_000));
}

#[test]
fn probe_failure_aborts_before_any_transfer() {
    // One probe without a length: the run fails with SizeUnknown and no
    // fetcher ever starts — zero bytes received across all endpoints.
    let lengths = vec![Some(9_000_000), None, Some(9_000_000)];
    let stream = vec![StreamEvent::Chunk(1_000_000)];
    let streams = vec![stream.clone(), stream.clone(), stream];
    let report = run(&lengths, &streams);
    assert_eq!(report.outcome, Err(SpeedTestError::SizeUnknown));
    assert_eq!(report.received, 0);
    assert_eq!(report.expected, 0);
}

#[test]
fn stream_failure_keeps_bytes_delivered_before_it() {
    // The stream errors after delivering 1,000 of a 3,000,000-byte share:
    // the run fails with TransferFailed and received reflects those 1,000.
    let lengths = sized(&[3_000_000]);
    let streams = vec![vec![StreamEvent::Chunk(1_000), StreamEvent::Failed]];
    let report = run(&lengths, &streams);
    assert_eq!(report.outcome, Err(SpeedTestError::TransferFailed));
    assert_eq!(report.received, 1_000);
    assert_eq!(report.expected, 3_000_000);
}

#[test]
fn failure_on_first_endpoint_stops_later_endpoints() {
    let lengths = sized(&[2_000, 2_000]);
    let streams = vec![
        vec![StreamEvent::Failed],
        vec![StreamEvent::Chunk(500), StreamEvent::Chunk(500)],
    ];
    let report = run(&lengths, &streams);
    assert_eq!(report.outcome, Err(SpeedTestError::TransferFailed));
    assert_eq!(report.received, 0);
}

#[test]
fn fetcher_overshoots_by_at_most_one_chunk() {
    // Share is 10; chunks of 4 stop the fetcher at 12, within one chunk of
    // the share, and the rest of the stream is discarded.
    let lengths = sized(&[10]);
    let streams = vec![vec![
        StreamEvent::Chunk(4),
        StreamEvent::Chunk(4),
        StreamEvent::Chunk(4),
        StreamEvent::Chunk(4),
        StreamEvent::Chunk(4),
    ]];
    let report = run(&lengths, &streams);
    assert_eq!(report.outcome, Ok(12));
    assert_eq!(report.received, 12);
}

#[test]
fn zero_share_pulls_nothing() {
    // Lengths below the endpoint count truncate to a zero share: the
    // fetchers stop before pulling a single chunk.
    let lengths = sized(&[1, 1]);
    let streams = vec![vec![StreamEvent::Chunk(1)], vec![StreamEvent::Chunk(1)]];
    let report = run(&lengths, &streams);
    assert_eq!(report.expected, 0);
    assert_eq!(report.received, 0);
    assert_eq!(report.outcome, Ok(0));
}

#[test]
fn stream_ending_early_is_not_an_error() {
    let lengths = sized(&[100]);
    let streams = vec![vec![StreamEvent::Chunk(10)]];
    let report = run(&lengths, &streams);
    assert_eq!(report.outcome, Ok(10));
    assert_eq!(report.received, 10);
}

#[test]
fn received_counter_is_monotonic_and_saturates() {
    let mut st = SpeedTest::new(&sized(&[4])).unwrap();
    st.add_received(10);
    assert_eq!(st.current_size, 10);
    st.add_received(u64::MAX);
    assert_eq!(st.current_size, u64::MAX);
    st.add_received(5);
    assert_eq!(st.current_size, u64::MAX);
}

#[test]
fn empty_endpoint_set_runs_to_zero() {
    let report = run(&Vec::new(), &Vec::new());
    assert_eq!(report.expected, 0);
    assert_eq!(report.received, 0);
    assert_eq!(report.outcome, Ok(0));
}

#[test]
fn start_accumulates_across_endpoints() {
    // Shares 3 and 4; the first fetcher overshoots to 4, the second stops
    // exactly at its share.
    let mut st = SpeedTest::new(&sized(&[6, 9])).unwrap();
    assert_eq!(st.total_size, 7);
    let streams = vec![
        vec![StreamEvent::Chunk(2), StreamEvent::Chunk(2)],
        vec![StreamEvent::Chunk(4)],
    ];
    let total = st.start(&streams).unwrap();
    assert_eq!(total, 8);
    assert_eq!(st.current_size, 8);
}

#[test]
fn discovery_types_carry_endpoint_fields() {
    let target = Target {
        name: String::from("host"),
        url: String::from("http://example.net/file"),
        location: Location { city: String::from("c"), country: String::from("d") },
    };
    let response = ApiResponse {
        client: Client {
            ip: String::from("192.0.2.1"),
            asn: String::from("64496"),
            isp: String::from("isp"),
            location: Location { city: String::from("c"), country: String::from("d") },
        },
        targets: vec![target],
    };
    assert_eq!(response.targets.len(), 1);
    assert_eq!(response.targets[0].name, "host");
    assert_eq!(response.targets[0].url, "http://example.net/file");
}

#[test]
fn fetcher_share_and_early_stop() {
    let mut f = Fetcher::new(9, 2);
    assert_eq!(f.share, 4);
    assert!(!f.is_done());
    assert!(!f.on_chunk(2));
    assert_eq!(f.position, 2);
    assert!(f.on_chunk(2));
    assert_eq!(f.position, 4);
    assert!(f.is_done());
}
