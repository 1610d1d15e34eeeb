//! The modem state machine and the orchestrator around it.

use evcore::http::HttpProcess;
use evcore::modem::{RequestStatus, Sim7600Driver};
use evcore::status::{HttpFailReason, HttpUpdateStatus};

fn feed(driver: &mut Sim7600Driver, reply: &[u8]) {
    for b in reply {
        driver.push(*b);
    }
}

fn expect_processing(driver: &mut Sim7600Driver) {
    assert_eq!(driver.http_get_update(), HttpUpdateStatus::Processing);
}

/// Drive a whole fetch through every step with well-formed replies and check
/// the machine finishes with the captured status code, the exactly sliced
/// body, and exactly the expected command sequence on the wire.
#[test]
fn scripted_fetch_reaches_finished() {
    let mut driver = Sim7600Driver::new();
    driver.update_time(0);
    let url = b"http://example.com/report?a=1&".to_vec();
    driver.http_get_start(&url);

    // Default steps answered by their accept patterns, in order.
    feed(&mut driver, b"AT+CPIN?\r\r\n+CPIN: READY\r\n");
    expect_processing(&mut driver);
    feed(&mut driver, b"OK\r\n");
    expect_processing(&mut driver);
    feed(&mut driver, b"AT+CSQ\r\r\n+CSQ: 24,99\r\n\r\nOK\r\n");
    expect_processing(&mut driver);
    // Network registration accepts only the exact reply.
    feed(&mut driver, b"AT+CGREG?\r\r\n+CGREG: 0,1\r\n\r\nOK\r\n");
    expect_processing(&mut driver);
    feed(&mut driver, b"OK\r\n");
    expect_processing(&mut driver);
    feed(&mut driver, b"ERROR\r\n");
    expect_processing(&mut driver);
    feed(&mut driver, b"OK\r\n");
    expect_processing(&mut driver);
    feed(&mut driver, b"AT+HTTPINIT\r\r\nOK\r\n");
    expect_processing(&mut driver);
    feed(&mut driver, b"OK\r\n");
    expect_processing(&mut driver);
    feed(&mut driver, b"OK\r\n");
    expect_processing(&mut driver);
    feed(&mut driver, b"OK\r\n");
    expect_processing(&mut driver);
    feed(&mut driver, b"OK\r\n");
    expect_processing(&mut driver);
    // Action trigger: status code 200, content length 8.
    feed(&mut driver, b"AT+HTTPACTION=0\r\r\n+HTTPACTION: 0,200,8\r\n");
    expect_processing(&mut driver);
    // Length poll: nonzero declared length.
    feed(&mut driver, b"AT+HTTPREAD?\r\r\n+HTTPREAD: LEN,8\r\n\r\nOK\r\n");
    expect_processing(&mut driver);
    // Body read: header, then exactly eight body bytes.
    feed(
        &mut driver,
        b"AT+HTTPREAD=0,8\r\r\nOK\r\n\r\n+HTTPREAD: DATA,8\r\nBODYDATA\r\n+HTTPREAD: 0\r\n",
    );
    let finished = driver.http_get_update();
    match finished {
        HttpUpdateStatus::Finished(response) => {
            assert_eq!(response.status_code, 200);
            assert_eq!(response.body, b"BODYDATA".to_vec());
        },
        other => panic!("expected Finished, got {:?}", other),
    }

    // Exactly the expected command sequence was sent.
    let mut expected: Vec<u8> = Vec::new();
    expected.extend_from_slice(b"AT+CPIN?\r");
    expected.extend_from_slice(b"AT+HTTPTERM\r");
    expected.extend_from_slice(b"AT+CSQ\r");
    expected.extend_from_slice(b"AT+CGREG?\r");
    expected.extend_from_slice(b"AT+COPS?\r");
    expected.extend_from_slice(b"AT+CGACT=0,1\r");
    expected.extend_from_slice(b"AT+CGACT?\r");
    expected.extend_from_slice(b"AT+HTTPINIT\r");
    expected.extend_from_slice(b"AT+HTTPPARA=\"CONNECTTO\",20\r");
    expected.extend_from_slice(b"AT+HTTPPARA=\"RECVTO\",10\r");
    expected.extend_from_slice(b"AT+HTTPPARA=\"RESPTO\",20\r");
    expected.extend_from_slice(b"AT+HTTPPARA=\"URL\",\"");
    expected.extend_from_slice(&url);
    expected.extend_from_slice(b"\"\r");
    expected.extend_from_slice(b"AT+HTTPACTION=0\r");
    expected.extend_from_slice(b"AT+HTTPREAD?\r");
    expected.extend_from_slice(b"AT+HTTPREAD=0,8\r");
    assert_eq!(driver.buffers.txbuf, expected);

    // The finished machine reports idle until started again.
    assert_eq!(driver.http_get_update(), HttpUpdateStatus::NotStarted);
}

/// A step whose reply never matches exhausts its retry budget and fails with
/// an internal timeout; afterwards the machine stays idle until an explicit
/// start.
#[test]
fn retry_exhaustion_fails_and_stays_idle() {
    let mut driver = Sim7600Driver::new();
    driver.update_time(0);
    let url = b"http://example.com/".to_vec();
    driver.http_get_start(&url);

    // The first step allows thirty attempts; the reply never comes.
    let mut now: u64 = 0;
    for _ in 0..29 {
        now += 2000;
        driver.update_time(now);
        assert_eq!(driver.http_get_update(), HttpUpdateStatus::Processing);
    }
    now += 2000;
    driver.update_time(now);
    assert_eq!(
        driver.http_get_update(),
        HttpUpdateStatus::Failed(HttpFailReason::InternalTimeout)
    );

    // No silent self-restart: polling reports idle and sends nothing.
    let sent = driver.buffers.txbuf.len();
    for _ in 0..5 {
        now += 2000;
        driver.update_time(now);
        assert_eq!(driver.http_get_update(), HttpUpdateStatus::NotStarted);
    }
    assert_eq!(driver.buffers.txbuf.len(), sent);

    // An explicit start recovers from step zero.
    driver.http_get_start(&url);
    assert_eq!(
        &driver.buffers.txbuf[sent..],
        b"AT+CPIN?\r".as_slice()
    );
}

/// The URL-registration step deliberately treats a silent timeout as
/// success.
#[test]
fn url_step_timeout_advances() {
    let mut driver = Sim7600Driver::new();
    driver.update_time(0);
    let url = b"http://example.com/".to_vec();
    driver.http_get_start(&url);
    let replies: [&[u8]; 11] = [
        b"+CPIN: READY",
        b"OK\r\n",
        b"OK\r\n",
        b"AT+CGREG?\r\r\n+CGREG: 0,5\r\n\r\nOK\r\n",
        b"OK\r\n",
        b"OK\r\n",
        b"OK\r\n",
        b"OK\r\n",
        b"OK\r\n",
        b"OK\r\n",
        b"OK\r\n",
    ];
    for reply in replies {
        feed(&mut driver, reply);
        expect_processing(&mut driver);
    }
    // Now at the URL step; no reply at all, past its three-second timeout.
    let before = driver.buffers.txbuf.len();
    driver.update_time(4000);
    expect_processing(&mut driver);
    // It advanced and sent the action trigger.
    assert_eq!(&driver.buffers.txbuf[before..], b"AT+HTTPACTION=0\r".as_slice());
}

/// After ten consecutive transport-classified failures the orchestrator
/// triggers exactly one power-cycle, resets its counter, and asserts the
/// power-inhibit output during the settling window.
#[test]
fn power_cycle_after_ten_transport_failures() {
    let mut process = HttpProcess::new();
    let url = b"http://example.com/".to_vec();

    // Nine transport failures already counted; the inner machine is one
    // timed-out, budget-exhausted step from the tenth.
    process.sim7600_power_cycle_error_counter = 9;
    process.driver.request = Some(RequestStatus {
        request_timestamp: 0,
        url: url.clone(),
        step_i: Some(0),
        step_timestamp: 0,
        try_counter: 30,
        try_timestamp: 0,
        status_code: 0,
        content_length: 0,
    });

    let (status, inhibit) = process.update(20000, &url);
    assert_eq!(status, HttpUpdateStatus::Failed(HttpFailReason::InternalTimeout));
    assert!(!inhibit);
    assert_eq!(process.sim7600_power_cycle_error_counter, 0);
    assert_eq!(process.sim7600_power_cycle_start_timestamp, 20000);

    // During the inhibit window the output is asserted and the machine rests.
    let (status, inhibit) = process.update(21000, &url);
    assert_eq!(status, HttpUpdateStatus::Processing);
    assert!(inhibit);

    // Between inhibit and settle the output drops but the machine still
    // rests.
    let (status, inhibit) = process.update(23500, &url);
    assert_eq!(status, HttpUpdateStatus::Processing);
    assert!(!inhibit);
}

/// A transport failure below the threshold only counts; no power-cycle.
#[test]
fn transport_failures_below_threshold_only_count() {
    let mut process = HttpProcess::new();
    let url = b"http://example.com/".to_vec();
    process.sim7600_power_cycle_error_counter = 3;
    process.driver.request = Some(RequestStatus {
        request_timestamp: 0,
        url: url.clone(),
        step_i: Some(0),
        step_timestamp: 0,
        try_counter: 30,
        try_timestamp: 0,
        status_code: 0,
        content_length: 0,
    });
    let (status, _) = process.update(20000, &url);
    assert_eq!(status, HttpUpdateStatus::Failed(HttpFailReason::InternalTimeout));
    assert_eq!(process.sim7600_power_cycle_error_counter, 4);
    assert_eq!(process.sim7600_power_cycle_start_timestamp, 0);
}

/// An idle orchestrator re-triggers a fetch only after the minimum
/// inter-request interval.
#[test]
fn idle_orchestrator_retriggers_after_interval() {
    let mut process = HttpProcess::new();
    let url = b"http://example.com/".to_vec();

    // Out of the (initial) settling window, but inside the re-trigger
    // interval: stays idle.
    let (status, _) = process.update(9000, &url);
    assert_eq!(status, HttpUpdateStatus::NotStarted);
    assert_eq!(process.driver.buffers.txbuf.len(), 0);

    // Past the interval: a fresh fetch starts from step zero.
    let (status, _) = process.update(10001, &url);
    assert_eq!(status, HttpUpdateStatus::NotStarted);
    assert_eq!(process.driver.buffers.txbuf, b"AT+CPIN?\r".to_vec());
    assert_eq!(process.last_http_request_millis, 10001);
}

/// Server-level failures stop the session without counting toward the
/// power-cycle.
#[test]
fn server_failure_stops_session() {
    let mut process = HttpProcess::new();
    let url = b"http://example.com/".to_vec();
    // Put the inner machine in the action step and feed the no-network event.
    process.driver.request = Some(RequestStatus {
        request_timestamp: 0,
        url: url.clone(),
        step_i: Some(12),
        step_timestamp: 0,
        try_counter: 1,
        try_timestamp: 20000,
        status_code: 0,
        content_length: 0,
    });
    for b in b"HTTP_NONET_EVENT" {
        process.driver.push(*b);
    }
    let (status, _) = process.update(20000, &url);
    assert_eq!(status, HttpUpdateStatus::Failed(HttpFailReason::ServerTimeout));
    assert_eq!(process.sim7600_power_cycle_error_counter, 0);
    assert!(process.driver.request.is_none());
}

/// Bytes past the receive buffer's capacity are dropped until the buffer is
/// next cleared, instead of corrupting state.
#[test]
fn receive_buffer_drops_overflow() {
    let mut driver = Sim7600Driver::new();
    for _ in 0..600 {
        driver.push(b'x');
    }
    assert_eq!(driver.buffers.rxbuf.len(), 500);
}

/// Explicit stop clears the in-flight fetch unconditionally.
#[test]
fn stop_clears_request() {
    let mut process = HttpProcess::new();
    let url = b"http://example.com/".to_vec();
    process.start(0, &url);
    assert!(process.driver.request.is_some());
    process.stop();
    assert!(process.driver.request.is_none());
}
