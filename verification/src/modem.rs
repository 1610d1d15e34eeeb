//! The modem request state machine.
//!
//! One logical "fetch a URL over this modem" operation is an ordered table of
//! protocol steps. Each step sends a command, then on every poll either
//! matches the accumulated receive bytes against its accept patterns (or its
//! own reply grammar) and advances, or, once its timeout has elapsed, retries
//! within its budget and otherwise abandons the fetch. The whole transition
//! relation is the specification `update_model`, a pure function of the
//! driver state; the executable driver is proved to follow it step by step.
//!
//! Two deliberate tolerances of the transport are kept: the URL-registration
//! step treats a timeout with no clear negative reply as success (the link
//! sometimes swallows the acknowledgement), and the action-trigger step
//! advances to result polling when its own reply times out.

use vstd::prelude::*;

use crate::numfmt::{push_digits, spec_digits};
use crate::parse::{
    contains, contains_seq, copy_range, lit, lit8, parse_action, parse_len, push_all, spec_find,
    spec_parse_action, spec_parse_len, vec_eq,
};
use crate::status::{HttpFailReason, HttpResponse, HttpUpdateStatus, ResponseModel, StatusModel};

verus! {

/// Number of steps in the fetch sequence.
pub const NUM_STEPS: usize = 15;

/// Receive-buffer capacity; bytes arriving while it is full are dropped
/// until the buffer is next cleared.
pub const RXBUF_CAPACITY: usize = 500;

/// Longest accepted target URL.
pub const URL_CAPACITY: usize = 500;

/// The reply equalities accepted by the network-registration step.
pub open spec fn cgreg_registered_home() -> Seq<u8> {
    lit8("AT+CGREG?\r\r\n+CGREG: 0,1\r\n\r\nOK\r\n")
}

pub open spec fn cgreg_registered_roaming() -> Seq<u8> {
    lit8("AT+CGREG?\r\r\n+CGREG: 0,5\r\n\r\nOK\r\n")
}

pub open spec fn cgreg_searching() -> Seq<u8> {
    lit8("AT+CGREG?\r\r\n+CGREG: 0,2\r\n\r\nOK\r\n")
}

/// Per-step timeout in milliseconds.
pub open spec fn step_timeout_ms(i: int) -> u64 {
    if i == 0 {
        2000
    } else if i <= 7 {
        1000
    } else if i <= 11 {
        3000
    } else if i == 12 {
        5000
    } else {
        2000
    }
}

/// Per-step retry budget.
pub open spec fn step_max_retry(i: int) -> u32 {
    if i == 0 {
        30
    } else if i == 3 {
        120
    } else if i == 11 {
        2
    } else if i == 12 {
        1
    } else if i == 13 {
        10
    } else if i == 14 {
        1
    } else {
        5
    }
}

/// How many body bytes the final step reads: the declared content length,
/// capped at the chunk size.
pub open spec fn read_len(content_length: usize) -> nat {
    if content_length <= 100 {
        content_length as nat
    } else {
        100
    }
}

/// The command bytes a step sends.
pub open spec fn spec_step_command(i: int, url: Seq<u8>, content_length: usize) -> Seq<u8> {
    if i == 0 {
        lit8("AT+CPIN?\r")
    } else if i == 1 {
        lit8("AT+HTTPTERM\r")
    } else if i == 2 {
        lit8("AT+CSQ\r")
    } else if i == 3 {
        lit8("AT+CGREG?\r")
    } else if i == 4 {
        lit8("AT+COPS?\r")
    } else if i == 5 {
        lit8("AT+CGACT=0,1\r")
    } else if i == 6 {
        lit8("AT+CGACT?\r")
    } else if i == 7 {
        lit8("AT+HTTPINIT\r")
    } else if i == 8 {
        lit8("AT+HTTPPARA=\"CONNECTTO\",20\r")
    } else if i == 9 {
        lit8("AT+HTTPPARA=\"RECVTO\",10\r")
    } else if i == 10 {
        lit8("AT+HTTPPARA=\"RESPTO\",20\r")
    } else if i == 11 {
        lit8("AT+HTTPPARA=\"URL\",\"") + url + lit8("\"\r")
    } else if i == 12 {
        lit8("AT+HTTPACTION=0\r")
    } else if i == 13 {
        lit8("AT+HTTPREAD?\r")
    } else {
        lit8("AT+HTTPREAD=0,") + spec_digits(read_len(content_length)) + lit8("\r")
    }
}

/// The exact header that precedes the body bytes in the final step's reply.
pub open spec fn read_header(rl: nat) -> Seq<u8> {
    lit8("AT+HTTPREAD=0,") + spec_digits(rl) + lit8("\r\r\nOK\r\n\r\n+HTTPREAD: DATA,")
        + spec_digits(rl) + lit8("\r\n")
}

/// Accept patterns of the steps with default parsing.
pub open spec fn step_accepts(i: int) -> Seq<Seq<u8>> {
    if i == 0 {
        seq![lit8("+CPIN: READY")]
    } else if i == 1 || i == 5 || i == 7 {
        seq![lit8("OK\r\n"), lit8("ERROR\r\n")]
    } else if i == 2 || i == 4 || i == 6 || i == 8 || i == 9 || i == 10 || i == 11 {
        seq![lit8("OK\r\n")]
    } else {
        seq![]
    }
}

/// Some accept pattern of step `i` occurs in the receive buffer.
pub open spec fn accepts_match(i: int, rx: Seq<u8>) -> bool {
    exists|k: int| 0 <= k < step_accepts(i).len() && contains_seq(rx, step_accepts(i)[k])
}

/// One in-flight fetch.
pub struct RequestStatus {
    pub request_timestamp: u64,
    pub url: Vec<u8>,
    pub step_i: Option<usize>,
    pub step_timestamp: u64,
    pub try_counter: u32,
    pub try_timestamp: u64,
    pub status_code: u16,
    pub content_length: usize,
}

/// Mathematical image of an in-flight fetch.
#[verifier::ext_equal]
pub struct RequestModel {
    pub request_timestamp: u64,
    pub url: Seq<u8>,
    pub step_i: Option<usize>,
    pub step_timestamp: u64,
    pub try_counter: u32,
    pub try_timestamp: u64,
    pub status_code: u16,
    pub content_length: usize,
}

impl View for RequestStatus {
    type V = RequestModel;

    open spec fn view(&self) -> RequestModel {
        RequestModel {
            request_timestamp: self.request_timestamp,
            url: self.url@,
            step_i: self.step_i,
            step_timestamp: self.step_timestamp,
            try_counter: self.try_counter,
            try_timestamp: self.try_timestamp,
            status_code: self.status_code,
            content_length: self.content_length,
        }
    }
}

/// The clock value and the two byte streams of the serial link.
pub struct Sim7600DriverBuffers {
    pub millis: u64,
    /// Outbound command bytes, drained by the transport driver.
    pub txbuf: Vec<u8>,
    /// Inbound reply bytes, filled opportunistically by the transport driver.
    pub rxbuf: Vec<u8>,
}

/// The modem driver: serial buffers plus at most one in-flight fetch.
pub struct Sim7600Driver {
    pub buffers: Sim7600DriverBuffers,
    pub request: Option<RequestStatus>,
}

/// Mathematical image of the whole driver.
#[verifier::ext_equal]
pub struct DriverModel {
    pub millis: u64,
    pub txbuf: Seq<u8>,
    pub rxbuf: Seq<u8>,
    pub request: Option<RequestModel>,
}

impl View for Sim7600Driver {
    type V = DriverModel;

    open spec fn view(&self) -> DriverModel {
        DriverModel {
            millis: self.buffers.millis,
            txbuf: self.buffers.txbuf@,
            rxbuf: self.buffers.rxbuf@,
            request: match self.request {
                None => None,
                Some(r) => Some(r@),
            },
        }
    }
}

impl Sim7600Driver {
    /// Bounds every reachable driver state keeps: the receive buffer is
    /// capped and any in-flight step index and retry counter are in range.
    pub open spec fn wf(self) -> bool {
        &&& self.buffers.rxbuf@.len() <= RXBUF_CAPACITY
        &&& match self.request {
            None => true,
            Some(r) => r.try_counter <= 1000 && (r.step_i matches Some(i) ==> i < NUM_STEPS),
        }
    }
}

/// Milliseconds from `since` to `now`; a clock that moved backwards (a
/// rollover) reads as the largest elapsed time, so timeouts treat it as
/// expired.
pub open spec fn spec_elapsed(now: u64, since: u64) -> u64 {
    if now >= since {
        (now - since) as u64
    } else {
        u64::MAX
    }
}

/// A fetch record freshly moved to `step`.
pub open spec fn req_with_step(r: RequestModel, millis: u64, step: Option<usize>) -> RequestModel {
    RequestModel { step_i: step, step_timestamp: millis, try_counter: 0, try_timestamp: millis, ..r }
}

/// The fetch record after leaving step `i` for the next one (or for
/// completion after the last).
pub open spec fn next_step_model(r: RequestModel, millis: u64, i: usize) -> RequestModel {
    if i + 1 >= NUM_STEPS {
        req_with_step(r, millis, None)
    } else {
        req_with_step(r, millis, Some((i + 1) as usize))
    }
}

/// Sending the current step's command: the command bytes are queued and the
/// attempt counter bumped; with no current step nothing happens.
pub open spec fn send_model(txbuf: Seq<u8>, r: RequestModel) -> (Seq<u8>, RequestModel) {
    match r.step_i {
        Some(j) => (
            txbuf + spec_step_command(j as int, r.url, r.content_length),
            RequestModel { try_counter: (r.try_counter + 1) as u32, ..r },
        ),
        None => (txbuf, r),
    }
}

/// Leaving step `i`: clear the receive buffer, move to the next step, and
/// immediately send its command.
pub open spec fn advance_send_model(d: DriverModel, r: RequestModel, i: usize) -> DriverModel {
    let r1 = next_step_model(r, d.millis, i);
    let (tx2, r2) = send_model(d.txbuf, r1);
    DriverModel { rxbuf: Seq::empty(), txbuf: tx2, request: Some(r2), ..d }
}

/// Step `i` has been waiting on its reply past its timeout.
pub open spec fn step_timeout_model(d: DriverModel, r: RequestModel, i: usize) -> (
    DriverModel,
    StatusModel,
) {
    if i == 11 || i == 12 {
        // URL registration treats a silent timeout as success; the action
        // trigger moves on to poll the result instead.
        (advance_send_model(d, r, i), StatusModel::Processing)
    } else if r.try_counter >= step_max_retry(i as int) {
        (
            DriverModel {
                rxbuf: Seq::empty(),
                request: Some(RequestModel { step_i: None, ..r }),
                ..d
            },
            StatusModel::Failed(HttpFailReason::InternalTimeout),
        )
    } else {
        (
            DriverModel {
                rxbuf: Seq::empty(),
                txbuf: d.txbuf + spec_step_command(i as int, r.url, r.content_length),
                request: Some(
                    RequestModel {
                        try_timestamp: d.millis,
                        try_counter: (r.try_counter + 1) as u32,
                        ..r
                    },
                ),
                ..d
            },
            StatusModel::Processing,
        )
    }
}

/// Step `i` inspects the accumulated reply bytes (no timeout yet).
pub open spec fn step_parse_model(d: DriverModel, r: RequestModel, i: usize) -> (
    DriverModel,
    StatusModel,
) {
    if i == 3 {
        // Network registration: exact replies only.
        if d.rxbuf == cgreg_registered_home() || d.rxbuf == cgreg_registered_roaming() {
            (advance_send_model(d, r, i), StatusModel::Processing)
        } else if d.rxbuf == cgreg_searching() {
            (d, StatusModel::Processing)
        } else if d.rxbuf.len() > 0 && r.try_counter > 5 {
            (
                DriverModel { request: Some(RequestModel { step_i: None, ..r }), ..d },
                StatusModel::Failed(HttpFailReason::InternalTimeout),
            )
        } else {
            (d, StatusModel::Processing)
        }
    } else if i == 12 {
        // Action trigger: capture status code and content length.
        match spec_parse_action(d.rxbuf, lit8("HTTPACTION:")) {
            Some(fields) => {
                let r1 = RequestModel {
                    status_code: (fields.0 % 0x10000) as u16,
                    content_length: fields.1 as usize,
                    ..r
                };
                (advance_send_model(d, r1, i), StatusModel::Processing)
            },
            None => if contains_seq(d.rxbuf, lit8("HTTP_NONET_EVENT")) {
                (d, StatusModel::Failed(HttpFailReason::ServerTimeout))
            } else {
                (d, StatusModel::Processing)
            },
        }
    } else if i == 13 {
        // Length poll: advance only once a nonzero length is declared.
        match spec_parse_len(d.rxbuf, lit8("HTTPREAD: LEN,")) {
            Some(cl) => {
                let r1 = RequestModel { content_length: cl as usize, ..r };
                if cl != 0 {
                    (advance_send_model(d, r1, i), StatusModel::Processing)
                } else {
                    (DriverModel { request: Some(r1), ..d }, StatusModel::Processing)
                }
            },
            None => (d, StatusModel::Processing),
        }
    } else if i == 14 {
        // Body read: wait for the exact header plus the declared byte count,
        // then slice out exactly the body.
        let rl = read_len(r.content_length);
        let header = read_header(rl);
        match spec_find(d.rxbuf, header) {
            None => (d, StatusModel::Processing),
            Some(pos) => {
                let data_end = pos + header.len() + rl;
                if d.rxbuf.len() < data_end {
                    (d, StatusModel::Processing)
                } else {
                    let body = d.rxbuf.subrange(pos + header.len(), data_end);
                    (
                        DriverModel {
                            rxbuf: Seq::empty(),
                            request: Some(req_with_step(r, d.millis, None)),
                            ..d
                        },
                        StatusModel::Finished(
                            ResponseModel { status_code: r.status_code, body },
                        ),
                    )
                }
            },
        }
    } else {
        // Default: any accept pattern advances.
        if accepts_match(i as int, d.rxbuf) {
            (advance_send_model(d, r, i), StatusModel::Processing)
        } else {
            (d, StatusModel::Processing)
        }
    }
}

/// One poll of the state machine: a pure function from the driver state to
/// the next state and the reported status.
pub open spec fn update_model(d: DriverModel) -> (DriverModel, StatusModel) {
    match d.request {
        None => (d, StatusModel::NotStarted),
        Some(r) => match r.step_i {
            None => (d, StatusModel::NotStarted),
            Some(i) => if spec_elapsed(d.millis, r.try_timestamp) >= step_timeout_ms(i as int) {
                step_timeout_model(d, r, i)
            } else {
                step_parse_model(d, r, i)
            },
        },
    }
}

/// Starting a fetch: clear the receive buffer, create a fresh record at step
/// zero, and send the first command.
pub open spec fn start_model(d: DriverModel, url: Seq<u8>) -> DriverModel {
    let r = RequestModel {
        request_timestamp: d.millis,
        url,
        step_i: Some(0usize),
        step_timestamp: d.millis,
        try_counter: 0,
        try_timestamp: d.millis,
        status_code: 0,
        content_length: 0,
    };
    let (tx2, r2) = send_model(d.txbuf, r);
    DriverModel { rxbuf: Seq::empty(), txbuf: tx2, request: Some(r2), ..d }
}

/// Timeout of step `i` in milliseconds.
fn step_timeout_ms_exec(i: usize) -> (r: u64)
    requires
        i < NUM_STEPS,
    ensures
        r == step_timeout_ms(i as int),
{
    if i == 0 {
        2000
    } else if i <= 7 {
        1000
    } else if i <= 11 {
        3000
    } else if i == 12 {
        5000
    } else {
        2000
    }
}

/// Retry budget of step `i`.
fn step_max_retry_exec(i: usize) -> (r: u32)
    requires
        i < NUM_STEPS,
    ensures
        r == step_max_retry(i as int),
{
    if i == 0 {
        30
    } else if i == 3 {
        120
    } else if i == 11 {
        2
    } else if i == 12 {
        1
    } else if i == 13 {
        10
    } else if i == 14 {
        1
    } else {
        5
    }
}

/// Build the command bytes of step `i`.
fn step_command(i: usize, url: &Vec<u8>, content_length: usize) -> (r: Vec<u8>)
    requires
        i < NUM_STEPS,
    ensures
        r@ == spec_step_command(i as int, url@, content_length),
{
    if i == 0 {
        lit("AT+CPIN?\r")
    } else if i == 1 {
        lit("AT+HTTPTERM\r")
    } else if i == 2 {
        lit("AT+CSQ\r")
    } else if i == 3 {
        lit("AT+CGREG?\r")
    } else if i == 4 {
        lit("AT+COPS?\r")
    } else if i == 5 {
        lit("AT+CGACT=0,1\r")
    } else if i == 6 {
        lit("AT+CGACT?\r")
    } else if i == 7 {
        lit("AT+HTTPINIT\r")
    } else if i == 8 {
        lit("AT+HTTPPARA=\"CONNECTTO\",20\r")
    } else if i == 9 {
        lit("AT+HTTPPARA=\"RECVTO\",10\r")
    } else if i == 10 {
        lit("AT+HTTPPARA=\"RESPTO\",20\r")
    } else if i == 11 {
        let mut cmd = lit("AT+HTTPPARA=\"URL\",\"");
        push_all(&mut cmd, url);
        let tail = lit("\"\r");
        push_all(&mut cmd, &tail);
        cmd
    } else if i == 12 {
        lit("AT+HTTPACTION=0\r")
    } else if i == 13 {
        lit("AT+HTTPREAD?\r")
    } else {
        let rl: usize = if content_length <= 100 {
            content_length
        } else {
            100
        };
        let mut cmd = lit("AT+HTTPREAD=0,");
        push_digits(rl as u128, &mut cmd);
        let tail = lit("\r");
        push_all(&mut cmd, &tail);
        cmd
    }
}

/// Build the body-read header for the given chunk length.
fn read_header_exec(rl: usize) -> (r: Vec<u8>)
    requires
        rl <= 100,
    ensures
        r@ == read_header(rl as nat),
{
    let mut h = lit("AT+HTTPREAD=0,");
    push_digits(rl as u128, &mut h);
    let mid = lit("\r\r\nOK\r\n\r\n+HTTPREAD: DATA,");
    push_all(&mut h, &mid);
    push_digits(rl as u128, &mut h);
    let tail = lit("\r\n");
    push_all(&mut h, &tail);
    h
}

/// Whether any accept pattern of step `i` occurs in the receive buffer.
fn rx_accepts(i: usize, rx: &Vec<u8>) -> (r: bool)
    requires
        i < NUM_STEPS,
    ensures
        r == accepts_match(i as int, rx@),
{
    if i == 0 {
        let pat = lit("+CPIN: READY");
        let c = contains(rx, &pat);
        proof {
            if c {
                assert(step_accepts(i as int)[0] == lit8("+CPIN: READY"));
            } else {
                assert forall|k: int|
                    0 <= k < step_accepts(i as int).len() implies !contains_seq(
                    rx@,
                    step_accepts(i as int)[k],
                ) by {
                    assert(k == 0);
                }
            }
        }
        c
    } else if i == 1 || i == 5 || i == 7 {
        let ok = lit("OK\r\n");
        let err = lit("ERROR\r\n");
        let c0 = contains(rx, &ok);
        let c1 = contains(rx, &err);
        proof {
            if c0 {
                assert(step_accepts(i as int)[0] == lit8("OK\r\n"));
            } else if c1 {
                assert(step_accepts(i as int)[1] == lit8("ERROR\r\n"));
            } else {
                assert forall|k: int|
                    0 <= k < step_accepts(i as int).len() implies !contains_seq(
                    rx@,
                    step_accepts(i as int)[k],
                ) by {
                    assert(k == 0 || k == 1);
                }
            }
        }
        c0 || c1
    } else if i == 2 || i == 4 || i == 6 || i == 8 || i == 9 || i == 10 || i == 11 {
        let ok = lit("OK\r\n");
        let c = contains(rx, &ok);
        proof {
            if c {
                assert(step_accepts(i as int)[0] == lit8("OK\r\n"));
            } else {
                assert forall|k: int|
                    0 <= k < step_accepts(i as int).len() implies !contains_seq(
                    rx@,
                    step_accepts(i as int)[k],
                ) by {
                    assert(k == 0);
                }
            }
        }
        c
    } else {
        proof {
            assert(step_accepts(i as int).len() == 0);
        }
        false
    }
}

impl RequestStatus {
    /// Move to `new_step`, resetting the step clock and the retry counter.
    fn set_step(&mut self, millis: u64, new_step_i: Option<usize>)
        ensures
            final(self)@ == req_with_step(old(self)@, millis, new_step_i),
    {
        self.step_i = new_step_i;
        self.step_timestamp = millis;
        self.try_counter = 0;
        self.try_timestamp = millis;
        proof {
            assert(self@ =~= req_with_step(old(self)@, millis, new_step_i));
        }
    }

    /// Leave step `i` for the next one, or finish after the last step.
    fn next_step(&mut self, millis: u64, i: usize)
        requires
            old(self)@.step_i == Some(i),
            i < NUM_STEPS,
        ensures
            final(self)@ == next_step_model(old(self)@, millis, i),
    {
        if i + 1 >= NUM_STEPS {
            self.set_step(millis, None);
        } else {
            self.set_step(millis, Some(i + 1));
        }
    }

    /// Send the current step's command and count the attempt.
    fn send_step_command(&mut self, buffers: &mut Sim7600DriverBuffers)
        requires
            old(self)@.try_counter < 1000,
            old(self)@.step_i matches Some(i) ==> i < NUM_STEPS,
        ensures
            ({
                let (tx2, r2) = send_model(old(buffers).txbuf@, old(self)@);
                &&& final(self)@ == r2
                &&& final(buffers).txbuf@ == tx2
                &&& final(buffers).millis == old(buffers).millis
                &&& final(buffers).rxbuf@ == old(buffers).rxbuf@
            }),
    {
        match self.step_i {
            Some(step_i) => {
                self.try_counter = self.try_counter + 1;
                let cmd = step_command(step_i, &self.url, self.content_length);
                push_all(&mut buffers.txbuf, &cmd);
                proof {
                    assert(self@ =~= send_model(old(buffers).txbuf@, old(self)@).1);
                }
            },
            None => {
                proof {
                    assert(self@ =~= send_model(old(buffers).txbuf@, old(self)@).1);
                }
            },
        }
    }
}

impl Sim7600Driver {
    /// A fresh driver: zero clock, empty buffers, no fetch in flight.
    pub fn new() -> (r: Sim7600Driver)
        ensures
            r@ == (DriverModel {
                millis: 0u64,
                txbuf: Seq::<u8>::empty(),
                rxbuf: Seq::<u8>::empty(),
                request: None,
            }),
            r.wf(),
    {
        let r = Sim7600Driver {
            buffers: Sim7600DriverBuffers { millis: 0, txbuf: Vec::new(), rxbuf: Vec::new() },
            request: None,
        };
        proof {
            assert(r@ =~= (DriverModel {
                millis: 0u64,
                txbuf: Seq::<u8>::empty(),
                rxbuf: Seq::<u8>::empty(),
                request: None,
            }));
        }
        r
    }

    /// Feed the driver the current monotonic clock.
    pub fn update_time(&mut self, millis: u64)
        ensures
            final(self)@ == (DriverModel { millis, ..old(self)@ }),
            old(self).wf() ==> final(self).wf(),
    {
        self.buffers.millis = millis;
        proof {
            assert(self@ =~= (DriverModel { millis, ..old(self)@ }));
        }
    }

    /// Feed one received byte into the receive buffer; bytes beyond its
    /// capacity are dropped until the buffer is next cleared.
    pub fn push(&mut self, b: u8)
        ensures
            final(self)@ == if old(self)@.rxbuf.len() < RXBUF_CAPACITY {
                DriverModel { rxbuf: old(self)@.rxbuf.push(b), ..old(self)@ }
            } else {
                old(self)@
            },
            old(self).wf() ==> final(self).wf(),
    {
        if self.buffers.rxbuf.len() < RXBUF_CAPACITY {
            self.buffers.rxbuf.push(b);
            proof {
                assert(self@ =~= (DriverModel {
                    rxbuf: old(self)@.rxbuf.push(b),
                    ..old(self)@
                }));
            }
        } else {
            proof {
                assert(self@ =~= old(self)@);
            }
        }
    }

    /// Begin fetching `url` from step zero, replacing any fetch in flight.
    pub fn http_get_start(&mut self, url: &Vec<u8>)
        requires
            url@.len() <= URL_CAPACITY,
        ensures
            final(self)@ == start_model(old(self)@, url@),
            final(self).wf(),
    {
        self.buffers.rxbuf.clear();
        let url_copy = copy_range(url, 0, url.len());
        proof {
            assert(url_copy@ =~= url@);
        }
        let mut request = RequestStatus {
            request_timestamp: self.buffers.millis,
            url: url_copy,
            step_i: Some(0),
            step_timestamp: self.buffers.millis,
            try_counter: 0,
            try_timestamp: self.buffers.millis,
            status_code: 0,
            content_length: 0,
        };
        request.send_step_command(&mut self.buffers);
        self.request = Some(request);
        proof {
            assert(self@ =~= start_model(old(self)@, url@));
        }
    }

    /// Poll the state machine once; follows `update_model` exactly.
    pub fn http_get_update(&mut self) -> (r: HttpUpdateStatus)
        requires
            old(self).wf(),
        ensures
            final(self)@ == update_model(old(self)@).0,
            r@ == update_model(old(self)@).1,
            final(self).wf(),
    {
        let req_opt = self.request.take();
        let req = match req_opt {
            None => {
                proof {
                    assert(self@ =~= old(self)@);
                }
                return HttpUpdateStatus::NotStarted;
            },
            Some(req) => req,
        };
        let i = match req.step_i {
            None => {
                self.request = Some(req);
                proof {
                    assert(self@ =~= old(self)@);
                }
                return HttpUpdateStatus::NotStarted;
            },
            Some(i) => i,
        };
        let ghost taken = self@;
        let ghost reqm = req@;
        proof {
            assert((DriverModel { request: Some(reqm), ..taken }) =~= old(self)@);
        }
        let now = self.buffers.millis;
        let timeout = step_timeout_ms_exec(i);
        let expired = if now >= req.try_timestamp {
            now - req.try_timestamp >= timeout
        } else {
            true
        };
        proof {
            assert(expired == (spec_elapsed(old(self)@.millis, reqm.try_timestamp)
                >= step_timeout_ms(i as int)));
        }
        if expired {
            self.step_timeout(req, i)
        } else {
            self.step_parse(req, i)
        }
    }

    /// Abandon any fetch in flight.
    pub fn http_get_stop(&mut self)
        ensures
            final(self)@ == (DriverModel { request: None, ..old(self)@ }),
            old(self).wf() ==> final(self).wf(),
    {
        self.request = None;
        proof {
            assert(self@ =~= (DriverModel { request: None, ..old(self)@ }));
        }
    }

    /// Timeout handling of step `i`.
    fn step_timeout(&mut self, req: RequestStatus, i: usize) -> (r: HttpUpdateStatus)
        requires
            old(self).request is None,
            old(self).buffers.rxbuf@.len() <= RXBUF_CAPACITY,
            req@.try_counter <= 1000,
            req@.step_i == Some(i),
            i < NUM_STEPS,
        ensures
            ({
                let d = DriverModel { request: Some(req@), ..old(self)@ };
                let (m, st) = step_timeout_model(d, req@, i);
                &&& final(self)@ == m
                &&& r@ == st
                &&& final(self).wf()
            }),
    {
        let ghost d = DriverModel { request: Some(req@), ..old(self)@ };
        let mut req = req;
        if i == 11 || i == 12 {
            self.buffers.rxbuf.clear();
            req.next_step(self.buffers.millis, i);
            req.send_step_command(&mut self.buffers);
            self.request = Some(req);
            proof {
                assert(self@ =~= step_timeout_model(d, d.request->Some_0, i).0);
            }
            HttpUpdateStatus::Processing
        } else {
            let max_retry = step_max_retry_exec(i);
            if req.try_counter >= max_retry {
                req.step_i = None;
                self.buffers.rxbuf.clear();
                self.request = Some(req);
                proof {
                    assert(self@ =~= step_timeout_model(d, d.request->Some_0, i).0);
                }
                HttpUpdateStatus::Failed(HttpFailReason::InternalTimeout)
            } else {
                self.buffers.rxbuf.clear();
                req.try_timestamp = self.buffers.millis;
                req.try_counter = req.try_counter + 1;
                let cmd = step_command(i, &req.url, req.content_length);
                push_all(&mut self.buffers.txbuf, &cmd);
                self.request = Some(req);
                proof {
                    assert(self@ =~= step_timeout_model(d, d.request->Some_0, i).0);
                }
                HttpUpdateStatus::Processing
            }
        }
    }

    /// Reply parsing of step `i`.
    fn step_parse(&mut self, req: RequestStatus, i: usize) -> (r: HttpUpdateStatus)
        requires
            old(self).request is None,
            old(self).buffers.rxbuf@.len() <= RXBUF_CAPACITY,
            req@.try_counter <= 1000,
            req@.step_i == Some(i),
            i < NUM_STEPS,
        ensures
            ({
                let d = DriverModel { request: Some(req@), ..old(self)@ };
                let (m, st) = step_parse_model(d, req@, i);
                &&& final(self)@ == m
                &&& r@ == st
                &&& final(self).wf()
            }),
    {
        let ghost d = DriverModel { request: Some(req@), ..old(self)@ };
        let mut req = req;
        if i == 3 {
            let home = lit("AT+CGREG?\r\r\n+CGREG: 0,1\r\n\r\nOK\r\n");
            let roaming = lit("AT+CGREG?\r\r\n+CGREG: 0,5\r\n\r\nOK\r\n");
            let searching = lit("AT+CGREG?\r\r\n+CGREG: 0,2\r\n\r\nOK\r\n");
            if vec_eq(&self.buffers.rxbuf, &home) || vec_eq(&self.buffers.rxbuf, &roaming) {
                self.buffers.rxbuf.clear();
                req.next_step(self.buffers.millis, i);
                req.send_step_command(&mut self.buffers);
                self.request = Some(req);
                proof {
                    assert(self@ =~= step_parse_model(d, d.request->Some_0, i).0);
                }
                HttpUpdateStatus::Processing
            } else if vec_eq(&self.buffers.rxbuf, &searching) {
                self.request = Some(req);
                proof {
                    assert(self@ =~= step_parse_model(d, d.request->Some_0, i).0);
                }
                HttpUpdateStatus::Processing
            } else if self.buffers.rxbuf.len() > 0 && req.try_counter > 5 {
                req.step_i = None;
                self.request = Some(req);
                proof {
                    assert(self@ =~= step_parse_model(d, d.request->Some_0, i).0);
                }
                HttpUpdateStatus::Failed(HttpFailReason::InternalTimeout)
            } else {
                self.request = Some(req);
                proof {
                    assert(self@ =~= step_parse_model(d, d.request->Some_0, i).0);
                }
                HttpUpdateStatus::Processing
            }
        } else if i == 12 {
            let marker = lit("HTTPACTION:");
            match parse_action(&self.buffers.rxbuf, &marker) {
                Some((status, length)) => {
                    req.status_code = (status % 0x10000) as u16;
                    req.content_length = length as usize;
                    self.buffers.rxbuf.clear();
                    req.next_step(self.buffers.millis, i);
                    req.send_step_command(&mut self.buffers);
                    self.request = Some(req);
                    proof {
                        assert(self@ =~= step_parse_model(d, d.request->Some_0, i).0);
                    }
                    HttpUpdateStatus::Processing
                },
                None => {
                    let nonet = lit("HTTP_NONET_EVENT");
                    let failed = contains(&self.buffers.rxbuf, &nonet);
                    self.request = Some(req);
                    proof {
                        assert(self@ =~= step_parse_model(d, d.request->Some_0, i).0);
                    }
                    if failed {
                        HttpUpdateStatus::Failed(HttpFailReason::ServerTimeout)
                    } else {
                        HttpUpdateStatus::Processing
                    }
                },
            }
        } else if i == 13 {
            let marker = lit("HTTPREAD: LEN,");
            match parse_len(&self.buffers.rxbuf, &marker) {
                Some(length) => {
                    req.content_length = length as usize;
                    if length != 0 {
                        self.buffers.rxbuf.clear();
                        req.next_step(self.buffers.millis, i);
                        req.send_step_command(&mut self.buffers);
                        self.request = Some(req);
                        proof {
                            assert(self@ =~= step_parse_model(d, d.request->Some_0, i).0);
                        }
                        HttpUpdateStatus::Processing
                    } else {
                        self.request = Some(req);
                        proof {
                            assert(self@ =~= step_parse_model(d, d.request->Some_0, i).0);
                        }
                        HttpUpdateStatus::Processing
                    }
                },
                None => {
                    self.request = Some(req);
                    proof {
                        assert(self@ =~= step_parse_model(d, d.request->Some_0, i).0);
                    }
                    HttpUpdateStatus::Processing
                },
            }
        } else if i == 14 {
            let rl: usize = if req.content_length <= 100 {
                req.content_length
            } else {
                100
            };
            let header = read_header_exec(rl);
            match crate::parse::find(&self.buffers.rxbuf, &header) {
                None => {
                    self.request = Some(req);
                    proof {
                        assert(self@ =~= step_parse_model(d, d.request->Some_0, i).0);
                    }
                    HttpUpdateStatus::Processing
                },
                Some(pos) => {
                    proof {
                        crate::parse::lemma_first_match_from_complete(
                            self.buffers.rxbuf@,
                            header@,
                            0,
                        );
                    }
                    let body_start = pos + header.len();
                    if self.buffers.rxbuf.len() < body_start || self.buffers.rxbuf.len()
                        - body_start < rl {
                        self.request = Some(req);
                        proof {
                            assert(self@ =~= step_parse_model(d, d.request->Some_0, i).0);
                        }
                        HttpUpdateStatus::Processing
                    } else {
                        let body = copy_range(&self.buffers.rxbuf, body_start, body_start + rl);
                        let status_code = req.status_code;
                        self.buffers.rxbuf.clear();
                        req.set_step(self.buffers.millis, None);
                        self.request = Some(req);
                        proof {
                            assert(self@ =~= step_parse_model(d, d.request->Some_0, i).0);
                            assert((HttpResponse { status_code, body })@ =~= step_parse_model(
                                d,
                                d.request->Some_0,
                                i,
                            ).1->Finished_0);
                        }
                        HttpUpdateStatus::Finished(HttpResponse { status_code, body })
                    }
                },
            }
        } else {
            if rx_accepts(i, &self.buffers.rxbuf) {
                self.buffers.rxbuf.clear();
                req.next_step(self.buffers.millis, i);
                req.send_step_command(&mut self.buffers);
                self.request = Some(req);
                proof {
                    assert(self@ =~= step_parse_model(d, d.request->Some_0, i).0);
                }
                HttpUpdateStatus::Processing
            } else {
                self.request = Some(req);
                proof {
                    assert(self@ =~= step_parse_model(d, d.request->Some_0, i).0);
                }
                HttpUpdateStatus::Processing
            }
        }
    }
}

/// A step whose reply has timed out with its retry budget exhausted abandons
/// the whole fetch: the poll reports an internal timeout and the step index
/// becomes none. The two advance-on-timeout steps are the deliberate
/// exceptions.
pub proof fn lemma_retry_exhaustion_fails(d: DriverModel)
    requires
        d.request matches Some(r) && r.step_i matches Some(i) && i < NUM_STEPS && i != 11 && i
            != 12 && spec_elapsed(d.millis, r.try_timestamp) >= step_timeout_ms(i as int)
            && r.try_counter >= step_max_retry(i as int),
    ensures
        update_model(d).1 == StatusModel::Failed(HttpFailReason::InternalTimeout),
        update_model(d).0.request matches Some(r2) && r2.step_i is None,
{
}

/// A default-parse step whose accept pattern has arrived advances: before
/// its timeout, one poll clears the receive buffer, moves to the next step
/// and queues exactly that step's command. Chaining this through the step
/// table takes a scripted fetch from step zero to completion.
pub proof fn lemma_accept_advances(d: DriverModel)
    requires
        d.request matches Some(r) && r.step_i matches Some(i) && i < NUM_STEPS && i != 3 && i != 12
            && i != 13 && i != 14 && spec_elapsed(d.millis, r.try_timestamp) < step_timeout_ms(
            i as int,
        ) && accepts_match(i as int, d.rxbuf),
    ensures
        update_model(d).1 == StatusModel::Processing,
        update_model(d).0.rxbuf == Seq::<u8>::empty(),
        ({
            let r = d.request->Some_0;
            let i = r.step_i->Some_0;
            let r2 = update_model(d).0.request->Some_0;
            &&& update_model(d).0.request is Some
            &&& r2.step_i == if i + 1 < NUM_STEPS {
                Some((i + 1) as usize)
            } else {
                None::<usize>
            }
            &&& update_model(d).0.txbuf == if i + 1 < NUM_STEPS {
                d.txbuf + spec_step_command(i + 1, r.url, r.content_length)
            } else {
                d.txbuf
            }
        }),
{
}

/// An abandoned or never-started fetch stays put: polling reports
/// `NotStarted`, sends nothing and changes nothing, so only an explicit
/// start recovers the machine.
pub proof fn lemma_no_self_restart(d: DriverModel)
    requires
        d.request is None || (d.request matches Some(r) && r.step_i is None),
    ensures
        update_model(d).0 == d,
        update_model(d).1 == StatusModel::NotStarted,
{
}

} // verus!
