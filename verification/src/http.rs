//! The request orchestrator around the modem state machine.
//!
//! Owns one fetch lifetime: during the settling window after a modem
//! power-cycle it asserts the power-inhibit output and reports `Processing`
//! without touching the inner machine; otherwise it polls the machine,
//! re-triggers an idle fetch after the minimum inter-request interval,
//! stops the session on server-level failures and on completion, and counts
//! consecutive transport-level failures, power-cycling the modem as a
//! last-resort recovery once they reach the threshold.

use vstd::prelude::*;

use crate::modem::{
    spec_elapsed, start_model, update_model, DriverModel, Sim7600Driver, URL_CAPACITY,
};
use crate::status::{is_transport_failure, transport_failure, HttpUpdateStatus, StatusModel};

verus! {

/// Power-inhibit is asserted this long after a power-cycle begins.
pub const POWER_CYCLE_INHIBIT_MS: u64 = 3000;

/// The inner machine is left alone this long after a power-cycle begins.
pub const POWER_CYCLE_SETTLE_MS: u64 = 4000;

/// Consecutive transport failures that trigger a power-cycle.
pub const POWER_CYCLE_ERROR_THRESHOLD: u32 = 10;

/// Minimum milliseconds between the end of one fetch and the start of the
/// next.
pub const MIN_REQUEST_INTERVAL_MS: u64 = 10000;

/// The orchestrator: the driven modem plus the retry and power-cycle policy
/// state.
pub struct HttpProcess {
    pub driver: Sim7600Driver,
    pub last_http_request_millis: u64,
    pub sim7600_power_cycle_start_timestamp: u64,
    pub sim7600_power_cycle_error_counter: u32,
}

/// Mathematical image of the orchestrator.
#[verifier::ext_equal]
pub struct ProcessModel {
    pub driver: DriverModel,
    pub last_http_request_millis: u64,
    pub power_cycle_start: u64,
    pub error_counter: u32,
}

impl View for HttpProcess {
    type V = ProcessModel;

    open spec fn view(&self) -> ProcessModel {
        ProcessModel {
            driver: self.driver@,
            last_http_request_millis: self.last_http_request_millis,
            power_cycle_start: self.sim7600_power_cycle_start_timestamp,
            error_counter: self.sim7600_power_cycle_error_counter,
        }
    }
}

impl HttpProcess {
    /// Bounds kept by every reachable orchestrator state.
    pub open spec fn wf(self) -> bool {
        &&& self.driver.wf()
        &&& self.sim7600_power_cycle_error_counter < POWER_CYCLE_ERROR_THRESHOLD
    }
}

/// One orchestrator tick as a pure function: the next state, the reported
/// status, and whether the power-inhibit output is asserted.
pub open spec fn tick_model(o: ProcessModel, now: u64, url: Seq<u8>) -> (
    ProcessModel,
    StatusModel,
    bool,
) {
    let o1 = ProcessModel { driver: DriverModel { millis: now, ..o.driver }, ..o };
    let inhibit = spec_elapsed(now, o.power_cycle_start) < POWER_CYCLE_INHIBIT_MS;
    if spec_elapsed(now, o.power_cycle_start) < POWER_CYCLE_SETTLE_MS {
        (o1, StatusModel::Processing, inhibit)
    } else {
        let (d2, st) = update_model(o1.driver);
        match st {
            StatusModel::NotStarted => if spec_elapsed(now, o.last_http_request_millis)
                > MIN_REQUEST_INTERVAL_MS {
                (
                    ProcessModel {
                        driver: start_model(d2, url),
                        last_http_request_millis: now,
                        ..o1
                    },
                    StatusModel::NotStarted,
                    inhibit,
                )
            } else {
                (ProcessModel { driver: d2, ..o1 }, StatusModel::NotStarted, inhibit)
            },
            StatusModel::Processing => (
                ProcessModel { driver: d2, ..o1 },
                StatusModel::Processing,
                inhibit,
            ),
            StatusModel::Failed(reason) => if is_transport_failure(reason) {
                if o.error_counter + 1 >= POWER_CYCLE_ERROR_THRESHOLD {
                    (
                        ProcessModel {
                            driver: d2,
                            error_counter: 0,
                            power_cycle_start: now,
                            ..o1
                        },
                        StatusModel::Failed(reason),
                        inhibit,
                    )
                } else {
                    (
                        ProcessModel {
                            driver: d2,
                            error_counter: (o.error_counter + 1) as u32,
                            ..o1
                        },
                        StatusModel::Failed(reason),
                        inhibit,
                    )
                }
            } else {
                (
                    ProcessModel { driver: DriverModel { request: None, ..d2 }, ..o1 },
                    StatusModel::Failed(reason),
                    inhibit,
                )
            },
            StatusModel::Finished(resp) => (
                ProcessModel { driver: DriverModel { request: None, ..d2 }, ..o1 },
                StatusModel::Finished(resp),
                inhibit,
            ),
        }
    }
}

impl HttpProcess {
    /// A fresh orchestrator around a fresh driver.
    pub fn new() -> (r: HttpProcess)
        ensures
            r@ == (ProcessModel {
                driver: DriverModel {
                    millis: 0u64,
                    txbuf: Seq::<u8>::empty(),
                    rxbuf: Seq::<u8>::empty(),
                    request: None,
                },
                last_http_request_millis: 0u64,
                power_cycle_start: 0u64,
                error_counter: 0u32,
            }),
            r.wf(),
    {
        let r = HttpProcess {
            driver: Sim7600Driver::new(),
            last_http_request_millis: 0,
            sim7600_power_cycle_start_timestamp: 0,
            sim7600_power_cycle_error_counter: 0,
        };
        proof {
            assert(r@ =~= (ProcessModel {
                driver: DriverModel {
                    millis: 0u64,
                    txbuf: Seq::<u8>::empty(),
                    rxbuf: Seq::<u8>::empty(),
                    request: None,
                },
                last_http_request_millis: 0u64,
                power_cycle_start: 0u64,
                error_counter: 0u32,
            }));
        }
        r
    }

    /// Begin a fetch of `url` now, regardless of the re-trigger interval.
    pub fn start(&mut self, now: u64, url: &Vec<u8>)
        requires
            old(self).wf(),
            url@.len() <= URL_CAPACITY,
        ensures
            final(self)@ == (ProcessModel {
                driver: start_model(DriverModel { millis: now, ..old(self)@.driver }, url@),
                last_http_request_millis: now,
                ..old(self)@
            }),
            final(self).wf(),
    {
        self.driver.update_time(now);
        self.driver.http_get_start(url);
        self.last_http_request_millis = now;
        proof {
            assert(self@ =~= (ProcessModel {
                driver: start_model(DriverModel { millis: now, ..old(self)@.driver }, url@),
                last_http_request_millis: now,
                ..old(self)@
            }));
        }
    }

    /// Cancel any fetch in flight unconditionally.
    pub fn stop(&mut self)
        ensures
            final(self)@ == (ProcessModel {
                driver: DriverModel { request: None, ..old(self)@.driver },
                ..old(self)@
            }),
            old(self).wf() ==> final(self).wf(),
    {
        self.driver.http_get_stop();
        proof {
            assert(self@ =~= (ProcessModel {
                driver: DriverModel { request: None, ..old(self)@.driver },
                ..old(self)@
            }));
        }
    }

    /// One orchestrator tick; follows `tick_model` exactly. Returns the
    /// status to report and whether the power-inhibit output must be
    /// asserted.
    pub fn update(&mut self, now: u64, url: &Vec<u8>) -> (r: (HttpUpdateStatus, bool))
        requires
            old(self).wf(),
            url@.len() <= URL_CAPACITY,
        ensures
            ({
                let (m, st, inhibit) = tick_model(old(self)@, now, url@);
                &&& final(self)@ == m
                &&& r.0@ == st
                &&& r.1 == inhibit
            }),
            final(self).wf(),
    {
        self.driver.update_time(now);
        let pcs = self.sim7600_power_cycle_start_timestamp;
        let inhibit = if now >= pcs {
            now - pcs < POWER_CYCLE_INHIBIT_MS
        } else {
            false
        };
        let settling = if now >= pcs {
            now - pcs < POWER_CYCLE_SETTLE_MS
        } else {
            false
        };
        if settling {
            proof {
                assert(self@ =~= tick_model(old(self)@, now, url@).0);
            }
            return (HttpUpdateStatus::Processing, inhibit);
        }
        let st = self.driver.http_get_update();
        match st {
            HttpUpdateStatus::NotStarted => {
                let since = if now >= self.last_http_request_millis {
                    now - self.last_http_request_millis
                } else {
                    u64::MAX
                };
                if since > MIN_REQUEST_INTERVAL_MS {
                    self.driver.http_get_start(url);
                    self.last_http_request_millis = now;
                }
                proof {
                    assert(self@ =~= tick_model(old(self)@, now, url@).0);
                }
                (HttpUpdateStatus::NotStarted, inhibit)
            },
            HttpUpdateStatus::Processing => {
                proof {
                    assert(self@ =~= tick_model(old(self)@, now, url@).0);
                }
                (HttpUpdateStatus::Processing, inhibit)
            },
            HttpUpdateStatus::Failed(reason) => {
                if transport_failure(reason) {
                    self.sim7600_power_cycle_error_counter = self.sim7600_power_cycle_error_counter
                        + 1;
                    if self.sim7600_power_cycle_error_counter >= POWER_CYCLE_ERROR_THRESHOLD {
                        self.sim7600_power_cycle_error_counter = 0;
                        self.sim7600_power_cycle_start_timestamp = now;
                    }
                } else {
                    self.driver.http_get_stop();
                }
                proof {
                    assert(self@ =~= tick_model(old(self)@, now, url@).0);
                }
                (HttpUpdateStatus::Failed(reason), inhibit)
            },
            HttpUpdateStatus::Finished(resp) => {
                self.driver.http_get_stop();
                proof {
                    assert(self@ =~= tick_model(old(self)@, now, url@).0);
                }
                (HttpUpdateStatus::Finished(resp), inhibit)
            },
        }
    }
}

/// After the threshold-th consecutive transport-classified failure the
/// power-cycle is triggered: the failure counter returns to zero and the
/// cycle-start timestamp is set to the tick's clock.
pub proof fn lemma_power_cycle_after_threshold(o: ProcessModel, now: u64, url: Seq<u8>)
    requires
        o.error_counter == POWER_CYCLE_ERROR_THRESHOLD - 1,
        spec_elapsed(now, o.power_cycle_start) >= POWER_CYCLE_SETTLE_MS,
        update_model(DriverModel { millis: now, ..o.driver }).1 matches StatusModel::Failed(r)
            && is_transport_failure(r),
    ensures
        tick_model(o, now, url).0.error_counter == 0,
        tick_model(o, now, url).0.power_cycle_start == now,
{
}

/// Below the threshold a transport-classified failure only counts: no
/// power-cycle is triggered, so the cycle fires exactly once per threshold
/// run.
pub proof fn lemma_no_power_cycle_below_threshold(o: ProcessModel, now: u64, url: Seq<u8>)
    requires
        o.error_counter + 1 < POWER_CYCLE_ERROR_THRESHOLD,
        spec_elapsed(now, o.power_cycle_start) >= POWER_CYCLE_SETTLE_MS,
        update_model(DriverModel { millis: now, ..o.driver }).1 matches StatusModel::Failed(r)
            && is_transport_failure(r),
    ensures
        tick_model(o, now, url).0.error_counter == o.error_counter + 1,
        tick_model(o, now, url).0.power_cycle_start == o.power_cycle_start,
{
}

/// Throughout the inhibit window following a power-cycle trigger, a tick
/// asserts the power-inhibit output and leaves the inner machine alone.
pub proof fn lemma_inhibit_during_settling(o: ProcessModel, now: u64, url: Seq<u8>)
    requires
        spec_elapsed(now, o.power_cycle_start) < POWER_CYCLE_INHIBIT_MS,
    ensures
        tick_model(o, now, url).2,
        tick_model(o, now, url).1 == StatusModel::Processing,
        tick_model(o, now, url).0.driver.request == o.driver.request,
{
}

} // verus!
