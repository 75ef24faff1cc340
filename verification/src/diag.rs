//! Diagnostics: callback registrations and the events delivered through
//! them. The model keeps, per category (output, error, deferred free), at
//! most one active registration — a pair of an opaque function token and
//! an opaque argument — and records every invocation the engine would make
//! as an event, in order. The embedder drives the real callbacks from
//! those events.

use vstd::prelude::*;

verus! {

/// Error code: double free detected.
pub const ERR_EAGAIN: i32 = 11;

/// Error code: not enough memory to satisfy the request.
pub const ERR_ENOMEM: i32 = 12;

/// Error code: corrupted free list or metadata detected.
pub const ERR_EFAULT: i32 = 14;

/// Error code: freeing or re-allocating an invalid pointer.
pub const ERR_EINVAL: i32 = 22;

/// Error code: a computed request size is too large.
pub const ERR_EOVERFLOW: i32 = 75;

/// A registered deferred-free callback is invoked after this many
/// allocations, deterministically, whether or not memory is scarce.
pub const DEFERRED_FREE_INTERVAL: u64 = 64;

/// An active callback registration: an opaque, nonzero function token and
/// the argument handed back on every invocation. Registering the null
/// function (token zero) clears the category instead.
#[derive(Clone, Copy, Debug, PartialEq, Eq, Structural)]
pub struct Registration {
    pub fun: usize,
    pub arg: usize,
}

/// One invocation of the deferred-free callback: whether everything
/// possible should be freed now, the heartbeat value, and the
/// registration it was delivered to.
#[derive(Clone, Copy, Debug, PartialEq, Eq, Structural)]
pub struct DeferredEvent {
    pub force: bool,
    pub heartbeat: u64,
    pub fun: usize,
    pub arg: usize,
}

/// One invocation of the error callback.
#[derive(Clone, Copy, Debug, PartialEq, Eq, Structural)]
pub struct ErrorEvent {
    pub code: i32,
    pub fun: usize,
    pub arg: usize,
}

/// One statistics report. A zero function token stands for the default
/// sink (standard error). The counters are a snapshot at print time.
#[derive(Clone, Copy, Debug, PartialEq, Eq, Structural)]
pub struct OutputEvent {
    pub fun: usize,
    pub arg: usize,
    pub allocation_count: u64,
    pub free_count: u64,
}

/// `x + 1`, saturating at the top of the counter range.
pub open spec fn spec_saturating_inc(x: u64) -> u64 {
    if x == u64::MAX {
        x
    } else {
        (x + 1) as u64
    }
}

/// Mathematical model of the diagnostic state.
pub ghost struct DiagView {
    pub output: Option<Registration>,
    pub error: Option<Registration>,
    pub deferred: Option<Registration>,
    pub deferred_since: u64,
    pub deferred_events: Seq<DeferredEvent>,
    pub error_events: Seq<ErrorEvent>,
    pub output_events: Seq<OutputEvent>,
    pub allocation_count: u64,
    pub free_count: u64,
}

/// The diagnostic state of a fresh process: nothing registered, nothing
/// recorded, counters at zero.
pub open spec fn spec_diag_init() -> DiagView {
    DiagView {
        output: None,
        error: None,
        deferred: None,
        deferred_since: 0,
        deferred_events: Seq::empty(),
        error_events: Seq::empty(),
        output_events: Seq::empty(),
        allocation_count: 0,
        free_count: 0,
    }
}

/// Effect of one successful allocation: the allocation counter rises and,
/// when the deterministic interval elapses, the deferred-free callback
/// (if registered) is invoked once with the next heartbeat value.
pub open spec fn spec_after_allocation(d: DiagView) -> DiagView {
    let counted = DiagView { allocation_count: spec_saturating_inc(d.allocation_count), ..d };
    if d.deferred_since + 1 == DEFERRED_FREE_INTERVAL {
        match d.deferred {
            Some(reg) => DiagView {
                deferred_since: 0,
                deferred_events: d.deferred_events.push(
                    DeferredEvent {
                        force: false,
                        heartbeat: d.deferred_events.len() as u64,
                        fun: reg.fun,
                        arg: reg.arg,
                    },
                ),
                ..counted
            },
            None => DiagView { deferred_since: 0, ..counted },
        }
    } else {
        DiagView { deferred_since: (d.deferred_since + 1) as u64, ..counted }
    }
}

/// Effect of one free: only the free counter moves.
pub open spec fn spec_after_free(d: DiagView) -> DiagView {
    DiagView { free_count: spec_saturating_inc(d.free_count), ..d }
}

/// Effect of an engine-detected failure: the error callback, if
/// registered, is invoked once with the error code; the default behaviour
/// (logging) leaves no trace in the model.
pub open spec fn spec_after_failure(d: DiagView, code: i32) -> DiagView {
    match d.error {
        Some(reg) => DiagView {
            error_events: d.error_events.push(ErrorEvent { code, fun: reg.fun, arg: reg.arg }),
            ..d
        },
        None => d,
    }
}

/// Effect of an explicit deferred-free invocation (memory collection):
/// the callback, if registered, runs once with the given force flag.
pub open spec fn spec_after_deferred(d: DiagView, force: bool) -> DiagView {
    match d.deferred {
        Some(reg) => DiagView {
            deferred_events: d.deferred_events.push(
                DeferredEvent {
                    force,
                    heartbeat: d.deferred_events.len() as u64,
                    fun: reg.fun,
                    arg: reg.arg,
                },
            ),
            ..d
        },
        None => d,
    }
}

/// Effect of a statistics report to the sink `(fun, arg)`.
pub open spec fn spec_after_print(d: DiagView, fun: usize, arg: usize) -> DiagView {
    DiagView {
        output_events: d.output_events.push(
            OutputEvent {
                fun,
                arg,
                allocation_count: d.allocation_count,
                free_count: d.free_count,
            },
        ),
        ..d
    }
}

/// The registration a token/argument pair denotes: the null token clears
/// the category.
pub open spec fn spec_registration(fun: usize, arg: usize) -> Option<Registration> {
    if fun == 0 {
        None
    } else {
        Some(Registration { fun, arg })
    }
}

/// Process-wide diagnostic state.
pub struct Diagnostics {
    pub output: Option<Registration>,
    pub error: Option<Registration>,
    pub deferred: Option<Registration>,
    /// Allocations since the deferred-free callback last ran.
    pub deferred_since: u64,
    pub deferred_events: Vec<DeferredEvent>,
    pub error_events: Vec<ErrorEvent>,
    pub output_events: Vec<OutputEvent>,
    pub allocation_count: u64,
    pub free_count: u64,
}

impl View for Diagnostics {
    type V = DiagView;

    open spec fn view(&self) -> DiagView {
        DiagView {
            output: self.output,
            error: self.error,
            deferred: self.deferred,
            deferred_since: self.deferred_since,
            deferred_events: self.deferred_events@,
            error_events: self.error_events@,
            output_events: self.output_events@,
            allocation_count: self.allocation_count,
            free_count: self.free_count,
        }
    }
}

/// The heartbeat is the number of deferred-free invocations so far; each
/// recorded event carries the value it was invoked with, so the values
/// are exactly the event indices. A registration never holds the null
/// function token.
pub open spec fn diag_wf(d: DiagView) -> bool {
    &&& d.deferred_since < DEFERRED_FREE_INTERVAL
    &&& forall|i: int|
        0 <= i < d.deferred_events.len() ==> #[trigger] d.deferred_events[i].heartbeat == i
    &&& d.output matches Some(r) ==> r.fun != 0
    &&& d.error matches Some(r) ==> r.fun != 0
    &&& d.deferred matches Some(r) ==> r.fun != 0
}

impl Diagnostics {
    /// Well-formedness of the executable state.
    pub open spec fn wf(self) -> bool {
        diag_wf(self@)
    }

    /// Initial state: nothing registered, nothing recorded, counters at
    /// zero.
    pub fn new() -> (r: Self)
        ensures
            r.wf(),
            r@ == spec_diag_init(),
    {
        let r = Diagnostics {
            output: None,
            error: None,
            deferred: None,
            deferred_since: 0,
            deferred_events: Vec::new(),
            error_events: Vec::new(),
            output_events: Vec::new(),
            allocation_count: 0,
            free_count: 0,
        };
        proof {
            assert(r@ =~= spec_diag_init());
        }
        r
    }

    /// Replace the output-function registration; a null function token
    /// clears it, falling back to standard error.
    pub fn register_output(&mut self, fun: usize, arg: usize)
        requires
            old(self).wf(),
        ensures
            final(self).wf(),
            final(self)@ == (DiagView { output: spec_registration(fun, arg), ..old(self)@ }),
    {
        self.output = if fun == 0 {
            None
        } else {
            Some(Registration { fun, arg })
        };
        proof {
            assert(self@ =~= (DiagView { output: spec_registration(fun, arg), ..old(self)@ }));
        }
    }

    /// Replace the error-function registration; a null function token
    /// clears it.
    pub fn register_error(&mut self, fun: usize, arg: usize)
        requires
            old(self).wf(),
        ensures
            final(self).wf(),
            final(self)@ == (DiagView { error: spec_registration(fun, arg), ..old(self)@ }),
    {
        self.error = if fun == 0 {
            None
        } else {
            Some(Registration { fun, arg })
        };
        proof {
            assert(self@ =~= (DiagView { error: spec_registration(fun, arg), ..old(self)@ }));
        }
    }

    /// Replace the deferred-free registration; at most one is active, and
    /// a null function token clears it.
    pub fn register_deferred_free(&mut self, fun: usize, arg: usize)
        requires
            old(self).wf(),
        ensures
            final(self).wf(),
            final(self)@ == (DiagView { deferred: spec_registration(fun, arg), ..old(self)@ }),
    {
        self.deferred = if fun == 0 {
            None
        } else {
            Some(Registration { fun, arg })
        };
        proof {
            assert(self@ =~= (DiagView { deferred: spec_registration(fun, arg), ..old(self)@ }));
        }
    }

    /// Record one successful allocation: bump the allocation counter and,
    /// once enough allocations have passed, invoke the deferred-free
    /// callback (if one is registered) with the next heartbeat value.
    pub fn note_allocation(&mut self)
        requires
            old(self).wf(),
        ensures
            final(self).wf(),
            final(self)@ == spec_after_allocation(old(self)@),
    {
        if self.allocation_count < u64::MAX {
            self.allocation_count = self.allocation_count + 1;
        }
        self.deferred_since = self.deferred_since + 1;
        if self.deferred_since == DEFERRED_FREE_INTERVAL {
            self.deferred_since = 0;
            match self.deferred {
                Some(reg) => {
                    let heartbeat = self.deferred_events.len() as u64;
                    self.deferred_events.push(
                        DeferredEvent { force: false, heartbeat, fun: reg.fun, arg: reg.arg },
                    );
                },
                None => {},
            }
        }
        proof {
            assert(self@ =~= spec_after_allocation(old(self)@));
        }
    }

    /// Record one free.
    pub fn note_free(&mut self)
        requires
            old(self).wf(),
        ensures
            final(self).wf(),
            final(self)@ == spec_after_free(old(self)@),
    {
        if self.free_count < u64::MAX {
            self.free_count = self.free_count + 1;
        }
        proof {
            assert(self@ =~= spec_after_free(old(self)@));
        }
    }

    /// Report an engine-detected failure through the error callback, if
    /// one is registered.
    pub fn note_failure(&mut self, code: i32)
        requires
            old(self).wf(),
        ensures
            final(self).wf(),
            final(self)@ == spec_after_failure(old(self)@, code),
    {
        match self.error {
            Some(reg) => {
                self.error_events.push(ErrorEvent { code, fun: reg.fun, arg: reg.arg });
            },
            None => {},
        }
        proof {
            assert(self@ =~= spec_after_failure(old(self)@, code));
        }
    }

    /// Invoke the deferred-free callback now, if one is registered,
    /// asking it to free everything possible when `force` is set.
    pub fn invoke_deferred(&mut self, force: bool)
        requires
            old(self).wf(),
        ensures
            final(self).wf(),
            final(self)@ == spec_after_deferred(old(self)@, force),
    {
        match self.deferred {
            Some(reg) => {
                let heartbeat = self.deferred_events.len() as u64;
                self.deferred_events.push(
                    DeferredEvent { force, heartbeat, fun: reg.fun, arg: reg.arg },
                );
            },
            None => {},
        }
        proof {
            assert(self@ =~= spec_after_deferred(old(self)@, force));
        }
    }

    /// Record a statistics report to the registered output function, or
    /// to standard error (token zero) if none is registered.
    pub fn print_stats(&mut self)
        requires
            old(self).wf(),
        ensures
            final(self).wf(),
            final(self)@ == spec_after_print(
                old(self)@,
                match old(self)@.output {
                    Some(reg) => reg.fun,
                    None => 0,
                },
                match old(self)@.output {
                    Some(reg) => reg.arg,
                    None => 0,
                },
            ),
    {
        let (fun, arg) = match self.output {
            Some(reg) => (reg.fun, reg.arg),
            None => (0, 0),
        };
        self.output_events.push(
            OutputEvent {
                fun,
                arg,
                allocation_count: self.allocation_count,
                free_count: self.free_count,
            },
        );
        proof {
            assert(self@ =~= spec_after_print(old(self)@, fun, arg));
        }
    }

    /// Record a statistics report to an explicitly supplied sink.
    pub fn print_stats_to(&mut self, fun: usize, arg: usize)
        requires
            old(self).wf(),
        ensures
            final(self).wf(),
            final(self)@ == spec_after_print(old(self)@, fun, arg),
    {
        self.output_events.push(
            OutputEvent {
                fun,
                arg,
                allocation_count: self.allocation_count,
                free_count: self.free_count,
            },
        );
        proof {
            assert(self@ =~= spec_after_print(old(self)@, fun, arg));
        }
    }

    /// Reset the statistics counters.
    pub fn reset_stats(&mut self)
        requires
            old(self).wf(),
        ensures
            final(self).wf(),
            final(self)@ == (DiagView { allocation_count: 0, free_count: 0, ..old(self)@ }),
    {
        self.allocation_count = 0;
        self.free_count = 0;
        proof {
            assert(self@ =~= (DiagView { allocation_count: 0, free_count: 0, ..old(self)@ }));
        }
    }
}

/// Deferred-free invocations carry a strictly increasing heartbeat: a
/// later event always sees a larger value than an earlier one.
pub proof fn lemma_heartbeats_strictly_increase(d: DiagView, i: int, j: int)
    requires
        diag_wf(d),
        0 <= i < j < d.deferred_events.len(),
    ensures
        d.deferred_events[i].heartbeat < d.deferred_events[j].heartbeat,
{
}

} // verus!
