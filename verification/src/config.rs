//! Process-wide configuration and diagnostics entry points on the front
//! end: the options registry, the callback registrations, the statistics
//! reports, and the version query.

use vstd::prelude::*;

verus! {

use crate::diag::{spec_after_print, spec_registration, DiagView};
use crate::options::{spec_set, spec_set_if_unset, spec_value};
use crate::state::{blocks_preserved, lemma_blocks_preserved_same, same_heaps, MiMalloc};

/// Major component of the engine version this front end models.
pub const VERSION_MAJOR: u32 = 1;

/// Minor component of the engine version this front end models.
pub const VERSION_MINOR: u32 = 8;

/// Patch component of the engine version this front end models.
pub const VERSION_PATCH: u32 = 6;

/// Everything but the options registry is unchanged between two states.
pub open spec fn same_but_options(pre: MiMalloc, post: MiMalloc) -> bool {
    &&& same_heaps(pre, post)
    &&& post.blocks == pre.blocks
    &&& post.next_addr == pre.next_addr
    &&& post.diag == pre.diag
    &&& blocks_preserved(pre, post)
}

/// Everything but the diagnostic state is unchanged between two states.
pub open spec fn same_but_diag(pre: MiMalloc, post: MiMalloc) -> bool {
    &&& same_heaps(pre, post)
    &&& post.blocks == pre.blocks
    &&& post.next_addr == pre.next_addr
    &&& post.options == pre.options
    &&& blocks_preserved(pre, post)
}

impl MiMalloc {
    /// The engine version, encoded as major, minor and patch digits of a
    /// decimal number.
    pub fn version(&self) -> (v: u32)
        ensures
            v == VERSION_MAJOR * 100 + VERSION_MINOR * 10 + VERSION_PATCH,
    {
        VERSION_MAJOR * 100 + VERSION_MINOR * 10 + VERSION_PATCH
    }

    /// Read an option; an option never written reads as zero.
    pub fn option_get(&self, key: usize) -> (r: i64)
        requires
            self.wf(),
        ensures
            r == spec_value(self.options@, key),
    {
        self.options.get(key)
    }

    /// Write an option; the write always lands.
    pub fn option_set(&mut self, key: usize, value: i64)
        requires
            old(self).wf(),
        ensures
            final(self).wf(),
            final(self).options@ == spec_set(old(self).options@, key, value),
            same_but_options(*old(self), *final(self)),
    {
        let ghost pre = *self;
        self.options.set(key, value);
        proof {
            lemma_blocks_preserved_same(pre, *self);
        }
    }

    /// Write an option only if it has never been written.
    pub fn option_set_if_unset(&mut self, key: usize, value: i64)
        requires
            old(self).wf(),
        ensures
            final(self).wf(),
            final(self).options@ == spec_set_if_unset(old(self).options@, key, value),
            same_but_options(*old(self), *final(self)),
    {
        let ghost pre = *self;
        self.options.set_if_unset(key, value);
        proof {
            lemma_blocks_preserved_same(pre, *self);
        }
    }

    /// Whether a boolean option is enabled.
    pub fn option_is_enabled(&self, key: usize) -> (r: bool)
        requires
            self.wf(),
        ensures
            r == (spec_value(self.options@, key) != 0),
    {
        self.options.is_enabled(key)
    }

    /// Enable or disable a boolean option; the write always lands.
    pub fn option_set_enabled(&mut self, key: usize, enable: bool)
        requires
            old(self).wf(),
        ensures
            final(self).wf(),
            final(self).options@ == spec_set(
                old(self).options@,
                key,
                if enable {
                    1i64
                } else {
                    0i64
                },
            ),
            same_but_options(*old(self), *final(self)),
    {
        let ghost pre = *self;
        self.options.set_enabled(key, enable);
        proof {
            lemma_blocks_preserved_same(pre, *self);
        }
    }

    /// Enable or disable a boolean option only if it has never been
    /// written.
    pub fn option_set_enabled_if_unset(&mut self, key: usize, enable: bool)
        requires
            old(self).wf(),
        ensures
            final(self).wf(),
            final(self).options@ == spec_set_if_unset(
                old(self).options@,
                key,
                if enable {
                    1i64
                } else {
                    0i64
                },
            ),
            same_but_options(*old(self), *final(self)),
    {
        let ghost pre = *self;
        self.options.set_enabled_if_unset(key, enable);
        proof {
            lemma_blocks_preserved_same(pre, *self);
        }
    }

    /// Replace the output-function registration; the null token clears
    /// it.
    pub fn register_output(&mut self, fun: usize, arg: usize)
        requires
            old(self).wf(),
        ensures
            final(self).wf(),
            final(self).diag@ == (DiagView {
                output: spec_registration(fun, arg),
                ..old(self).diag@
            }),
            same_but_diag(*old(self), *final(self)),
    {
        let ghost pre = *self;
        self.diag.register_output(fun, arg);
        proof {
            lemma_blocks_preserved_same(pre, *self);
        }
    }

    /// Replace the error-function registration; the null token clears
    /// it.
    pub fn register_error(&mut self, fun: usize, arg: usize)
        requires
            old(self).wf(),
        ensures
            final(self).wf(),
            final(self).diag@ == (DiagView {
                error: spec_registration(fun, arg),
                ..old(self).diag@
            }),
            same_but_diag(*old(self), *final(self)),
    {
        let ghost pre = *self;
        self.diag.register_error(fun, arg);
        proof {
            lemma_blocks_preserved_same(pre, *self);
        }
    }

    /// Replace the deferred-free registration — at most one is active —
    /// or clear it with the null token.
    pub fn register_deferred_free(&mut self, fun: usize, arg: usize)
        requires
            old(self).wf(),
        ensures
            final(self).wf(),
            final(self).diag@ == (DiagView {
                deferred: spec_registration(fun, arg),
                ..old(self).diag@
            }),
            same_but_diag(*old(self), *final(self)),
    {
        let ghost pre = *self;
        self.diag.register_deferred_free(fun, arg);
        proof {
            lemma_blocks_preserved_same(pre, *self);
        }
    }

    /// Report the main statistics to the registered output function, or
    /// to standard error if none is registered.
    pub fn stats_print(&mut self)
        requires
            old(self).wf(),
        ensures
            final(self).wf(),
            final(self).diag@ == spec_after_print(
                old(self).diag@,
                match old(self).diag@.output {
                    Some(reg) => reg.fun,
                    None => 0,
                },
                match old(self).diag@.output {
                    Some(reg) => reg.arg,
                    None => 0,
                },
            ),
            same_but_diag(*old(self), *final(self)),
    {
        let ghost pre = *self;
        self.diag.print_stats();
        proof {
            lemma_blocks_preserved_same(pre, *self);
        }
    }

    /// Report the main statistics to an explicitly supplied sink.
    pub fn stats_print_to(&mut self, fun: usize, arg: usize)
        requires
            old(self).wf(),
        ensures
            final(self).wf(),
            final(self).diag@ == spec_after_print(old(self).diag@, fun, arg),
            same_but_diag(*old(self), *final(self)),
    {
        let ghost pre = *self;
        self.diag.print_stats_to(fun, arg);
        proof {
            lemma_blocks_preserved_same(pre, *self);
        }
    }

    /// Report this thread's statistics to an explicitly supplied sink;
    /// the model keeps one set of counters per process.
    pub fn thread_stats_print_to(&mut self, fun: usize, arg: usize)
        requires
            old(self).wf(),
        ensures
            final(self).wf(),
            final(self).diag@ == spec_after_print(old(self).diag@, fun, arg),
            same_but_diag(*old(self), *final(self)),
    {
        let ghost pre = *self;
        self.diag.print_stats_to(fun, arg);
        proof {
            lemma_blocks_preserved_same(pre, *self);
        }
    }

    /// Reset the statistics counters.
    pub fn stats_reset(&mut self)
        requires
            old(self).wf(),
        ensures
            final(self).wf(),
            final(self).diag@ == (DiagView {
                allocation_count: 0,
                free_count: 0,
                ..old(self).diag@
            }),
            same_but_diag(*old(self), *final(self)),
    {
        let ghost pre = *self;
        self.diag.reset_stats();
        proof {
            lemma_blocks_preserved_same(pre, *self);
        }
    }

    /// Merge thread-local statistics into the main statistics; the model
    /// keeps one set of counters per process, so nothing observable
    /// happens.
    pub fn stats_merge(&mut self)
        requires
            old(self).wf(),
        ensures
            final(self).wf(),
            *final(self) == *old(self),
    {
    }

    /// Prepare the current thread for allocation; the model carries no
    /// per-thread setup, so nothing observable happens.
    pub fn thread_init(&mut self)
        requires
            old(self).wf(),
        ensures
            final(self).wf(),
            *final(self) == *old(self),
    {
    }

    /// Release the current thread's allocator bookkeeping; the model
    /// carries no per-thread state, so nothing observable happens.
    pub fn thread_done(&mut self)
        requires
            old(self).wf(),
        ensures
            final(self).wf(),
            *final(self) == *old(self),
    {
    }
}

} // verus!
