//! The process-wide options registry: named integer settings with a
//! tri-state lifecycle. An option starts unset and reads as zero; `set`
//! always overwrites; `set_if_unset` writes only the first time. Boolean
//! options are integer options restricted to zero and one.

use vstd::prelude::*;

verus! {

/// Option key: print error messages.
pub const OPTION_SHOW_ERRORS: usize = 0;

/// Option key: print statistics when the program is done.
pub const OPTION_SHOW_STATS: usize = 1;

/// Option key: print verbose messages.
pub const OPTION_VERBOSE: usize = 2;

/// One explicitly written option. Keys outside the documented ones are
/// carried through opaquely.
#[derive(Clone, Copy, Debug, PartialEq, Eq, Structural)]
pub struct OptionSetting {
    pub key: usize,
    pub value: i64,
}

/// The registry models the set of options that have been explicitly
/// written, as a map from key to value; everything outside the map reads
/// as its default, zero.
pub struct OptionsRegistry {
    pub settings: Vec<OptionSetting>,
}

/// The map described by a list of settings; a later entry for the same
/// key wins.
pub open spec fn settings_map(s: Seq<OptionSetting>) -> Map<usize, i64>
    decreases s.len(),
{
    if s.len() == 0 {
        Map::empty()
    } else {
        settings_map(s.drop_last()).insert(s.last().key, s.last().value)
    }
}

/// The value an option reads as under a given registry state.
pub open spec fn spec_value(m: Map<usize, i64>, key: usize) -> i64 {
    if m.dom().contains(key) {
        m[key]
    } else {
        0
    }
}

/// Effect of `set`: the write always lands.
pub open spec fn spec_set(m: Map<usize, i64>, key: usize, value: i64) -> Map<usize, i64> {
    m.insert(key, value)
}

/// Effect of `set_if_unset`: the write lands only if the option has never
/// been written.
pub open spec fn spec_set_if_unset(m: Map<usize, i64>, key: usize, value: i64) -> Map<
    usize,
    i64,
> {
    if m.dom().contains(key) {
        m
    } else {
        m.insert(key, value)
    }
}

impl View for OptionsRegistry {
    type V = Map<usize, i64>;

    open spec fn view(&self) -> Map<usize, i64> {
        settings_map(self.settings@)
    }
}

proof fn lemma_settings_map_domain(s: Seq<OptionSetting>, key: usize)
    ensures
        settings_map(s).dom().contains(key) <==> exists|i: int|
            0 <= i < s.len() && s[i].key == key,
    decreases s.len(),
{
    if s.len() > 0 {
        lemma_settings_map_domain(s.drop_last(), key);
        if s.last().key != key {
            if settings_map(s).dom().contains(key) {
                let i = choose|i: int| 0 <= i < s.drop_last().len() && s.drop_last()[i].key == key;
                assert(s[i].key == key);
            }
            if exists|i: int| 0 <= i < s.len() && s[i].key == key {
                let i = choose|i: int| 0 <= i < s.len() && s[i].key == key;
                assert(s.drop_last()[i].key == key);
            }
        }
    }
}

proof fn lemma_settings_map_lookup(s: Seq<OptionSetting>, i: int)
    requires
        forall|a: int, b: int| 0 <= a < b < s.len() ==> s[a].key != s[b].key,
        0 <= i < s.len(),
    ensures
        settings_map(s).dom().contains(s[i].key),
        settings_map(s)[s[i].key] == s[i].value,
    decreases s.len(),
{
    if i == s.len() - 1 {
    } else {
        lemma_settings_map_lookup(s.drop_last(), i);
        assert(s.drop_last()[i] == s[i]);
    }
}

impl OptionsRegistry {
    /// Every key appears at most once in the backing list.
    pub open spec fn wf(self) -> bool {
        forall|a: int, b: int|
            0 <= a < b < self.settings@.len() ==> self.settings@[a].key != self.settings@[b].key
    }

    /// Whether the option has ever been explicitly written.
    pub open spec fn is_set(self, key: usize) -> bool {
        self@.dom().contains(key)
    }

    /// An empty registry: every option is unset.
    pub fn new() -> (r: Self)
        ensures
            r.wf(),
            r@ == Map::<usize, i64>::empty(),
    {
        OptionsRegistry { settings: Vec::new() }
    }

    /// Index of the entry for `key`, if one exists.
    fn find(&self, key: usize) -> (r: Option<usize>)
        requires
            self.wf(),
        ensures
            match r {
                Some(i) => i < self.settings@.len() && self.settings@[i as int].key == key
                    && self.is_set(key),
                None => !self.is_set(key),
            },
    {
        let mut i: usize = 0;
        while i < self.settings.len()
            invariant
                i <= self.settings@.len(),
                forall|j: int| 0 <= j < i ==> self.settings@[j].key != key,
            decreases self.settings@.len() - i,
        {
            if self.settings[i].key == key {
                proof {
                    lemma_settings_map_domain(self.settings@, key);
                    assert(exists|j: int|
                        0 <= j < self.settings@.len() && self.settings@[j].key == key) by {
                        assert(self.settings@[i as int].key == key);
                    }
                }
                return Some(i);
            }
            i = i + 1;
        }
        proof {
            lemma_settings_map_domain(self.settings@, key);
        }
        None
    }

    /// Return the value of an option; an option that was never written
    /// reads as zero.
    pub fn get(&self, key: usize) -> (r: i64)
        requires
            self.wf(),
        ensures
            r == spec_value(self@, key),
    {
        match self.find(key) {
            Some(i) => {
                proof {
                    lemma_settings_map_lookup(self.settings@, i as int);
                }
                self.settings[i].value
            },
            None => 0,
        }
    }

    /// Write an option; the write always lands, regardless of any earlier
    /// state.
    pub fn set(&mut self, key: usize, value: i64)
        requires
            old(self).wf(),
        ensures
            final(self).wf(),
            final(self)@ == spec_set(old(self)@, key, value),
    {
        let ghost pre = self.settings@;
        match self.find(key) {
            Some(i) => {
                self.settings[i] = OptionSetting { key, value };
                proof {
                    let post = self.settings@;
                    lemma_settings_update(pre, i as int, value);
                    assert(post =~= pre.update(i as int, OptionSetting { key, value }));
                    assert(settings_map(post) =~= settings_map(pre).insert(key, value));
                }
            },
            None => {
                self.settings.push(OptionSetting { key, value });
                proof {
                    assert(self.settings@.drop_last() =~= pre);
                    assert(forall|a: int, b: int|
                        0 <= a < b < self.settings@.len() ==> self.settings@[a].key
                            != self.settings@[b].key) by {
                        lemma_settings_map_domain(pre, key);
                    }
                }
            },
        }
    }

    /// Write an option only if it has never been written; otherwise do
    /// nothing. The check and the write are two steps, not one atomic
    /// operation.
    pub fn set_if_unset(&mut self, key: usize, value: i64)
        requires
            old(self).wf(),
        ensures
            final(self).wf(),
            final(self)@ == spec_set_if_unset(old(self)@, key, value),
            old(self).is_set(key) ==> *final(self) == *old(self),
    {
        match self.find(key) {
            Some(_) => {},
            None => {
                self.set(key, value);
            },
        }
    }

    /// Whether a boolean option is enabled: any value other than zero
    /// counts as enabled.
    pub fn is_enabled(&self, key: usize) -> (r: bool)
        requires
            self.wf(),
        ensures
            r == (spec_value(self@, key) != 0),
    {
        self.get(key) != 0
    }

    /// Enable or disable a boolean option; the write always lands.
    pub fn set_enabled(&mut self, key: usize, enable: bool)
        requires
            old(self).wf(),
        ensures
            final(self).wf(),
            final(self)@ == spec_set(old(self)@, key, if enable { 1i64 } else { 0i64 }),
    {
        self.set(key, if enable { 1 } else { 0 });
    }

    /// Enable or disable a boolean option only if it has never been
    /// written.
    pub fn set_enabled_if_unset(&mut self, key: usize, enable: bool)
        requires
            old(self).wf(),
        ensures
            final(self).wf(),
            final(self)@ == spec_set_if_unset(old(self)@, key, if enable { 1i64 } else { 0i64 }),
            old(self).is_set(key) ==> *final(self) == *old(self),
    {
        self.set_if_unset(key, if enable { 1 } else { 0 });
    }
}

proof fn lemma_settings_update(s: Seq<OptionSetting>, i: int, value: i64)
    requires
        forall|a: int, b: int| 0 <= a < b < s.len() ==> s[a].key != s[b].key,
        0 <= i < s.len(),
    ensures
        settings_map(s.update(i, OptionSetting { key: s[i].key, value })) =~= settings_map(
            s,
        ).insert(s[i].key, value),
        forall|a: int, b: int|
            0 <= a < b < s.len() ==> s.update(i, OptionSetting { key: s[i].key, value })[a].key
                != s.update(i, OptionSetting { key: s[i].key, value })[b].key,
    decreases s.len(),
{
    let t = s.update(i, OptionSetting { key: s[i].key, value });
    if i == s.len() - 1 {
        assert(t.drop_last() =~= s.drop_last());
    } else {
        lemma_settings_update(s.drop_last(), i, value);
        assert(t.drop_last() =~= s.drop_last().update(i, OptionSetting { key: s[i].key, value }));
        lemma_settings_map_domain(s, s[i].key);
    }
}

/// Tri-state law: when an option has never been written, the first
/// `set_if_unset` wins and a second one is a no-op, so the option still
/// reads as the first value.
pub proof fn lemma_set_if_unset_first_write_wins(
    m: Map<usize, i64>,
    key: usize,
    first: i64,
    second: i64,
)
    requires
        !m.dom().contains(key),
    ensures
        spec_value(spec_set_if_unset(spec_set_if_unset(m, key, first), key, second), key)
            == first,
{
}

/// Plain writes always overwrite: after two `set` calls the option reads
/// as the last value written.
pub proof fn lemma_set_last_write_wins(m: Map<usize, i64>, key: usize, first: i64, second: i64)
    ensures
        spec_value(spec_set(spec_set(m, key, first), key, second), key) == second,
{
}

} // verus!
