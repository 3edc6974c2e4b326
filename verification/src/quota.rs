//! Stage 5 accounting.
//!
//! Admission is one step, not check-then-charge: [`QuotaLedger::try_admit`]
//! compares against the limit and counts in the same call, so no caller can
//! read the counter and act on it later. The counter advances only for calls
//! that reach stage 5, and a window dated in the future (a clock stepped back)
//! is never reset, which is the direction that fails closed.

use crate::clock::{current_day, spec_day_of};
use crate::policy::CallAdmission;
use vstd::prelude::*;

verus! {

/// One agent's usage within a day window.
#[derive(Debug, Clone, Copy, PartialEq, Eq, Structural)]
pub struct Window {
    /// Days since the Unix epoch, UTC.
    pub day: u64,
    /// Calls admitted within that day.
    pub used: u64,
}

/// The window of the first entry for `agent`, if any.
pub open spec fn spec_lookup(entries: Seq<(String, Window)>, agent: Seq<char>) -> Option<Window>
    decreases entries.len(),
{
    if entries.len() == 0 {
        None
    } else if entries[0].0@ == agent {
        Some(entries[0].1)
    } else {
        spec_lookup(entries.drop_first(), agent)
    }
}

/// `x + 1`, saturating at `u64::MAX`.
pub open spec fn spec_saturating_inc(x: u64) -> u64 {
    if x == u64::MAX { x } else { (x + 1) as u64 }
}

/// The window an admission attempt counts in: a fresh one for an unknown
/// agent or a stale day, the stored one otherwise (also when it is dated in
/// the future).
pub open spec fn spec_current_window(stored: Option<Window>, today: u64) -> Window {
    match stored {
        None => Window { day: today, used: 0 },
        Some(w) => if today > w.day { Window { day: today, used: 0 } } else { w },
    }
}

/// Whether an admission attempt is admitted.
pub open spec fn spec_admits(stored: Option<Window>, today: u64, limit: Option<u64>) -> bool {
    match limit {
        Some(l) => spec_current_window(stored, today).used < l,
        None => true,
    }
}

/// The window stored after an admission attempt.
pub open spec fn spec_window_after(stored: Option<Window>, today: u64, limit: Option<u64>) -> Window {
    let w = spec_current_window(stored, today);
    if spec_admits(stored, today, limit) {
        Window { day: w.day, used: spec_saturating_inc(w.used) }
    } else {
        w
    }
}

/// Calls admitted for an agent in the window of `today`.
pub open spec fn spec_admitted_on(stored: Option<Window>, today: u64) -> u64 {
    match stored {
        Some(w) => if w.day >= today { w.used } else { 0 },
        None => 0,
    }
}

/// Per-agent admission counters.
#[derive(Debug, Default)]
pub struct QuotaLedger {
    windows: Vec<(String, Window)>,
}

proof fn lemma_lookup_after_set(entries: Seq<(String, Window)>, i: int, w: Window, agent: Seq<char>, k: Seq<char>)
    requires
        0 <= i < entries.len(),
        entries[i].0@ == agent,
        forall|j: int| 0 <= j < i ==> entries[j].0@ != agent,
    ensures
        spec_lookup(entries.update(i, (entries[i].0, w)), k) == if k == agent { Some(w) } else { spec_lookup(entries, k) },
    decreases entries.len(),
{
    if i == 0 {
        assert(entries.update(0, (entries[0].0, w)).drop_first() =~= entries.drop_first());
    } else {
        let e2 = entries.update(i, (entries[i].0, w));
        assert(e2.drop_first() =~= entries.drop_first().update(i - 1, (entries[i].0, w)));
        lemma_lookup_after_set(entries.drop_first(), i - 1, w, agent, k);
    }
}

proof fn lemma_lookup_after_push(entries: Seq<(String, Window)>, name: String, w: Window, k: Seq<char>)
    requires
        spec_lookup(entries, name@) is None,
    ensures
        spec_lookup(entries.push((name, w)), k) == if k == name@ { Some(w) } else { spec_lookup(entries, k) },
    decreases entries.len(),
{
    if entries.len() == 0 {
        assert(entries.push((name, w)).drop_first() =~= Seq::<(String, Window)>::empty());
    } else {
        assert(entries.push((name, w)).drop_first() =~= entries.drop_first().push((name, w)));
        if entries[0].0@ != name@ {
            lemma_lookup_after_push(entries.drop_first(), name, w, k);
        }
    }
}

proof fn lemma_lookup_first(entries: Seq<(String, Window)>, i: int, agent: Seq<char>)
    requires
        0 <= i < entries.len(),
        entries[i].0@ == agent,
        forall|j: int| 0 <= j < i ==> entries[j].0@ != agent,
    ensures
        spec_lookup(entries, agent) == Some(entries[i].1),
    decreases entries.len(),
{
    if i > 0 {
        lemma_lookup_first(entries.drop_first(), i - 1, agent);
    }
}

proof fn lemma_lookup_none(entries: Seq<(String, Window)>, agent: Seq<char>)
    requires
        forall|j: int| 0 <= j < entries.len() ==> entries[j].0@ != agent,
    ensures
        spec_lookup(entries, agent) is None,
    decreases entries.len(),
{
    if entries.len() > 0 {
        lemma_lookup_none(entries.drop_first(), agent);
    }
}

impl QuotaLedger {
    /// An empty ledger.
    pub fn new() -> (l: QuotaLedger)
        ensures
            forall|k: Seq<char>| l.window_of(k) is None,
    {
        QuotaLedger { windows: Vec::new() }
    }

    /// The window the ledger holds for an agent.
    pub closed spec fn window_of(&self, agent: Seq<char>) -> Option<Window> {
        spec_lookup(self.windows@, agent)
    }

    fn find(&self, agent: &str) -> (r: Option<usize>)
        ensures
            match r {
                Some(i) => i < self.windows@.len() && self.windows@[i as int].0@ == agent@
                    && forall|j: int| 0 <= j < i ==> self.windows@[j].0@ != agent@,
                None => forall|j: int| 0 <= j < self.windows@.len() ==> self.windows@[j].0@ != agent@,
            },
    {
        let wanted = agent.to_owned();
        let mut i: usize = 0;
        while i < self.windows.len()
            invariant
                i <= self.windows@.len(),
                wanted@ == agent@,
                forall|j: int| 0 <= j < i ==> self.windows@[j].0@ != agent@,
            decreases self.windows@.len() - i,
        {
            if self.windows[i].0 == wanted {
                return Some(i);
            }
            i = i + 1;
        }
        None
    }

    /// Admit one call for `agent_id` against `limit`, on day `today`.
    ///
    /// The agent's window is created, or rolled over when `today` is later
    /// than its day; it is never rolled back. The call is admitted when no
    /// limit is declared or the window's count is below the limit, and an
    /// admitted call is counted. Other agents' windows are unchanged.
    pub fn try_admit_on(&mut self, agent_id: &str, limit: Option<u64>, today: u64) -> (admitted: bool)
        ensures
            admitted == spec_admits(old(self).window_of(agent_id@), today, limit),
            final(self).window_of(agent_id@) == Some(spec_window_after(old(self).window_of(agent_id@), today, limit)),
            forall|k: Seq<char>| k != agent_id@ ==> final(self).window_of(k) == old(self).window_of(k),
    {
        let ghost before = self.windows@;
        let found = self.find(agent_id);
        let stored: Option<Window> = match found {
            Some(i) => Some(self.windows[i].1),
            None => None,
        };
        proof {
            match found {
                Some(i) => lemma_lookup_first(before, i as int, agent_id@),
                None => lemma_lookup_none(before, agent_id@),
            }
        }
        let mut window = match stored {
            None => Window { day: today, used: 0 },
            Some(w) => if today > w.day { Window { day: today, used: 0 } } else { w },
        };
        let admitted = match limit {
            Some(l) => window.used < l,
            None => true,
        };
        if admitted {
            window.used = if window.used == u64::MAX { window.used } else { window.used + 1 };
        }
        match found {
            Some(i) => {
                let name = self.windows[i].0.clone();
                self.windows.set(i, (name, window));
                proof {
                    assert forall|k: Seq<char>| #[trigger] spec_lookup(self.windows@, k)
                        == if k == agent_id@ { Some(window) } else { spec_lookup(before, k) } by {
                        assert(self.windows@ =~= before.update(i as int, (before[i as int].0, window)));
                        lemma_lookup_after_set(before, i as int, window, agent_id@, k);
                    }
                }
            },
            None => {
                let name = agent_id.to_owned();
                self.windows.push((name, window));
                proof {
                    assert forall|k: Seq<char>| #[trigger] spec_lookup(self.windows@, k)
                        == if k == agent_id@ { Some(window) } else { spec_lookup(before, k) } by {
                        lemma_lookup_after_push(before, name, window, k);
                    }
                }
            },
        }
        admitted
    }

    /// Admit one call for `agent_id` against `limit` on the current UTC day.
    ///
    /// Returns `true` when the call is admitted and counted, `false` when the
    /// budget is exhausted. `None` for `limit` admits and still counts.
    pub fn try_admit(&mut self, agent_id: &str, limit: Option<u64>) -> (admitted: bool)
        ensures
            exists|today: u64| {
                &&& admitted == spec_admits(old(self).window_of(agent_id@), today, limit)
                &&& final(self).window_of(agent_id@) == Some(spec_window_after(old(self).window_of(agent_id@), today, limit))
            },
            forall|k: Seq<char>| k != agent_id@ ==> final(self).window_of(k) == old(self).window_of(k),
    {
        let today = current_day();
        self.try_admit_on(agent_id, limit, today)
    }

    /// Calls admitted for an agent in the window of `today`. Diagnostics only.
    pub fn admitted_on(&self, agent_id: &str, today: u64) -> (n: u64)
        ensures
            n == spec_admitted_on(self.window_of(agent_id@), today),
    {
        let found = self.find(agent_id);
        proof {
            match found {
                Some(i) => lemma_lookup_first(self.windows@, i as int, agent_id@),
                None => lemma_lookup_none(self.windows@, agent_id@),
            }
        }
        match found {
            Some(i) => {
                let w = self.windows[i].1;
                if w.day >= today { w.used } else { 0 }
            },
            None => 0,
        }
    }

    /// Calls admitted for an agent in the current window. Diagnostics only:
    /// never use this to decide whether a call may proceed.
    pub fn admitted_today(&self, agent_id: &str) -> (n: u64)
        ensures
            exists|today: u64| n == spec_admitted_on(self.window_of(agent_id@), today),
    {
        let today = current_day();
        self.admitted_on(agent_id, today)
    }

    /// Set an agent's window directly, as a restored or rolled clock would
    /// leave it.
    pub fn set_window(&mut self, agent_id: &str, window: Window)
        ensures
            final(self).window_of(agent_id@) == Some(window),
            forall|k: Seq<char>| k != agent_id@ ==> final(self).window_of(k) == old(self).window_of(k),
    {
        let ghost before = self.windows@;
        match self.find(agent_id) {
            Some(i) => {
                let name = self.windows[i].0.clone();
                self.windows.set(i, (name, window));
                proof {
                    assert forall|k: Seq<char>| k != agent_id@ implies #[trigger] spec_lookup(self.windows@, k)
                        == spec_lookup(before, k) by {
                        assert(self.windows@ =~= before.update(i as int, (before[i as int].0, window)));
                        lemma_lookup_after_set(before, i as int, window, agent_id@, k);
                    }
                    assert(self.windows@ =~= before.update(i as int, (before[i as int].0, window)));
                    lemma_lookup_after_set(before, i as int, window, agent_id@, agent_id@);
                }
            },
            None => {
                let name = agent_id.to_owned();
                self.windows.push((name, window));
                proof {
                    lemma_lookup_none(before, agent_id@);
                    assert forall|k: Seq<char>| k != agent_id@ implies #[trigger] spec_lookup(self.windows@, k)
                        == spec_lookup(before, k) by {
                        lemma_lookup_after_push(before, name, window, k);
                    }
                    lemma_lookup_after_push(before, name, window, agent_id@);
                }
            },
        }
    }
}

/// Admission never lets a window's count pass the limit: starting at or
/// below the limit, the count after any attempt is still at or below it.
pub proof fn admission_never_exceeds_limit(stored: Option<Window>, today: u64, l: u64)
    requires
        spec_current_window(stored, today).used <= l,
    ensures
        spec_window_after(stored, today, Some(l)).used <= l,
{
}

/// A refused attempt changes nothing but the rollover: the count of the
/// current window stays as it was.
pub proof fn refusal_does_not_count(stored: Option<Window>, today: u64, limit: Option<u64>)
    requires
        !spec_admits(stored, today, limit),
    ensures
        spec_window_after(stored, today, limit) == spec_current_window(stored, today),
{
}

/// A zero limit admits nothing.
pub proof fn zero_limit_admits_nothing(stored: Option<Window>, today: u64)
    ensures
        !spec_admits(stored, today, Some(0)),
{
}

/// A new day grants a new budget: a window from an earlier day is replaced by
/// an empty one.
pub proof fn new_day_grants_fresh_budget(w: Window, today: u64)
    requires
        today > w.day,
    ensures
        spec_current_window(Some(w), today) == (Window { day: today, used: 0 }),
{
}

/// A clock stepped backwards never refills the budget: a window dated on or
/// after `today` is kept as it is.
pub proof fn backwards_clock_keeps_window(w: Window, today: u64)
    requires
        today <= w.day,
    ensures
        spec_current_window(Some(w), today) == w,
{
}

/// Binds the ledger to one agent for the duration of a call: the ladder gets
/// the ability to admit one call and nothing else.
pub struct AgentAdmission<'a> {
    pub ledger: &'a mut QuotaLedger,
    pub agent_id: &'a str,
    /// The verdicts given so far, with the limits they were asked against.
    pub verdicts: Ghost<Seq<(Option<u64>, bool)>>,
}

impl<'a> CallAdmission for AgentAdmission<'a> {
    open spec fn spec_keeps_record(&self) -> bool {
        true
    }

    open spec fn spec_verdicts(&self) -> Seq<(Option<u64>, bool)> {
        self.verdicts@
    }

    fn try_admit(&mut self, limit: Option<u64>) -> (admitted: bool)
        ensures
            exists|today: u64| {
                &&& admitted == spec_admits(old(self).ledger.window_of(old(self).agent_id@), today, limit)
                &&& final(self).ledger.window_of(old(self).agent_id@) == Some(
                    spec_window_after(old(self).ledger.window_of(old(self).agent_id@), today, limit),
                )
            },
            final(self).agent_id == old(self).agent_id,
            forall|k: Seq<char>| k != old(self).agent_id@ ==> final(self).ledger.window_of(k) == old(self).ledger.window_of(k),
    {
        let admitted = self.ledger.try_admit(self.agent_id, limit);
        self.verdicts = Ghost(self.verdicts@.push((limit, admitted)));
        admitted
    }
}

} // verus!
