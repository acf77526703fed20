use vstd::prelude::*;

use crate::report::{Report, ReportView, report_views};

verus! {

/// A named stopwatch. Times are nanoseconds read from one clock; `stop` is `None` while the
/// timer runs.
#[derive(Clone, Debug, PartialEq, Eq)]
pub struct Timer {
    pub name: String,
    pub start: u64,
    pub stop: Option<u64>,
}

/// What a `Timer` holds, with its name as a character sequence.
pub struct TimerView {
    pub name: Seq<char>,
    pub start: u64,
    pub stop: Option<u64>,
}

impl View for Timer {
    type V = TimerView;

    open spec fn view(&self) -> TimerView {
        TimerView { name: self.name@, start: self.start, stop: self.stop }
    }
}

/// Nanoseconds a timer has counted at instant `now`: up to its stop if it was stopped, up to
/// `now` if it runs; zero where the clock reads earlier than the start.
pub open spec fn elapsed_at(t: TimerView, now: u64) -> u64 {
    let end = match t.stop {
        Some(s) => s,
        None => now,
    };
    if end >= t.start {
        (end - t.start) as u64
    } else {
        0
    }
}

/// The status report of a timer at instant `now`.
pub open spec fn status_of(t: TimerView, now: u64) -> ReportView {
    ReportView::Status { name: t.name, running: t.stop is None, elapsed: elapsed_at(t, now) }
}

/// No two timers share a name.
pub open spec fn unique_names(ts: Seq<TimerView>) -> bool {
    forall|i: int, j: int|
        0 <= i < ts.len() && 0 <= j < ts.len() && #[trigger] ts[i].name == #[trigger] ts[j].name
            ==> i == j
}

/// Some timer has this name.
pub open spec fn has_name(ts: Seq<TimerView>, name: Seq<char>) -> bool {
    exists|i: int| 0 <= i < ts.len() && #[trigger] ts[i].name == name
}

/// The place of the timer of this name, if there is one.
pub open spec fn position(ts: Seq<TimerView>, name: Seq<char>) -> Option<int> {
    if has_name(ts, name) {
        Some(choose|i: int| 0 <= i < ts.len() && #[trigger] ts[i].name == name)
    } else {
        None
    }
}

/// The timers after a new running one, started at `now`, is put at the end.
pub open spec fn with_new(ts: Seq<TimerView>, name: Seq<char>, now: u64) -> Seq<TimerView> {
    ts.push(TimerView { name, start: now, stop: None })
}

/// Creating one timer: the timers afterwards and the reports.
pub open spec fn create_one(ts: Seq<TimerView>, name: Seq<char>, now: u64) -> (
    Seq<TimerView>,
    Seq<ReportView>,
) {
    if has_name(ts, name) {
        (ts, seq![ReportView::AlreadyCreated { name }])
    } else {
        (with_new(ts, name, now), seq![])
    }
}

/// Creating timers for each name in turn.
pub open spec fn create_each(ts: Seq<TimerView>, names: Seq<Seq<char>>, now: u64) -> (
    Seq<TimerView>,
    Seq<ReportView>,
)
    decreases names.len(),
{
    if names.len() == 0 {
        (ts, seq![])
    } else {
        let (ts1, rs1) = create_each(ts, names.drop_last(), now);
        let (ts2, rs2) = create_one(ts1, names.last(), now);
        (ts2, rs1 + rs2)
    }
}

/// Stopping the timer at place `i`.
pub open spec fn stop_at(ts: Seq<TimerView>, i: int, now: u64) -> (
    Seq<TimerView>,
    Seq<ReportView>,
) {
    let t = ts[i];
    if t.stop is Some {
        (ts, seq![ReportView::AlreadyStopped { name: t.name }])
    } else {
        let s = TimerView { stop: Some(now), ..t };
        (ts.update(i, s), seq![status_of(s, now)])
    }
}

/// Stopping the timer of this name.
pub open spec fn stop_one(ts: Seq<TimerView>, name: Seq<char>, now: u64) -> (
    Seq<TimerView>,
    Seq<ReportView>,
) {
    match position(ts, name) {
        Some(i) => stop_at(ts, i, now),
        None => (ts, seq![ReportView::NotFound { name }]),
    }
}

/// Stopping the first `n` timers, in order.
pub open spec fn stop_first(ts: Seq<TimerView>, n: nat, now: u64) -> (
    Seq<TimerView>,
    Seq<ReportView>,
)
    decreases n,
{
    if n == 0 {
        (ts, seq![])
    } else {
        let (ts1, rs1) = stop_first(ts, (n - 1) as nat, now);
        let (ts2, rs2) = stop_at(ts1, n - 1, now);
        (ts2, rs1 + rs2)
    }
}

/// Stopping the timers of each name in turn.
pub open spec fn stop_each(ts: Seq<TimerView>, names: Seq<Seq<char>>, now: u64) -> (
    Seq<TimerView>,
    Seq<ReportView>,
)
    decreases names.len(),
{
    if names.len() == 0 {
        (ts, seq![])
    } else {
        let (ts1, rs1) = stop_each(ts, names.drop_last(), now);
        let (ts2, rs2) = stop_one(ts1, names.last(), now);
        (ts2, rs1 + rs2)
    }
}

/// What showing one name reports.
pub open spec fn show_one(ts: Seq<TimerView>, name: Seq<char>, now: u64) -> ReportView {
    match position(ts, name) {
        Some(i) => status_of(ts[i], now),
        None => ReportView::NotFound { name },
    }
}

/// The word that stands for every timer.
pub open spec fn wildcard() -> Seq<char> {
    seq!['*']
}

/// The argument list asks for every timer: it starts with the wildcard.
pub open spec fn is_wildcard(names: Seq<Seq<char>>) -> bool {
    names.len() > 0 && names[0] == wildcard()
}

/// What `show` reports: every timer in store order for no names or the wildcard, else one
/// report per name.
pub open spec fn show_spec(ts: Seq<TimerView>, names: Seq<Seq<char>>, now: u64) -> Seq<
    ReportView,
> {
    if names.len() == 0 || is_wildcard(names) {
        Seq::new(ts.len(), |i: int| status_of(ts[i], now))
    } else {
        Seq::new(names.len(), |i: int| show_one(ts, names[i], now))
    }
}

/// What `new` does: nothing but a report without names, else each name in turn.
pub open spec fn create_spec(ts: Seq<TimerView>, names: Seq<Seq<char>>, now: u64) -> (
    Seq<TimerView>,
    Seq<ReportView>,
) {
    if names.len() == 0 {
        (ts, seq![ReportView::NoNameGiven])
    } else {
        create_each(ts, names, now)
    }
}

/// What `stop` does: nothing but a report without names; every timer in order for the
/// wildcard; else each name in turn.
pub open spec fn stop_spec(ts: Seq<TimerView>, names: Seq<Seq<char>>, now: u64) -> (
    Seq<TimerView>,
    Seq<ReportView>,
) {
    if names.len() == 0 {
        (ts, seq![ReportView::NoNameGiven])
    } else if is_wildcard(names) {
        stop_first(ts, ts.len(), now)
    } else {
        stop_each(ts, names, now)
    }
}

/// The character sequences of a list of names.
pub open spec fn name_views(names: Seq<String>) -> Seq<Seq<char>> {
    names.map_values(|s: String| s@)
}

impl Timer {
    /// The timer has not been stopped.
    pub fn is_running(&self) -> (r: bool)
        ensures
            r == (self.stop is None),
    {
        self.stop.is_none()
    }

    /// Nanoseconds counted at instant `now`.
    pub fn elapsed(&self, now: u64) -> (r: u64)
        ensures
            r == elapsed_at(self@, now),
    {
        let end = match self.stop {
            Some(s) => s,
            None => now,
        };
        if end >= self.start {
            end - self.start
        } else {
            0
        }
    }

    /// The status report of this timer at instant `now`.
    pub fn status(&self, now: u64) -> (r: Report)
        ensures
            r@ == status_of(self@, now),
    {
        Report::Status { name: self.name.clone(), running: self.is_running(), elapsed: self.elapsed(now) }
    }
}


/// The timers of a session, in the order they were created.
pub struct TimerStore {
    timers: Vec<Timer>,
}

impl View for TimerStore {
    type V = Seq<TimerView>;

    closed spec fn view(&self) -> Seq<TimerView> {
        self.timers@.map_values(|t: Timer| t@)
    }
}

impl TimerStore {
    /// The store's invariant: timer names are unique.
    pub open spec fn wf(&self) -> bool {
        unique_names(self@)
    }

    /// A store without timers.
    pub fn new() -> (r: Self)
        ensures
            r@ == Seq::<TimerView>::empty(),
            r.wf(),
    {
        let r = TimerStore { timers: Vec::new() };
        proof {
            assert(r@ =~= Seq::<TimerView>::empty());
        }
        r
    }

    /// The number of timers.
    pub fn len(&self) -> (r: usize)
        ensures
            r == self@.len(),
    {
        self.timers.len()
    }

    /// The timer at place `i`, counted in order of creation.
    pub fn get(&self, i: usize) -> (r: &Timer)
        requires
            i < self@.len(),
        ensures
            r@ == self@[i as int],
    {
        &self.timers[i]
    }

    /// The place of the timer named `name`, found by a scan from the front.
    pub fn position(&self, name: &String) -> (r: Option<usize>)
        requires
            self.wf(),
        ensures
            r is Some <==> has_name(self@, name@),
            r is Some ==> r->0 < self@.len() && position(self@, name@) == Some(r->0 as int),
    {
        let mut i: usize = 0;
        while i < self.timers.len()
            invariant
                i <= self.timers@.len(),
                self.wf(),
                forall|j: int| 0 <= j < i ==> (#[trigger] self@[j]).name != name@,
            decreases self.timers@.len() - i,
        {
            if self.timers[i].name == *name {
                proof {
                    assert(self@[i as int].name == name@);
                    assert(has_name(self@, name@));
                    let k = choose|k: int| 0 <= k < self@.len() && #[trigger] self@[k].name == name@;
                    assert(self@[k].name == self@[i as int].name);
                }
                return Some(i);
            }
            proof {
                assert(self@[i as int].name != name@);
            }
            i = i + 1;
        }
        proof {
            assert(!has_name(self@, name@));
        }
        None
    }

    /// The timer named `name`, if there is one.
    pub fn find(&self, name: &String) -> (r: Option<&Timer>)
        requires
            self.wf(),
        ensures
            match position(self@, name@) {
                Some(i) => r is Some && r->0@ == self@[i],
                None => r is None,
            },
    {
        match self.position(name) {
            Some(i) => Some(&self.timers[i]),
            None => None,
        }
    }

    fn create_one(&mut self, name: &String, now: u64, reports: &mut Vec<Report>)
        requires
            old(self).wf(),
        ensures
            final(self).wf(),
            final(self)@ == create_one(old(self)@, name@, now).0,
            report_views(final(reports)@) == report_views(old(reports)@) + create_one(
                old(self)@,
                name@,
                now,
            ).1,
    {
        match self.position(name) {
            Some(_) => {
                reports.push(Report::AlreadyCreated { name: name.clone() });
                proof {
                    assert(report_views(reports@) =~= report_views(old(reports)@) + create_one(
                        old(self)@,
                        name@,
                        now,
                    ).1);
                }
            },
            None => {
                self.timers.push(Timer { name: name.clone(), start: now, stop: None });
                proof {
                    assert(self@ =~= with_new(old(self)@, name@, now));
                    assert(report_views(reports@) =~= report_views(old(reports)@));
                    assert forall|i: int, j: int|
                        0 <= i < self@.len() && 0 <= j < self@.len() && #[trigger] self@[i].name
                            == #[trigger] self@[j].name implies i == j by {
                        if i < old(self)@.len() {
                            assert(old(self)@[i].name == self@[i].name);
                        }
                        if j < old(self)@.len() {
                            assert(old(self)@[j].name == self@[j].name);
                        }
                    }
                }
            },
        }
    }

    /// Creates a running timer, started at `now`, for each name in turn; a name that is
    /// taken is reported and skipped. Without names nothing changes and the missing name is
    /// reported.
    pub fn create(&mut self, names: &Vec<String>, now: u64) -> (r: Vec<Report>)
        requires
            old(self).wf(),
        ensures
            final(self).wf(),
            (final(self)@, report_views(r@)) == create_spec(old(self)@, name_views(names@), now),
    {
        let ghost nv = name_views(names@);
        let mut reports: Vec<Report> = Vec::new();
        if names.len() == 0 {
            reports.push(Report::NoNameGiven);
            proof {
                assert(report_views(reports@) =~= seq![ReportView::NoNameGiven]);
            }
            return reports;
        }
        let mut k: usize = 0;
        proof {
            assert(nv.take(0) =~= Seq::<Seq<char>>::empty());
            assert(report_views(reports@) =~= Seq::<ReportView>::empty());
        }
        while k < names.len()
            invariant
                k <= names@.len(),
                nv == name_views(names@),
                self.wf(),
                (self@, report_views(reports@)) == create_each(old(self)@, nv.take(k as int), now),
            decreases names@.len() - k,
        {
            self.create_one(&names[k], now, &mut reports);
            proof {
                assert(nv.take(k + 1).drop_last() =~= nv.take(k as int));
            }
            k = k + 1;
        }
        proof {
            assert(nv.take(k as int) =~= nv);
        }
        reports
    }

    fn stop_at(&mut self, i: usize, now: u64, reports: &mut Vec<Report>)
        requires
            old(self).wf(),
            i < old(self)@.len(),
        ensures
            final(self).wf(),
            final(self)@ == stop_at(old(self)@, i as int, now).0,
            report_views(final(reports)@) == report_views(old(reports)@) + stop_at(
                old(self)@,
                i as int,
                now,
            ).1,
    {
        if self.timers[i].stop.is_some() {
            reports.push(Report::AlreadyStopped { name: self.timers[i].name.clone() });
        } else {
            self.timers[i].stop = Some(now);
            reports.push(self.timers[i].status(now));
            proof {
                assert(self@ =~= stop_at(old(self)@, i as int, now).0);
                assert forall|a: int, b: int|
                    0 <= a < self@.len() && 0 <= b < self@.len() && #[trigger] self@[a].name
                        == #[trigger] self@[b].name implies a == b by {
                    assert(old(self)@[a].name == self@[a].name);
                    assert(old(self)@[b].name == self@[b].name);
                }
            }
        }
        proof {
            assert(report_views(reports@) =~= report_views(old(reports)@) + stop_at(
                old(self)@,
                i as int,
                now,
            ).1);
        }
    }

    fn stop_one(&mut self, name: &String, now: u64, reports: &mut Vec<Report>)
        requires
            old(self).wf(),
        ensures
            final(self).wf(),
            final(self)@ == stop_one(old(self)@, name@, now).0,
            report_views(final(reports)@) == report_views(old(reports)@) + stop_one(
                old(self)@,
                name@,
                now,
            ).1,
    {
        match self.position(name) {
            Some(i) => self.stop_at(i, now, reports),
            None => {
                reports.push(Report::NotFound { name: name.clone() });
                proof {
                    assert(report_views(reports@) =~= report_views(old(reports)@) + stop_one(
                        old(self)@,
                        name@,
                        now,
                    ).1);
                }
            },
        }
    }

    /// Stops, at instant `now`, every timer for the wildcard or the timer of each name in
    /// turn, reporting each one's elapsed time, or that it was stopped before or is not
    /// found. Without names nothing changes and the missing name is reported.
    pub fn stop(&mut self, names: &Vec<String>, now: u64) -> (r: Vec<Report>)
        requires
            old(self).wf(),
        ensures
            final(self).wf(),
            (final(self)@, report_views(r@)) == stop_spec(old(self)@, name_views(names@), now),
    {
        let ghost nv = name_views(names@);
        let mut reports: Vec<Report> = Vec::new();
        if names.len() == 0 {
            reports.push(Report::NoNameGiven);
            proof {
                assert(report_views(reports@) =~= seq![ReportView::NoNameGiven]);
            }
            return reports;
        }
        proof {
            assert(report_views(reports@) =~= Seq::<ReportView>::empty());
            assert(nv[0] == names@[0]@);
        }
        if is_wildcard_word(&names[0]) {
            let n = self.timers.len();
            let mut i: usize = 0;
            while i < n
                invariant
                    i <= n,
                    n == old(self)@.len(),
                    self@.len() == n,
                    self.wf(),
                    (self@, report_views(reports@)) == stop_first(old(self)@, i as nat, now),
                decreases n - i,
            {
                self.stop_at(i, now, &mut reports);
                i = i + 1;
            }
            return reports;
        }
        let mut k: usize = 0;
        proof {
            assert(nv.take(0) =~= Seq::<Seq<char>>::empty());
        }
        while k < names.len()
            invariant
                k <= names@.len(),
                nv == name_views(names@),
                !is_wildcard(nv),
                self.wf(),
                (self@, report_views(reports@)) == stop_each(old(self)@, nv.take(k as int), now),
            decreases names@.len() - k,
        {
            self.stop_one(&names[k], now, &mut reports);
            proof {
                assert(nv.take(k + 1).drop_last() =~= nv.take(k as int));
            }
            k = k + 1;
        }
        proof {
            assert(nv.take(k as int) =~= nv);
        }
        reports
    }

    /// Reports the status of every timer, in order, for no names or the wildcard; else, for
    /// each name in turn, the status of its timer or that it is not found.
    pub fn show(&self, names: &Vec<String>, now: u64) -> (r: Vec<Report>)
        requires
            self.wf(),
        ensures
            report_views(r@) == show_spec(self@, name_views(names@), now),
    {
        let ghost nv = name_views(names@);
        let mut reports: Vec<Report> = Vec::new();
        proof {
            if names@.len() > 0 {
                assert(nv[0] == names@[0]@);
            }
        }
        if names.len() == 0 || is_wildcard_word(&names[0]) {
            let mut i: usize = 0;
            while i < self.timers.len()
                invariant
                    i <= self@.len(),
                    self.wf(),
                    report_views(reports@) =~= Seq::new(i as nat, |j: int| status_of(self@[j], now)),
                decreases self@.len() - i,
            {
                let ghost prev = reports@;
                let rep = self.timers[i].status(now);
                reports.push(rep);
                proof {
                    assert(report_views(reports@) =~= report_views(prev).push(rep@));
                }
                i = i + 1;
            }
            return reports;
        }
        let mut k: usize = 0;
        while k < names.len()
            invariant
                k <= names@.len(),
                nv == name_views(names@),
                self.wf(),
                report_views(reports@) =~= Seq::new(k as nat, |j: int| show_one(self@, nv[j], now)),
            decreases names@.len() - k,
        {
            let rep = match self.position(&names[k]) {
                Some(i) => self.timers[i].status(now),
                None => Report::NotFound { name: names[k].clone() },
            };
            let ghost prev = reports@;
            reports.push(rep);
            proof {
                assert(report_views(reports@) =~= report_views(prev).push(rep@));
            }
            k = k + 1;
        }
        reports
    }
}

/// The word is the wildcard.
pub fn is_wildcard_word(w: &String) -> (r: bool)
    ensures
        r == (w@ == wildcard()),
{
    let s = w.as_str();
    if s.unicode_len() != 1 {
        return false;
    }
    let c = s.get_char(0);
    proof {
        if c == '*' {
            assert(w@ =~= wildcard());
        }
    }
    c == '*'
}

} // verus!
