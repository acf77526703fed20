use vstd::prelude::*;

use crate::command::{Action, CommandView, step_spec};
use crate::report::ReportView;
use crate::store::{
    TimerView,
    create_each,
    create_one,
    create_spec,
    has_name,
    position,
    show_spec,
    status_of,
    stop_each,
    stop_one,
    stop_spec,
    unique_names,
    wildcard,
};

verus! {

proof fn lemma_create_single(ts: Seq<TimerView>, name: Seq<char>, now: u64)
    ensures
        create_spec(ts, seq![name], now) == create_one(ts, name, now),
{
    let names = seq![name];
    assert(names.drop_last() =~= Seq::<Seq<char>>::empty());
    assert(create_each(ts, names.drop_last(), now) == (ts, Seq::<ReportView>::empty()));
    let rs = create_one(ts, name, now).1;
    assert(Seq::<ReportView>::empty() + rs =~= rs);
}

proof fn lemma_stop_single(ts: Seq<TimerView>, name: Seq<char>, now: u64)
    requires
        name != wildcard(),
    ensures
        stop_spec(ts, seq![name], now) == stop_one(ts, name, now),
{
    let names = seq![name];
    assert(names.drop_last() =~= Seq::<Seq<char>>::empty());
    assert(stop_each(ts, names.drop_last(), now) == (ts, Seq::<ReportView>::empty()));
    let rs = stop_one(ts, name, now).1;
    assert(Seq::<ReportView>::empty() + rs =~= rs);
}

/// A timer created at `t0` and shown at a later instant `t1` is reported running, with
/// `t1 - t0` nanoseconds elapsed; its creation reports nothing.
pub proof fn lemma_create_then_show(ts: Seq<TimerView>, name: Seq<char>, t0: u64, t1: u64)
    requires
        unique_names(ts),
        !has_name(ts, name),
        t0 <= t1,
        name != wildcard(),
    ensures
        create_spec(ts, seq![name], t0).1 == Seq::<ReportView>::empty(),
        show_spec(create_spec(ts, seq![name], t0).0, seq![name], t1) == seq![
            ReportView::Status { name, running: true, elapsed: (t1 - t0) as u64 },
        ],
{
    lemma_create_single(ts, name, t0);
    let ts1 = create_spec(ts, seq![name], t0).0;
    lemma_create_single(ts1, name, t1);
    assert(ts1 == ts.push(TimerView { name, start: t0, stop: None }));
    let last = ts.len() as int;
    assert(ts1[last].name == name);
    assert(has_name(ts1, name));
    let k = choose|k: int| 0 <= k < ts1.len() && #[trigger] ts1[k].name == name;
    if k < last {
        assert(ts[k].name == name);
    }
    assert(position(ts1, name) == Some(last));
    assert(create_spec(ts, seq![name], t0).1 =~= Seq::<ReportView>::empty());
    assert(show_spec(ts1, seq![name], t1) =~= seq![
        ReportView::Status { name, running: true, elapsed: (t1 - t0) as u64 },
    ]);
}

/// Creating a name a second time reports it as taken and changes nothing: the store keeps
/// exactly one timer of that name.
pub proof fn lemma_create_twice(ts: Seq<TimerView>, name: Seq<char>, t0: u64, t1: u64)
    requires
        unique_names(ts),
    ensures
        ({
            let ts1 = create_spec(ts, seq![name], t0).0;
            let (ts2, rs2) = create_spec(ts1, seq![name], t1);
            &&& rs2 == seq![ReportView::AlreadyCreated { name }]
            &&& ts2 == ts1
            &&& has_name(ts2, name)
            &&& unique_names(ts2)
        }),
{
    lemma_create_single(ts, name, t0);
    let ts1 = create_spec(ts, seq![name], t0).0;
    lemma_create_single(ts1, name, t1);
    if !has_name(ts, name) {
        assert(ts1 == ts.push(TimerView { name, start: t0, stop: None }));
        assert(ts1[ts.len() as int].name == name);
        assert forall|i: int, j: int|
            0 <= i < ts1.len() && 0 <= j < ts1.len() && #[trigger] ts1[i].name
                == #[trigger] ts1[j].name implies i == j by {
            if i < ts.len() {
                assert(ts[i].name == ts1[i].name);
            }
            if j < ts.len() {
                assert(ts[j].name == ts1[j].name);
            }
        }
    }
    assert(has_name(ts1, name));
    assert(create_spec(ts1, seq![name], t1).1 =~= seq![ReportView::AlreadyCreated { name }]);
}

/// Stopping a name that no timer has reports it as not found and changes nothing.
pub proof fn lemma_stop_missing(ts: Seq<TimerView>, name: Seq<char>, now: u64)
    requires
        !has_name(ts, name),
        name != wildcard(),
    ensures
        stop_spec(ts, seq![name], now) == (ts, seq![ReportView::NotFound { name }]),
{
    lemma_stop_single(ts, name, now);
    assert(stop_spec(ts, seq![name], now).1 =~= seq![ReportView::NotFound { name }]);
}

/// Stopping a timer a second time reports that it is stopped already and changes nothing,
/// its stop instant included; the first stop leaves it stopped.
pub proof fn lemma_stop_twice(ts: Seq<TimerView>, name: Seq<char>, t0: u64, t1: u64)
    requires
        unique_names(ts),
        has_name(ts, name),
        name != wildcard(),
    ensures
        ({
            let ts1 = stop_spec(ts, seq![name], t0).0;
            let (ts2, rs2) = stop_spec(ts1, seq![name], t1);
            let i = position(ts, name)->0;
            &&& position(ts1, name) == Some(i)
            &&& ts1[i].stop is Some
            &&& ts[i].stop is None ==> ts1[i].stop == Some(t0)
            &&& rs2 == seq![ReportView::AlreadyStopped { name }]
            &&& ts2 == ts1
        }),
{
    lemma_stop_single(ts, name, t0);
    let i = position(ts, name)->0;
    let ts1 = stop_spec(ts, seq![name], t0).0;
    lemma_stop_single(ts1, name, t1);
    assert(ts1.len() == ts.len());
    assert forall|j: int| 0 <= j < ts.len() implies #[trigger] ts1[j].name == ts[j].name by {}
    assert(ts1[i].name == name);
    assert(has_name(ts1, name));
    let k = choose|k: int| 0 <= k < ts1.len() && #[trigger] ts1[k].name == name;
    assert(ts[k].name == ts[i].name);
    assert(position(ts1, name) == Some(i));
    assert(stop_spec(ts1, seq![name], t1).1 =~= seq![ReportView::AlreadyStopped { name }]);
}

/// `show` with the wildcard, or with no names, reports every timer once, in the order the
/// timers were created.
pub proof fn lemma_show_all(ts: Seq<TimerView>, now: u64)
    ensures
        show_spec(ts, seq![wildcard()], now).len() == ts.len(),
        show_spec(ts, Seq::empty(), now).len() == ts.len(),
        forall|i: int|
            0 <= i < ts.len() ==> #[trigger] show_spec(ts, seq![wildcard()], now)[i] == status_of(
                ts[i],
                now,
            ) && show_spec(ts, Seq::empty(), now)[i] == status_of(ts[i], now),
{
}

/// `new` without names changes nothing and reports the missing name.
pub proof fn lemma_new_without_names(ts: Seq<TimerView>, now: u64)
    ensures
        create_spec(ts, Seq::empty(), now) == (ts, seq![ReportView::NoNameGiven]),
        step_spec(ts, CommandView::New(Seq::empty()), now) == (
            ts,
            seq![ReportView::NoNameGiven],
            Action::Continue,
        ),
{
}

} // verus!
