use vstd::prelude::*;
use crate::model::{earlier, ListenLogEntry, Timestamp};

verus! {

/// Entries strictly ordered by time, so each time appears once.
pub open spec fn chronological(s: Seq<(Timestamp, Seq<char>)>) -> bool {
    forall|i: int, j: int| 0 <= i < j < s.len() ==> earlier(#[trigger] s[i].0, #[trigger] s[j].0)
}

/// The log after recording `v` at time `t`: a new time takes its place in
/// chronological order, an existing time has its title replaced.
pub open spec fn with_entry(s: Seq<(Timestamp, Seq<char>)>, t: Timestamp, v: Seq<char>) -> Seq<
    (Timestamp, Seq<char>),
>
    decreases s.len(),
{
    if s.len() == 0 {
        seq![(t, v)]
    } else if earlier(t, s[0].0) {
        seq![(t, v)] + s
    } else if s[0].0 == t {
        s.update(0, (t, v))
    } else {
        seq![s[0]] + with_entry(s.drop_first(), t, v)
    }
}

/// The listening history: titles keyed by the time they were played, oldest first.
#[derive(Debug)]
pub struct ListenLog {
    entries: Vec<(Timestamp, String)>,
}

impl View for ListenLog {
    type V = Seq<(Timestamp, Seq<char>)>;

    closed spec fn view(&self) -> Seq<(Timestamp, Seq<char>)> {
        self.entries@.map_values(|e: (Timestamp, String)| (e.0, e.1@))
    }
}

proof fn lemma_with_entry_skip(s: Seq<(Timestamp, Seq<char>)>, t: Timestamp, v: Seq<char>, i: int)
    requires
        0 <= i <= s.len(),
        forall|j: int| 0 <= j < i ==> earlier(#[trigger] s[j].0, t),
    ensures
        with_entry(s, t, v) == s.subrange(0, i) + with_entry(s.subrange(i, s.len() as int), t, v),
    decreases i,
{
    if i > 0 {
        assert(!earlier(t, s[0].0) && s[0].0 != t) by {
            assert(earlier(s[0].0, t));
        }
        let r = s.drop_first();
        lemma_with_entry_skip(r, t, v, i - 1);
        assert(r.subrange(0, i - 1) == s.subrange(1, i));
        assert(r.subrange(i - 1, r.len() as int) == s.subrange(i, s.len() as int));
        assert(seq![s[0]] + s.subrange(1, i) == s.subrange(0, i));
        assert(seq![s[0]] + (s.subrange(1, i) + with_entry(s.subrange(i, s.len() as int), t, v))
            == s.subrange(0, i) + with_entry(s.subrange(i, s.len() as int), t, v));
    } else {
        assert(s.subrange(0, 0) + s == s);
        assert(s.subrange(0, s.len() as int) == s);
    }
}

impl ListenLog {
    pub closed spec fn wf(&self) -> bool {
        chronological(self@)
    }

    /// An empty log.
    pub fn new() -> (r: ListenLog)
        ensures
            r.wf(),
            r@ == Seq::<(Timestamp, Seq<char>)>::empty(),
    {
        let r = ListenLog { entries: Vec::new() };
        assert(r@ == Seq::<(Timestamp, Seq<char>)>::empty());
        r
    }

    pub fn len(&self) -> (r: usize)
        ensures
            r == self@.len(),
    {
        self.entries.len()
    }

    /// The entry at position `i`, oldest first.
    pub fn entry(&self, i: usize) -> (r: (Timestamp, String))
        requires
            i < self@.len(),
        ensures
            r.0 == self@[i as int].0,
            r.1@ == self@[i as int].1,
    {
        (self.entries[i].0, self.entries[i].1.clone())
    }

    /// Records `title` at `time`; a title already recorded at that time is replaced.
    pub fn insert(&mut self, time: Timestamp, title: String)
        requires
            old(self).wf(),
        ensures
            final(self).wf(),
            final(self)@ == with_entry(old(self)@, time, title@),
    {
        let ghost s = self@;
        let ghost v = title@;
        let n = self.entries.len();
        let mut i: usize = 0;
        while i < n && self.entries[i].0.is_before(&time)
            invariant
                n == self.entries@.len(),
                s == self@,
                chronological(s),
                i <= n,
                forall|j: int| 0 <= j < i ==> earlier(#[trigger] s[j].0, time),
            decreases n - i,
        {
            i = i + 1;
        }
        proof {
            lemma_with_entry_skip(s, time, v, i as int);
        }
        let ghost rest = s.subrange(i as int, s.len() as int);
        if i < n && self.entries[i].0 == time {
            self.entries.set(i, (time, title));
            proof {
                assert(with_entry(rest, time, v) == rest.update(0, (time, v)));
                assert(self@ == s.update(i as int, (time, v)));
                assert(s.update(i as int, (time, v)) == s.subrange(0, i as int) + rest.update(
                    0,
                    (time, v),
                ));
                assert forall|a: int, b: int| 0 <= a < b < self@.len() implies earlier(
                    #[trigger] self@[a].0,
                    #[trigger] self@[b].0,
                ) by {
                    assert(s[a].0 == self@[a].0 && s[b].0 == self@[b].0);
                }
            }
        } else {
            self.entries.insert(i, (time, title));
            proof {
                if i < n {
                    assert(earlier(time, s[i as int].0));
                    assert(rest[0] == s[i as int]);
                }
                assert(with_entry(rest, time, v) == seq![(time, v)] + rest);
                assert(self@ == s.insert(i as int, (time, v)));
                assert(s.insert(i as int, (time, v)) == s.subrange(0, i as int) + (seq![(time, v)]
                    + rest));
                assert forall|a: int, b: int| 0 <= a < b < self@.len() implies earlier(
                    #[trigger] self@[a].0,
                    #[trigger] self@[b].0,
                ) by {
                    let ea = if a < i { s[a].0 } else if a == i { time } else { s[a - 1].0 };
                    let eb = if b < i { s[b].0 } else if b == i { time } else { s[b - 1].0 };
                    assert(self@[a].0 == ea && self@[b].0 == eb);
                    if a < i && b > i {
                        assert(earlier(s[a].0, time));
                        assert(earlier(time, s[i as int].0));
                        assert(i as int <= b - 1);
                        if i < b - 1 {
                            assert(earlier(s[i as int].0, s[b - 1].0));
                        }
                    } else if a == i && b > i + 1 {
                        assert(earlier(s[i as int].0, s[b - 1].0));
                    }
                }
            }
        }
    }
}

/// Recording two listens at different times gives the same log in either order.
pub proof fn lemma_record_order_irrelevant(
    s: Seq<(Timestamp, Seq<char>)>,
    t1: Timestamp,
    v1: Seq<char>,
    t2: Timestamp,
    v2: Seq<char>,
)
    requires
        t1 != t2,
    ensures
        with_entry(with_entry(s, t1, v1), t2, v2) == with_entry(with_entry(s, t2, v2), t1, v1),
    decreases s.len(),
{
    reveal_with_fuel(with_entry, 3);
    if s.len() == 0 {
        if earlier(t1, t2) {
            assert(seq![(t1, v1)] + seq![(t2, v2)] == seq![(t1, v1)] + with_entry(
                seq![(t1, v1)].drop_first(),
                t2,
                v2,
            ));
        }
    } else {
        let r = s.drop_first();
        lemma_record_order_irrelevant(r, t1, v1, t2, v2);
        let h = s[0];
        let a = with_entry(s, t1, v1);
        let b = with_entry(s, t2, v2);
        assert((seq![h] + r).drop_first() == r);
        assert(s == seq![h] + r);
        assert((seq![(t1, v1)] + s).drop_first() == s);
        assert((seq![(t2, v2)] + s).drop_first() == s);
        assert(s.update(0, (t1, v1)).drop_first() == r);
        assert(s.update(0, (t2, v2)).drop_first() == r);
        assert((seq![h] + with_entry(r, t1, v1)).drop_first() == with_entry(r, t1, v1));
        assert((seq![h] + with_entry(r, t2, v2)).drop_first() == with_entry(r, t2, v2));
        assert((seq![(t1, v1)] + s.update(0, (t2, v2))).drop_first() == s.update(0, (t2, v2)));
        assert((seq![(t2, v2)] + s.update(0, (t1, v1))).drop_first() == s.update(0, (t1, v1)));
        assert(with_entry(a, t2, v2) =~= with_entry(b, t1, v1));
    }
}

/// Listens logged at three increasing times, in whatever order they are logged, leave the
/// log running from the earliest to the latest.
pub proof fn lemma_log_runs_in_time_order(
    t1: Timestamp,
    v1: Seq<char>,
    t2: Timestamp,
    v2: Seq<char>,
    t3: Timestamp,
    v3: Seq<char>,
)
    requires
        earlier(t1, t2),
        earlier(t2, t3),
    ensures
        ({
            let e = Seq::<(Timestamp, Seq<char>)>::empty();
            let want = seq![(t1, v1), (t2, v2), (t3, v3)];
            &&& with_entry(with_entry(with_entry(e, t1, v1), t2, v2), t3, v3) == want
            &&& with_entry(with_entry(with_entry(e, t1, v1), t3, v3), t2, v2) == want
            &&& with_entry(with_entry(with_entry(e, t2, v2), t1, v1), t3, v3) == want
            &&& with_entry(with_entry(with_entry(e, t2, v2), t3, v3), t1, v1) == want
            &&& with_entry(with_entry(with_entry(e, t3, v3), t1, v1), t2, v2) == want
            &&& with_entry(with_entry(with_entry(e, t3, v3), t2, v2), t1, v1) == want
        }),
{
    let e = Seq::<(Timestamp, Seq<char>)>::empty();
    let want = seq![(t1, v1), (t2, v2), (t3, v3)];
    reveal_with_fuel(with_entry, 4);
    let s1 = with_entry(e, t1, v1);
    let s12 = with_entry(s1, t2, v2);
    assert(s1 == seq![(t1, v1)]);
    assert(s1.drop_first() == e);
    assert(s12 == seq![(t1, v1), (t2, v2)]);
    assert(s12.drop_first() == seq![(t2, v2)]);
    assert(seq![(t2, v2)].drop_first() == e);
    assert(with_entry(s12, t3, v3) == want);
    lemma_record_order_irrelevant(e, t1, v1, t2, v2);
    lemma_record_order_irrelevant(s1, t2, v2, t3, v3);
    lemma_record_order_irrelevant(e, t1, v1, t3, v3);
    lemma_record_order_irrelevant(with_entry(e, t2, v2), t1, v1, t3, v3);
    lemma_record_order_irrelevant(with_entry(e, t3, v3), t1, v1, t2, v2);
    lemma_record_order_irrelevant(e, t2, v2, t3, v3);
    lemma_record_order_irrelevant(with_entry(e, t2, v2), t3, v3, t1, v1);
    lemma_record_order_irrelevant(with_entry(e, t3, v3), t2, v2, t1, v1);
}

/// Logs a listen of a release: its title is recorded at the time of the entry. Nothing is
/// checked against the catalog, so a release that has left the collection can still be logged.
pub fn log_listen(log: &mut ListenLog, entry: ListenLogEntry)
    requires
        old(log).wf(),
    ensures
        final(log).wf(),
        final(log)@ == with_entry(old(log)@, entry.time, entry.title@),
{
    log.insert(entry.time, entry.title);
}

} // verus!
