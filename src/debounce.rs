//! Coalescing of file-write notifications into reload requests.
use vstd::prelude::*;

verus! {

/// The window, in milliseconds, over which writes are coalesced.
pub const DEFAULT_WINDOW: u64 = 200;

/// A notification handed to the debouncer, with its time in milliseconds.
#[derive(Clone, Copy, Debug, PartialEq, Eq, Structural)]
pub enum Notice {
    /// The watched file was written.
    Write(u64),
    /// The control loop asks whether a reload is due.
    Poll(u64),
}

/// Coalesces writes: the first write opens a window, later writes inside it
/// join it, and a poll once the window has passed reports one reload.
#[derive(Clone, Copy, Debug, PartialEq, Eq, Structural)]
pub struct Debouncer {
    pub window: u64,
    /// When the first write not yet reported came.
    pub pending: Option<u64>,
}

/// Whether a reload opened at `start` is due at `now`.
pub open spec fn due(start: u64, window: u64, now: u64) -> bool {
    now >= start && now - start >= window
}

/// One notification: the debouncer after it, and whether it reports a reload.
pub open spec fn step(d: Debouncer, n: Notice) -> (Debouncer, bool) {
    match n {
        Notice::Write(t) => if d.pending is None {
            (Debouncer { window: d.window, pending: Some(t) }, false)
        } else {
            (d, false)
        },
        Notice::Poll(t) => match d.pending {
            Some(start) => if due(start, d.window, t) {
                (Debouncer { window: d.window, pending: None }, true)
            } else {
                (d, false)
            },
            None => (d, false),
        },
    }
}

/// A run of notifications: the debouncer after them, and how many reloads
/// they reported.
pub open spec fn run(d: Debouncer, ns: Seq<Notice>) -> (Debouncer, nat)
    decreases ns.len(),
{
    if ns.len() == 0 {
        (d, 0)
    } else {
        let (before, count) = run(d, ns.drop_last());
        let (after, reload) = step(before, ns.last());
        (after, if reload { count + 1 } else { count })
    }
}

pub open spec fn notice_time(n: Notice) -> u64 {
    match n {
        Notice::Write(t) => t,
        Notice::Poll(t) => t,
    }
}

/// Each write followed by a poll: `Write(writes[0]), Poll(polls[0]), ...`.
pub open spec fn paired(writes: Seq<u64>, polls: Seq<u64>) -> Seq<Notice>
    decreases writes.len(),
{
    if writes.len() == 0 || polls.len() == 0 {
        seq![]
    } else {
        paired(writes.drop_last(), polls.drop_last()).push(Notice::Write(writes.last())).push(
            Notice::Poll(polls.last()),
        )
    }
}

impl Debouncer {
    /// A debouncer with nothing pending.
    pub fn new(window: u64) -> (r: Debouncer)
        ensures
            r == (Debouncer { window, pending: None }),
    {
        Debouncer { window, pending: None }
    }

    /// Records a write at `now`.
    pub fn write(&mut self, now: u64)
        ensures
            *final(self) == step(*old(self), Notice::Write(now)).0,
    {
        if self.pending.is_none() {
            self.pending = Some(now);
        }
    }

    /// Reports whether a reload is due at `now`, and if so closes the window.
    pub fn poll(&mut self, now: u64) -> (r: bool)
        ensures
            (*final(self), r) == step(*old(self), Notice::Poll(now)),
    {
        match self.pending {
            Some(start) => {
                if now >= start && now - start >= self.window {
                    self.pending = None;
                    true
                } else {
                    false
                }
            },
            None => false,
        }
    }
}

proof fn lemma_within_window(d: Debouncer, ns: Seq<Notice>, t0: u64)
    requires
        d.pending is None,
        ns.len() > 0,
        ns[0] == Notice::Write(t0),
        forall|k: int|
            0 <= k < ns.len() ==> t0 <= notice_time(#[trigger] ns[k]) < t0 + d.window,
    ensures
        run(d, ns) == (Debouncer { window: d.window, pending: Some(t0) }, 0nat),
    decreases ns.len(),
{
    if ns.len() > 1 {
        let init = ns.drop_last();
        assert(init[0] == ns[0]);
        assert forall|k: int| 0 <= k < init.len() implies t0 <= notice_time(#[trigger] init[k])
            < t0 + d.window by {
            assert(init[k] == ns[k]);
        }
        lemma_within_window(d, init, t0);
        let open = Debouncer { window: d.window, pending: Some(t0) };
        assert(run(d, init) == (open, 0nat));
        let t = notice_time(ns[ns.len() - 1]);
        assert(t0 <= t < t0 + d.window);
        assert(ns.last() == ns[ns.len() - 1]);
        assert(!due(t0, d.window, t));
        assert(step(open, ns.last()) == (open, false));
    } else {
        assert(ns.drop_last() =~= seq![]);
        assert(run(d, ns.drop_last()) == (d, 0nat));
        assert(ns.last() == Notice::Write(t0));
    }
}

/// Writes that all come inside one window after the first, with any polls
/// in between, report exactly one reload at the first poll once the window
/// has passed.
pub proof fn lemma_coalesce(d: Debouncer, ns: Seq<Notice>, t0: u64, t: u64)
    requires
        d.pending is None,
        ns.len() > 0,
        ns[0] == Notice::Write(t0),
        forall|k: int|
            0 <= k < ns.len() ==> t0 <= notice_time(#[trigger] ns[k]) < t0 + d.window,
        t >= t0 + d.window,
    ensures
        run(d, ns.push(Notice::Poll(t))).1 == 1,
        run(d, ns.push(Notice::Poll(t))).0.pending is None,
{
    lemma_within_window(d, ns, t0);
    assert(ns.push(Notice::Poll(t)).drop_last() =~= ns);
}

/// Writes each followed by a poll at least one window later report one
/// reload each.
pub proof fn lemma_spaced(d: Debouncer, writes: Seq<u64>, polls: Seq<u64>)
    requires
        d.pending is None,
        writes.len() == polls.len(),
        forall|k: int| 0 <= k < writes.len() ==> polls[k] >= writes[k] + d.window,
    ensures
        run(d, paired(writes, polls)).1 == writes.len(),
        run(d, paired(writes, polls)).0 == d,
    decreases writes.len(),
{
    if writes.len() > 0 {
        let (w0, p0) = (writes.drop_last(), polls.drop_last());
        assert forall|k: int| 0 <= k < w0.len() implies p0[k] >= w0[k] + d.window by {
            assert(p0[k] == polls[k] && w0[k] == writes[k]);
        }
        lemma_spaced(d, w0, p0);
        let prefix = paired(w0, p0);
        let with_write = prefix.push(Notice::Write(writes.last()));
        let all = with_write.push(Notice::Poll(polls.last()));
        assert(all.drop_last() =~= with_write);
        assert(with_write.drop_last() =~= prefix);
        assert(polls.last() >= writes.last() + d.window);
        let n = w0.len();
        assert(run(d, prefix) == (d, n));
        assert(run(d, with_write) == (Debouncer { window: d.window, pending: Some(writes.last()) }, n));
        assert(due(writes.last(), d.window, polls.last()));
        assert(d == Debouncer { window: d.window, pending: None });
        assert(run(d, all) == (d, n + 1));
    } else {
        assert(paired(writes, polls) =~= seq![]);
    }
}

} // verus!
