//! Shortest-job-first scheduling.
//!
//! Each task keeps an exponential moving average of its run times. The ready
//! queue orders tasks by that expected run time and then by an id handed out
//! by the scheduler, so the task expected to finish soonest runs first.

use vstd::prelude::*;
use vstd::arithmetic::power2::pow2;
use std::collections::BTreeMap;

verus! {

broadcast use vstd::laws_cmp::group_laws_cmp;

/// Shifting an integer right by `b` bits divides it by `2^b`, rounding
/// towards negative infinity.
pub proof fn lemma_shr_is_floor_div(x: isize, b: usize)
    requires
        0 <= b < isize::BITS,
    ensures
        x >> b == x as int / pow2(b as nat) as int,
    decreases b,
{
    vstd::arithmetic::power2::lemma_pow2_pos(b as nat);
    if b == 0 {
        assert(x >> 0usize == x) by (bit_vector);
        vstd::arithmetic::power2::lemma2_to64();
        assert(x as int / 1 == x);
    } else {
        let c: usize = (b - 1) as usize;
        lemma_shr_is_floor_div(x, c);
        let y: isize = x >> c;
        assert(x >> b == y >> 1usize) by (bit_vector)
            requires
                y == x >> c,
                c + 1 == b,
                0 <= c < isize::BITS - 1,
        ;
        assert(2 * (y >> 1usize) <= y && y < 2 * (y >> 1usize) + 2) by (bit_vector);
        assert(y >> 1usize == y as int / 2);
        vstd::arithmetic::power2::lemma_pow2_unfold(b as nat);
        vstd::arithmetic::power2::lemma_pow2_pos(c as nat);
        lemma_floor_div_twice(x as int, pow2(c as nat) as int);
        assert(pow2(c as nat) * 2 == pow2(b as nat));
    }
}

/// Halving the floor quotient by `c` is the floor quotient by `2 * c`.
proof fn lemma_floor_div_twice(x: int, c: int)
    requires
        c > 0,
    ensures
        (x / c) / 2 == x / (c * 2),
{
    let q = x / c;
    let r = x % c;
    vstd::arithmetic::div_mod::lemma_fundamental_div_mod(x, c);
    vstd::arithmetic::div_mod::lemma_mod_bound(x, c);
    let q2 = q / 2;
    let s = q % 2;
    assert(x == q2 * (c * 2) + (c * s + r) && 0 <= c * s + r < c * 2) by (nonlinear_arith)
        requires
            x == c * q + r,
            q == 2 * q2 + s,
            0 <= s < 2,
            0 <= r < c,
    ;
    vstd::arithmetic::div_mod::lemma_fundamental_div_mod_converse_div(x, c * 2, q2, c * s + r);
}

/// The ordering key of a task: expected run time first, then id.
pub open spec fn key_lt(a: (isize, isize), b: (isize, isize)) -> bool {
    a.0 < b.0 || (a.0 == b.0 && a.1 < b.1)
}

/// The moving average after a run that started at `start` and ended at
/// `now`, with weight `alpha_a / 2^alpha_log_b` on the new sample.
pub open spec fn next_expect_runtime(
    last: isize,
    start: isize,
    now: u64,
    alpha_a: isize,
    alpha_log_b: isize,
) -> int {
    ((now as isize) - start - last) * alpha_a / (pow2(alpha_log_b as nat) as int) + last
}

/// A task wrapper for the shortest-job-first scheduler.
///
/// `A / 2^LOGB` is the weight that the latest run time gets in the
/// moving average of expected run times.
pub struct SJFTask<T, const A: usize, const LOGB: usize> {
    inner: T,
    expect_runtime: isize,
    start_time_after_sched: isize,
    alpha_a: isize,
    alpha_log_b: isize,
    id: isize,
}

impl<T, const A: usize, const LOGB: usize> SJFTask<T, A, LOGB> {
    /// The expected run time (moving average, in ticks).
    pub closed spec fn expect(&self) -> isize {
        self.expect_runtime
    }

    /// The tick at which the task was last picked to run.
    pub closed spec fn start_time(&self) -> isize {
        self.start_time_after_sched
    }

    /// The numerator of the averaging weight.
    pub closed spec fn alpha_a(&self) -> isize {
        self.alpha_a
    }

    /// The base-2 logarithm of the denominator of the averaging weight.
    pub closed spec fn alpha_log_b(&self) -> isize {
        self.alpha_log_b
    }

    /// The id given by the scheduler.
    pub closed spec fn id(&self) -> isize {
        self.id
    }

    /// The wrapped task.
    pub closed spec fn inner_spec(&self) -> T {
        self.inner
    }

    /// The key by which the ready queue orders tasks.
    pub open spec fn key(&self) -> (isize, isize) {
        (self.expect(), self.id())
    }

    /// The state that `sched_timer` at tick `now` leaves the task in.
    pub closed spec fn scheduled_at(self, now: u64) -> Self {
        SJFTask { start_time_after_sched: now as isize, ..self }
    }

    /// The same task, given the id `id`.
    pub closed spec fn with_id(self, id: isize) -> Self {
        SJFTask { id, ..self }
    }

    /// `sched_timer` changes the start time only.
    pub broadcast proof fn lemma_scheduled_at(self, now: u64)
        ensures
            #![trigger self.scheduled_at(now)]
            self.scheduled_at(now).start_time() == now as isize,
            self.scheduled_at(now).expect() == self.expect(),
            self.scheduled_at(now).id() == self.id(),
            self.scheduled_at(now).inner_spec() == self.inner_spec(),
            self.scheduled_at(now).alpha_a() == self.alpha_a(),
            self.scheduled_at(now).alpha_log_b() == self.alpha_log_b(),
    {
    }

    /// Setting the id changes the id only.
    pub broadcast proof fn lemma_with_id(self, id: isize)
        ensures
            #![trigger self.with_id(id)]
            self.with_id(id).id() == id,
            self.with_id(id).expect() == self.expect(),
            self.with_id(id).start_time() == self.start_time(),
            self.with_id(id).inner_spec() == self.inner_spec(),
            self.with_id(id).alpha_a() == self.alpha_a(),
            self.with_id(id).alpha_log_b() == self.alpha_log_b(),
    {
    }

    /// `update_expect_runtime` changes the expected run time only.
    pub broadcast proof fn lemma_updated_at(self, now: u64)
        requires
            self.update_in_range(now),
        ensures
            #![trigger self.updated_at(now)]
            self.updated_at(now).expect() == next_expect_runtime(
                self.expect(),
                self.start_time(),
                now,
                self.alpha_a(),
                self.alpha_log_b(),
            ),
            self.updated_at(now).id() == self.id(),
            self.updated_at(now).start_time() == self.start_time(),
            self.updated_at(now).inner_spec() == self.inner_spec(),
            self.updated_at(now).alpha_a() == self.alpha_a(),
            self.updated_at(now).alpha_log_b() == self.alpha_log_b(),
    {
    }

    /// The arithmetic of `update_expect_runtime` at tick `now` stays within `isize`.
    pub open spec fn update_in_range(&self, now: u64) -> bool {
        let delta = (now as isize) - self.start_time();
        let diff = delta - self.expect();
        &&& isize::MIN <= delta <= isize::MAX
        &&& isize::MIN <= diff <= isize::MAX
        &&& isize::MIN <= diff * self.alpha_a() <= isize::MAX
        &&& 0 <= self.alpha_log_b() < isize::BITS
        &&& isize::MIN <= next_expect_runtime(
            self.expect(),
            self.start_time(),
            now,
            self.alpha_a(),
            self.alpha_log_b(),
        ) <= isize::MAX
    }

    /// The state that `update_expect_runtime` at tick `now` leaves the task in.
    pub closed spec fn updated_at(self, now: u64) -> Self {
        SJFTask {
            expect_runtime: next_expect_runtime(
                self.expect_runtime,
                self.start_time_after_sched,
                now,
                self.alpha_a,
                self.alpha_log_b,
            ) as isize,
            ..self
        }
    }

    /// Creates a task around `inner`, with no run time recorded yet.
    pub fn new(inner: T, _n: isize) -> (r: Self)
        ensures
            r.inner_spec() == inner,
            r.expect() == 0,
            r.start_time() == 0,
            r.id() == 0,
            r.alpha_a() == A as isize,
            r.alpha_log_b() == LOGB as isize,
    {
        Self {
            inner,
            expect_runtime: 0,
            start_time_after_sched: 0,
            id: 0,
            alpha_a: A as isize,
            alpha_log_b: LOGB as isize,
        }
    }

    /// Sets the id by which ties in expected run time are broken.
    pub fn set_id(&mut self, id: isize)
        ensures
            *final(self) == old(self).with_id(id),
            final(self).id() == id,
    {
        self.id = id;
    }

    /// Returns the id given by the scheduler.
    pub(crate) fn get_id(&self) -> (r: isize)
        ensures
            r == self.id(),
    {
        self.id
    }

    /// Folds the run that started at the last `sched_timer` and ends at tick
    /// `now` into the expected run time: with `alpha = alpha_a / 2^alpha_log_b`,
    /// `expect = (delta - expect) * alpha + expect`, rounded down.
    pub fn update_expect_runtime(&mut self, now: u64)
        requires
            old(self).update_in_range(now),
        ensures
            *final(self) == old(self).updated_at(now),
            final(self).expect() == next_expect_runtime(
                old(self).expect(),
                old(self).start_time(),
                now,
                old(self).alpha_a(),
                old(self).alpha_log_b(),
            ),
            final(self).start_time() == old(self).start_time(),
            final(self).id() == old(self).id(),
            final(self).inner_spec() == old(self).inner_spec(),
    {
        let last_expect_runtime = self.expect_runtime;
        let last_start_time_after_sched = self.start_time_after_sched;
        let delta = now as isize - last_start_time_after_sched;
        let scaled = (delta - last_expect_runtime) * self.alpha_a;
        let shift = self.alpha_log_b as usize;
        proof {
            lemma_shr_is_floor_div(scaled, shift);
        }
        let expect = (scaled >> shift) + last_expect_runtime;
        self.expect_runtime = expect;
    }

    /// Returns the expected run time.
    pub fn get_expect_runtime(&self) -> (r: isize)
        ensures
            r == self.expect(),
    {
        self.expect_runtime
    }

    /// Records tick `now` as the moment the task was picked to run.
    pub fn sched_timer(&mut self, now: u64)
        ensures
            *final(self) == old(self).scheduled_at(now),
            final(self).start_time() == now as isize,
            final(self).expect() == old(self).expect(),
            final(self).id() == old(self).id(),
            final(self).inner_spec() == old(self).inner_spec(),
    {
        self.start_time_after_sched = now as isize;
    }

    /// Returns a reference to the wrapped task.
    pub fn inner(&self) -> (r: &T)
        ensures
            *r == self.inner_spec(),
    {
        &self.inner
    }
}

/// How `sched_timer`, `set_id` and `update_expect_runtime` change a task.
pub broadcast group group_sjf_task {
    SJFTask::lemma_scheduled_at,
    SJFTask::lemma_with_id,
    SJFTask::lemma_updated_at,
}

/// The least key of a ready queue: it is present and no present key is
/// below it.
pub open spec fn is_least_key<T, const A: usize, const LOGB: usize>(
    q: Map<(isize, isize), SJFTask<T, A, LOGB>>,
    k: (isize, isize),
) -> bool {
    &&& q.contains_key(k)
    &&& forall|k2: (isize, isize)| #[trigger] q.contains_key(k2) ==> !key_lt(k2, k)
}

/// The ready queue `q` after inserting `t` under its key: a task already
/// filed under that key keeps its place and `t` is dropped.
pub open spec fn inserted<T, const A: usize, const LOGB: usize>(
    q: Map<(isize, isize), SJFTask<T, A, LOGB>>,
    t: SJFTask<T, A, LOGB>,
) -> Map<(isize, isize), SJFTask<T, A, LOGB>> {
    if q.contains_key(t.key()) {
        q
    } else {
        q.insert(t.key(), t)
    }
}

/// Every task in `q` has an id in `[0, n)`.
pub open spec fn ids_below<T, const A: usize, const LOGB: usize>(
    q: Map<(isize, isize), SJFTask<T, A, LOGB>>,
    n: isize,
) -> bool {
    forall|k: (isize, isize)| #[trigger] q.contains_key(k) ==> 0 <= q[k].id() < n
}

/// The id that the scheduler's counter holds after `k` tasks were added to
/// a new scheduler: it starts at 0 and each addition adds 1, wrapping
/// around at the end of `isize`.
pub open spec fn id_after_adds(k: nat) -> isize
    decreases k,
{
    if k == 0 {
        0
    } else {
        id_after_adds((k - 1) as nat).wrapping_add(1)
    }
}

/// Removes and returns the entry with the least key.
///
/// Trusted: `BTreeMap::pop_first` removes and returns the first entry of
/// the map, whose key is the least in the map; tuples of integers are
/// ordered lexicographically. It returns `None` exactly when the map is
/// empty (a map holds finitely many keys), and then leaves it as it is.
#[verifier::external_body]
fn pop_least<V>(m: &mut BTreeMap<(isize, isize), V>) -> (r: Option<((isize, isize), V)>)
    ensures
        r is None <==> old(m)@.dom().len() == 0,
        r is None ==> final(m)@ == old(m)@,
        r matches Some(kv) ==> {
            &&& old(m)@.contains_key(kv.0)
            &&& old(m)@[kv.0] == kv.1
            &&& final(m)@ == old(m)@.remove(kv.0)
            &&& forall|k: (isize, isize)| #[trigger] old(m)@.contains_key(k) ==> !key_lt(k, kv.0)
        },
{
    m.pop_first()
}

/// A shortest-job-first scheduler.
///
/// Ready tasks are kept in a map ordered by their keys, (expected run time,
/// id); the task with the least key runs next.
pub struct SJFScheduler<T, const A: usize, const LOGB: usize> {
    ready_queue: BTreeMap<(isize, isize), SJFTask<T, A, LOGB>>,
    id_pool: isize,
    adds: Ghost<nat>,
}

impl<T, const A: usize, const LOGB: usize> SJFScheduler<T, A, LOGB> {
    /// The ready tasks, by key.
    pub closed spec fn queue(&self) -> Map<(isize, isize), SJFTask<T, A, LOGB>> {
        self.ready_queue@
    }

    /// The id that the next added task gets.
    pub closed spec fn next_id(&self) -> isize {
        self.id_pool
    }

    /// How many tasks `add_task` has added since the scheduler was made.
    pub closed spec fn adds(&self) -> nat {
        self.adds@
    }

    /// Each ready task is filed under its own key, and the next id is the
    /// one that the counter reaches after the additions made so far.
    pub open spec fn wf(&self) -> bool {
        &&& forall|k: (isize, isize)| #[trigger] self.queue().contains_key(k) ==> self.queue()[k].key() == k
        &&& self.next_id() == id_after_adds(self.adds())
    }

    /// Some ready task has key `k`.
    pub open spec fn has_key(&self, k: (isize, isize)) -> bool {
        self.queue().contains_key(k)
    }

    /// The next id is not negative, and every ready task has an id that
    /// was given out before: at least 0 and below the next id.
    pub open spec fn ids_below_next(&self) -> bool {
        &&& 0 <= self.next_id()
        &&& ids_below(self.queue(), self.next_id())
    }

    /// Creates an empty scheduler.
    pub fn new() -> (r: Self)
        ensures
            r.wf(),
            r.queue() == Map::<(isize, isize), SJFTask<T, A, LOGB>>::empty(),
            r.next_id() == 0,
            r.adds() == 0,
            r.ids_below_next(),
    {
        Self { ready_queue: BTreeMap::new(), id_pool: 0, adds: Ghost(0) }
    }

    /// Initializes the scheduler; there is nothing to do.
    pub fn init(&mut self)
        ensures
            *final(self) == *old(self),
    {
    }

    /// Files `task` in the ready queue under its key, unless a task is
    /// already filed there.
    fn insert(&mut self, task: SJFTask<T, A, LOGB>)
        requires
            old(self).wf(),
        ensures
            final(self).wf(),
            final(self).next_id() == old(self).next_id(),
            final(self).adds() == old(self).adds(),
            final(self).queue() == inserted(old(self).queue(), task),
    {
        let key = (task.expect_runtime, task.id);
        assert(key == task.key());
        if !self.ready_queue.contains_key(&key) {
            self.ready_queue.insert(key, task);
            assert(self.queue() == old(self).queue().insert(key, task));
        }
    }

    /// Adds a task to the ready queue, giving it the next id.
    pub fn add_task(&mut self, task: SJFTask<T, A, LOGB>)
        requires
            old(self).wf(),
        ensures
            final(self).wf(),
            final(self).next_id() == old(self).next_id().wrapping_add(1),
            final(self).adds() == old(self).adds() + 1,
            final(self).queue() == inserted(old(self).queue(), task.with_id(old(self).next_id())),
            final(self).has_key((task.expect(), old(self).next_id())),
            !old(self).has_key((task.expect(), old(self).next_id())) ==> final(self).queue()
                == old(self).queue().insert(
                (task.expect(), old(self).next_id()),
                task.with_id(old(self).next_id()),
            ),
            old(self).ids_below_next() && old(self).next_id() < isize::MAX ==> {
                &&& !old(self).has_key((task.expect(), old(self).next_id()))
                &&& final(self).queue() == old(self).queue().insert(
                    (task.expect(), old(self).next_id()),
                    task.with_id(old(self).next_id()),
                )
                &&& final(self).ids_below_next()
            },
    {
        proof {
            task.lemma_with_id(self.id_pool);
        }
        let mut task = task;
        let id = self.id_pool;
        self.id_pool = self.id_pool.wrapping_add(1);
        proof {
            self.adds = Ghost(self.adds@ + 1);
        }
        task.set_id(id);
        assert(self.queue() == old(self).queue());
        self.insert(task);
    }

    /// Removes the ready task whose key equals that of `task`, and returns it.
    pub fn remove_task(&mut self, task: &SJFTask<T, A, LOGB>) -> (r: Option<SJFTask<T, A, LOGB>>)
        requires
            old(self).wf(),
        ensures
            final(self).wf(),
            final(self).next_id() == old(self).next_id(),
            final(self).adds() == old(self).adds(),
            final(self).queue() == old(self).queue().remove(task.key()),
            r == (if old(self).has_key(task.key()) {
                Some(old(self).queue()[task.key()])
            } else {
                None
            }),
            old(self).ids_below_next() ==> final(self).ids_below_next(),
    {
        let key = (task.expect_runtime, task.id);
        assert(key == task.key());
        let r = self.ready_queue.remove(&key);
        assert(self.queue() == old(self).queue().remove(key));
        r
    }

    /// Takes the ready task with the least key, records tick `now` as its
    /// start, and returns it.
    pub fn pick_next_task(&mut self, now: u64) -> (r: Option<SJFTask<T, A, LOGB>>)
        requires
            old(self).wf(),
        ensures
            final(self).wf(),
            final(self).next_id() == old(self).next_id(),
            final(self).adds() == old(self).adds(),
            r is None <==> old(self).queue().dom().len() == 0,
            r is None ==> final(self).queue() == old(self).queue(),
            r matches Some(t) ==> {
                &&& is_least_key(old(self).queue(), t.key())
                &&& t == old(self).queue()[t.key()].scheduled_at(now)
                &&& final(self).queue() == old(self).queue().remove(t.key())
            },
            old(self).ids_below_next() ==> final(self).ids_below_next(),
    {
        match pop_least(&mut self.ready_queue) {
            Some((key, task)) => {
                assert(self.queue() == old(self).queue().remove(key));
                let mut k = task;
                k.sched_timer(now);
                Some(k)
            },
            None => None,
        }
    }

    /// Puts back the task that just ran until tick `now`: its expected run
    /// time is updated and it rejoins the ready queue.
    pub fn put_prev_task(&mut self, prev: SJFTask<T, A, LOGB>, _preempt: bool, now: u64)
        requires
            old(self).wf(),
            prev.update_in_range(now),
        ensures
            final(self).wf(),
            final(self).next_id() == old(self).next_id(),
            final(self).adds() == old(self).adds(),
            final(self).queue() == inserted(old(self).queue(), prev.updated_at(now)),
            final(self).has_key(prev.updated_at(now).key()),
            old(self).ids_below_next() && 0 <= prev.id() < old(self).next_id()
                ==> final(self).ids_below_next(),
    {
        let mut prev = prev;
        prev.update_expect_runtime(now);
        self.insert(prev);
    }

    /// Time slices play no part in this policy: never asks to reschedule.
    pub fn task_tick(&mut self, _current: &SJFTask<T, A, LOGB>) -> (r: bool)
        ensures
            !r,
            *final(self) == *old(self),
    {
        false
    }
}

/// The task with the least key, the one that `pick_next_task` returns, is
/// expected to run no longer than any ready task, and among equally short
/// ones it has the least id.
pub proof fn lemma_least_is_shortest<T, const A: usize, const LOGB: usize>(
    s: SJFScheduler<T, A, LOGB>,
    k: (isize, isize),
    k2: (isize, isize),
)
    requires
        s.wf(),
        is_least_key(s.queue(), k),
        s.has_key(k2),
    ensures
        s.queue()[k].expect() <= s.queue()[k2].expect(),
        s.queue()[k].expect() == s.queue()[k2].expect() ==> s.queue()[k].id() <= s.queue()[k2].id(),
{
    assert(!key_lt(k2, k));
}

/// A task inserted under a key that was not yet queued is the ready task
/// under that key, and removing by that key gives back the queue as it was.
pub proof fn lemma_insert_then_remove<T, const A: usize, const LOGB: usize>(
    q: Map<(isize, isize), SJFTask<T, A, LOGB>>,
    t: SJFTask<T, A, LOGB>,
)
    requires
        !q.contains_key(t.key()),
    ensures
        inserted(q, t).contains_key(t.key()),
        inserted(q, t)[t.key()] == t,
        inserted(q, t).remove(t.key()) == q,
{
    assert(inserted(q, t).remove(t.key()) =~= q);
}

/// The ids that one scheduler gives out count up from 0 in the order of
/// the calls of `add_task`: the `k`-th addition gets the id `k`, so no two
/// additions get the same id, as long as fewer than `isize::MAX` tasks
/// were added.
pub proof fn lemma_ids_count_up(k: nat)
    requires
        k <= isize::MAX,
    ensures
        id_after_adds(k) == k,
        forall|j: nat| j < k ==> #[trigger] id_after_adds(j) != id_after_adds(k),
    decreases k,
{
    if k > 0 {
        lemma_ids_count_up((k - 1) as nat);
        assert forall|j: nat| j < k implies #[trigger] id_after_adds(j) != id_after_adds(k) by {
            lemma_ids_count_up(j);
        }
    }
}

/// A scheduler hands out ids in the order of the calls of `add_task`: after
/// `k` additions the next id is `k`, so the `k`-th addition gets the id `k`
/// and no earlier addition got it, as long as at most `isize::MAX` tasks
/// were added.
pub proof fn lemma_ids_in_call_order<T, const A: usize, const LOGB: usize>(
    s: SJFScheduler<T, A, LOGB>,
)
    requires
        s.wf(),
        s.adds() <= isize::MAX,
    ensures
        s.next_id() == s.adds(),
        forall|j: nat| j < s.adds() ==> #[trigger] id_after_adds(j) != s.next_id(),
{
    lemma_ids_count_up(s.adds());
}

/// The updated expected run time moves from the previous expectation
/// `last` towards the run time just measured by the fraction
/// `alpha_a / 2^alpha_log_b` of the difference, rounded down, for a run
/// shorter or longer than expected alike: `2^alpha_log_b` times the move
/// is at most the weighted difference and more than it less
/// `2^alpha_log_b`. With `alpha_a` 0 the expectation stays.
pub proof fn lemma_expect_moves_by_alpha(
    last: isize,
    start: isize,
    now: u64,
    alpha_a: isize,
    alpha_log_b: isize,
)
    requires
        0 <= alpha_log_b,
    ensures
        ({
            let sample = (now as isize) - start;
            let moved = next_expect_runtime(last, start, now, alpha_a, alpha_log_b) - last;
            let d = pow2(alpha_log_b as nat) as int;
            &&& d * moved <= (sample - last) * alpha_a
            &&& (sample - last) * alpha_a < d * moved + d
            &&& alpha_a == 0 ==> moved == 0
        }),
{
    let d = pow2(alpha_log_b as nat) as int;
    vstd::arithmetic::power2::lemma_pow2_pos(alpha_log_b as nat);
    let p = ((now as isize) - start - last) * alpha_a;
    vstd::arithmetic::div_mod::lemma_fundamental_div_mod(p, d);
    vstd::arithmetic::div_mod::lemma_mod_bound(p, d);
    assert(next_expect_runtime(last, start, now, alpha_a, alpha_log_b) - last == p / d);
    if alpha_a == 0 {
        assert(p == 0);
        vstd::arithmetic::div_mod::lemma_div_of0(d);
    }
}

/// With a weight `alpha_a / 2^alpha_log_b` between 0 and 1, the updated
/// expected run time lies between the previous expectation and the run time
/// just measured.
pub proof fn lemma_expect_between_old_and_sample(
    last: isize,
    start: isize,
    now: u64,
    alpha_a: isize,
    alpha_log_b: isize,
)
    requires
        0 <= alpha_log_b,
        0 <= alpha_a <= pow2(alpha_log_b as nat),
    ensures
        ({
            let sample = (now as isize) - start;
            let e = next_expect_runtime(last, start, now, alpha_a, alpha_log_b);
            &&& sample >= last ==> last <= e <= sample
            &&& sample <= last ==> sample <= e <= last
        }),
{
    let d = pow2(alpha_log_b as nat) as int;
    vstd::arithmetic::power2::lemma_pow2_pos(alpha_log_b as nat);
    let diff = (now as isize) - start - last;
    let p = diff * alpha_a;
    vstd::arithmetic::div_mod::lemma_fundamental_div_mod(p, d);
    vstd::arithmetic::div_mod::lemma_mod_bound(p, d);
    let q = p / d;
    if diff >= 0 {
        assert(0 <= p <= diff * d) by (nonlinear_arith)
            requires
                diff >= 0,
                0 <= alpha_a <= d,
                p == diff * alpha_a,
        ;
        assert(0 <= q <= diff) by (nonlinear_arith)
            requires
                0 <= p <= diff * d,
                p == d * q + p % d,
                0 <= p % d < d,
                d > 0,
        ;
    } else {
        assert(diff * d <= p <= 0) by (nonlinear_arith)
            requires
                diff < 0,
                0 <= alpha_a <= d,
                p == diff * alpha_a,
        ;
        assert(diff <= q <= 0) by (nonlinear_arith)
            requires
                diff * d <= p <= 0,
                p == d * q + p % d,
                0 <= p % d < d,
                d > 0,
        ;
    }
}

} // verus!
