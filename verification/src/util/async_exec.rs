//! Waiting for a batch of tasks: a fork-join barrier, and driving a future from a synchronous
//! caller.
//!
//! Each function here is one step that runs undisturbed; whoever shares a value between threads
//! makes it so, with a lock or an atomic operation. The laws below speak of every order in which
//! the steps of several threads can follow each other.
use vstd::prelude::*;

verus! {

/// A cell for one waker.
pub struct WakerSlot<W> {
    waker: Option<W>,
}

impl<W> WakerSlot<W> {
    /// The waker that is registered.
    pub closed spec fn registered(self) -> Option<W> {
        self.waker
    }

    /// An empty cell.
    pub fn new() -> (r: Self)
        ensures
            r.registered() is None,
    {
        WakerSlot { waker: None }
    }

    /// Registers a waker, in place of the one that was registered before.
    pub fn register(&mut self, waker: W)
        ensures
            final(self).registered() == Some(waker),
    {
        self.waker = Some(waker);
    }

    /// Takes the waker out.
    pub fn take(&mut self) -> (r: Option<W>)
        ensures
            r == old(self).registered(),
            final(self).registered() is None,
    {
        self.waker.take()
    }
}

/// There is no memory.
#[derive(Clone, Copy, PartialEq, Eq, Structural, Debug)]
pub struct AllocError;

/// A counting fork-join barrier. A number of tasks each call [`WaitGroup::done`] when they finish;
/// [`WaitGroup::wait`] resolves once all of them have. The last one wakes the waiter.
pub struct WaitGroup<W> {
    remaining: u32,
    waker: WakerSlot<W>,
}

impl<W> WaitGroup<W> {
    /// How many tasks have not finished.
    pub closed spec fn left(self) -> u32 {
        self.remaining
    }

    /// The waker of the waiter.
    pub closed spec fn waiter(self) -> Option<W> {
        self.waker.registered()
    }

    /// A group that expects `n` tasks to finish. Where memory can run out, there may be none; here
    /// there always is one.
    pub fn new(n: u32) -> (r: Result<Self, AllocError>)
        ensures
            match r {
                Ok(g) => g.left() == n && g.waiter() is None && fork_of(g, idle_threads())
                    == forked(n as nat),
                Err(_) => false,
            },
    {
        Ok(WaitGroup { remaining: n, waker: WakerSlot::new() })
    }

    /// Counts one task as finished, and says whether it was the last one.
    pub fn count_down(&mut self) -> (last: bool)
        ensures
            last == (old(self).left() == 1),
            final(self).left() == (if old(self).left() == 0 {
                u32::MAX as int
            } else {
                old(self).left() - 1
            }),
            final(self).waiter() == old(self).waiter(),
            old(self).left() > 0 ==> forall|t: Threads| #[trigger]
                fork_step(fork_of(*old(self), t), ForkStep::CountDown) == Some(
                    fork_of(*final(self), Threads { taking: last, ..t }),
                ),
    {
        let before: u32 = self.remaining;
        self.remaining = before.wrapping_sub(1);
        before == 1
    }

    /// Takes the waker of the waiter, to wake it.
    pub fn take_waker(&mut self) -> (r: Option<W>)
        ensures
            r == old(self).waiter(),
            final(self).waiter() is None,
            final(self).left() == old(self).left(),
            forall|t: Threads|
                t.taking ==> #[trigger] fork_step(fork_of(*old(self), t), ForkStep::TakeWaker)
                    == Some(
                    fork_of(*final(self), Threads { taking: false, waking: r is Some, ..t }),
                ),
    {
        self.waker.take()
    }

    /// Signals that one task has finished. What is returned has to be woken: the waiter, where the
    /// task was the last one.
    pub fn done(&mut self) -> (r: Option<W>)
        ensures
            final(self).left() == (if old(self).left() == 0 {
                u32::MAX as int
            } else {
                old(self).left() - 1
            }),
            old(self).left() == 1 ==> r == old(self).waiter() && final(self).waiter() is None,
            old(self).left() != 1 ==> r is None && final(self).waiter() == old(self).waiter(),
            old(self).left() > 0 ==> forall|t: Threads|
                match #[trigger] fork_step(fork_of(*old(self), t), ForkStep::CountDown) {
                    Some(f) => if old(self).left() == 1 {
                        fork_step(f, ForkStep::TakeWaker) == Some(
                            fork_of(
                                *final(self),
                                Threads { taking: false, waking: r is Some, ..t },
                            ),
                        )
                    } else {
                        f == fork_of(*final(self), Threads { taking: false, ..t })
                    },
                    None => false,
                },
    {
        if self.count_down() {
            self.take_waker()
        } else {
            None
        }
    }

    /// Registers the waker of the waiter.
    pub fn register(&mut self, waker: W)
        ensures
            final(self).waiter() == Some(waker),
            final(self).left() == old(self).left(),
            forall|t: Threads|
                t.waiter is Idle || t.waiter is Pending ==> #[trigger] fork_step(
                    fork_of(*old(self), t),
                    ForkStep::Register,
                ) == Some(
                    fork_of(
                        *final(self),
                        Threads { waiter: Waiter::Registered, woken: false, ..t },
                    ),
                ),
    {
        self.waker.register(waker);
    }

    /// Whether all tasks have finished.
    pub fn is_done(&self) -> (r: bool)
        ensures
            r == (self.left() == 0),
            forall|t: Threads|
                t.waiter is Registered ==> #[trigger] fork_step(
                    fork_of(*self, t),
                    ForkStep::Look,
                ) == Some(
                    fork_of(
                        *self,
                        Threads {
                            waiter: if r {
                                Waiter::Ready
                            } else {
                                Waiter::Pending
                            },
                            ..t
                        },
                    ),
                ),
    {
        self.remaining == 0
    }

    /// A future that resolves once every expected [`WaitGroup::done`] was called.
    pub fn wait(&mut self) -> (r: WaitGroupWait<'_, W>)
        ensures
            *r.wg == *old(self),
            *final(self) == *final(r.wg),
    {
        WaitGroupWait { wg: self }
    }
}

/// Whether a future is ready.
#[derive(Clone, Copy, PartialEq, Eq, Structural, Debug)]
pub enum Readiness {
    Ready,
    Pending,
}

/// The future that [`WaitGroup::wait`] returns.
pub struct WaitGroupWait<'a, W> {
    pub wg: &'a mut WaitGroup<W>,
}

impl<'a, W> WaitGroupWait<'a, W> {
    /// Polls the future. The waker is registered before the count is looked at, so that a task that
    /// finishes in between is not missed.
    pub fn poll(&mut self, waker: W) -> (r: Readiness)
        ensures
            final(self).wg.waiter() == Some(waker),
            final(self).wg.left() == old(self).wg.left(),
            r == (if old(self).wg.left() == 0 {
                Readiness::Ready
            } else {
                Readiness::Pending
            }),
            *final(final(self).wg) == *final(old(self).wg),
            forall|t: Threads|
                t.waiter is Idle || t.waiter is Pending ==> match #[trigger] fork_step(
                    fork_of(*old(self).wg, t),
                    ForkStep::Register,
                ) {
                    Some(f) => fork_step(f, ForkStep::Look) == Some(
                        fork_of(
                            *final(self).wg,
                            Threads {
                                waiter: match r {
                                    Readiness::Ready => Waiter::Ready,
                                    Readiness::Pending => Waiter::Pending,
                                },
                                woken: false,
                                ..t
                            },
                        ),
                    ),
                    None => false,
                },
    {
        self.wg.register(waker);
        if self.wg.is_done() {
            Readiness::Ready
        } else {
            Readiness::Pending
        }
    }
}

/// Where the waiter of a group is.
pub enum Waiter {
    /// It has not been polled.
    Idle,
    /// Its waker is registered; it has not looked at the count.
    Registered,
    /// It has seen tasks that had not finished.
    Pending,
    /// It has seen that all tasks had finished.
    Ready,
}

/// How far the threads are that share a group: the waiter, and the last of the tasks.
pub struct Threads {
    /// Whether the last task has counted itself and has not taken the waker.
    pub taking: bool,
    /// Whether the last task has taken a waker and has not called it.
    pub waking: bool,
    /// Where the waiter is.
    pub waiter: Waiter,
    /// Whether the waiter was woken since it was last polled.
    pub woken: bool,
}

/// A group, and the threads that share it.
pub struct Fork {
    /// How many tasks have not finished.
    pub left: nat,
    /// Whether a waker is registered.
    pub slot: bool,
    /// How far the threads are.
    pub threads: Threads,
}

/// Threads that have not taken a step.
pub open spec fn idle_threads() -> Threads {
    Threads { taking: false, waking: false, waiter: Waiter::Idle, woken: false }
}

/// The group `g`, and the threads that share it.
pub open spec fn fork_of<W>(g: WaitGroup<W>, threads: Threads) -> Fork {
    Fork { left: g.left() as nat, slot: g.waiter() is Some, threads }
}

/// A step of one of the threads.
pub enum ForkStep {
    /// A task calls [`WaitGroup::count_down`].
    CountDown,
    /// The last task calls [`WaitGroup::take_waker`].
    TakeWaker,
    /// The last task calls the waker that it got.
    Wake,
    /// The waiter is polled, for the first time or again: [`WaitGroup::register`].
    Register,
    /// The waiter goes on: [`WaitGroup::is_done`].
    Look,
}

/// A group of `n` tasks at the start.
pub open spec fn forked(n: nat) -> Fork {
    Fork { left: n, slot: false, threads: idle_threads() }
}

/// What a step leads to, where it can be taken.
pub open spec fn fork_step(f: Fork, step: ForkStep) -> Option<Fork> {
    let t = f.threads;
    match step {
        ForkStep::CountDown => if f.left > 0 {
            Some(
                Fork {
                    left: (f.left - 1) as nat,
                    threads: Threads { taking: f.left == 1, ..t },
                    ..f
                },
            )
        } else {
            None
        },
        ForkStep::TakeWaker => if t.taking {
            Some(
                Fork {
                    slot: false,
                    threads: Threads { taking: false, waking: f.slot, ..t },
                    ..f
                },
            )
        } else {
            None
        },
        ForkStep::Wake => if t.waking {
            Some(Fork { threads: Threads { waking: false, woken: true, ..t }, ..f })
        } else {
            None
        },
        ForkStep::Register => if t.waiter is Idle || t.waiter is Pending {
            Some(
                Fork {
                    slot: true,
                    threads: Threads { waiter: Waiter::Registered, woken: false, ..t },
                    ..f
                },
            )
        } else {
            None
        },
        ForkStep::Look => if t.waiter is Registered {
            Some(
                Fork {
                    threads: Threads {
                        waiter: if f.left == 0 {
                            Waiter::Ready
                        } else {
                            Waiter::Pending
                        },
                        ..t
                    },
                    ..f
                },
            )
        } else {
            None
        },
    }
}

/// What the steps lead to from the start, where they can be taken in this order.
pub open spec fn fork_after(n: nat, steps: Seq<ForkStep>) -> Option<Fork>
    decreases steps.len(),
{
    if steps.len() == 0 {
        Some(forked(n))
    } else {
        match fork_after(n, steps.drop_last()) {
            Some(f) => fork_step(f, steps.last()),
            None => None,
        }
    }
}

spec fn fork_inv(f: Fork) -> bool {
    let t = f.threads;
    &&& t.taking ==> f.left == 0
    &&& t.waking ==> f.left == 0 && !t.taking
    &&& t.waiter is Registered && (f.left > 0 || t.taking) ==> f.slot
    &&& t.waiter is Pending ==> t.woken || t.waking || (f.slot && (f.left > 0 || t.taking))
    &&& t.waiter is Ready ==> f.left == 0
}

proof fn lemma_fork_inv(n: nat, steps: Seq<ForkStep>)
    requires
        fork_after(n, steps) is Some,
    ensures
        fork_inv(fork_after(n, steps)->0),
    decreases steps.len(),
{
    if steps.len() > 0 {
        lemma_fork_inv(n, steps.drop_last());
    }
}

spec fn countdowns(steps: Seq<ForkStep>) -> nat
    decreases steps.len(),
{
    if steps.len() == 0 {
        0
    } else {
        countdowns(steps.drop_last()) + if steps.last() is CountDown {
            1nat
        } else {
            0nat
        }
    }
}

/// How many of the steps are a task counting itself as finished.
pub open spec fn finished(steps: Seq<ForkStep>) -> nat {
    steps.filter(|s: ForkStep| s is CountDown).len()
}

proof fn lemma_finished(steps: Seq<ForkStep>)
    ensures
        finished(steps) == countdowns(steps),
    decreases steps.len(),
{
    reveal(Seq::filter);
    if steps.len() > 0 {
        lemma_finished(steps.drop_last());
    }
}

proof fn lemma_left(n: nat, steps: Seq<ForkStep>)
    requires
        fork_after(n, steps) is Some,
    ensures
        (fork_after(n, steps)->0).left + countdowns(steps) == n,
    decreases steps.len(),
{
    if steps.len() > 0 {
        lemma_left(n, steps.drop_last());
    }
}

/// The barrier holds: in whatever order the threads take their steps, the waiter is ready only
/// after each of the `n` tasks has finished.
pub proof fn law_ready_means_all_done(n: nat, steps: Seq<ForkStep>)
    requires
        fork_after(n, steps) is Some,
        (fork_after(n, steps)->0).threads.waiter is Ready,
    ensures
        finished(steps) == n,
{
    lemma_fork_inv(n, steps);
    lemma_left(n, steps);
    lemma_finished(steps);
}

/// No wake-up is lost: in whatever order the threads take their steps, once every task is through
/// with its part, a waiter that has found tasks unfinished was woken since.
pub proof fn law_no_wakeup_is_lost(n: nat, steps: Seq<ForkStep>)
    requires
        fork_after(n, steps) is Some,
        (fork_after(n, steps)->0).left == 0,
        !(fork_after(n, steps)->0).threads.taking,
        !(fork_after(n, steps)->0).threads.waking,
        (fork_after(n, steps)->0).threads.waiter is Pending,
    ensures
        (fork_after(n, steps)->0).threads.woken,
{
    lemma_fork_inv(n, steps);
}

/// A waiter that is polled once every task has finished becomes ready.
pub proof fn law_poll_after_the_last_is_ready(n: nat, steps: Seq<ForkStep>)
    requires
        fork_after(n, steps) is Some,
        (fork_after(n, steps)->0).left == 0,
        (fork_after(n, steps)->0).threads.waiter is Idle || (fork_after(
            n,
            steps,
        )->0).threads.waiter is Pending,
    ensures
        ({
            let after = fork_after(n, steps.push(ForkStep::Register).push(ForkStep::Look));
            after is Some && (after->0).threads.waiter is Ready
        }),
{
    let a = steps.push(ForkStep::Register);
    let b = a.push(ForkStep::Look);
    assert(a.drop_last() == steps);
    assert(b.drop_last() == a);
    assert(fork_after(n, a) is Some);
}

/// What blocks a thread until it is woken.
pub struct Parker {
    signalled: bool,
}

impl Parker {
    /// Whether the thread was woken and has not noticed it.
    pub closed spec fn is_signalled(self) -> bool {
        self.signalled
    }

    /// A parker that nobody has woken.
    pub fn new() -> (r: Self)
        ensures
            !r.is_signalled(),
            driven_of(r, Driver { at: BlockOn::Polling, resumed: false, woken: false }) == driven(),
    {
        Parker { signalled: false }
    }

    /// Wakes the thread, or keeps it from blocking the next time.
    pub fn wake(&mut self)
        ensures
            final(self).is_signalled(),
            forall|d: Driver| #[trigger]
                drive_step(driven_of(*old(self), d), DriveStep::Wake) == Some(
                    driven_of(*final(self), Driver { woken: true, ..d }),
                ),
    {
        self.signalled = true;
    }

    /// Whether the thread may go on. The signal is used up then; else the thread waits.
    pub fn try_unpark(&mut self) -> (r: bool)
        ensures
            r == old(self).is_signalled(),
            !final(self).is_signalled(),
            r ==> forall|d: Driver|
                d.at is Parked && !d.resumed ==> #[trigger] drive_step(
                    driven_of(*old(self), d),
                    DriveStep::Unpark,
                ) == Some(driven_of(*final(self), Driver { resumed: true, woken: false, ..d })),
            !r ==> *final(self) == *old(self),
    {
        let r = self.signalled;
        self.signalled = false;
        r
    }
}

/// What drives a future to completion on the calling thread.
pub enum BlockOn {
    /// The future is to be polled.
    Polling,
    /// The thread is to be parked until it is woken.
    Parked,
}

/// What the driver has to do next.
pub enum Drive<T> {
    /// Poll the future.
    Poll,
    /// Park the thread.
    Park,
    /// Return the value.
    Return(T),
}

impl BlockOn {
    /// What to do once the future was polled: return its value, or park. `None` is a future that is
    /// pending.
    pub fn polled<T>(&mut self, value: Option<T>) -> (r: Drive<T>)
        requires
            *old(self) is Polling,
        ensures
            match value {
                Some(v) => r == Drive::Return(v) && *final(self) == *old(self),
                None => r is Park && *final(self) is Parked && forall|p: Parker, d: Driver|
                    d.at == *old(self) ==> #[trigger] drive_step(
                        driven_of(p, d),
                        DriveStep::PollPending,
                    ) == Some(driven_of(p, Driver { at: *final(self), ..d })),
            },
    {
        match value {
            Some(v) => Drive::Return(v),
            None => {
                *self = BlockOn::Parked;
                Drive::Park
            },
        }
    }

    /// What to do once the thread was woken: poll again.
    pub fn unparked<T>(&mut self) -> (r: Drive<T>)
        requires
            *old(self) is Parked,
        ensures
            r is Poll,
            *final(self) is Polling,
            forall|p: Parker, d: Driver|
                d.at == *old(self) && d.resumed ==> #[trigger] drive_step(
                    driven_of(p, d),
                    DriveStep::Resume,
                ) == Some(driven_of(p, Driver { at: *final(self), resumed: false, ..d })),
    {
        *self = BlockOn::Polling;
        Drive::Poll
    }
}

/// Drives a future to completion, given what each poll returns, in order: it is polled until it is
/// ready, and its value is returned. `None` is a poll that finds the future pending; a future that
/// has not become ready leaves the thread parked, and nothing is returned.
pub fn block_on<T>(polls: Vec<Option<T>>) -> (r: Option<T>)
    ensures
        match r {
            Some(v) => exists|i: int|
                0 <= i < polls@.len() && #[trigger] polls@[i] == Some(v) && forall|j: int|
                    0 <= j < i ==> #[trigger] polls@[j] is None,
            None => forall|j: int| 0 <= j < polls@.len() ==> #[trigger] polls@[j] is None,
        },
{
    let mut driver = BlockOn::Polling;
    let mut rest = polls;
    let ghost mut i: int = 0;
    while rest.len() > 0
        invariant
            0 <= i <= polls@.len(),
            rest@ == polls@.skip(i),
            driver is Polling,
            forall|j: int| 0 <= j < i ==> #[trigger] polls@[j] is None,
        decreases rest.len(),
    {
        let polled = rest.remove(0);
        assert(polled == polls@[i]);
        assert(rest@ == polls@.skip(i + 1));
        match driver.polled(polled) {
            Drive::Return(v) => {
                assert(polls@[i] == Some(v));
                return Some(v);
            },
            _ => {
                let _ = driver.unparked::<T>();
            },
        }
        proof {
            i = i + 1;
        }
    }
    None
}

/// How far the thread is that drives a future.
pub struct Driver {
    /// Whether it polls, or is parked.
    pub at: BlockOn,
    /// Whether it was let go on since it was parked.
    pub resumed: bool,
    /// Whether it was woken since it was last let go on.
    pub woken: bool,
}

/// A parker, and the thread that it parks.
pub struct Driven {
    pub signalled: bool,
    pub driver: Driver,
}

/// The parker `p`, and the thread that it parks.
pub open spec fn driven_of(p: Parker, driver: Driver) -> Driven {
    Driven { signalled: p.is_signalled(), driver }
}

/// A step of the thread or of who wakes it.
pub enum DriveStep {
    /// The future is polled and is pending: [`BlockOn::polled`].
    PollPending,
    /// [`Parker::wake`].
    Wake,
    /// [`Parker::try_unpark`] succeeds.
    Unpark,
    /// [`BlockOn::unparked`].
    Resume,
}

/// A thread at the start.
pub open spec fn driven() -> Driven {
    Driven {
        signalled: false,
        driver: Driver { at: BlockOn::Polling, resumed: false, woken: false },
    }
}

/// What a step leads to, where it can be taken. A wake-up that comes while the future is polled
/// lets the thread go on once it is parked.
pub open spec fn drive_step(d: Driven, step: DriveStep) -> Option<Driven> {
    let t = d.driver;
    match step {
        DriveStep::PollPending => if t.at is Polling {
            Some(Driven { driver: Driver { at: BlockOn::Parked, ..t }, ..d })
        } else {
            None
        },
        DriveStep::Wake => Some(Driven { signalled: true, driver: Driver { woken: true, ..t } }),
        DriveStep::Unpark => if t.at is Parked && !t.resumed && d.signalled {
            Some(Driven { signalled: false, driver: Driver { resumed: true, woken: false, ..t } })
        } else {
            None
        },
        DriveStep::Resume => if t.at is Parked && t.resumed {
            Some(Driven { driver: Driver { at: BlockOn::Polling, resumed: false, ..t }, ..d })
        } else {
            None
        },
    }
}

/// What the steps lead to from the start, where they can be taken in this order.
pub open spec fn drive_after(steps: Seq<DriveStep>) -> Option<Driven>
    decreases steps.len(),
{
    if steps.len() == 0 {
        Some(driven())
    } else {
        match drive_after(steps.drop_last()) {
            Some(d) => drive_step(d, steps.last()),
            None => None,
        }
    }
}

/// A parked thread is let go on if and only if it was woken since it was last let go on: it misses
/// no wake-up, and polls again only where there was one.
pub proof fn law_parked_thread_follows_wakeups(steps: Seq<DriveStep>)
    requires
        drive_after(steps) is Some,
    ensures
        ({
            let d = drive_after(steps)->0;
            &&& d.signalled == d.driver.woken
            &&& d.driver.resumed ==> d.driver.at is Parked
            &&& d.driver.at is Parked && !d.driver.resumed ==> (drive_after(
                steps.push(DriveStep::Unpark),
            ) is Some) == d.driver.woken
        }),
    decreases steps.len(),
{
    if steps.len() > 0 {
        law_parked_thread_follows_wakeups(steps.drop_last());
    }
    assert(steps.push(DriveStep::Unpark).drop_last() == steps);
}

} // verus!
