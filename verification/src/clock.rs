//! What the machine decides: the time, random tokens, and the signal that
//! tells workers to stop.

use vstd::prelude::*;
use crate::interface_manager::leases::Nanos;

verus! {

/// A point in time as the machine measures it.
#[verifier::external_type_specification]
#[verifier::external_body]
pub struct ExInstant(web_time::Instant);

/// The standard random number generator.
#[verifier::external_type_specification]
#[verifier::external_body]
pub struct ExStdRng(rand::rngs::StdRng);

/// The signal that tells the workers of an interface to stop: a queue of
/// waiting tasks that can be closed.
#[verifier::external_body]
pub struct Closer {
    pub queue: std::sync::Arc<maitake_sync::WaitQueue>,
}

/// The longest time that can be measured, in nanoseconds.
pub const LONGEST_TIME: u128 = 18446744073709551615999999999;

/// `web_time::Instant::now`: the current time. Nothing is promised of it.
#[verifier::external_body]
fn instant_now() -> web_time::Instant {
    web_time::Instant::now()
}

/// `web_time::Instant::elapsed`: how long ago `start` was, in nanoseconds. A
/// measured time has a whole number of seconds that fits in 64 bits.
#[verifier::external_body]
fn nanos_since(start: &web_time::Instant) -> (r: u128)
    ensures
        r <= LONGEST_TIME,
{
    start.elapsed().as_nanos()
}

/// `RngCore::next_u64` of the standard generator, on a copy of it: the generator
/// afterwards, and the number. Nothing is promised of either.
#[verifier::external_body]
fn std_rng_next(rng: &rand::rngs::StdRng) -> (rand::rngs::StdRng, u64) {
    let mut next = rng.clone();
    let number = rand_core::RngCore::next_u64(&mut next);
    (next, number)
}

/// `SeedableRng::try_from_os_rng`: a generator seeded by the operating system,
/// or none where the system has no entropy to give. Nothing is promised of which
/// it is, nor of what it generates.
#[verifier::external_body]
fn std_rng_try_from_os() -> Option<rand::rngs::StdRng> {
    rand_core::SeedableRng::try_from_os_rng().ok()
}

/// Whether `rng` is what the operating system gave when it was asked to seed a
/// generator.
pub closed spec fn os_seeded(rng: Option<rand::rngs::StdRng>) -> bool {
    call_ensures(std_rng_try_from_os, (), rng)
}

/// A generator seeded by the operating system, if it has entropy to give.
pub(crate) fn std_rng_from_os() -> (rng: Option<rand::rngs::StdRng>)
    ensures
        os_seeded(rng),
{
    std_rng_try_from_os()
}

impl Closer {
    /// `WaitQueue::close`: everyone who waits on the queue, now or later, is
    /// told that it is closed. Nothing is returned.
    #[verifier::external_body]
    fn close_queue(&self) {
        self.queue.close()
    }

    /// The queue was closed: the workers were told to stop.
    pub closed spec fn told_to_stop(self) -> bool {
        call_ensures(Closer::close_queue, (&self,), ())
    }

    /// Tells the workers to stop.
    pub fn close(&self)
        ensures
            self.told_to_stop(),
    {
        self.close_queue()
    }
}

/// A clock that starts at zero.
pub struct Clock {
    start: web_time::Instant,
}

impl Clock {
    /// Whether the clock starts at a time that the machine gave as the current
    /// one.
    pub closed spec fn started(self) -> bool {
        call_ensures(instant_now, (), self.start)
    }

    /// A clock that starts now.
    pub fn new() -> (r: Clock)
        ensures
            r.started(),
    {
        Clock { start: instant_now() }
    }

    /// Whether `now` is a time that the machine measured since the clock was
    /// started.
    pub closed spec fn shows(self, now: Nanos) -> bool {
        call_ensures(nanos_since, (&self.start,), now)
    }

    /// The time since the clock was started.
    pub fn now(&self) -> (r: Nanos)
        ensures
            self.shows(r),
            r <= LONGEST_TIME,
    {
        nanos_since(&self.start)
    }
}

/// Where refresh tokens come from.
pub trait TokenSource: Sized {
    /// Whether a source that was `before` may give `token` and be `after`.
    spec fn drew(before: Self, after: Self, token: u64) -> bool;

    /// The next token. Which one it is, is for the source to say.
    fn next_u64(&mut self) -> (token: u64)
        ensures
            Self::drew(*old(self), *final(self), token),
    ;
}

impl TokenSource for rand::rngs::StdRng {
    /// The token, and what became of the generator, are what it gave.
    closed spec fn drew(before: Self, after: Self, token: u64) -> bool {
        call_ensures(std_rng_next, (&before,), (after, token))
    }

    fn next_u64(&mut self) -> (token: u64) {
        let (next, token) = std_rng_next(self);
        *self = next;
        token
    }
}

/// `token` was drawn from the source if it was needed, and nothing was if not.
pub open spec fn drawn_if<R: TokenSource>(before: R, after: R, token: u64, needed: bool) -> bool {
    if needed {
        R::drew(before, after, token)
    } else {
        after == before
    }
}

/// A token that is needed is the next one of its source. A source that nothing is needed of
/// stays as it is.
pub proof fn tokens_are_drawn_when_needed<R: TokenSource>(
    before: R,
    after: R,
    token: u64,
    needed: bool,
)
    requires
        drawn_if(before, after, token, needed),
    ensures
        needed ==> R::drew(before, after, token),
        !needed ==> after == before,
{
}

} // verus!
