//! What a command sees of the connection that it came on.

use crate::dialer::{owner_of, Dialer};
use crate::supervisor::MetadataConnection;
use vstd::prelude::*;

verus! {

/// Calls `coarsetime::Instant::now`, which reads the clock of the machine
/// and stores what it read as the recent time. The result is in ticks;
/// nothing is said of it.
#[verifier::external_body]
fn clock_now() -> (ticks: u64) {
    coarsetime::Instant::now().as_ticks()
}

/// Calls `coarsetime::Instant::recent`, which gives the time that was
/// stored last. The result is in ticks; nothing is said of it.
#[verifier::external_body]
fn clock_recent() -> (ticks: u64) {
    coarsetime::Instant::recent().as_ticks()
}

/// The ticks of a duration of whole seconds and nanoseconds, as
/// `coarsetime` counts them.
pub uninterp spec fn coarse_ticks(secs: u64, nanos: u32) -> u64;

/// Calls `coarsetime::Duration::new` and reads the duration in ticks. The
/// result depends on the arguments alone; the contract only gives it its
/// name. More than a second of nanoseconds is left out: the product that
/// the call computes would not fit.
#[verifier::external_body]
pub(crate) fn duration_ticks(secs: u64, nanos: u32) -> (ticks: u64)
    requires
        nanos < 1_000_000_000,
    ensures
        ticks == coarse_ticks(secs, nanos),
{
    coarsetime::Duration::new(secs, nanos).as_ticks()
}

/// What a command sees of its connection for as long as the connection lasts.
#[derive(Debug)]
pub struct Context {
    dialer: Dialer,
    connection: MetadataConnection,
    now: bool,
}

impl Context {
    /// The routing table as the executor of the connection sees it.
    pub closed spec fn routing(&self) -> Dialer {
        self.dialer
    }

    /// The record of the connection as it was accepted.
    pub closed spec fn accepted(&self) -> MetadataConnection {
        self.connection
    }

    /// The clock has been read for this connection.
    pub closed spec fn clock_was_read(&self) -> bool {
        self.now
    }

    /// The context of a connection on the executor of `dialer`.
    pub fn new(dialer: Dialer, connection: MetadataConnection) -> (ctx: Context)
        ensures
            ctx.routing() == dialer,
            ctx.accepted() == connection,
            !ctx.clock_was_read(),
    {
        Context { dialer, connection, now: false }
    }

    /// The record of the connection as it was accepted.
    pub fn connection(&self) -> (connection: &MetadataConnection)
        ensures
            *connection == self.accepted(),
    {
        &self.connection
    }

    /// The routing table as the executor of the connection sees it.
    pub fn dialer(&self) -> (dialer: &Dialer)
        ensures
            *dialer == self.routing(),
    {
        &self.dialer
    }

    /// Tells whether the hash lies in the slot range of the executor.
    pub fn is_in_slot(&self, hash: u16) -> (inside: bool)
        ensures
            inside == self.routing().local().holds(hash),
    {
        self.dialer.is_in_slot(hash)
    }

    /// The part that owns the hash, if any does.
    pub fn slot_nb(&self, hash: u16) -> (part: Option<usize>)
        ensures
            match owner_of(self.routing().table(), hash) {
                Some(owner) => part == Some(owner as usize),
                None => part is None,
            },
    {
        self.dialer.slot_nb(hash)
    }

    /// The time, in ticks of the coarse clock. The first call reads the
    /// clock; later calls take the time that was read last on the machine.
    pub fn now(&mut self) -> (ticks: u64)
        ensures
            final(self).clock_was_read(),
            final(self).routing() == old(self).routing(),
            final(self).accepted() == old(self).accepted(),
    {
        if self.now {
            clock_recent()
        } else {
            self.now = true;
            clock_now()
        }
    }
}

} // verus!
