//! The server-connection pool: idle connections reused oldest first, and a
//! bound on the connections open at once.

use vstd::prelude::*;
use std::collections::VecDeque;
use crate::bouncer::config::PoolMode;
use crate::bouncer::startup::{startup_database, startup_user, StartupMessage};

verus! {

/// The `(user, database)` a client session pools under.
#[derive(Debug, Clone)]
pub struct PoolKey {
    pub user: String,
    pub database: String,
}

impl PoolKey {
    /// The key of a client's startup: its user and database.
    pub fn from_startup(startup: &StartupMessage) -> (k: Self)
        ensures
            k.user@ == startup_user(startup.params@),
            k.database@ == startup_database(startup.params@),
    {
        PoolKey {
            user: String::from_str(startup.user()),
            database: String::from_str(startup.database()),
        }
    }

    /// The name of the key in statistics: `user/database`.
    pub fn id(&self) -> (s: String)
        ensures
            s@ == self.user@ + "/"@ + self.database@,
    {
        let mut s = self.user.clone();
        s.append("/");
        s.append(self.database.as_str());
        s
    }
}

/// A server connection and whether it is inside a transaction.
pub struct BackendConn<S> {
    pub stream: S,
    pub in_transaction: bool,
}

/// What a client asking for a server connection gets.
pub enum AcquireStep<S> {
    /// The oldest idle connection, marked outside any transaction.
    Reuse(BackendConn<S>),
    /// A slot for a new connection, already counted as open.
    Connect,
    /// Nothing: wait until a connection is released, then ask again.
    Wait,
}

/// Idle server connections, oldest first, and the number of open ones.
pub struct PoolState<S> {
    idle: VecDeque<BackendConn<S>>,
    active: usize,
    pool_size: usize,
}

/// The state after a client asks for a connection: the step it gets, the
/// idle list and the open count.
pub open spec fn acquire_spec<S>(idle: Seq<BackendConn<S>>, active: nat, pool_size: nat) -> (
    AcquireStep<S>,
    Seq<BackendConn<S>>,
    nat,
) {
    if idle.len() > 0 {
        (
            AcquireStep::Reuse(BackendConn { stream: idle[0].stream, in_transaction: false }),
            idle.drop_first(),
            active,
        )
    } else if active < pool_size {
        (AcquireStep::Connect, idle, active + 1)
    } else {
        (AcquireStep::Wait, idle, active)
    }
}

impl<S> PoolState<S> {
    #[verifier::type_invariant]
    spec fn bounded(self) -> bool {
        self.active <= self.pool_size
    }

    /// Idle connections, oldest first.
    pub closed spec fn idle(&self) -> Seq<BackendConn<S>> {
        self.idle@
    }

    /// Number of open server connections.
    pub closed spec fn active(&self) -> nat {
        self.active as nat
    }

    /// The most connections open at once.
    pub closed spec fn pool_size(&self) -> nat {
        self.pool_size as nat
    }

    /// No connection yet, at most `pool_size` ever open at once.
    pub fn new(pool_size: usize) -> (p: Self)
        ensures
            p.idle() == Seq::<BackendConn<S>>::empty(),
            p.active() == 0,
            p.pool_size() == pool_size,
    {
        PoolState { idle: VecDeque::new(), active: 0, pool_size }
    }

    /// The open count never exceeds the pool size.
    pub fn active_count(&self) -> (n: usize)
        ensures
            n == self.active(),
            self.active() <= self.pool_size(),
    {
        proof {
            use_type_invariant(self);
        }
        self.active
    }

    /// Number of idle connections.
    pub fn idle_count(&self) -> (n: usize)
        ensures
            n == self.idle().len(),
    {
        self.idle.len()
    }

    /// A client asks for a server connection: the oldest idle one if any,
    /// else a new one while fewer than `pool_size` are open, else it waits.
    pub fn acquire_step(&mut self) -> (step: AcquireStep<S>)
        ensures
            (step, final(self).idle(), final(self).active()) == acquire_spec(
                old(self).idle(),
                old(self).active(),
                old(self).pool_size(),
            ),
            final(self).pool_size() == old(self).pool_size(),
            final(self).active() <= final(self).pool_size(),
    {
        proof {
            use_type_invariant(&*self);
        }
        let mut idle = VecDeque::new();
        std::mem::swap(&mut idle, &mut self.idle);
        let first = idle.pop_front();
        self.idle = idle;
        match first {
            Some(conn) => {
                let reused = BackendConn { stream: conn.stream, in_transaction: false };
                proof {
                    assert(self.idle@ =~= old(self).idle@.drop_first());
                }
                AcquireStep::Reuse(reused)
            },
            None => {
                if self.active < self.pool_size {
                    self.active = self.active + 1;
                    AcquireStep::Connect
                } else {
                    AcquireStep::Wait
                }
            },
        }
    }

    /// Puts a reset connection at the back of the idle list.
    pub fn return_idle(&mut self, conn: BackendConn<S>)
        ensures
            final(self).idle() == old(self).idle().push(conn),
            final(self).active() == old(self).active(),
            final(self).pool_size() == old(self).pool_size(),
    {
        proof {
            use_type_invariant(&*self);
        }
        let mut idle = VecDeque::new();
        std::mem::swap(&mut idle, &mut self.idle);
        idle.push_back(conn);
        self.idle = idle;
    }

    /// Forgets a closed connection: one fewer is open (never below zero).
    pub fn drop_server(&mut self)
        ensures
            final(self).idle() == old(self).idle(),
            final(self).active() == (if old(self).active() > 0 {
                old(self).active() - 1
            } else {
                0
            }),
            final(self).pool_size() == old(self).pool_size(),
    {
        proof {
            use_type_invariant(&*self);
        }
        self.active = self.active.saturating_sub(1);
    }
}

/// Whether a released connection is kept for reuse: never when the caller
/// forces it closed; in session mode never; in transaction mode only outside
/// a transaction; in statement mode always.
pub open spec fn keeps_connection(mode: PoolMode, in_transaction: bool, force_close: bool) -> bool {
    !force_close && match mode {
        PoolMode::Session => false,
        PoolMode::Transaction => !in_transaction,
        PoolMode::Statement => true,
    }
}

/// Whether a released connection goes back to the idle list (after a reset).
pub fn release_keeps(mode: PoolMode, in_transaction: bool, force_close: bool) -> (b: bool)
    ensures
        b == keeps_connection(mode, in_transaction, force_close),
{
    !force_close && match mode {
        PoolMode::Session => false,
        PoolMode::Transaction => !in_transaction,
        PoolMode::Statement => true,
    }
}

/// However clients ask for and give back connections, no more than
/// `pool_size` are open at once.
pub proof fn lemma_acquire_bounded<S>(idle: Seq<BackendConn<S>>, active: nat, pool_size: nat)
    requires
        active <= pool_size,
    ensures
        acquire_spec(idle, active, pool_size).2 <= pool_size,
{
}

/// Idle connections come back oldest first: after a connection is returned
/// to an empty idle list, the next client gets that connection (marked
/// outside any transaction) and no new one is opened.
pub proof fn lemma_returned_connection_reused<S>(conn: BackendConn<S>, active: nat, pool_size: nat)
    ensures
        acquire_spec(Seq::<BackendConn<S>>::empty().push(conn), active, pool_size) == (
            AcquireStep::Reuse(BackendConn { stream: conn.stream, in_transaction: false }),
            Seq::<BackendConn<S>>::empty(),
            active,
        ),
{
    assert(Seq::<BackendConn<S>>::empty().push(conn).drop_first() =~= Seq::<BackendConn<S>>::empty());
}

/// A client only waits when no connection is idle and the pool is full.
pub proof fn lemma_wait_only_when_full<S>(idle: Seq<BackendConn<S>>, active: nat, pool_size: nat)
    ensures
        acquire_spec(idle, active, pool_size).0 is Wait <==> (idle.len() == 0 && active
            >= pool_size),
{
}

/// Which released connections are kept, by pool mode: a forced close
/// never keeps one; session mode never does; transaction mode keeps exactly
/// the connections outside a transaction; statement mode keeps every one.
pub proof fn lemma_release_keeps_by_mode(mode: PoolMode, in_transaction: bool, force_close: bool)
    ensures
        force_close ==> !keeps_connection(mode, in_transaction, force_close),
        mode == PoolMode::Session ==> !keeps_connection(mode, in_transaction, force_close),
        mode == PoolMode::Statement ==> (keeps_connection(mode, in_transaction, force_close)
            <==> !force_close),
        mode == PoolMode::Transaction ==> (keeps_connection(mode, in_transaction, force_close)
            <==> (!force_close && !in_transaction)),
        keeps_connection(mode, in_transaction, force_close) == (!force_close && (mode
            == PoolMode::Statement || (mode == PoolMode::Transaction && !in_transaction))),
{
}

} // verus!
