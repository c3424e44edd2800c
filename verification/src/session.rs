//! Sessions: consecutive stretches of blocks of one fixed length.

use vstd::prelude::*;
use vstd::arithmetic::div_mod::{
    lemma_div_is_ordered, lemma_fundamental_div_mod, lemma_fundamental_div_mod_converse,
};

verus! {

/// The number of blocks in a session.
#[derive(Clone, Copy, Debug, PartialEq, Eq, Structural)]
pub struct SessionPeriod(pub u32);

/// The index of a session, counted from zero.
#[derive(Clone, Copy, Debug, PartialEq, Eq, Structural)]
pub struct SessionId(pub u32);

/// Where sessions begin and end.
#[derive(Clone, Copy, Debug, PartialEq, Eq, Structural)]
pub struct SessionBoundaryInfo {
    session_period: SessionPeriod,
}

/// The session that holds block `number`, for sessions of `period` blocks.
pub open spec fn session_of(number: int, period: int) -> int
    recommends
        period > 0,
{
    number / period
}

/// The first block of session `session`, without regard to the width of block numbers.
pub open spec fn first_block_of(session: int, period: int) -> int {
    session * period
}

/// The last block of session `session`, without regard to the width of block numbers.
pub open spec fn last_block_of(session: int, period: int) -> int {
    (session + 1) * period - 1
}

/// A block number cut down to what 32 bits can hold.
pub open spec fn clip(number: int) -> u32 {
    if number > u32::MAX {
        u32::MAX
    } else if number < 0 {
        0u32
    } else {
        number as u32
    }
}

impl SessionBoundaryInfo {
    /// The number of blocks in a session.
    pub closed spec fn period(&self) -> int {
        self.session_period.0 as int
    }

    /// Sessions have at least one block.
    pub open spec fn wf(&self) -> bool {
        self.period() > 0
    }

    /// The boundaries of sessions of `session_period` blocks.
    pub fn new(session_period: SessionPeriod) -> (info: Self)
        requires
            session_period.0 > 0,
        ensures
            info.wf(),
            info.period() == session_period.0,
    {
        SessionBoundaryInfo { session_period }
    }

    /// The length of a session in blocks.
    pub fn session_period(&self) -> (period: SessionPeriod)
        ensures
            period.0 == self.period(),
    {
        self.session_period
    }

    /// The session that the block at height `number` belongs to.
    pub fn session_id_from_block_num(&self, number: u32) -> (session: SessionId)
        requires
            self.wf(),
        ensures
            session.0 == session_of(number as int, self.period()),
    {
        SessionId(number / self.session_period.0)
    }

    /// The height of the first block of `session`, or the greatest height there
    /// is where the session begins beyond it.
    pub fn first_block_of_session(&self, session: SessionId) -> (number: u32)
        requires
            self.wf(),
        ensures
            number == clip(first_block_of(session.0 as int, self.period())),
    {
        proof {
            assert(0 <= session.0 as int * self.session_period.0 as int <= 0xffff_ffff
                * 0xffff_ffff) by (nonlinear_arith)
                requires
                    0 <= session.0 as int <= 0xffff_ffff,
                    0 <= self.session_period.0 as int <= 0xffff_ffff,
            ;
        }
        let first: u64 = session.0 as u64 * self.session_period.0 as u64;
        if first > u32::MAX as u64 {
            u32::MAX
        } else {
            first as u32
        }
    }

    /// The height of the last block of `session`, or the greatest height there
    /// is where the session ends beyond it.
    pub fn last_block_of_session(&self, session: SessionId) -> (number: u32)
        requires
            self.wf(),
        ensures
            number == clip(last_block_of(session.0 as int, self.period())),
    {
        proof {
            assert(1 <= (session.0 as int + 1) * self.session_period.0 as int <= 0x1_0000_0000
                * 0xffff_ffff) by (nonlinear_arith)
                requires
                    0 <= session.0 as int <= 0xffff_ffff,
                    1 <= self.session_period.0 as int <= 0xffff_ffff,
            ;
        }
        let last: u64 = (session.0 as u64 + 1) * self.session_period.0 as u64 - 1;
        if last > u32::MAX as u64 {
            u32::MAX
        } else {
            last as u32
        }
    }
}

/// Every block lies between the first and the last block of its own session.
pub proof fn lemma_block_within_its_session(number: u32, period: int)
    requires
        period > 0,
    ensures
        first_block_of(session_of(number as int, period), period) <= number,
        number <= last_block_of(session_of(number as int, period), period),
{
    let n = number as int;
    lemma_fundamental_div_mod(n, period);
    assert(n == period * (n / period) + n % period);
    assert(0 <= n % period < period);
    assert(period * (n / period) == (n / period) * period) by (nonlinear_arith);
    assert((n / period + 1) * period == (n / period) * period + period) by (nonlinear_arith);
}

/// A block that is not lower does not belong to an earlier session.
pub proof fn lemma_session_is_monotone(lower: u32, higher: u32, period: int)
    requires
        period > 0,
        lower <= higher,
    ensures
        session_of(lower as int, period) <= session_of(higher as int, period),
{
    lemma_div_is_ordered(lower as int, higher as int, period);
}

/// The last block of a session is in that session.
pub proof fn lemma_last_block_in_session(session: int, period: int)
    requires
        period > 0,
        session >= 0,
    ensures
        session_of(last_block_of(session, period), period) == session,
{
    assert((session + 1) * period - 1 == session * period + (period - 1)) by (nonlinear_arith);
    lemma_fundamental_div_mod_converse(last_block_of(session, period), period, session, period - 1);
}

} // verus!
