//! The block producer: which heights go on the queue, and when.

use crate::config::ParserConfig;
use vstd::prelude::*;

verus! {

/// Capacity of the queue of heights.
pub const CHANNEL_SIZE: usize = 100;

/// Seconds between two looks at the chain's latest height.
pub const POLL_SECONDS: u64 = 5;

/// The heights from `start` up to but not including `end`, ascending.
pub open spec fn heights(start: u64, end: u64) -> Seq<u64> {
    if start < end {
        Seq::new((end - start) as nat, |i: int| (start + i) as u64)
    } else {
        Seq::empty()
    }
}

/// A run of consecutive heights, handed out one by one.
pub struct BlockStream {
    next: u64,
    end: u64,
}

impl View for BlockStream {
    type V = Seq<u64>;

    /// The heights still to come.
    closed spec fn view(&self) -> Seq<u64> {
        heights(self.next, self.end)
    }
}

impl BlockStream {
    /// The next height, if one is left.
    pub fn next(&mut self) -> (height: Option<u64>)
        ensures
            match height {
                Some(h) => old(self)@.len() > 0 && h == old(self)@[0] && final(self)@ == old(
                    self,
                )@.drop_first(),
                None => old(self)@.len() == 0 && final(self)@ == old(self)@,
            },
    {
        if self.next < self.end {
            let h = self.next;
            self.next = self.next + 1;
            assert(self@ =~= old(self)@.drop_first());
            Some(h)
        } else {
            None
        }
    }
}

/// The heights from `start_height` up to but not including `end_height`.
pub fn blocks_stream(start_height: u64, end_height: u64) -> (stream: BlockStream)
    ensures
        stream@ == heights(start_height, end_height),
{
    BlockStream { next: start_height, end: end_height }
}

/// The next height to put on the queue: the stream's next one, unless the
/// stream is through or shutdown was asked for.
pub fn enqueue_blocks(stream: &mut BlockStream, shutdown: bool) -> (height: Option<u64>)
    ensures
        match height {
            Some(h) => !shutdown && old(stream)@.len() > 0 && h == old(stream)@[0]
                && final(stream)@ == old(stream)@.drop_first(),
            None => shutdown || old(stream)@.len() == 0,
        },
{
    match stream.next() {
        Some(h) => if shutdown {
            None
        } else {
            Some(h)
        },
        None => None,
    }
}

/// The tail of the chain: the height from which new blocks are still to be
/// put on the queue.
pub struct TailPoller {
    start_height: u64,
}

impl TailPoller {
    /// The height from which new blocks are still to be put on the queue.
    pub closed spec fn view(&self) -> u64 {
        self.start_height
    }

    /// A poller that starts at the height seen at startup.
    pub fn new(current_height: u64) -> (p: Self)
        ensures
            p.view() == current_height,
    {
        TailPoller { start_height: current_height }
    }

    /// Takes what the node said of its latest height. On an answer, the
    /// heights from where the poller stands up to but not including the
    /// answer go on the queue, and the poller stands at the answer. When the
    /// node failed to answer nothing goes on the queue and the poller stays.
    /// Either way the next look follows after `POLL_SECONDS`.
    pub fn enqueue_new_blocks<E>(&mut self, latest: &Result<u64, E>) -> (stream: Option<BlockStream>)
        ensures
            match latest {
                Ok(new_height) => stream is Some && stream->0@ == heights(
                    old(self).view(),
                    *new_height,
                ) && final(self).view() == *new_height,
                Err(_) => stream is None && final(self).view() == old(self).view(),
            },
    {
        match latest {
            Ok(new_height) => {
                let stream = blocks_stream(self.start_height, *new_height);
                self.start_height = *new_height;
                Some(stream)
            },
            Err(_) => None,
        }
    }
}

/// What to start: the backfill, the tail and the workers.
pub struct StartPlan {
    /// The heights to backfill, when old blocks are to be parsed.
    pub backfill: Option<BlockStream>,
    /// The poller of new heights, when new blocks are to be listened for.
    pub tail: Option<TailPoller>,
    /// The number of workers.
    pub workers: usize,
}

/// What to start, from the configuration and the chain's height at
/// startup: the backfill runs from the configured start height up to but
/// not including the chain's height, the tail takes over from there.
pub fn start(parsing: &ParserConfig, current_height: u64) -> (plan: StartPlan)
    ensures
        match plan.backfill {
            Some(stream) => parsing.parse_old_blocks && stream@ == heights(
                parsing.start_height,
                current_height,
            ),
            None => !parsing.parse_old_blocks,
        },
        match plan.tail {
            Some(poller) => parsing.listen_new_blocks && poller.view() == current_height,
            None => !parsing.listen_new_blocks,
        },
        plan.workers == parsing.spec_worker_count(),
{
    StartPlan {
        backfill: if parsing.parse_old_blocks {
            Some(blocks_stream(parsing.start_height, current_height))
        } else {
            None
        },
        tail: if parsing.listen_new_blocks {
            Some(TailPoller::new(current_height))
        } else {
            None
        },
        workers: parsing.worker_count(),
    }
}

} // verus!
