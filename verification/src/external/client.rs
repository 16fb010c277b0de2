use crate::account::Entry;
use crate::account::Id;
use crate::account::Operation;
use crate::commit::Payload;
use vstd::prelude::*;

verus! {

/// The load-generating client. It holds no state of its own: a run leaves
/// nothing behind but the traffic it produced.
#[derive(Clone, Copy, Debug, PartialEq, Eq, Structural)]
pub struct Client {}

/// Why a client run ends early.
#[derive(Clone, Copy, Debug, PartialEq, Eq, Structural)]
pub enum ClientError {
    /// The rendezvous service could not be used.
    Fail,
}

/// Where a broker listens.
#[derive(Clone, Copy, Debug, PartialEq, Eq, Structural)]
pub struct Address {
    pub ip: u32,
    pub port: u16,
}

/// What the rendezvous service says when a shard cannot be had.
#[derive(Clone, Copy, Debug, PartialEq, Eq, Structural)]
pub enum ShardFailure {
    /// Not every member of the shard has published its card yet.
    ShardIncomplete,
    /// Anything else.
    Other,
}

/// What to do after a failed attempt to get a shard.
#[derive(Clone, Copy, Debug, PartialEq, Eq, Structural)]
pub enum ShardRetry {
    /// Ask again after so many milliseconds.
    After(u64),
    GiveUp(ClientError),
}

/// The first address whose ip is `preferred`, if there is one.
pub open spec fn first_at(addresses: Seq<Address>, preferred: u32) -> Option<Address>
    decreases addresses.len(),
{
    if addresses.len() == 0 {
        None
    } else if addresses.first().ip == preferred {
        Some(addresses.first())
    } else {
        first_at(addresses.drop_first(), preferred)
    }
}

impl Client {
    /// Milliseconds to wait before asking again for an incomplete shard.
    pub const SHARD_RETRY_MILLISECONDS: u64 = 500;

    /// The broker to talk to: the first one at the preferred ip if one is
    /// preferred and found, and the first one of all otherwise.
    pub fn select_address(possible: &Vec<Address>, preferred: Option<u32>) -> (address: Address)
        requires
            possible@.len() > 0,
        ensures
            address == match preferred {
                Some(ip) => match first_at(possible@, ip) {
                    Some(found) => found,
                    None => possible@[0],
                },
                None => possible@[0],
            },
    {
        match preferred {
            Some(ip) => {
                let mut index: usize = 0;
                assert(possible@.skip(0) == possible@);
                while index < possible.len()
                    invariant
                        preferred == Some(ip),
                        index <= possible@.len(),
                        first_at(possible@, ip) == first_at(possible@.skip(index as int), ip),
                    decreases possible@.len() - index,
                {
                    proof {
                        let rest = possible@.skip(index as int);
                        assert(rest.len() > 0);
                        assert(rest.first() == possible@[index as int]);
                        assert(rest.drop_first() == possible@.skip(index + 1));
                    }
                    if possible[index].ip == ip {
                        return possible[index];
                    }
                    index += 1;
                }
                assert(possible@.skip(index as int).len() == 0);
                possible[0]
            },
            None => possible[0],
        }
    }

    /// An incomplete shard is asked for again after half a second; any
    /// other failure ends the run.
    pub fn shard_retry(failure: ShardFailure) -> (retry: ShardRetry)
        ensures
            retry == match failure {
                ShardFailure::ShardIncomplete => ShardRetry::After(500),
                ShardFailure::Other => ShardRetry::GiveUp(ClientError::Fail),
            },
    {
        match failure {
            ShardFailure::ShardIncomplete => ShardRetry::After(Self::SHARD_RETRY_MILLISECONDS),
            ShardFailure::Other => ShardRetry::GiveUp(ClientError::Fail),
        }
    }

    /// Milliseconds between two batches, so that each of the
    /// `batch_size` clients of a batch sends `individual_rate` operations
    /// a second.
    pub fn send_period(batch_size: u64, individual_rate: u64) -> (period: u64)
        requires
            individual_rate > 0,
            1000 * batch_size <= u64::MAX,
        ensures
            period == (1000 * batch_size) / (individual_rate as int),
    {
        (1000 * batch_size) / individual_rate
    }

    /// Whether the clients of a mini-batch sign individually: those of the
    /// first `percentage` hundredths of the mini-batches do.
    pub fn signs_individually(number: u64, mini_batches: u64, percentage: u64) -> (individually:
        bool)
        requires
            mini_batches > 0,
            number * 100 <= u64::MAX,
        ensures
            individually == ((number * 100) / (mini_batches as int) < percentage),
    {
        number * 100 / mini_batches < percentage
    }

    /// The payloads that the clients `ids` prepare at round `height`: each
    /// withdraws nothing to itself, at the slot after `height`.
    pub fn payloads(height: u64, ids: &Vec<Id>) -> (payloads: Vec<Payload>)
        requires
            height < u64::MAX,
        ensures
            payloads@.len() == ids@.len(),
            forall|i: int|
                0 <= i < ids@.len() ==> #[trigger] payloads@[i] == (Payload {
                    entry: Entry { id: ids@[i], height: (height + 1) as u64 },
                    operation: Operation::Withdraw { amount: 0, recipient: ids@[i], slot: height },
                }),
    {
        let mut payloads: Vec<Payload> = Vec::new();
        let mut index: usize = 0;
        while index < ids.len()
            invariant
                height < u64::MAX,
                index <= ids@.len(),
                payloads@.len() == index,
                forall|i: int|
                    0 <= i < index ==> #[trigger] payloads@[i] == (Payload {
                        entry: Entry { id: ids@[i], height: (height + 1) as u64 },
                        operation: Operation::Withdraw {
                            amount: 0,
                            recipient: ids@[i],
                            slot: height,
                        },
                    }),
            decreases ids@.len() - index,
        {
            let id = ids[index];
            payloads.push(
                Payload::new(Entry { id, height: height + 1 }, Operation::withdraw(id, height, 0)),
            );
            index += 1;
        }
        payloads
    }
}

} // verus!
