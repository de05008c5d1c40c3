//! Process configuration: one entry per logical channel, each naming the
//! shared store it queues through and, optionally, a producer side (the
//! database channel to listen on) and a consumer side (the command to run and
//! the worker count). Immutable after construction; loading it from a file is
//! a front-end concern.

use vstd::prelude::*;

verus! {

/// The worker count used where a channel's configuration names none.
pub const DEFAULT_WORKERS: usize = 4;

/// The producer side of a channel: where notifications come from.
#[derive(Debug)]
pub struct ChannelProducerConfig {
    pub listen_channel: String,
    pub postgres_uri: String,
}

impl Clone for ChannelProducerConfig {
    fn clone(&self) -> (r: Self)
        ensures
            r == *self,
    {
        ChannelProducerConfig {
            listen_channel: self.listen_channel.clone(),
            postgres_uri: self.postgres_uri.clone(),
        }
    }
}

/// The consumer side of a channel: the command to run and how many workers
/// run it in parallel.
#[derive(Debug)]
pub struct ChannelConsumerConfig {
    pub workers: usize,
    pub command: String,
}

impl Clone for ChannelConsumerConfig {
    fn clone(&self) -> (r: Self)
        ensures
            r == *self,
    {
        ChannelConsumerConfig { workers: self.workers, command: self.command.clone() }
    }
}

/// The shared store a channel queues through.
#[derive(Debug)]
pub struct ChannelRedisConfig {
    pub uri: String,
}

impl Clone for ChannelRedisConfig {
    fn clone(&self) -> (r: Self)
        ensures
            r == *self,
    {
        ChannelRedisConfig { uri: self.uri.clone() }
    }
}

/// One logical channel: its name (also the store's set namespace), an
/// optional producer side, an optional consumer side, and its store.
#[derive(Debug)]
pub struct ChannelConfig {
    pub name: String,
    pub producer: Option<ChannelProducerConfig>,
    pub consumer: Option<ChannelConsumerConfig>,
    pub redis: ChannelRedisConfig,
}

impl Clone for ChannelConfig {
    fn clone(&self) -> (r: Self)
        ensures
            r == *self,
    {
        ChannelConfig {
            name: self.name.clone(),
            producer: match &self.producer {
                Some(p) => Some(p.clone()),
                None => None,
            },
            consumer: match &self.consumer {
                Some(c) => Some(c.clone()),
                None => None,
            },
            redis: self.redis.clone(),
        }
    }
}

/// The whole process configuration: every channel it serves.
#[derive(Debug)]
pub struct Config {
    pub channels: Vec<ChannelConfig>,
}

} // verus!
