//! Dispatchers: one per configured channel.
//!
//! A dispatcher owns its channel's configuration and decides which loops the
//! channel runs: a consumer loop only where a consumer side is configured, a
//! producer loop only where a producer side is. It also fixes the store's set
//! namespace: the three set names a channel queues through are derived from
//! the channel name alone.

use vstd::prelude::*;
use vstd::string::StringExecFns;

use crate::config::ChannelConfig;
use crate::config::Config;

verus! {

/// The dispatcher of one channel.
#[derive(Debug)]
pub struct Dispatcher {
    pub config: ChannelConfig,
}

/// All dispatchers of a process, one per configured channel, beside the
/// configuration they were built from.
#[derive(Debug)]
pub struct DispatcherPool<'a> {
    pub config: &'a Config,
    pub pool: Vec<Dispatcher>,
}

impl Dispatcher {
    /// A dispatcher owning a copy of the channel's configuration.
    pub fn from_config(config: &ChannelConfig) -> (d: Dispatcher)
        ensures
            d.config == *config,
    {
        Dispatcher { config: config.clone() }
    }

    /// Whether this channel runs a consumer loop: only where a consumer side
    /// is configured.
    pub fn wants_consumer(&self) -> (r: bool)
        ensures
            r == (self.config.consumer is Some),
    {
        self.config.consumer.is_some()
    }

    /// Whether this channel runs a producer loop: only where a producer side
    /// is configured.
    pub fn wants_producer(&self) -> (r: bool)
        ensures
            r == (self.config.producer is Some),
    {
        self.config.producer.is_some()
    }
}

impl<'a> DispatcherPool<'a> {
    /// One dispatcher per configured channel, in configuration order.
    pub fn from_config(config: &'a Config) -> (p: DispatcherPool<'a>)
        ensures
            p.config == config,
            p.pool@.len() == config.channels@.len(),
            forall|i: int|
                0 <= i < p.pool@.len() ==> #[trigger] p.pool@[i].config == config.channels@[i],
    {
        let mut pool: Vec<Dispatcher> = Vec::new();
        let mut i: usize = 0;
        while i < config.channels.len()
            invariant
                i <= config.channels@.len(),
                pool@.len() == i,
                forall|j: int|
                    0 <= j < i ==> #[trigger] pool@[j].config == config.channels@[j],
            decreases config.channels@.len() - i,
        {
            pool.push(Dispatcher::from_config(&config.channels[i]));
            i = i + 1;
        }
        DispatcherPool { config, pool }
    }
}

/// The store set name a channel queues through for one of its three sets:
/// `dispatcher:<channel>:<kind>`, with `kind` one of `pending_set`,
/// `processing_set` and `done_set`.
pub fn queue_set_name(channel: &String, kind: &str) -> (r: String)
    ensures
        r@ == "dispatcher:"@ + channel@ + ":"@ + kind@,
{
    let mut r: String = "dispatcher:".to_owned();
    r.append(channel.as_str());
    r.append(":");
    r.append(kind);
    r
}

} // verus!
