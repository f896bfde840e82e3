//! Runtime configuration: where the bus and the store are, and which subjects
//! carry each event kind. Loading it from the environment happens outside the
//! library; the values themselves are plain strings.

use vstd::prelude::*;

verus! {

/// Connection and subscription settings for one running process.
#[derive(Debug)]
pub struct Config {
    pub nats_url: String,
    pub nats_user: String,
    pub nats_password: String,
    pub nats_market_order_subject: String,
    pub nats_market_history_subject: String,
    pub database_url: String,
}

impl Clone for Config {
    fn clone(&self) -> (res: Self)
        ensures
            res == *self,
    {
        Config {
            nats_url: self.nats_url.clone(),
            nats_user: self.nats_user.clone(),
            nats_password: self.nats_password.clone(),
            nats_market_order_subject: self.nats_market_order_subject.clone(),
            nats_market_history_subject: self.nats_market_history_subject.clone(),
            database_url: self.database_url.clone(),
        }
    }
}

} // verus!
