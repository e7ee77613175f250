//! A doorbell: a sensor whose state is pushed to remote clients, which play
//! a sound when it fires.

pub mod channel;
pub mod dispatcher;
pub mod protocol;
pub mod sensor;
pub mod supervisor;
