//! What the operations of the agent are for, over all of their inputs.
pub mod attaching;
pub mod configuring;
pub mod containers;
pub mod controls;
pub mod copying;
pub mod count;
pub mod deploying;
pub mod exchanging;
pub mod generated;
pub mod init;
pub mod limits;
pub mod mounting;
pub mod options;
pub mod readings;
pub mod sandboxes;
pub mod serving;
pub mod signalling;
pub mod starting;
pub mod words;
