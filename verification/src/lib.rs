//! Availability watcher core: the rules that turn a scheduling site's
//! catalog and filter responses into per-appointment observations, and the
//! engine that compares each new snapshot with the retained one.

pub mod model;
pub mod text;
pub mod table;
pub mod engine;
pub mod site;
pub mod markup;
pub mod poller;
