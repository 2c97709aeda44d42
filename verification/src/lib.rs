//! A watch-driven, incrementally synchronized in-memory replica of a
//! collection of remote cluster objects, with a query layer that joins
//! several replicas and renderers that turn query results into HTML
//! fragments.
//!
//! The crate is organized around the list-then-watch protocol:
//! [`store::Store`] caches the latest known version of each object;
//! [`reflector::Reflector`] decides, for every outcome the transport
//! reports, how the cache changes and what the driving loop must do
//! next; [`compose`] joins the pod cache with the node cache; and
//! [`html`] renders caches and join results as fragments.
//!
//! The driving loop itself — the network calls, the waiting, the
//! tasks — lives outside this crate and feeds every outcome back in
//! as a [`reflector::ReflectorInput`].

pub mod compose;
pub mod html;
pub mod obj;
pub mod reflector;
pub mod store;
