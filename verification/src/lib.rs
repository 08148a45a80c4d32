//! The synchronisation core of a client for a container runtime.
//!
//! The library keeps local mirrors of the runtime's images, containers and pods, brings
//! them up to date from listings and from the runtime's event stream, links containers to
//! their images and pods whichever arrives first, and manages the store of configured
//! connections with the one client that is active. It makes no request and touches no
//! file: its user reaches the runtime and the disk, and hands the library what came back.
//!
//! - [`mirror`] is the mirror itself, for any kind of entity; [`image`], [`container`] and
//!   [`pod`] are its three kinds, [`entity`] and [`links`] what they are made of.
//! - [`wiring`] holds the rules that link the mirrors, [`client`] the client that owns
//!   them and decides what to ask of the runtime next.
//! - [`connection`] and [`connection_manager`] are the connections and their store.
//! - [`mirror_laws`] and [`client_laws`] state and prove what holds of every refresh and
//!   of every link.
//! - [`ordered_map`] is the insertion-ordered map underneath, over the key index of
//!   [`index`]; [`gateway`] is the handle of the runtime's API, [`random`] the source of
//!   new identities.
//! - [`view`] holds the decisions behind what an interface shows; [`text`], [`event`] and
//!   [`counting`] are small tools.
//!
//! Everything is proved but the few calls into other crates, which are marked as believed
//! where they stand: in [`index`], [`gateway`] and [`random`], and the comparison of two
//! string slices in [`text`].

pub mod client;
pub mod client_laws;
pub mod connection;
pub mod connection_manager;
pub mod container;
pub mod counting;
pub mod entity;
pub mod event;
pub mod gateway;
pub mod image;
pub mod index;
pub mod links;
pub mod mirror;
pub mod mirror_laws;
pub mod ordered_map;
pub mod pod;
pub mod random;
pub mod text;
pub mod view;
pub mod wiring;
