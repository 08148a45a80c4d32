//! A connection: a named endpoint of a container runtime, as the user configured it.

use crate::text::{starts_with, text};
use vstd::prelude::*;

verus! {

/// What is stored of a connection, under its UUID.
pub struct ConnectionInfo {
    pub name: String,
    pub url: String,
    /// The colour that marks the connection in the interface.
    pub rgb: Option<String>,
}

/// One configured connection.
pub struct Connection {
    uuid: String,
    name: String,
    url: String,
    rgb: Option<String>,
    connecting: bool,
}

/// The mathematical value of a [`Connection`].
pub ghost struct ConnectionView {
    pub uuid: Seq<char>,
    pub name: Seq<char>,
    pub url: Seq<char>,
    pub rgb: Option<Seq<char>>,
    pub connecting: bool,
}

impl View for Connection {
    type V = ConnectionView;

    closed spec fn view(&self) -> ConnectionView {
        ConnectionView {
            uuid: self.uuid@,
            name: self.name@,
            url: self.url@,
            rgb: text(self.rgb),
            connecting: self.connecting,
        }
    }
}

/// Whether the address is that of a socket on this machine.
pub open spec fn is_local_url(url: Seq<char>) -> bool {
    "unix"@.is_prefix_of(url)
}

impl Connection {
    /// A connection that is not connecting.
    pub fn new(uuid: String, name: String, url: String, rgb: Option<String>) -> (connection: Self)
        ensures
            connection@ == (ConnectionView {
                uuid: uuid@,
                name: name@,
                url: url@,
                rgb: text(rgb),
                connecting: false,
            }),
    {
        Connection { uuid, name, url, rgb, connecting: false }
    }

    /// The connection that was stored under `uuid`.
    pub fn from_connection_info(uuid: String, info: ConnectionInfo) -> (connection: Self)
        ensures
            connection@ == (ConnectionView {
                uuid: uuid@,
                name: info.name@,
                url: info.url@,
                rgb: text(info.rgb),
                connecting: false,
            }),
    {
        Connection { uuid, name: info.name, url: info.url, rgb: info.rgb, connecting: false }
    }

    /// What is to be stored of the connection.
    pub fn info(&self) -> (info: ConnectionInfo)
        ensures
            info.name@ == self@.name,
            info.url@ == self@.url,
            text(info.rgb) == self@.rgb,
    {
        ConnectionInfo {
            name: self.name.clone(),
            url: self.url.clone(),
            rgb: match &self.rgb {
                Some(rgb) => Some(rgb.clone()),
                None => None,
            },
        }
    }

    /// A copy of the connection.
    pub fn duplicate(&self) -> (copy: Self)
        ensures
            copy@ == self@,
    {
        Connection {
            uuid: self.uuid.clone(),
            name: self.name.clone(),
            url: self.url.clone(),
            rgb: match &self.rgb {
                Some(rgb) => Some(rgb.clone()),
                None => None,
            },
            connecting: self.connecting,
        }
    }

    /// The identity of the connection, which never changes.
    pub fn uuid(&self) -> (uuid: &String)
        ensures
            uuid@ == self@.uuid,
    {
        &self.uuid
    }

    /// The name under which the user knows the connection.
    pub fn name(&self) -> (name: &String)
        ensures
            name@ == self@.name,
    {
        &self.name
    }

    /// The address of the endpoint.
    pub fn url(&self) -> (url: &String)
        ensures
            url@ == self@.url,
    {
        &self.url
    }

    /// The colour that marks the connection in the interface.
    pub fn rgb(&self) -> (rgb: &Option<String>)
        ensures
            text(*rgb) == self@.rgb,
    {
        &self.rgb
    }

    /// Whether an attempt to reach the endpoint is under way.
    pub fn is_connecting(&self) -> (connecting: bool)
        ensures
            connecting == self@.connecting,
    {
        self.connecting
    }

    /// Records whether an attempt to reach the endpoint is under way. Tells whether that
    /// is news.
    pub fn set_connecting(&mut self, value: bool) -> (changed: bool)
        ensures
            final(self)@ == (ConnectionView { connecting: value, ..old(self)@ }),
            changed == (old(self)@.connecting != value),
    {
        let changed = self.connecting != value;
        self.connecting = value;
        changed
    }

    /// Whether the endpoint is a socket on this machine.
    pub fn is_local(&self) -> (local: bool)
        ensures
            local == is_local_url(self@.url),
    {
        starts_with(self.url.as_str(), "unix")
    }
}

} // verus!
