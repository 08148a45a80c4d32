//! The connection manager: the ordered store of configured connections, and the one
//! client that is active.
//!
//! The manager neither reaches for an endpoint nor touches the disk. Connecting is done in
//! two steps: the manager first says whether the attempt may go ahead, and later takes in
//! whether the endpoint answered. Only an endpoint that answered changes the store and
//! the active client; together, or not at all.

use crate::client::Client;
use crate::connection::{Connection, ConnectionInfo, ConnectionView};
use crate::gateway::{gateway_accepts, gateway_error_text};
use crate::entity::views;
use crate::ordered_map::OrderedMap;
use crate::random::random_uuid;
use crate::text::{str_eq, text};
use vstd::prelude::*;
use vstd::string::StringExecFns;

verus! {

/// Why the manager refused.
pub enum ManagerError {
    /// A connection of this name exists already.
    AlreadyExists { name: String },
    /// The store holds no connection with the UUID asked for.
    NotFound,
    /// No handle can be made for the connection's address.
    Gateway(podman_api::Error),
}

impl ManagerError {
    /// The refusal in words. For an address without a handle the words are those of the
    /// crate that makes handles.
    pub fn message(&self) -> (message: String)
        ensures
            match *self {
                ManagerError::AlreadyExists { name } => message@ == "Connection '"@ + name@
                    + "' already exists."@,
                ManagerError::NotFound => message@ == "connection not found"@,
                ManagerError::Gateway(_) => true,
            },
    {
        match self {
            ManagerError::AlreadyExists { name } => String::from_str("Connection '").concat(
                name.as_str(),
            ).concat("' already exists."),
            ManagerError::NotFound => String::from_str("connection not found"),
            ManagerError::Gateway(error) => gateway_error_text(error),
        }
    }
}

/// Where a connection stands in the store after it was put there.
#[derive(Clone, Copy, Debug, PartialEq, Eq, Structural)]
pub struct Placement {
    pub position: usize,
    /// Whether the store already held a connection under the same UUID, which this one
    /// replaced.
    pub replaced: bool,
}

/// What the removal of a connection did.
#[derive(Clone, Copy, Debug, PartialEq, Eq, Structural)]
pub struct Removal {
    /// The position that the connection had.
    pub position: usize,
    /// Whether the active client belonged to the connection and is gone with it.
    pub client_cleared: bool,
}

/// What is to be done to make a stored connection the active one.
pub enum Selection {
    /// Nothing: the active client belongs to this connection already.
    Active,
    /// The endpoint is to be reached through this new client; the manager is then to be
    /// handed the client and told whether the endpoint answered.
    Connect(Client),
}

/// What a setup did.
pub struct Setup {
    /// The number of connections before the stored ones were taken in.
    pub previous_len: usize,
    /// The number of connections now.
    pub len: usize,
    /// What is to be done to restore the connection used last: nothing where the store
    /// is empty; a refusal where the store does not hold that connection.
    pub selection: Result<Option<Selection>, ManagerError>,
}

/// The UUIDs of the connections, in order.
pub open spec fn uuids(connections: Seq<ConnectionView>) -> Seq<Seq<char>> {
    Seq::new(connections.len(), |i: int| connections[i].uuid)
}

/// Whether one of the connections has the given name.
pub open spec fn name_taken(connections: Seq<ConnectionView>, name: Seq<char>) -> bool {
    exists|i: int| 0 <= i < connections.len() && (#[trigger] connections[i]).name == name
}

/// Whether one of the connections leads to a socket on this machine.
pub open spec fn any_local(connections: Seq<ConnectionView>) -> bool {
    exists|i: int|
        0 <= i < connections.len() && crate::connection::is_local_url(
            (#[trigger] connections[i]).url,
        )
}

/// Whether an attempt to reach one of the connections is under way.
pub open spec fn any_connecting(connections: Seq<ConnectionView>) -> bool {
    exists|i: int| 0 <= i < connections.len() && (#[trigger] connections[i]).connecting
}

/// The store after the connection has been put into it: in the place of the connection
/// with the same UUID if there is one, else at the end.
pub open spec fn placed(connections: Seq<ConnectionView>, connection: ConnectionView) -> Seq<
    ConnectionView,
> {
    if uuids(connections).contains(connection.uuid) {
        connections.update(uuids(connections).index_of(connection.uuid), connection)
    } else {
        connections.push(connection)
    }
}

/// The connection that was stored as `entry`.
pub open spec fn stored_connection(entry: (String, ConnectionInfo)) -> ConnectionView {
    ConnectionView {
        uuid: entry.0@,
        name: entry.1.name@,
        url: entry.1.url@,
        rgb: text(entry.1.rgb),
        connecting: false,
    }
}

/// The store after the stored connections have been put into it, first to last.
pub open spec fn restored(
    connections: Seq<ConnectionView>,
    stored: Seq<(String, ConnectionInfo)>,
) -> Seq<ConnectionView>
    decreases stored.len(),
{
    if stored.len() == 0 {
        connections
    } else {
        placed(restored(connections, stored.drop_last()), stored_connection(stored.last()))
    }
}

/// What was written to disk is what is read back: stored connections with different UUIDs,
/// put into an empty store, stand there in the order in which they were stored.
pub proof fn lemma_restored_as_stored(stored: Seq<(String, ConnectionInfo)>)
    requires
        forall|i: int, j: int|
            0 <= i < j < stored.len() ==> (#[trigger] stored[i]).0@ != (#[trigger] stored[j]).0@,
    ensures
        restored(Seq::empty(), stored) == Seq::new(
            stored.len(),
            |i: int| stored_connection(stored[i]),
        ),
    decreases stored.len(),
{
    let wanted = Seq::new(stored.len(), |i: int| stored_connection(stored[i]));
    if stored.len() == 0 {
        assert(restored(Seq::empty(), stored) =~= wanted);
    } else {
        let earlier = stored.drop_last();
        let before = Seq::new(earlier.len(), |i: int| stored_connection(earlier[i]));
        assert forall|i: int, j: int| 0 <= i < j < earlier.len() implies (#[trigger] earlier[i]).0@
            != (#[trigger] earlier[j]).0@ by {
            assert(earlier[i] == stored[i]);
            assert(earlier[j] == stored[j]);
        }
        lemma_restored_as_stored(earlier);
        let last = stored_connection(stored.last());
        assert(!uuids(before).contains(last.uuid)) by {
            if uuids(before).contains(last.uuid) {
                let w = choose|w: int|
                    0 <= w < uuids(before).len() && uuids(before)[w] == last.uuid;
                assert(earlier[w] == stored[w]);
                assert(stored[stored.len() - 1] == stored.last());
            }
        }
        assert(before.push(last) =~= wanted) by {
            assert forall|i: int| 0 <= i < wanted.len() implies before.push(last)[i]
                == wanted[i] by {
                if i < earlier.len() {
                    assert(earlier[i] == stored[i]);
                }
            }
        }
    }
}

/// The store of connections, keyed by UUID and kept in the order in which the connections
/// were added, and the one client that is active, if any.
pub struct ConnectionManager {
    connections: OrderedMap<Connection>,
    client: Option<Client>,
}

impl Default for ConnectionManager {
    /// A manager without connections and without a client.
    fn default() -> (manager: Self)
        ensures
            manager.wf(),
            manager.connections().len() == 0,
            manager.active() is None,
    {
        ConnectionManager::new()
    }
}

impl ConnectionManager {
    /// The connections of the store, in order.
    pub closed spec fn connections(&self) -> Seq<ConnectionView> {
        views(self.connections.values())
    }

    /// The active client.
    pub closed spec fn active(&self) -> Option<Client> {
        self.client
    }

    /// The UUID of the connection that the active client belongs to.
    pub open spec fn active_uuid(&self) -> Option<Seq<char>> {
        match self.active() {
            Some(client) => Some(client.link()@.uuid),
            None => None,
        }
    }

    /// Each connection is filed under its own UUID, no UUID is filed twice, and the
    /// active client is sound and belongs to a connection of the store.
    pub closed spec fn wf(&self) -> bool {
        &&& self.connections.wf()
        &&& self.connections.keys() == uuids(self.connections())
        &&& self.client matches Some(client) ==> client.wf() && uuids(
            self.connections(),
        ).contains(client.link()@.uuid)
    }

    /// What soundness means to a user of the manager.
    pub proof fn lemma_wf(&self)
        requires
            self.wf(),
        ensures
            uuids(self.connections()).no_duplicates(),
            self.active() matches Some(client) ==> client.wf() && uuids(
                self.connections(),
            ).contains(client.link()@.uuid),
    {
    }

    /// A manager without connections and without a client.
    pub fn new() -> (manager: Self)
        ensures
            manager.wf(),
            manager.connections().len() == 0,
            manager.active() is None,
    {
        let manager = ConnectionManager { connections: OrderedMap::new(), client: None };
        assert(manager.connections.keys() =~= uuids(manager.connections()));
        manager
    }

    /// The number of connections.
    pub fn n_items(&self) -> (n: usize)
        requires
            self.wf(),
        ensures
            n == self.connections().len(),
    {
        self.connections.len()
    }

    /// The connection at the given position.
    pub fn item(&self, position: usize) -> (found: Option<&Connection>)
        requires
            self.wf(),
        ensures
            found is Some <==> position < self.connections().len(),
            found matches Some(connection) ==> connection@ == self.connections()[position as int],
    {
        self.connections.get_index(position)
    }

    /// The connection with the given UUID.
    pub fn connection_by_uuid(&self, uuid: &str) -> (found: Option<&Connection>)
        requires
            self.wf(),
        ensures
            found is Some <==> uuids(self.connections()).contains(uuid@),
            found matches Some(connection) ==> connection@ == self.connections()[uuids(
                self.connections(),
            ).index_of(uuid@)],
    {
        match self.connections.position(uuid) {
            Some(i) => self.connections.get_index(i),
            None => None,
        }
    }

    /// The active client.
    pub fn client(&self) -> (client: Option<&Client>)
        requires
            self.wf(),
        ensures
            match client {
                Some(client) => self.active() == Some(*client) && client.wf(),
                None => self.active() is None,
            },
    {
        match &self.client {
            Some(client) => Some(client),
            None => None,
        }
    }

    /// The active client, to be driven. The manager stays sound as long as the client
    /// does.
    pub fn client_mut(&mut self) -> (client: Option<&mut Client>)
        requires
            old(self).wf(),
        ensures
            final(self).connections() == old(self).connections(),
            match client {
                Some(client) => {
                    &&& old(self).active() == Some(*client)
                    &&& client.wf()
                    &&& final(self).active() == Some(*final(client))
                    &&& final(client).wf() && final(client).link() == client.link()
                        ==> final(self).wf()
                },
                None => {
                    &&& old(self).active() is None
                    &&& final(self).active() is None
                    &&& final(self).wf()
                },
            },
    {
        match &mut self.client {
            Some(client) => Some(client),
            None => None,
        }
    }

    /// Whether a connection has the given name.
    pub fn has_name(&self, name: &str) -> (taken: bool)
        requires
            self.wf(),
        ensures
            taken == name_taken(self.connections(), name@),
    {
        let mut i: usize = 0;
        while i < self.connections.len()
            invariant
                self.wf(),
                i <= self.connections().len(),
                forall|j: int| 0 <= j < i ==> (#[trigger] self.connections()[j]).name != name@,
            decreases self.connections().len() - i,
        {
            match self.connections.get_index(i) {
                Some(connection) => {
                    if str_eq(connection.name().as_str(), name) {
                        assert(self.connections()[i as int].name == name@);
                        return true;
                    }
                },
                None => {},
            }
            i = i + 1;
        }
        false
    }

    /// Whether a connection leads to a socket on this machine.
    pub fn contains_local_connection(&self) -> (found: bool)
        requires
            self.wf(),
        ensures
            found == any_local(self.connections()),
    {
        let mut i: usize = 0;
        while i < self.connections.len()
            invariant
                self.wf(),
                i <= self.connections().len(),
                forall|j: int|
                    0 <= j < i ==> !crate::connection::is_local_url(
                        (#[trigger] self.connections()[j]).url,
                    ),
            decreases self.connections().len() - i,
        {
            match self.connections.get_index(i) {
                Some(connection) => {
                    if connection.is_local() {
                        assert(crate::connection::is_local_url(self.connections()[i as int].url));
                        return true;
                    }
                },
                None => {},
            }
            i = i + 1;
        }
        false
    }

    /// Whether an attempt to reach one of the connections is under way.
    pub fn is_connecting(&self) -> (found: bool)
        requires
            self.wf(),
        ensures
            found == any_connecting(self.connections()),
    {
        let mut i: usize = 0;
        while i < self.connections.len()
            invariant
                self.wf(),
                i <= self.connections().len(),
                forall|j: int| 0 <= j < i ==> !(#[trigger] self.connections()[j]).connecting,
            decreases self.connections().len() - i,
        {
            match self.connections.get_index(i) {
                Some(connection) => {
                    if connection.is_connecting() {
                        assert(self.connections()[i as int].connecting);
                        return true;
                    }
                },
                None => {},
            }
            i = i + 1;
        }
        false
    }

    /// The first step of connecting to a new endpoint, under a new random UUID. See
    /// [`ConnectionManager::try_connect_as`].
    pub fn try_connect(&self, name: &str, url: &str, rgb: Option<String>) -> (attempt:
        Result<Client, ManagerError>)
        requires
            self.wf(),
        ensures
            name_taken(self.connections(), name@) <==> (attempt matches Err(
                ManagerError::AlreadyExists { name: taken },
            ) && taken@ == name@),
            !name_taken(self.connections(), name@) ==> match attempt {
                Ok(client) => {
                    &&& gateway_accepts(url@)
                    &&& client.is_fresh()
                    &&& client.link()@.name == name@
                    &&& client.link()@.url == url@
                    &&& client.link()@.rgb == text(rgb)
                    &&& !client.link()@.connecting
                },
                Err(error) => error is Gateway && !gateway_accepts(url@),
            },
    {
        if self.has_name(name) {
            return Err(ManagerError::AlreadyExists { name: String::from_str(name) });
        }
        self.try_connect_as(name, url, rgb, random_uuid())
    }

    /// The first step of connecting to a new endpoint: the manager refuses a name that a
    /// connection has already, before anything else is done. Else it makes the connection
    /// and a client for it, through which the endpoint is to be reached; that fails where
    /// no handle can be made for the address. The manager itself has not changed, and no
    /// request has been made.
    pub fn try_connect_as(
        &self,
        name: &str,
        url: &str,
        rgb: Option<String>,
        uuid: String,
    ) -> (attempt: Result<Client, ManagerError>)
        requires
            self.wf(),
        ensures
            name_taken(self.connections(), name@) <==> (attempt matches Err(
                ManagerError::AlreadyExists { name: taken },
            ) && taken@ == name@),
            !name_taken(self.connections(), name@) ==> match attempt {
                Ok(client) => {
                    &&& gateway_accepts(url@)
                    &&& client.is_fresh()
                    &&& client.link()@ == (ConnectionView {
                        uuid: uuid@,
                        name: name@,
                        url: url@,
                        rgb: text(rgb),
                        connecting: false,
                    })
                },
                Err(error) => error is Gateway && !gateway_accepts(url@),
            },
    {
        if self.has_name(name) {
            return Err(ManagerError::AlreadyExists { name: String::from_str(name) });
        }
        let connection = Connection::new(uuid, String::from_str(name), String::from_str(url), rgb);
        match Client::try_from(&connection) {
            Ok(client) => Ok(client),
            Err(error) => Err(ManagerError::Gateway(error)),
        }
    }

    /// The second step of connecting to a new endpoint: takes in whether the endpoint
    /// answered the client.
    ///
    /// Where it did, the client's connection joins the store and the client becomes the
    /// active one; the store is then to be written to disk. Where it did not, nothing
    /// changes.
    pub fn connection_reached(&mut self, client: Client, reachable: bool) -> (placement:
        Option<Placement>)
        requires
            old(self).wf(),
            client.wf(),
        ensures
            final(self).wf(),
            placement is Some <==> reachable,
            reachable ==> {
                &&& final(self).connections() == placed(old(self).connections(), client.link()@)
                &&& final(self).active() == Some(client)
                &&& placement matches Some(placement)
                &&& placement.replaced == uuids(old(self).connections()).contains(
                    client.link()@.uuid,
                )
                &&& placement.position == if placement.replaced {
                    uuids(old(self).connections()).index_of(client.link()@.uuid)
                } else {
                    old(self).connections().len() as int
                }
            },
            !reachable ==> {
                &&& final(self).connections() == old(self).connections()
                &&& final(self).active() == old(self).active()
            },
    {
        if !reachable {
            return None;
        }
        let connection = client.connection().duplicate();
        let uuid = connection.uuid().clone();
        let ghost values = self.connections.values();
        proof {
            assert(views(values.push(connection)) =~= views(values).push(connection@));
            assert(uuids(views(values).push(connection@)) =~= uuids(views(values)).push(
                connection@.uuid,
            ));
            if uuids(views(values)).contains(connection@.uuid) {
                let i = uuids(views(values)).index_of(connection@.uuid);
                assert(views(values.update(i, connection)) =~= views(values).update(
                    i,
                    connection@,
                ));
                assert(uuids(views(values).update(i, connection@)) =~= uuids(views(values)));
            }
        }
        let (position, former) = self.connections.insert(uuid, connection);
        self.client = Some(client);
        proof {
            let after = uuids(self.connections());
            assert(after[position as int] == connection@.uuid);
        }
        Some(Placement { position, replaced: former.is_some() })
    }

    /// Removes the connection with the given UUID, and with it the active client if that
    /// belongs to the connection. Where there was such a connection the store is to be
    /// written to disk.
    pub fn remove_connection(&mut self, uuid: &str) -> (removal: Option<Removal>)
        requires
            old(self).wf(),
        ensures
            final(self).wf(),
            removal is Some <==> uuids(old(self).connections()).contains(uuid@),
            !uuids(final(self).connections()).contains(uuid@),
            removal matches Some(removal) ==> {
                &&& removal.position == uuids(old(self).connections()).index_of(uuid@)
                &&& final(self).connections() == old(self).connections().remove(
                    removal.position as int,
                )
                &&& removal.client_cleared == (old(self).active_uuid() == Some(uuid@))
                &&& final(self).active() == if removal.client_cleared {
                    None
                } else {
                    old(self).active()
                }
            },
            removal is None ==> {
                &&& final(self).connections() == old(self).connections()
                &&& final(self).active() == old(self).active()
            },
    {
        let ghost values = self.connections.values();
        let ghost before = uuids(self.connections());
        match self.connections.remove(uuid) {
            Some((position, _)) => {
                proof {
                    assert(views(values.remove(position as int)) =~= views(values).remove(
                        position as int,
                    ));
                    assert(uuids(views(values).remove(position as int)) =~= before.remove(
                        position as int,
                    ));
                    crate::mirror::lemma_remove_drops_key(before, position as int);
                }
                let client_cleared = match &self.client {
                    Some(client) => str_eq(client.connection().uuid().as_str(), uuid),
                    None => false,
                };
                if client_cleared {
                    self.client = None;
                }
                proof {
                    if self.active() is Some {
                        let kept = self.active()->0.link()@.uuid;
                        let w = choose|w: int| 0 <= w < before.len() && before[w] == kept;
                        if w < position {
                            assert(before.remove(position as int)[w] == kept);
                        } else {
                            assert(before.remove(position as int)[w - 1] == kept);
                        }
                    }
                }
                Some(Removal { position, client_cleared })
            },
            None => None,
        }
    }

    /// The first step of making a stored connection the active one: says what is to be
    /// done. Nothing where the active client belongs to the connection already; else the
    /// connection's endpoint is to be reached through a new client. A UUID that the store
    /// does not hold is refused, and so is a connection for whose address no handle can be
    /// made.
    pub fn set_client_from(&self, uuid: &str) -> (selection: Result<Selection, ManagerError>)
        requires
            self.wf(),
        ensures
            self.active_uuid() == Some(uuid@) ==> selection matches Ok(Selection::Active),
            self.active_uuid() != Some(uuid@) ==> match selection {
                Ok(Selection::Connect(client)) => {
                    &&& uuids(self.connections()).contains(uuid@)
                    &&& client.is_fresh()
                    &&& client.link()@ == self.connections()[uuids(self.connections()).index_of(
                        uuid@,
                    )]
                    &&& gateway_accepts(client.link()@.url)
                },
                Ok(Selection::Active) => false,
                Err(ManagerError::NotFound) => !uuids(self.connections()).contains(uuid@),
                Err(ManagerError::Gateway(_)) => {
                    &&& uuids(self.connections()).contains(uuid@)
                    &&& !gateway_accepts(
                        self.connections()[uuids(self.connections()).index_of(uuid@)].url,
                    )
                },
                Err(ManagerError::AlreadyExists { .. }) => false,
            },
    {
        let active = match &self.client {
            Some(client) => str_eq(client.connection().uuid().as_str(), uuid),
            None => false,
        };
        if active {
            return Ok(Selection::Active);
        }
        match self.connection_by_uuid(uuid) {
            Some(connection) => match Client::try_from(connection) {
                Ok(client) => Ok(Selection::Connect(client)),
                Err(error) => Err(ManagerError::Gateway(error)),
            },
            None => Err(ManagerError::NotFound),
        }
    }

    /// The second step of making a stored connection the active one: takes in whether
    /// the endpoint answered the client. Where it did, and the store still holds the
    /// client's connection, the client becomes the active one. Tells whether that happened.
    pub fn client_reached(&mut self, client: Client, reachable: bool) -> (activated: bool)
        requires
            old(self).wf(),
            client.wf(),
        ensures
            final(self).wf(),
            final(self).connections() == old(self).connections(),
            activated == (reachable && uuids(old(self).connections()).contains(
                client.link()@.uuid,
            )),
            final(self).active() == if activated {
                Some(client)
            } else {
                old(self).active()
            },
    {
        if reachable && self.connections.position(client.connection().uuid().as_str()).is_some() {
            self.client = Some(client);
            true
        } else {
            false
        }
    }

    /// Leaves the manager without an active client.
    pub fn unset_client(&mut self)
        requires
            old(self).wf(),
        ensures
            final(self).wf(),
            final(self).connections() == old(self).connections(),
            final(self).active() is None,
    {
        self.client = None;
    }

    /// Takes in the connections that were read from disk, first to last, and says what
    /// is to be done to restore the connection that was used last.
    pub fn setup(&mut self, stored: Vec<(String, ConnectionInfo)>, last_used: &str) -> (setup:
        Setup)
        requires
            old(self).wf(),
        ensures
            final(self).wf(),
            final(self).connections() == restored(old(self).connections(), stored@),
            final(self).active() == old(self).active(),
            setup.previous_len == old(self).connections().len(),
            setup.len == final(self).connections().len(),
            match setup.selection {
                Ok(None) => final(self).connections().len() == 0,
                Ok(Some(Selection::Active)) => {
                    &&& final(self).connections().len() > 0
                    &&& final(self).active_uuid() == Some(last_used@)
                },
                Ok(Some(Selection::Connect(client))) => {
                    &&& final(self).active_uuid() != Some(last_used@)
                    &&& uuids(final(self).connections()).contains(last_used@)
                    &&& client.is_fresh()
                    &&& client.link()@ == final(self).connections()[uuids(
                        final(self).connections(),
                    ).index_of(last_used@)]
                    &&& gateway_accepts(client.link()@.url)
                },
                Err(error) => {
                    &&& final(self).connections().len() > 0
                    &&& final(self).active_uuid() != Some(last_used@)
                    &&& match error {
                        ManagerError::NotFound => !uuids(final(self).connections()).contains(
                            last_used@,
                        ),
                        ManagerError::Gateway(_) => {
                            &&& uuids(final(self).connections()).contains(last_used@)
                            &&& !gateway_accepts(
                                final(self).connections()[uuids(
                                    final(self).connections(),
                                ).index_of(last_used@)].url,
                            )
                        },
                        ManagerError::AlreadyExists { .. } => false,
                    }
                },
            },
    {
        let previous_len = self.connections.len();
        let ghost before = self.connections();
        let ghost entries = stored@;
        assert(entries.take(0) =~= Seq::empty());
        for entry in it: stored
            invariant
                self.wf(),
                self.active() == old(self).active(),
                before == old(self).connections(),
                entries == it.seq(),
                self.connections() == restored(before, entries.take(it.index() as int)),
        {
            let ghost k = it.index() as int;
            proof {
                assert(entries.take(k + 1).drop_last() =~= entries.take(k));
                assert(entries.take(k + 1).last() == entry);
            }
            let (uuid, info) = entry;
            let connection = Connection::from_connection_info(uuid.clone(), info);
            let ghost values = self.connections.values();
            proof {
                assert(views(values.push(connection)) =~= views(values).push(connection@));
                assert(uuids(views(values).push(connection@)) =~= uuids(views(values)).push(
                    connection@.uuid,
                ));
                if uuids(views(values)).contains(connection@.uuid) {
                    let i = uuids(views(values)).index_of(connection@.uuid);
                    assert(views(values.update(i, connection)) =~= views(values).update(
                        i,
                        connection@,
                    ));
                    assert(uuids(views(values).update(i, connection@)) =~= uuids(views(values)));
                }
            }
            let ghost held = uuids(self.connections());
            self.connections.insert(uuid, connection);
            proof {
                if self.active() is Some {
                    let kept = self.active()->0.link()@.uuid;
                    let w = choose|w: int| 0 <= w < held.len() && held[w] == kept;
                    assert(uuids(self.connections())[w] == kept);
                }
            }
        }
        proof {
            assert(entries.take(entries.len() as int) =~= entries);
        }
        let len = self.connections.len();
        let selection = if len > 0 {
            match self.set_client_from(last_used) {
                Ok(selection) => Ok(Some(selection)),
                Err(error) => Err(error),
            }
        } else {
            Ok(None)
        };
        Setup { previous_len, len, selection }
    }

    /// What is to be written to disk: each connection's UUID and what is stored of it,
    /// in order.
    pub fn snapshot(&self) -> (stored: Vec<(String, ConnectionInfo)>)
        requires
            self.wf(),
        ensures
            stored@.len() == self.connections().len(),
            forall|i: int|
                0 <= i < stored@.len() ==> stored_connection(#[trigger] stored@[i]) == (
                ConnectionView { connecting: false, ..self.connections()[i] }),
    {
        let mut stored: Vec<(String, ConnectionInfo)> = Vec::new();
        let mut i: usize = 0;
        while i < self.connections.len()
            invariant
                self.wf(),
                i <= self.connections().len(),
                stored@.len() == i,
                forall|j: int|
                    0 <= j < i ==> stored_connection(#[trigger] stored@[j]) == (ConnectionView {
                        connecting: false,
                        ..self.connections()[j]
                    }),
            decreases self.connections().len() - i,
        {
            match self.connections.get_index(i) {
                Some(connection) => {
                    stored.push((connection.uuid().clone(), connection.info()));
                },
                None => {},
            }
            i = i + 1;
        }
        stored
    }
}

} // verus!
