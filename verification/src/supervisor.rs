//! The registry of the connections that are open.

use crate::text::{decimal_chars, push_decimal, push_signed_decimal, signed_decimal_chars};
use vstd::prelude::*;
use vstd::string::*;

verus! {

/// The kinds of connections.
#[derive(Debug, Clone, Copy, PartialEq, Eq, Structural)]
pub enum MetadataConnectionKind {
    Normal,
    Replica,
    Master,
    Pubsub,
}

/// What the server knows about a connection.
#[derive(Debug)]
pub struct MetadataConnection {
    /// The id of the connection.
    pub id: u64,
    /// The kind of the connection.
    pub kind: MetadataConnectionKind,
    /// The name that the client set with `CLIENT SETNAME`.
    name: Option<String>,
    /// Tells whether the connection is stopped.
    pub stopped: bool,
    /// Address and port of the client.
    pub addr: String,
    /// Address and port that the client connected to.
    pub laddr: String,
    /// File descriptor of the socket.
    pub fd: i32,
}

/// The mathematical value of a [`MetadataConnection`].
pub struct MetadataConnectionView {
    pub id: u64,
    pub kind: MetadataConnectionKind,
    pub name: Option<Seq<char>>,
    pub stopped: bool,
    pub addr: Seq<char>,
    pub laddr: Seq<char>,
    pub fd: i32,
}

impl View for MetadataConnection {
    type V = MetadataConnectionView;

    closed spec fn view(&self) -> MetadataConnectionView {
        MetadataConnectionView {
            id: self.id,
            kind: self.kind,
            name: match self.name {
                Some(name) => Some(name@),
                None => None,
            },
            stopped: self.stopped,
            addr: self.addr@,
            laddr: self.laddr@,
            fd: self.fd,
        }
    }
}

/// A change to what is known about a connection.
#[derive(Debug)]
pub enum ConnectionChange {
    /// The connection has stopped.
    Stop,
    /// The client gave the connection a name.
    Rename(String),
}

/// The mathematical value of a [`ConnectionChange`].
pub enum ConnectionChangeView {
    Stop,
    Rename(Seq<char>),
}

impl View for ConnectionChange {
    type V = ConnectionChangeView;

    open spec fn view(&self) -> ConnectionChangeView {
        match self {
            ConnectionChange::Stop => ConnectionChangeView::Stop,
            ConnectionChange::Rename(name) => ConnectionChangeView::Rename(name@),
        }
    }
}

/// A connection after a change.
pub open spec fn changed(
    connection: MetadataConnectionView,
    change: ConnectionChangeView,
) -> MetadataConnectionView {
    match change {
        ConnectionChangeView::Stop => MetadataConnectionView { stopped: true, ..connection },
        ConnectionChangeView::Rename(name) => MetadataConnectionView {
            name: Some(name),
            ..connection
        },
    }
}

impl MetadataConnection {
    /// The record of a normal connection that has just been accepted.
    pub fn new(id: u64, addr: String, laddr: String, fd: i32) -> (connection: MetadataConnection)
        ensures
            connection@ == (MetadataConnectionView {
                id,
                kind: MetadataConnectionKind::Normal,
                name: None,
                stopped: false,
                addr: addr@,
                laddr: laddr@,
                fd,
            }),
    {
        MetadataConnection {
            id,
            kind: MetadataConnectionKind::Normal,
            name: None,
            stopped: false,
            addr,
            laddr,
            fd,
        }
    }

    /// Marks the connection as stopped.
    pub fn stop(&mut self)
        ensures
            final(self)@ == changed(old(self)@, ConnectionChangeView::Stop),
    {
        self.stopped = true;
    }

    /// Sets the name of the connection.
    pub fn set_name(&mut self, name: String)
        ensures
            final(self)@ == changed(old(self)@, ConnectionChangeView::Rename(name@)),
    {
        self.name = Some(name);
    }

    /// The name of the connection, if it has one.
    pub fn name(&self) -> (name: Option<String>)
        ensures
            self@.name == match name {
                Some(name) => Some(name@),
                None => None,
            },
    {
        match &self.name {
            Some(name) => Some(name.clone()),
            None => None,
        }
    }

    /// The id of the connection.
    pub fn id(&self) -> (id: u64)
        ensures
            id == self@.id,
    {
        self.id
    }

    /// Applies a change to the record.
    pub fn apply(&mut self, change: ConnectionChange)
        ensures
            final(self)@ == changed(old(self)@, change@),
    {
        match change {
            ConnectionChange::Stop => self.stop(),
            ConnectionChange::Rename(name) => self.set_name(name),
        }
    }
}

/// The map of the registry: from the id of a connection to its record.
pub type RegistryMap = scc::HashMap<u64, MetadataConnection>;

/// What the registry's map holds.
pub uninterp spec fn registry_entries(db: RegistryMap) -> Map<u64, MetadataConnectionView>;

/// A registry without connections.
pub open spec fn no_connections() -> Map<u64, MetadataConnectionView> {
    Map::empty()
}

/// Calls `scc::HashMap::new`, which makes an empty map.
#[verifier::external_body]
fn registry_new() -> (db: RegistryMap)
    ensures
        registry_entries(db) == no_connections(),
{
    scc::HashMap::new()
}

/// Calls `scc::HashMap::insert`, which puts the record under the id unless
/// the id is there already, and tells whether it did.
#[verifier::external_body]
fn registry_insert(db: &mut RegistryMap, id: u64, record: MetadataConnection) -> (inserted: bool)
    ensures
        inserted == !registry_entries(*old(db)).contains_key(id),
        registry_entries(*final(db)) == if inserted {
            registry_entries(*old(db)).insert(id, record@)
        } else {
            registry_entries(*old(db))
        },
{
    db.insert(id, record).is_ok()
}

/// Calls `scc::HashMap::read` and copies the record that it finds with
/// `MetadataConnection::clone_record`: the record under the id, or nothing
/// where the id is not there.
#[verifier::external_body]
fn registry_read(db: &RegistryMap, id: u64) -> (found: Option<MetadataConnection>)
    ensures
        found is Some == registry_entries(*db).contains_key(id),
        found matches Some(record) ==> record@ == registry_entries(*db)[id],
{
    db.read(&id, |_, record| record.clone_record())
}

/// Calls `scc::HashMap::update`, which changes the record under the id in
/// place where the id is there, and tells whether it was. The change is
/// made by `MetadataConnection::apply`.
#[verifier::external_body]
fn registry_update(db: &mut RegistryMap, id: u64, change: ConnectionChange) -> (found: bool)
    ensures
        found == registry_entries(*old(db)).contains_key(id),
        registry_entries(*final(db)) == if found {
            registry_entries(*old(db)).insert(id, changed(registry_entries(*old(db))[id], change@))
        } else {
            registry_entries(*old(db))
        },
{
    db.update(&id, |_, record| record.apply(change)).is_some()
}

/// Calls `scc::HashMap::scan` and copies every record that it visits with
/// `MetadataConnection::clone_record`. The
/// map is walked in the order of its buckets, which is not told: every
/// record of the result is in the map under the id that comes with it, and
/// every record of the map is in the result.
#[verifier::external_body]
fn registry_scan(db: &RegistryMap) -> (records: Vec<(u64, MetadataConnection)>)
    ensures
        forall|i: int|
            0 <= i < records@.len() ==> registry_entries(*db).contains_key(
                (#[trigger] records@[i]).0,
            ) && registry_entries(*db)[records@[i].0] == records@[i].1@,
        forall|id: u64| #[trigger]
            registry_entries(*db).contains_key(id) ==> exists|i: int|
                0 <= i < records@.len() && (#[trigger] records@[i]).0 == id,
{
    let mut records = Vec::new();
    db.scan(|id, record| records.push((*id, record.clone_record())));
    records
}

impl Clone for MetadataConnection {
    fn clone(&self) -> (copy: MetadataConnection)
        ensures
            copy@ == self@,
    {
        self.clone_record()
    }
}

/// Calls `scc::HashMap::remove`, which takes the id and its record out of
/// the map and tells whether the id was there.
#[verifier::external_body]
fn registry_remove(db: &mut RegistryMap, id: u64) -> (removed: bool)
    ensures
        registry_entries(*final(db)) == registry_entries(*old(db)).remove(id),
        removed == registry_entries(*old(db)).contains_key(id),
{
    db.remove(&id).is_some()
}

/// The registry without the connections that have stopped.
pub open spec fn swept(connections: Map<u64, MetadataConnectionView>) -> Map<
    u64,
    MetadataConnectionView,
> {
    Map::new(
        |id: u64| connections.contains_key(id) && !connections[id].stopped,
        |id: u64| connections[id],
    )
}

/// The id is that of one of the records from `from` on.
pub open spec fn is_among(records: Seq<(u64, MetadataConnection)>, from: int, id: u64) -> bool {
    exists|j: int| from <= j < records.len() && (#[trigger] records[j]).0 == id
}

/// The registry without the stopped connections among the records from
/// `from` on.
pub open spec fn swept_from(
    connections: Map<u64, MetadataConnectionView>,
    records: Seq<(u64, MetadataConnection)>,
    from: int,
) -> Map<u64, MetadataConnectionView> {
    Map::new(
        |id: u64|
            connections.contains_key(id) && !(connections[id].stopped && is_among(
                records,
                from,
                id,
            )),
        |id: u64| connections[id],
    )
}

/// The id that follows `id`: ids start again from 0 after the last.
pub open spec fn next_id(id: u64) -> u64 {
    if id == u64::MAX {
        0
    } else {
        (id + 1) as u64
    }
}

/// The connection is open and of the normal kind.
pub open spec fn is_listed(connection: MetadataConnectionView) -> bool {
    !connection.stopped && connection.kind == MetadataConnectionKind::Normal
}

/// The record is that of a registered connection.
pub open spec fn is_registered(
    connections: Map<u64, MetadataConnectionView>,
    record: MetadataConnectionView,
) -> bool {
    exists|id: u64| #[trigger] connections.contains_key(id) && connections[id] == record
}

/// The record is among the given ones.
pub open spec fn holds_record(
    records: Seq<MetadataConnection>,
    record: MetadataConnectionView,
) -> bool {
    exists|i: int| 0 <= i < records.len() && (#[trigger] records[i])@ == record
}

/// The registry of the connections of a server, with the counter that
/// gives them their ids.
pub struct Supervisor {
    current_id: u64,
    current_connections: RegistryMap,
}

impl Supervisor {
    /// The id that the next connection gets.
    pub closed spec fn counter(&self) -> u64 {
        self.current_id
    }

    /// The connections that are registered, by id.
    pub closed spec fn connections(&self) -> Map<u64, MetadataConnectionView> {
        registry_entries(self.current_connections)
    }

    /// Creates a registry without connections whose first id is `init_connection`.
    pub fn new(init_connection: u64) -> (supervisor: Supervisor)
        ensures
            supervisor.counter() == init_connection,
            supervisor.connections() == no_connections(),
    {
        Supervisor { current_id: init_connection, current_connections: registry_new() }
    }

    /// Gives a connection that has just been accepted its id and registers
    /// it. The result is its record. An id that is still registered, which
    /// takes a full turn of the counter, keeps its older record.
    pub fn assign_new_connection(&mut self, addr: String, laddr: String, fd: i32) -> (connection:
        MetadataConnection)
        ensures
            connection@ == (MetadataConnectionView {
                id: old(self).counter(),
                kind: MetadataConnectionKind::Normal,
                name: None,
                stopped: false,
                addr: addr@,
                laddr: laddr@,
                fd,
            }),
            final(self).counter() == next_id(old(self).counter()),
            final(self).connections() == if old(self).connections().contains_key(
                old(self).counter(),
            ) {
                old(self).connections()
            } else {
                old(self).connections().insert(old(self).counter(), connection@)
            },
    {
        let id = self.current_id;
        self.current_id = self.current_id.wrapping_add(1);
        let connection = MetadataConnection::new(id, addr, laddr, fd);
        let _ = registry_insert(&mut self.current_connections, id, connection.clone_record());
        connection
    }

    /// The record of a connection, if it is registered.
    pub fn connection(&self, id: u64) -> (found: Option<MetadataConnection>)
        ensures
            found is Some == self.connections().contains_key(id),
            found matches Some(record) ==> record@ == self.connections()[id],
    {
        registry_read(&self.current_connections, id)
    }

    /// Applies a change to the record of a connection, and tells whether
    /// the connection is registered.
    pub fn change_connection(&mut self, id: u64, change: ConnectionChange) -> (found: bool)
        ensures
            found == old(self).connections().contains_key(id),
            final(self).counter() == old(self).counter(),
            final(self).connections() == if found {
                old(self).connections().insert(id, changed(old(self).connections()[id], change@))
            } else {
                old(self).connections()
            },
    {
        registry_update(&mut self.current_connections, id, change)
    }

    /// The records of the open connections of the normal kind, in no
    /// particular order.
    pub fn get_normal_connection(&self) -> (listed: Vec<MetadataConnection>)
        ensures
            forall|i: int|
                0 <= i < listed@.len() ==> is_listed((#[trigger] listed@[i])@) && is_registered(
                    self.connections(),
                    listed@[i]@,
                ),
            forall|id: u64|
                self.connections().contains_key(id) && is_listed(
                    #[trigger] self.connections()[id],
                ) ==> holds_record(listed@, self.connections()[id]),
    {
        let mut records = registry_scan(&self.current_connections);
        let ghost all = records@;
        let mut listed: Vec<MetadataConnection> = Vec::new();
        while records.len() > 0
            invariant
                records@.len() <= all.len(),
                records@ == all.take(records@.len() as int),
                forall|i: int|
                    0 <= i < all.len() ==> self.connections().contains_key((#[trigger] all[i]).0)
                        && self.connections()[all[i].0] == all[i].1@,
                forall|i: int|
                    0 <= i < listed@.len() ==> is_listed((#[trigger] listed@[i])@)
                        && is_registered(self.connections(), listed@[i]@),
                forall|j: int|
                    records@.len() <= j < all.len() && is_listed((#[trigger] all[j]).1@)
                        ==> holds_record(listed@, all[j].1@),
            decreases records.len(),
        {
            let ghost last = records@.len() - 1;
            let entry = records.pop().unwrap();
            assert(entry == all[last]);
            let ghost before = listed@;
            if !entry.1.stopped && entry.1.is_normal() {
                assert(self.connections().contains_key(entry.0));
                listed.push(entry.1);
                assert(listed@[before.len() as int]@ == all[last].1@);
                assert forall|i: int| 0 <= i < listed@.len() implies is_listed(
                    (#[trigger] listed@[i])@,
                ) && is_registered(self.connections(), listed@[i]@) by {
                    if i < before.len() {
                        assert(listed@[i] == before[i]);
                    } else {
                        assert(self.connections()[entry.0] == listed@[i]@);
                    }
                }
            }
            assert forall|j: int|
                records@.len() <= j < all.len() && is_listed(
                    (#[trigger] all[j]).1@,
                ) implies holds_record(listed@, all[j].1@) by {
                if j == last {
                    assert(listed@[before.len() as int]@ == all[j].1@);
                } else {
                    let i = choose|i: int|
                        0 <= i < before.len() && (#[trigger] before[i])@ == all[j].1@;
                    assert(listed@[i] == before[i]);
                }
            }
        }
        assert forall|id: u64|
            self.connections().contains_key(id) && is_listed(
                #[trigger] self.connections()[id],
            ) implies holds_record(listed@, self.connections()[id]) by {
            let j = choose|j: int| 0 <= j < all.len() && (#[trigger] all[j]).0 == id;
            assert(is_listed(all[j].1@));
        }
        listed
    }
}

impl Supervisor {
    /// Takes the connections that have stopped out of the registry.
    pub fn sweep(&mut self)
        ensures
            final(self).connections() == swept(old(self).connections()),
            final(self).counter() == old(self).counter(),
    {
        let mut records = registry_scan(&self.current_connections);
        let ghost all = records@;
        let ghost before = self.connections();
        assert(self.connections() =~= swept_from(before, all, all.len() as int));
        while records.len() > 0
            invariant
                before == old(self).connections(),
                self.current_id == old(self).current_id,
                records@.len() <= all.len(),
                records@ == all.take(records@.len() as int),
                forall|i: int|
                    0 <= i < all.len() ==> before.contains_key((#[trigger] all[i]).0)
                        && before[all[i].0] == all[i].1@,
                self.connections() == swept_from(before, all, records@.len() as int),
            decreases records.len(),
        {
            let ghost last = records@.len() - 1;
            let entry = records.pop().unwrap();
            assert(entry == all[last]);
            if entry.1.stopped {
                let _ = registry_remove(&mut self.current_connections, entry.0);
            }
            proof {
                let now = self.connections();
                let goal = swept_from(before, all, last);
                assert forall|id: u64| now.contains_key(id) == goal.contains_key(id) by {
                    if id == entry.0 {
                        assert(is_among(all, last, id));
                    } else if is_among(all, last, id) {
                        let j = choose|j: int| last <= j < all.len() && (#[trigger] all[j]).0 == id;
                        assert(is_among(all, last + 1, id));
                    } else if is_among(all, last + 1, id) {
                        let j = choose|j: int|
                            last + 1 <= j < all.len() && (#[trigger] all[j]).0 == id;
                        assert(is_among(all, last, id));
                    }
                }
                assert(now =~= goal);
            }
        }
        proof {
            let goal = swept(before);
            assert forall|id: u64| self.connections().contains_key(id) == goal.contains_key(
                id,
            ) by {
                if before.contains_key(id) && before[id].stopped {
                    let j = choose|j: int| 0 <= j < all.len() && (#[trigger] all[j]).0 == id;
                    assert(is_among(all, 0, id));
                }
            }
            assert(self.connections() =~= goal);
        }
    }
}

impl Supervisor {
    /// The record of an open connection of the normal kind on the socket
    /// `fd`, if one is registered; where several are, one of them.
    pub fn connection_of_socket(&self, fd: i32) -> (found: Option<MetadataConnection>)
        ensures
            match found {
                Some(record) => is_listed(record@) && record@.fd == fd && is_registered(
                    self.connections(),
                    record@,
                ),
                None => forall|id: u64|
                    self.connections().contains_key(id) && is_listed(
                        #[trigger] self.connections()[id],
                    ) ==> self.connections()[id].fd != fd,
            },
    {
        let mut listed = self.get_normal_connection();
        let ghost all = listed@;
        while listed.len() > 0
            invariant
                listed@.len() <= all.len(),
                listed@ == all.take(listed@.len() as int),
                forall|i: int|
                    0 <= i < all.len() ==> is_listed((#[trigger] all[i])@) && is_registered(
                        self.connections(),
                        all[i]@,
                    ),
                forall|i: int| listed@.len() <= i < all.len() ==> (#[trigger] all[i])@.fd != fd,
            decreases listed.len(),
        {
            let ghost last = listed@.len() - 1;
            let record = listed.pop().unwrap();
            assert(record == all[last]);
            if record.fd == fd {
                return Some(record);
            }
        }
        assert forall|id: u64|
            self.connections().contains_key(id) && is_listed(
                #[trigger] self.connections()[id],
            ) implies self.connections()[id].fd != fd by {
            let i = choose|i: int|
                0 <= i < all.len() && (#[trigger] all[i])@ == self.connections()[id];
            assert(all[i]@.fd != fd);
        }
        None
    }
}

impl MetadataConnection {
    /// Tells whether the connection is of the normal kind.
    pub fn is_normal(&self) -> (normal: bool)
        ensures
            normal == (self@.kind == MetadataConnectionKind::Normal),
    {
        match self.kind {
            MetadataConnectionKind::Normal => true,
            _ => false,
        }
    }

    /// A copy of the record.
    pub fn clone_record(&self) -> (copy: MetadataConnection)
        ensures
            copy@ == self@,
    {
        MetadataConnection {
            id: self.id,
            kind: self.kind,
            name: self.name(),
            stopped: self.stopped,
            addr: self.addr.clone(),
            laddr: self.laddr.clone(),
            fd: self.fd,
        }
    }
}

/// The id of the `n`-th connection that is accepted after the counter
/// stood at `start`.
pub open spec fn nth_id(start: u64, n: nat) -> u64
    decreases n,
{
    if n == 0 {
        start
    } else {
        next_id(nth_id(start, (n - 1) as nat))
    }
}

/// As long as the counter has not given its last id, the `n`-th id after
/// `start` is `start + n`.
pub proof fn lemma_nth_id(start: u64, n: nat)
    requires
        start + n <= u64::MAX,
    ensures
        nth_id(start, n) == start + n,
    decreases n,
{
    if n > 0 {
        lemma_nth_id(start, (n - 1) as nat);
    }
}

/// Monotonic connection ids: of two connections the one that is accepted
/// later has the greater id, as long as the counter has not given its
/// last id.
pub proof fn lemma_ids_grow(start: u64, earlier: nat, later: nat)
    requires
        earlier < later,
        start + later <= u64::MAX,
    ensures
        nth_id(start, earlier) < nth_id(start, later),
{
    lemma_nth_id(start, earlier);
    lemma_nth_id(start, later);
}

/// The line that describes a connection in the answers to `CLIENT INFO`
/// and `CLIENT LIST`.
pub open spec fn conn_line(connection: MetadataConnectionView) -> Seq<char> {
    "id="@ + decimal_chars(connection.id as nat) + " addr="@ + connection.addr + " laddr="@
        + connection.laddr + " fd="@ + signed_decimal_chars(connection.fd as int) + " name="@
        + match connection.name {
        Some(name) => name,
        None => Seq::empty(),
    }
}

impl MetadataConnection {
    /// The line that describes the connection.
    pub fn format_conn(&self) -> (line: String)
        ensures
            line@ == conn_line(self@),
    {
        let mut line = String::from_str("id=");
        push_decimal(&mut line, self.id);
        line.append(" addr=");
        line.append(self.addr.as_str());
        line.append(" laddr=");
        line.append(self.laddr.as_str());
        line.append(" fd=");
        push_signed_decimal(&mut line, self.fd as i64);
        line.append(" name=");
        let ghost before = line@;
        match &self.name {
            Some(name) => {
                line.append(name.as_str());
            },
            None => {
                assert(before + Seq::<char>::empty() =~= before);
            },
        }
        line
    }
}

} // verus!
