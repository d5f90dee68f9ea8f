//! Who is connected right now.

use crate::table::{ordered_rows, rows_map, Table};
use crate::text::clone_text;
use crate::views::{lemma_view_push, Duplicate};
use vstd::prelude::*;

verus! {

/// How a client is connected.
#[derive(Debug, Clone, Copy, PartialEq, Eq, Structural)]
pub enum Transport {
    /// Unauthenticated.
    Tcp,
    /// With a client certificate.
    Tls,
}

/// A live connection.
#[derive(Debug, PartialEq)]
pub struct ClientEndpoint {
    pub remote_addr: String,
    pub transport: Transport,
    /// The common name of the client certificate, where there is one.
    pub common_name: Option<String>,
    /// The uid that the connection has bound, once it has.
    pub uid: Option<String>,
    pub connected_at_unix: i64,
}

/// The model of a live connection.
pub struct EndpointView {
    pub remote_addr: Seq<char>,
    pub transport: Transport,
    pub common_name: Option<Seq<char>>,
    pub uid: Option<Seq<char>>,
    pub connected_at_unix: i64,
}

impl DeepView for ClientEndpoint {
    type V = EndpointView;

    open spec fn deep_view(&self) -> EndpointView {
        EndpointView {
            remote_addr: self.remote_addr@,
            transport: self.transport,
            common_name: self.common_name.deep_view(),
            uid: self.uid.deep_view(),
            connected_at_unix: self.connected_at_unix,
        }
    }
}

impl Duplicate for ClientEndpoint {
    fn duplicate(&self) -> (res: Self) {
        ClientEndpoint {
            remote_addr: self.remote_addr.clone(),
            transport: self.transport,
            common_name: clone_text(&self.common_name),
            uid: clone_text(&self.uid),
            connected_at_unix: self.connected_at_unix,
        }
    }
}

impl Clone for ClientEndpoint {
    fn clone(&self) -> (res: Self)
        ensures
            res.deep_view() == self.deep_view(),
    {
        self.duplicate()
    }
}

/// The live connections by address.
#[derive(Debug)]
pub struct ConnectedClients {
    clients: Table<ClientEndpoint>,
}

impl ConnectedClients {
    /// The connections by address.
    pub closed spec fn clients(&self) -> Map<Seq<char>, EndpointView> {
        self.clients.map()
    }

    /// The connections in the order of their addresses.
    pub closed spec fn roll(&self) -> Seq<(Seq<char>, EndpointView)> {
        self.clients.rows()
    }

    /// Every address stands once.
    pub closed spec fn wf(&self) -> bool {
        self.clients.wf()
    }

    /// The roll is the connections, each once.
    pub proof fn law_roll_is_complete(&self)
        requires
            self.wf(),
        ensures
            ordered_rows(self.roll()),
            self.clients() == rows_map(self.roll()),
    {
    }

    /// Nobody is connected.
    pub fn new() -> (res: Self)
        ensures
            res.wf(),
            res.clients() == Map::<Seq<char>, EndpointView>::empty(),
            res.roll() == Seq::<(Seq<char>, EndpointView)>::empty(),
    {
        ConnectedClients { clients: Table::new() }
    }

    /// Takes in a connection, in place of an earlier one with its address.
    pub fn register(&mut self, endpoint: ClientEndpoint)
        requires
            old(self).wf(),
        ensures
            final(self).wf(),
            final(self).clients() == old(self).clients().insert(
                endpoint.remote_addr@,
                endpoint.deep_view(),
            ),
    {
        self.clients.insert(endpoint.remote_addr.clone(), endpoint);
    }

    /// Takes out the connection with this address, if there is one.
    pub fn unregister(&mut self, remote_addr: &str)
        requires
            old(self).wf(),
        ensures
            final(self).wf(),
            final(self).clients() == old(self).clients().remove(remote_addr@),
    {
        self.clients.remove(remote_addr);
    }

    /// Notes the uid of a connection; one that is gone is left alone.
    pub fn set_uid(&mut self, remote_addr: &str, uid: String)
        requires
            old(self).wf(),
        ensures
            final(self).wf(),
            final(self).clients() == if old(self).clients().contains_key(remote_addr@) {
                old(self).clients().insert(
                    remote_addr@,
                    EndpointView {
                        uid: Some(uid@),
                        ..old(self).clients()[remote_addr@]
                    },
                )
            } else {
                old(self).clients()
            },
    {
        let found = match self.clients.get(remote_addr) {
            Some(endpoint) => Some(endpoint.duplicate()),
            None => None,
        };
        if let Some(endpoint) = found {
            let noted = ClientEndpoint { uid: Some(uid), ..endpoint };
            self.clients.insert(remote_addr.to_owned(), noted);
        }
    }

    /// All connections, in the order of their addresses.
    pub fn list(&self) -> (res: Vec<ClientEndpoint>)
        requires
            self.wf(),
        ensures
            res.deep_view() == self.roll().map_values(|row: (Seq<char>, EndpointView)| row.1),
    {
        let ghost rows = self.clients.rows();
        let mut res: Vec<ClientEndpoint> = Vec::new();
        let mut i: usize = 0;
        assert(res.deep_view() =~= seq![]);
        while i < self.clients.len()
            invariant
                rows == self.clients.rows(),
                i <= rows.len(),
                res.deep_view() == rows.take(i as int).map_values(
                    |row: (Seq<char>, EndpointView)| row.1,
                ),
            decreases rows.len() - i,
        {
            let ghost before = res;
            let endpoint = self.clients.value_at(i).duplicate();
            res.push(endpoint);
            proof {
                lemma_view_push(before, res, endpoint);
                assert(res.deep_view() =~= rows.take(i + 1).map_values(
                    |row: (Seq<char>, EndpointView)| row.1,
                ));
            }
            i = i + 1;
        }
        assert(rows.take(i as int) =~= rows);
        res
    }
}

impl Default for ConnectedClients {
    fn default() -> (res: Self)
        ensures
            res.wf(),
            res.clients() == Map::<Seq<char>, EndpointView>::empty(),
    {
        Self::new()
    }
}

} // verus!
