//! The connected clients that others can address.

use crate::text::clone_text;
use crate::transport::connections::{ClientEndpoint, ConnectedClients, EndpointView};
use crate::views::lemma_view_push;
use vstd::prelude::*;

verus! {

/// A contact. Only what the server knows is filled in.
#[derive(Debug, PartialEq)]
pub struct Contact {
    pub uid: String,
    pub callsign: String,
    pub team: String,
    pub role: String,
    pub takv: String,
    pub notes: String,
    pub filter_groups: Vec<String>,
}

/// The model of a contact.
pub struct ContactView {
    pub uid: Seq<char>,
    pub callsign: Seq<char>,
    pub team: Seq<char>,
    pub role: Seq<char>,
    pub takv: Seq<char>,
    pub notes: Seq<char>,
    pub filter_groups: Seq<Seq<char>>,
}

impl DeepView for Contact {
    type V = ContactView;

    open spec fn deep_view(&self) -> ContactView {
        ContactView {
            uid: self.uid@,
            callsign: self.callsign@,
            team: self.team@,
            role: self.role@,
            takv: self.takv@,
            notes: self.notes@,
            filter_groups: self.filter_groups.deep_view(),
        }
    }
}

/// The contact that a connection is, once it has bound a uid; its call sign is
/// the common name of its certificate.
pub open spec fn contact_of(endpoint: EndpointView) -> Option<ContactView> {
    match endpoint.uid {
        None => None,
        Some(uid) => Some(
            ContactView {
                uid,
                callsign: match endpoint.common_name {
                    Some(name) => name,
                    None => seq![],
                },
                team: seq![],
                role: seq![],
                takv: seq![],
                notes: seq![],
                filter_groups: seq![],
            },
        ),
    }
}

/// The contacts among connections, in order.
pub open spec fn contacts_of(endpoints: Seq<EndpointView>) -> Seq<ContactView> {
    endpoints.filter_map(|e: EndpointView| contact_of(e))
}

/// The contacts among connections.
pub fn contacts_among(endpoints: &Vec<ClientEndpoint>) -> (res: Vec<Contact>)
    ensures
        res.deep_view() == contacts_of(endpoints.deep_view()),
{
    let ghost all = endpoints.deep_view();
    let ghost pick = |e: EndpointView| contact_of(e);
    let mut res: Vec<Contact> = Vec::new();
    let mut i: usize = 0;
    assert(res.deep_view() =~= seq![]);
    assert(all.take(0).filter_map(pick) =~= seq![]) by {
        reveal(Seq::filter_map);
    }
    while i < endpoints.len()
        invariant
            all == endpoints.deep_view(),
            pick == (|e: EndpointView| contact_of(e)),
            i <= endpoints@.len(),
            res.deep_view() == all.take(i as int).filter_map(pick),
        decreases endpoints@.len() - i,
    {
        let ghost before = res;
        proof {
            all.lemma_filter_map_take_succ(pick, i as int);
        }
        let endpoint = &endpoints[i];
        if let Some(uid) = clone_text(&endpoint.uid) {
            let callsign = match &endpoint.common_name {
                Some(name) => name.clone(),
                None => String::new(),
            };
            let filter_groups: Vec<String> = Vec::new();
            assert(filter_groups.deep_view() =~= seq![]);
            let contact = Contact {
                uid,
                callsign,
                team: String::new(),
                role: String::new(),
                takv: String::new(),
                notes: String::new(),
                filter_groups,
            };
            res.push(contact);
            proof {
                lemma_view_push(before, res, contact);
                assert(contact_of(all[i as int]) == Some(contact.deep_view()));
            }
        }
        assert(res.deep_view() =~= all.take(i + 1).filter_map(pick));
        i = i + 1;
    }
    assert(all.take(i as int) =~= all);
    res
}

/// The contacts among the live connections.
pub fn list_contacts(clients: &ConnectedClients) -> (res: Vec<Contact>)
    requires
        clients.wf(),
    ensures
        res.deep_view() == contacts_of(
            clients.roll().map_values(|row: (Seq<char>, EndpointView)| row.1),
        ),
{
    contacts_among(&clients.list())
}

/// The live connections.
pub fn list_client_endpoints(clients: &ConnectedClients) -> (res: Vec<ClientEndpoint>)
    requires
        clients.wf(),
    ensures
        res.deep_view() == clients.roll().map_values(|row: (Seq<char>, EndpointView)| row.1),
{
    clients.list()
}

/// A connection is a contact exactly if it has bound a uid, under that uid and
/// with the name of its certificate as its call sign, if it has one; nothing
/// else is made up.
pub proof fn law_who_is_a_contact(endpoint: EndpointView)
    ensures
        contact_of(endpoint) is Some <==> endpoint.uid is Some,
        contact_of(endpoint) matches Some(contact) ==> {
            &&& Some(contact.uid) == endpoint.uid
            &&& endpoint.common_name matches Some(name) ==> contact.callsign == name
            &&& endpoint.common_name is None ==> contact.callsign.len() == 0
            &&& contact.team.len() == 0
            &&& contact.role.len() == 0
            &&& contact.takv.len() == 0
            &&& contact.notes.len() == 0
            &&& contact.filter_groups.len() == 0
        },
{
}

/// The contacts are those of the connections that have bound a uid, each of
/// them and no others, in the order of the connections.
pub proof fn law_every_bound_connection_is_listed(
    endpoints: Seq<EndpointView>,
    last: EndpointView,
)
    ensures
        contacts_of(seq![]).len() == 0,
        last.uid is None ==> contacts_of(endpoints.push(last)) == contacts_of(endpoints),
        last.uid is Some ==> contacts_of(endpoints.push(last)).len() == contacts_of(
            endpoints,
        ).len() + 1 && contacts_of(endpoints.push(last)).drop_last() == contacts_of(endpoints)
            && Some(contacts_of(endpoints.push(last)).last().uid) == last.uid,
{
    reveal(Seq::filter_map);
    assert(endpoints.push(last).drop_last() =~= endpoints);
    if last.uid is Some {
        assert(contacts_of(endpoints.push(last)) == contacts_of(endpoints) + seq![
            contact_of(last)->0,
        ]);
        assert(contacts_of(endpoints.push(last)).drop_last() =~= contacts_of(endpoints));
    }
}

} // verus!
