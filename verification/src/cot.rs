//! Cursor-on-target events: the envelope, and the details that routing reads.

use crate::table::{
    collect_rows, law_equal_maps_have_equal_rows, ordered_rows, rows_map, Table,
};
use crate::text::{cat, chars_of, clone_text, text_starts_with};
use crate::views::lemma_view_push;
use vstd::prelude::*;

verus! {

/// An event.
#[derive(Debug, Clone, PartialEq)]
pub struct Event {
    pub version: String,
    pub uid: String,
    pub cot_type: String,
    pub how: String,
    pub time: String,
    pub start: String,
    pub stale: String,
    pub point: Point,
    pub detail: Option<Detail>,
}

/// A position (WGS84). Each number is held as the bits of its IEEE 754 double:
/// nothing here computes with them.
#[derive(Debug, Clone, Copy)]
pub struct Point {
    pub lat: u64,
    pub lon: u64,
    pub hae: u64,
    pub ce: u64,
    pub le: u64,
}

/// The bits of a double without its sign.
pub open spec fn magnitude(bits: u64) -> u64 {
    (bits % 0x8000_0000_0000_0000) as u64
}

/// Whether a double is not a number.
pub open spec fn is_nan(bits: u64) -> bool {
    magnitude(bits) > 0x7ff0_0000_0000_0000
}

/// Whether two doubles are equal: what is not a number equals nothing, and the
/// two zeros are equal.
pub open spec fn same_double(a: u64, b: u64) -> bool {
    !is_nan(a) && !is_nan(b) && (a == b || (magnitude(a) == 0 && magnitude(b) == 0))
}

/// Whether two doubles are equal.
fn doubles_equal(a: u64, b: u64) -> (res: bool)
    ensures
        res == same_double(a, b),
{
    let x: u64 = a % 0x8000_0000_0000_0000;
    let y: u64 = b % 0x8000_0000_0000_0000;
    x <= 0x7ff0_0000_0000_0000 && y <= 0x7ff0_0000_0000_0000 && (a == b || (x == 0 && y == 0))
}

impl PartialEq for Point {
    fn eq(&self, other: &Point) -> (res: bool) {
        doubles_equal(self.lat, other.lat) && doubles_equal(self.lon, other.lon) && doubles_equal(
            self.hae,
            other.hae,
        ) && doubles_equal(self.ce, other.ce) && doubles_equal(self.le, other.le)
    }
}

impl vstd::std_specs::cmp::PartialEqSpecImpl for Point {
    open spec fn obeys_eq_spec() -> bool {
        true
    }

    open spec fn eq_spec(&self, other: &Point) -> bool {
        same_double(self.lat, other.lat) && same_double(self.lon, other.lon) && same_double(
            self.hae,
            other.hae,
        ) && same_double(self.ce, other.ce) && same_double(self.le, other.le)
    }
}

/// The details that the server understands.
#[derive(Debug, Clone, PartialEq)]
pub struct Detail {
    pub contact: Option<Contact>,
    pub chat: Option<Chat>,
    pub marti: Option<Marti>,
    pub remarks: Option<Remarks>,
}

impl Default for Detail {
    fn default() -> (res: Self)
        ensures
            res.contact is None,
            res.chat is None,
            res.marti is None,
            res.remarks is None,
    {
        Detail { contact: None, chat: None, marti: None, remarks: None }
    }
}

/// Who sends.
#[derive(Debug, Clone, PartialEq)]
pub struct Contact {
    pub callsign: Option<String>,
}

/// A chat message's room.
#[derive(Debug, Clone, PartialEq)]
pub struct Chat {
    pub id: String,
    pub chatroom: String,
    pub sender_callsign: Option<String>,
    pub group_owner: Option<String>,
    pub chatgrp: Option<ChatGroup>,
}

/// The members of a team chat: any number of numbered `uid` attributes.
#[derive(Debug, Clone, PartialEq)]
pub struct ChatGroup {
    pub id: Option<String>,
    attributes: Table<String>,
}

/// Individual recipients.
#[derive(Debug, Clone, PartialEq)]
pub struct Marti {
    pub dest: Vec<Dest>,
}

/// A recipient. Only the uid is routed by.
#[derive(Debug, Clone, PartialEq)]
pub struct Dest {
    pub uid: Option<String>,
    pub callsign: Option<String>,
}

/// Free text.
#[derive(Debug, Clone, PartialEq)]
pub struct Remarks {
    pub text: String,
}

/// Why an event cannot be read or written.
#[derive(Debug)]
pub enum CotError {
    Xml(String),
    InvalidTimestamp { field: String, value: String },
}

impl CotError {
    /// What `message` says.
    pub open spec fn message_spec(&self) -> Seq<char> {
        match *self {
            CotError::Xml(error) => "CoT XML (de)serialization failed: "@ + error@ + ""@,
            CotError::InvalidTimestamp { field, value } => "invalid timestamp "@ + field@ + (": "@
                + value@ + ""@),
        }
    }

    /// The error in words.
    pub fn message(&self) -> (res: String)
        ensures
            res@ == self.message_spec(),
    {
        match self {
            CotError::Xml(error) => cat("CoT XML (de)serialization failed: ", error, ""),
            CotError::InvalidTimestamp { field, value } => {
                cat("invalid timestamp ", field, &cat(": ", value, ""))
            },
        }
    }
}

/// The model of a recipient.
pub struct DestView {
    pub uid: Option<Seq<char>>,
    pub callsign: Option<Seq<char>>,
}

impl DeepView for Dest {
    type V = DestView;

    open spec fn deep_view(&self) -> DestView {
        DestView { uid: self.uid.deep_view(), callsign: self.callsign.deep_view() }
    }
}

/// Whether an attribute names a member: `@uid` and then digits, at least one.
pub open spec fn is_member_key(key: Seq<char>) -> bool {
    &&& "@uid"@.is_prefix_of(key)
    &&& key.len() > "@uid"@.len()
    &&& forall|i: int| "@uid"@.len() <= i < key.len() ==> '0' <= #[trigger] key[i] <= '9'
}

/// The members that attributes name, in the order of the attributes.
pub open spec fn members_of(attributes: Seq<(Seq<char>, Seq<char>)>) -> Seq<Seq<char>> {
    attributes.filter_map(
        |row: (Seq<char>, Seq<char>)|
            if is_member_key(row.0) {
                Some(row.1)
            } else {
                None
            },
    )
}

/// The uids of recipients that have one, in order.
pub open spec fn dest_uids(dest: Seq<DestView>) -> Seq<Seq<char>> {
    dest.filter_map(|d: DestView| d.uid)
}

/// Whether `key` names a member.
fn names_member(key: &str) -> (res: bool)
    ensures
        res == is_member_key(key@),
{
    proof {
        reveal_strlit("@uid");
    }
    if !text_starts_with(key, "@uid") {
        return false;
    }
    let chars = chars_of(key);
    if chars.len() == 4 {
        return false;
    }
    let mut i: usize = 4;
    while i < chars.len()
        invariant
            chars@ == key@,
            "@uid"@.len() == 4,
            4 <= i <= chars@.len(),
            forall|j: int| 4 <= j < i ==> '0' <= #[trigger] chars@[j] <= '9',
        decreases chars@.len() - i,
    {
        let c: char = chars[i];
        if !('0' <= c && c <= '9') {
            assert(!('0' <= key@[i as int] <= '9'));
            return false;
        }
        i = i + 1;
    }
    true
}

impl ChatGroup {
    /// The group's own id.
    pub closed spec fn group_id(&self) -> Option<Seq<char>> {
        self.id.deep_view()
    }

    /// The attributes other than the id, each once, in the order of their names.
    pub closed spec fn attributes(&self) -> Seq<(Seq<char>, Seq<char>)> {
        self.attributes.rows()
    }

    /// The names rise, so that no attribute stands twice.
    pub open spec fn wf(&self) -> bool {
        ordered_rows(self.attributes())
    }

    /// A group with these attributes; of two with one name the later counts.
    pub fn new(id: Option<String>, attributes: Vec<(String, String)>) -> (res: Self)
        ensures
            res.wf(),
            res.group_id() == id.deep_view(),
            res.attributes() == collect_rows(attributes.deep_view()),
    {
        let ghost all = attributes.deep_view();
        let mut table: Table<String> = Table::new();
        let mut i: usize = 0;
        assert(all.take(0) =~= seq![]);
        while i < attributes.len()
            invariant
                all == attributes.deep_view(),
                all.len() == attributes@.len(),
                i <= attributes@.len(),
                table.wf(),
                table.rows() == collect_rows(all.take(i as int)),
            decreases attributes@.len() - i,
        {
            assert(all.take(i + 1).drop_last() =~= all.take(i as int));
            table.insert(attributes[i].0.clone(), attributes[i].1.clone());
            i = i + 1;
        }
        assert(all.take(i as int) =~= all);
        ChatGroup { id, attributes: table }
    }

    /// The attributes other than the id.
    pub fn attribute_table(&self) -> (res: &Table<String>)
        ensures
            res.rows() == self.attributes(),
    {
        &self.attributes
    }

    /// The uids of the members, in the order of their attributes' names.
    pub fn member_uids(&self) -> (res: Vec<String>)
        ensures
            res.deep_view() == members_of(self.attributes()),
    {
        let ghost rows = self.attributes.rows();
        let ghost member = |row: (Seq<char>, Seq<char>)|
            if is_member_key(row.0) {
                Some(row.1)
            } else {
                None
            };
        let mut res: Vec<String> = Vec::new();
        let mut i: usize = 0;
        assert(res.deep_view() =~= seq![]);
        assert(rows.take(0).filter_map(member) =~= seq![]) by {
            reveal(Seq::filter_map);
        }
        while i < self.attributes.len()
            invariant
                rows == self.attributes.rows(),
                member == (|row: (Seq<char>, Seq<char>)|
                    if is_member_key(row.0) {
                        Some(row.1)
                    } else {
                        None
                    }),
                i <= rows.len(),
                res.deep_view() == rows.take(i as int).filter_map(member),
            decreases rows.len() - i,
        {
            let ghost before = res;
            proof {
                rows.lemma_filter_map_take_succ(member, i as int);
            }
            if names_member(self.attributes.name_at(i)) {
                let uid = self.attributes.value_at(i).clone();
                res.push(uid);
                proof {
                    lemma_view_push(before, res, uid);
                }
            }
            assert(res.deep_view() =~= rows.take(i + 1).filter_map(member));
            i = i + 1;
        }
        assert(rows.take(i as int) =~= rows);
        res
    }
}

/// Groups are told apart by what their attributes are, not by the order in which
/// they were given: the same attributes stand in the same rows.
pub proof fn law_groups_are_compared_by_their_attributes(a: ChatGroup, b: ChatGroup)
    requires
        a.wf(),
        b.wf(),
    ensures
        a.attributes() == b.attributes() <==> rows_map(a.attributes()) == rows_map(
            b.attributes(),
        ),
{
    if rows_map(a.attributes()) == rows_map(b.attributes()) {
        law_equal_maps_have_equal_rows(a.attributes(), b.attributes());
    }
}

/// The uids that an event is addressed to one by one, then its team's.
pub open spec fn addressees(event: Event) -> Seq<Seq<char>> {
    match event.detail {
        None => seq![],
        Some(detail) => {
            let direct = match detail.marti {
                Some(marti) => dest_uids(marti.dest.deep_view()),
                None => seq![],
            };
            let team = match detail.chat {
                Some(chat) => match chat.chatgrp {
                    Some(group) => members_of(group.attributes()),
                    None => seq![],
                },
                None => seq![],
            };
            direct + team
        },
    }
}

impl Marti {
    /// The uids of the recipients that have one.
    pub fn uids(&self) -> (res: Vec<String>)
        ensures
            res.deep_view() == dest_uids(self.dest.deep_view()),
    {
        let ghost all = self.dest.deep_view();
        let ghost pick = |d: DestView| d.uid;
        let mut res: Vec<String> = Vec::new();
        let mut i: usize = 0;
        assert(res.deep_view() =~= seq![]);
        assert(all.take(0).filter_map(pick) =~= seq![]) by {
            reveal(Seq::filter_map);
        }
        while i < self.dest.len()
            invariant
                all == self.dest.deep_view(),
                pick == (|d: DestView| d.uid),
                i <= self.dest@.len(),
                res.deep_view() == all.take(i as int).filter_map(pick),
            decreases self.dest@.len() - i,
        {
            let ghost before = res;
            proof {
                all.lemma_filter_map_take_succ(pick, i as int);
            }
            if let Some(uid) = clone_text(&self.dest[i].uid) {
                res.push(uid);
                proof {
                    lemma_view_push(before, res, uid);
                }
            }
            assert(res.deep_view() =~= all.take(i + 1).filter_map(pick));
            i = i + 1;
        }
        assert(all.take(i as int) =~= all);
        res
    }
}

impl Event {
    /// Whether this is a chat message.
    pub fn is_chat(&self) -> (res: bool)
        ensures
            res == "t-x-c-t"@.is_prefix_of(self.cot_type@),
    {
        text_starts_with(&self.cot_type, "t-x-c-t")
    }

    /// The uids that the event is addressed to; `None` where it names none and
    /// goes to everybody.
    pub fn addressed_uids(&self) -> (res: Option<Vec<String>>)
        ensures
            res.deep_view() == if addressees(*self).len() == 0 {
                None
            } else {
                Some(addressees(*self))
            },
    {
        match &self.detail {
            None => None,
            Some(detail) => {
                let mut uids: Vec<String> = match &detail.marti {
                    Some(marti) => marti.uids(),
                    None => Vec::new(),
                };
                let mut team: Vec<String> = match &detail.chat {
                    Some(chat) => match &chat.chatgrp {
                        Some(group) => group.member_uids(),
                        None => Vec::new(),
                    },
                    None => Vec::new(),
                };
                let ghost direct = uids.deep_view();
                let ghost members = team.deep_view();
                let ghost first = uids@;
                let ghost second = team@;
                uids.append(&mut team);
                proof {
                    assert(detail.marti is None ==> direct =~= seq![]);
                    assert(detail.chat is None ==> members =~= seq![]);
                    assert(detail.chat matches Some(c) && c.chatgrp is None ==> members =~= seq![]);
                    assert(uids@ == first + second);
                    assert(uids.deep_view() =~= direct + members);
                }
                if uids.is_empty() {
                    None
                } else {
                    Some(uids)
                }
            },
        }
    }
}

/// An event that names no recipient goes to everybody, and one that names any
/// does not: every uid it names is among its addressees.
pub proof fn law_named_recipients_are_addressed(event: Event, d: int, row: int)
    requires
        event.detail is Some,
    ensures
        event.detail->0.marti matches Some(marti) && 0 <= d < marti.dest.deep_view().len()
            && marti.dest.deep_view()[d].uid is Some ==> addressees(event).contains(
            event.detail->0.marti->0.dest.deep_view()[d].uid->0,
        ),
        event.detail->0.chat matches Some(chat) && chat.chatgrp matches Some(group) && 0 <= row
            < group.attributes().len() && is_member_key(group.attributes()[row].0) ==> addressees(
            event,
        ).contains(event.detail->0.chat->0.chatgrp->0.attributes()[row].1),
{
    let detail = event.detail->0;
    let direct = match detail.marti {
        Some(marti) => dest_uids(marti.dest.deep_view()),
        None => seq![],
    };
    let team = match detail.chat {
        Some(chat) => match chat.chatgrp {
            Some(group) => members_of(group.attributes()),
            None => seq![],
        },
        None => seq![],
    };
    if let Some(marti) = detail.marti {
        let dest = marti.dest.deep_view();
        if 0 <= d < dest.len() && dest[d].uid is Some {
            let uid = dest[d].uid->0;
            lemma_dest_listed(dest, d);
            vstd::seq_lib::lemma_seq_concat_contains_all_elements(direct, team, uid);
        }
    }
    if let Some(chat) = detail.chat {
        if let Some(group) = chat.chatgrp {
            let rows = group.attributes();
            if 0 <= row < rows.len() && is_member_key(rows[row].0) {
                lemma_member_listed(rows, row);
                vstd::seq_lib::lemma_seq_concat_contains_all_elements(direct, team, rows[row].1);
            }
        }
    }
}

/// An attribute names a member exactly if its name is `@uid` with a number
/// behind it: one digit or more, and nothing else.
pub proof fn law_members_are_numbered_uids(key: Seq<char>, number: Seq<char>)
    ensures
        is_member_key("@uid"@ + number) <==> number.len() > 0 && forall|i: int|
            0 <= i < number.len() ==> '0' <= #[trigger] number[i] <= '9',
        is_member_key(key) ==> key == "@uid"@ + key.skip(4) && key.skip(4).len() > 0,
{
    reveal_strlit("@uid");
    let whole = "@uid"@ + number;
    assert(whole.subrange(0, 4) =~= "@uid"@);
    assert forall|i: int| 0 <= i < number.len() implies whole[i + 4] == #[trigger] number[i] by {}
    if is_member_key(whole) {
        assert forall|i: int| 0 <= i < number.len() implies '0' <= #[trigger] number[i] <= '9' by {
            assert('0' <= whole[i + 4] <= '9');
        }
    }
    if forall|i: int| 0 <= i < number.len() ==> '0' <= #[trigger] number[i] <= '9' {
        assert forall|i: int| 4 <= i < whole.len() implies '0' <= #[trigger] whole[i] <= '9' by {
            assert('0' <= number[i - 4] <= '9');
        }
    }
    if is_member_key(key) {
        assert(key.subrange(0, 4) =~= "@uid"@);
        assert(key =~= "@uid"@ + key.skip(4));
    }
}

/// Some recipient of the event has this uid.
pub open spec fn names_recipient(event: Event, uid: Seq<char>) -> bool {
    event.detail matches Some(detail) && detail.marti matches Some(marti) && exists|d: int|
        0 <= d < marti.dest.deep_view().len() && (#[trigger] marti.dest.deep_view()[d]).uid == Some(
            uid,
        )
}

/// Some member attribute of the event's chat group has this value.
pub open spec fn names_team_member(event: Event, uid: Seq<char>) -> bool {
    event.detail matches Some(detail) && detail.chat matches Some(chat) && chat.chatgrp matches Some(
        group,
    ) && exists|row: int|
        0 <= row < group.attributes().len() && is_member_key(
            (#[trigger] group.attributes()[row]).0,
        ) && group.attributes()[row].1 == uid
}

/// The event names this uid.
pub open spec fn is_named(event: Event, uid: Seq<char>) -> bool {
    names_recipient(event, uid) || names_team_member(event, uid)
}

/// An event is addressed to exactly those it names: the recipients that have a
/// uid and the members of its chat group. No other part of it addresses
/// anybody, so that an event that names nobody goes to everybody.
pub proof fn law_exactly_the_named_are_addressed(event: Event, uid: Seq<char>)
    ensures
        addressees(event).contains(uid) <==> is_named(event, uid),
        addressees(event).len() == 0 <==> forall|u: Seq<char>| !#[trigger] is_named(event, u),
        event.detail is None ==> addressees(event).len() == 0,
        event.detail matches Some(detail) && detail.marti is None && (detail.chat matches Some(
            chat,
        ) ==> chat.chatgrp is None) ==> addressees(event).len() == 0,
{
    lemma_addressed(event, uid);
    let all = addressees(event);
    if all.len() > 0 {
        lemma_addressed(event, all[0]);
        assert(all.contains(all[0]));
        assert(is_named(event, all[0]));
    }
    assert forall|u: Seq<char>| all.len() == 0 implies !#[trigger] is_named(event, u) by {
        lemma_addressed(event, u);
    }
}

/// An event is addressed to exactly those it names.
proof fn lemma_addressed(event: Event, uid: Seq<char>)
    ensures
        addressees(event).contains(uid) <==> is_named(event, uid),
{
    if let Some(detail) = event.detail {
        let direct = match detail.marti {
            Some(marti) => dest_uids(marti.dest.deep_view()),
            None => seq![],
        };
        let team = match detail.chat {
            Some(chat) => match chat.chatgrp {
                Some(group) => members_of(group.attributes()),
                None => seq![],
            },
            None => seq![],
        };
        assert(addressees(event) == direct + team);
        vstd::seq_lib::lemma_seq_concat_contains_all_elements(direct, team, uid);
        if let Some(marti) = detail.marti {
            lemma_dests_hold(marti.dest.deep_view(), uid);
        }
        if let Some(chat) = detail.chat {
            if let Some(group) = chat.chatgrp {
                lemma_members_hold(group.attributes(), uid);
            }
        }
    }
}

/// What is listed is the uid of some recipient, and the other way round.
proof fn lemma_dests_hold(dest: Seq<DestView>, uid: Seq<char>)
    ensures
        dest_uids(dest).contains(uid) <==> exists|d: int|
            0 <= d < dest.len() && (#[trigger] dest[d]).uid == Some(uid),
    decreases dest.len(),
{
    reveal(Seq::filter_map);
    if exists|d: int| 0 <= d < dest.len() && (#[trigger] dest[d]).uid == Some(uid) {
        let d = choose|d: int| 0 <= d < dest.len() && (#[trigger] dest[d]).uid == Some(uid);
        lemma_dest_listed(dest, d);
    }
    if dest.len() > 0 && dest_uids(dest).contains(uid) {
        let head = dest.drop_last();
        lemma_dests_hold(head, uid);
        if dest_uids(head).contains(uid) {
            let d = choose|d: int| 0 <= d < head.len() && (#[trigger] head[d]).uid == Some(uid);
            assert(dest[d].uid == Some(uid));
        } else {
            assert(dest.last().uid is Some);
            assert(dest_uids(dest) == dest_uids(head) + seq![dest.last().uid->0]);
            let k = dest_uids(dest).index_of(uid);
            if k < dest_uids(head).len() {
                assert(dest_uids(head)[k] == uid);
            }
            assert(dest[dest.len() - 1].uid == Some(uid));
        }
    }
}

/// What is listed is the value of some member attribute, and the other way
/// round.
proof fn lemma_members_hold(rows: Seq<(Seq<char>, Seq<char>)>, uid: Seq<char>)
    ensures
        members_of(rows).contains(uid) <==> exists|row: int|
            0 <= row < rows.len() && is_member_key((#[trigger] rows[row]).0) && rows[row].1 == uid,
    decreases rows.len(),
{
    reveal(Seq::filter_map);
    if exists|row: int|
        0 <= row < rows.len() && is_member_key((#[trigger] rows[row]).0) && rows[row].1 == uid {
        let row = choose|row: int|
            0 <= row < rows.len() && is_member_key((#[trigger] rows[row]).0) && rows[row].1 == uid;
        lemma_member_listed(rows, row);
    }
    if rows.len() > 0 && members_of(rows).contains(uid) {
        let head = rows.drop_last();
        lemma_members_hold(head, uid);
        if members_of(head).contains(uid) {
            let row = choose|row: int|
                0 <= row < head.len() && is_member_key((#[trigger] head[row]).0) && head[row].1
                    == uid;
            assert(is_member_key(rows[row].0) && rows[row].1 == uid);
        } else {
            assert(is_member_key(rows.last().0));
            assert(members_of(rows) == members_of(head) + seq![rows.last().1]);
            let k = members_of(rows).index_of(uid);
            if k < members_of(head).len() {
                assert(members_of(head)[k] == uid);
            }
            assert(rows[rows.len() - 1].1 == uid);
        }
    }
}

/// A recipient's uid is listed.
proof fn lemma_dest_listed(dest: Seq<DestView>, d: int)
    requires
        0 <= d < dest.len(),
        dest[d].uid is Some,
    ensures
        dest_uids(dest).contains(dest[d].uid->0),
    decreases dest.len(),
{
    reveal(Seq::filter_map);
    let head = dest.drop_last();
    if d < head.len() {
        lemma_dest_listed(head, d);
        let k = dest_uids(head).index_of(dest[d].uid->0);
        if dest.last().uid is Some {
            assert(dest_uids(dest) == dest_uids(head) + seq![dest.last().uid->0]);
            assert(dest_uids(dest)[k] == dest_uids(head)[k]);
        }
    } else {
        assert(dest_uids(dest) == dest_uids(head) + seq![dest.last().uid->0]);
        assert(dest_uids(dest).last() == dest[d].uid->0);
    }
}

/// A member is listed.
proof fn lemma_member_listed(rows: Seq<(Seq<char>, Seq<char>)>, row: int)
    requires
        0 <= row < rows.len(),
        is_member_key(rows[row].0),
    ensures
        members_of(rows).contains(rows[row].1),
    decreases rows.len(),
{
    reveal(Seq::filter_map);
    let head = rows.drop_last();
    if row < head.len() {
        lemma_member_listed(head, row);
        let k = members_of(head).index_of(rows[row].1);
        if is_member_key(rows.last().0) {
            assert(members_of(rows) == members_of(head) + seq![rows.last().1]);
            assert(members_of(rows)[k] == members_of(head)[k]);
        }
    } else {
        assert(members_of(rows) == members_of(head) + seq![rows.last().1]);
        assert(members_of(rows).last() == rows[row].1);
    }
}

/// Two doubles are equal exactly if they are the same number: what is not a
/// number, with all exponent bits set and a fraction that is not zero, equals
/// nothing, not even itself; the two zeros are one number; and any other is
/// equal to itself alone.
pub proof fn law_doubles_are_compared_as_numbers(a: u64, b: u64)
    ensures
        same_double(a, b) == same_double(b, a),
        same_double(a, a) <==> a % 0x8000_0000_0000_0000 <= 0x7ff0_0000_0000_0000,
        same_double(a, b) ==> same_double(a, a) && same_double(b, b),
        a != b ==> (same_double(a, b) <==> (a == 0 || a == 0x8000_0000_0000_0000) && (b == 0 || b
            == 0x8000_0000_0000_0000)),
{
}

} // verus!
