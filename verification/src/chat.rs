use vstd::prelude::*;

use vstd::string::StrSliceExecFns;
use vstd::string::StringExecFns;

use crate::codec::{decode_announcement, decode_envelope, spec_decode_announcement,
    spec_decode_envelope};
use crate::model::{Message, Notification, Peer, PeerModel};
use crate::model::Announcement;
use crate::registry::PeerRegistry;
use crate::FRESHNESS_WINDOW_SECS;

verus! {

// ---------------------------------------------------------------------------
// Trusted views of the outside world: the clock, the id generator and the
// file-payload encoding. Each is one call into an outside crate.
// ---------------------------------------------------------------------------
/// Relies on `chrono::Utc::now` and `DateTime::timestamp`: the current time
/// in whole seconds since the Unix epoch. Nothing is assumed of the value.
#[verifier::external_body]
fn now_secs() -> i64 {
    chrono::Utc::now().timestamp()
}

/// Relies on `chrono::Utc::now` and `DateTime::timestamp_millis`: the current
/// time in milliseconds since the Unix epoch. Nothing is assumed of the value.
#[verifier::external_body]
fn now_millis() -> i64 {
    chrono::Utc::now().timestamp_millis()
}

/// Relies on `uuid::Uuid::new_v4` and its `Display` form: a fresh random id
/// in the 36-character hyphenated form. Nothing is assumed beyond the length.
#[verifier::external_body]
fn fresh_id() -> (r: String)
    ensures
        r@.len() == 36,
{
    uuid::Uuid::new_v4().to_string()
}

/// The standard base64 form of a byte sequence, as computed by the base64
/// crate's standard-alphabet engine.
pub uninterp spec fn base64_of(b: Seq<u8>) -> Seq<char>;

/// Relies on `base64::Engine::encode` with the `STANDARD` engine: the
/// encoding depends on the bytes alone, and no bytes encode to no characters.
#[verifier::external_body]
fn base64_encode(data: &Vec<u8>) -> (r: String)
    ensures
        r@ == base64_of(data@),
        data@.len() == 0 ==> r@.len() == 0,
{
    base64::Engine::encode(&base64::engine::general_purpose::STANDARD, data)
}

// ---------------------------------------------------------------------------
// The session state and its command surface.
// ---------------------------------------------------------------------------
/// The reason a send is refused before any connection is attempted.
#[derive(Debug, PartialEq, Eq, Structural, Clone, Copy)]
pub enum SendError {
    /// The target id has never announced itself to this node.
    UnknownPeer,
}

/// The messages of `msgs` that belong to the conversation between `peer_id`
/// and `my_id`, in their order in `msgs`.
pub open spec fn conversation_of(msgs: Seq<Message>, peer_id: Seq<char>, my_id: Seq<char>) -> Seq<
    Message,
> {
    msgs.filter(|m: Message| m@.between(peer_id, my_id))
}

/// The state owned by a running node: its identity, the peer registry filled
/// by discovery, and the append-only log of every message the node sent or
/// received.
pub struct AppState {
    pub my_id: String,
    pub my_name: String,
    pub my_port: u16,
    pub peers: PeerRegistry,
    pub messages: Vec<Message>,
}

impl AppState {
    /// The registry never stores the node itself, and the log holds only
    /// well-formed messages of conversations the node is a party of.
    pub open spec fn wf(&self) -> bool {
        &&& self.peers.wf()
        &&& !self.peers@.contains_key(self.my_id@)
        &&& forall|i: int|
            0 <= i < self.messages@.len() ==> (#[trigger] self.messages@[i])@.involves(self.my_id@)
        &&& forall|i: int| 0 <= i < self.messages@.len() ==> (#[trigger] self.messages@[i])@.wf()
    }

    pub fn new(my_id: String, my_name: String, my_port: u16) -> (r: AppState)
        ensures
            r.wf(),
            r.my_id@ == my_id@,
            r.my_name@ == my_name@,
            r.my_port == my_port,
            r.peers@ == Map::<Seq<char>, PeerModel>::empty(),
            r.messages@.len() == 0,
    {
        AppState { my_id, my_name, my_port, peers: PeerRegistry::new(), messages: Vec::new() }
    }

    /// The local identity shown to the UI: the node's id and display name.
    pub fn get_my_info(&self) -> (r: (String, String))
        ensures
            r.0@ == self.my_id@,
            r.1@ == self.my_name@,
    {
        (self.my_id.clone(), self.my_name.clone())
    }

    /// Rebind the advertised display name; announcements made afterwards use
    /// the new value, and nothing else of the state moves.
    pub fn set_my_name(&mut self, name: String)
        requires
            old(self).wf(),
        ensures
            final(self).wf(),
            final(self).my_name == name,
            final(self).my_id == old(self).my_id,
            final(self).my_port == old(self).my_port,
            final(self).peers == old(self).peers,
            final(self).messages == old(self).messages,
    {
        self.my_name = name;
    }

    /// The announcement the node broadcasts: its id, current display name
    /// and message port.
    pub fn make_announcement(&self) -> (r: Announcement)
        ensures
            r@.id == self.my_id@,
            r@.name == self.my_name@,
            r@.port == self.my_port,
    {
        Announcement { id: self.my_id.clone(), name: self.my_name.clone(), port: self.my_port }
    }

    /// The peers fresh at time `now`: exactly the registry entries announced
    /// less than the freshness window before `now`, in unspecified order.
    pub fn get_peers_at(&self, now: i64) -> (r: Vec<Peer>)
        requires
            self.wf(),
        ensures
            forall|k: int|
                0 <= k < r@.len() ==> {
                    &&& self.peers@.contains_key((#[trigger] r@[k])@.id)
                    &&& self.peers@[r@[k]@.id] == r@[k]@
                    &&& now - r@[k]@.last_seen < FRESHNESS_WINDOW_SECS
                },
            forall|id: Seq<char>|
                self.peers@.contains_key(id) && now - (#[trigger] self.peers@[id]).last_seen
                    < FRESHNESS_WINDOW_SECS ==> exists|k: int|
                    0 <= k < r@.len() && r@[k]@.id == id,
            forall|k1: int, k2: int| 0 <= k1 < k2 < r@.len() ==> r@[k1]@.id != r@[k2]@.id,
    {
        self.peers.snapshot(FRESHNESS_WINDOW_SECS, now)
    }

    /// The registry read the UI polls: the snapshot at the clock's current
    /// time. Whatever the clock returned, everything handed out is a stored
    /// registry entry.
    pub fn get_peers(&self) -> (r: Vec<Peer>)
        requires
            self.wf(),
        ensures
            forall|k: int|
                0 <= k < r@.len() ==> self.peers@.contains_key((#[trigger] r@[k])@.id)
                    && self.peers@[r@[k]@.id] == r@[k]@,
    {
        let now = now_secs();
        self.get_peers_at(now)
    }

    /// All stored messages of the conversation between the local node and
    /// `peer_id`, in storage order.
    pub fn get_messages(&self, peer_id: &String) -> (r: Vec<Message>)
        ensures
            r@ == conversation_of(self.messages@, peer_id@, self.my_id@),
    {
        let ghost pred = |m: Message| m@.between(peer_id@, self.my_id@);
        let mut out: Vec<Message> = Vec::new();
        let mut i: usize = 0;
        while i < self.messages.len()
            invariant
                i <= self.messages@.len(),
                out@ == self.messages@.take(i as int).filter(pred),
                pred == (|m: Message| m@.between(peer_id@, self.my_id@)),
            decreases self.messages@.len() - i,
        {
            let m = &self.messages[i];
            let ghost taken = self.messages@.take(i as int);
            proof {
                assert(self.messages@.take(i as int + 1).drop_last() =~= taken);
                assert(self.messages@.take(i as int + 1).last() == self.messages@[i as int]);
                reveal_with_fuel(Seq::filter, 2);
            }
            if (m.from_id == *peer_id && m.to_id == self.my_id) || (m.from_id == self.my_id
                && m.to_id == *peer_id) {
                out.push(m.clone());
            }
            i += 1;
        }
        proof {
            assert(self.messages@.take(self.messages@.len() as int) =~= self.messages@);
        }
        out
    }

    /// Build the text message `send_message` sends: the peer record to dial
    /// and a fresh message from the local node. Succeeds exactly when the
    /// target is a stored peer; nothing is sent or logged here.
    pub fn prepare_text_message(&self, to_id: &String, content: String) -> (r: Result<
        (Peer, Message),
        SendError,
    >)
        requires
            self.wf(),
        ensures
            r is Ok <==> self.peers@.contains_key(to_id@),
            r matches Ok(t) ==> {
                &&& t.0@ == self.peers@[to_id@]
                &&& t.1@.from_id == self.my_id@
                &&& t.1@.from_name == self.my_name@
                &&& t.1@.to_id == to_id@
                &&& t.1@.content == content@
                &&& t.1@.is_file == false
                &&& t.1@.file_name is None
                &&& t.1@.file_data is None
                &&& t.1@.wf()
                &&& t.1@.involves(self.my_id@)
            },
            r matches Err(e) ==> e == SendError::UnknownPeer,
    {
        let peer = match self.peers.get(to_id) {
            Option::Some(p) => p,
            Option::None => { return Result::Err(SendError::UnknownPeer) },
        };
        let msg = Message {
            id: fresh_id(),
            from_id: self.my_id.clone(),
            from_name: self.my_name.clone(),
            to_id: to_id.clone(),
            content,
            timestamp: now_millis(),
            is_file: false,
            file_name: Option::None,
            file_data: Option::None,
        };
        Result::Ok((peer, msg))
    }

    /// Build the file message `send_file` sends, from the file's name and
    /// bytes as read by the caller: the caption names the file and the
    /// payload is carried base64-encoded. Succeeds exactly when the target
    /// is a stored peer; nothing is sent or logged here.
    pub fn prepare_file_message(&self, to_id: &String, file_name: String, data: &Vec<u8>) -> (r:
        Result<(Peer, Message), SendError>)
        requires
            self.wf(),
        ensures
            r is Ok <==> self.peers@.contains_key(to_id@),
            r matches Ok(t) ==> {
                &&& t.0@ == self.peers@[to_id@]
                &&& t.1@.from_id == self.my_id@
                &&& t.1@.from_name == self.my_name@
                &&& t.1@.to_id == to_id@
                &&& t.1@.content == "Sent file: "@ + file_name@
                &&& t.1@.is_file == true
                &&& t.1@.file_name == Some(file_name@)
                &&& t.1@.file_data == Some(base64_of(data@))
                &&& t.1@.wf()
                &&& t.1@.involves(self.my_id@)
            },
            r matches Err(e) ==> e == SendError::UnknownPeer,
    {
        let peer = match self.peers.get(to_id) {
            Option::Some(p) => p,
            Option::None => { return Result::Err(SendError::UnknownPeer) },
        };
        let content = String::from_str("Sent file: ").concat(file_name.as_str());
        let encoded = base64_encode(data);
        let msg = Message {
            id: fresh_id(),
            from_id: self.my_id.clone(),
            from_name: self.my_name.clone(),
            to_id: to_id.clone(),
            content,
            timestamp: now_millis(),
            is_file: true,
            file_name: Option::Some(file_name),
            file_data: Option::Some(encoded),
        };
        Result::Ok((peer, msg))
    }

    /// Append a message of one of the node's own conversations to the log;
    /// the send path calls this once the envelope has been written.
    pub fn record_sent(&mut self, m: Message)
        requires
            old(self).wf(),
            m@.involves(old(self).my_id@),
            m@.wf(),
        ensures
            final(self).wf(),
            final(self).messages@ == old(self).messages@.push(m),
            final(self).my_id == old(self).my_id,
            final(self).my_name == old(self).my_name,
            final(self).my_port == old(self).my_port,
            final(self).peers == old(self).peers,
    {
        self.messages.push(m);
    }

    /// Take one received announcement datagram: on a clean decode of another
    /// node's announcement, upsert that node with the datagram's observed
    /// source address and `now`; everything else leaves the registry alone.
    pub fn handle_announcement(&mut self, data: &Vec<u8>, source_ip: String, now: i64)
        requires
            old(self).wf(),
        ensures
            final(self).wf(),
            final(self).my_id == old(self).my_id,
            final(self).my_name == old(self).my_name,
            final(self).my_port == old(self).my_port,
            final(self).messages == old(self).messages,
            match spec_decode_announcement(data@) {
                Option::Some(a) => {
                    if a.id != old(self).my_id@ {
                        final(self).peers@ == old(self).peers@.insert(
                            a.id,
                            PeerModel {
                                id: a.id,
                                name: a.name,
                                ip: source_ip@,
                                port: a.port,
                                last_seen: now,
                            },
                        )
                    } else {
                        final(self).peers@ == old(self).peers@
                    }
                },
                Option::None => final(self).peers@ == old(self).peers@,
            },
    {
        let ann = match decode_announcement(data) {
            Option::Some(a) => a,
            Option::None => { return ; },
        };
        if ann.id == self.my_id {
            return ;
        }
        let peer = Peer {
            id: ann.id,
            name: ann.name,
            ip: source_ip,
            port: ann.port,
            last_seen: now,
        };
        self.peers.upsert(peer);
    }

    /// Take the bytes read from one inbound connection. A clean decode of an
    /// envelope whose message is well-formed and names this node appends that
    /// message to the log and yields it with its arrival alert; anything else
    /// (malformed bytes, a message that breaks the file-field presence rule,
    /// or a conversation this node is no party of) changes nothing and yields
    /// nothing.
    pub fn handle_inbound(&mut self, data: &Vec<u8>) -> (r: Option<(Message, Notification)>)
        requires
            old(self).wf(),
        ensures
            final(self).wf(),
            final(self).my_id == old(self).my_id,
            final(self).my_name == old(self).my_name,
            final(self).my_port == old(self).my_port,
            final(self).peers == old(self).peers,
            match r {
                Option::Some(t) => {
                    &&& spec_decode_envelope(data@) matches Some(e) && e.payload == t.0@
                    &&& t.0@.involves(old(self).my_id@)
                    &&& t.0@.wf()
                    &&& final(self).messages@ == old(self).messages@.push(t.0)
                    &&& t.1@.title == "Message from "@ + t.0@.from_name
                    &&& t.1@.body == (if t.0@.is_file {
                        "Sent a file: "@ + (match t.0@.file_name {
                            Option::Some(n) => n,
                            Option::None => Seq::<char>::empty(),
                        })
                    } else {
                        t.0@.content.take(
                            if t.0@.content.len() < 50 {
                                t.0@.content.len() as int
                            } else {
                                50
                            },
                        )
                    })
                },
                Option::None => {
                    &&& final(self).messages == old(self).messages
                    &&& (spec_decode_envelope(data@) matches Some(e) ==> !e.payload.involves(
                        old(self).my_id@,
                    ) || !e.payload.wf())
                },
            },
    {
        let env = match decode_envelope(data) {
            Option::Some(e) => e,
            Option::None => { return Option::None },
        };
        let m = env.payload;
        if !(m.from_id == self.my_id || m.to_id == self.my_id) {
            return Option::None;
        }
        let name_present = match &m.file_name {
            Option::Some(_) => true,
            Option::None => false,
        };
        let data_present = match &m.file_data {
            Option::Some(_) => true,
            Option::None => false,
        };
        if name_present != m.is_file || data_present != m.is_file {
            return Option::None;
        }
        let title = String::from_str("Message from ").concat(m.from_name.as_str());
        let body = if m.is_file {
            let n = match &m.file_name {
                Option::Some(x) => x.clone(),
                Option::None => String::new(),
            };
            String::from_str("Sent a file: ").concat(n.as_str())
        } else {
            let s = m.content.as_str();
            let l = s.unicode_len();
            let end: usize = if l < 50 {
                l
            } else {
                50
            };
            let t = s.substring_char(0, end);
            String::from_str(t)
        };
        proof {
            assert(m.content@.subrange(
                0,
                if m.content@.len() < 50 {
                    m.content@.len() as int
                } else {
                    50
                },
            ) =~= m.content@.take(
                if m.content@.len() < 50 {
                    m.content@.len() as int
                } else {
                    50
                },
            ));
        }
        let notif = Notification { title, body };
        self.messages.push(m.clone());
        Option::Some((m, notif))
    }
}

/// Every message `get_messages` returns for a conversation names the local
/// node or the queried peer on both ends: it is between the two of them, so
/// each of them is a party of it.
pub proof fn lemma_get_messages_between_parties(
    msgs: Seq<Message>,
    my_id: Seq<char>,
    peer_id: Seq<char>,
)
    ensures
        forall|k: int|
            0 <= k < conversation_of(msgs, peer_id, my_id).len() ==> {
                let got = #[trigger] conversation_of(msgs, peer_id, my_id)[k];
                &&& got@.between(peer_id, my_id)
                &&& got@.involves(my_id)
                &&& got@.involves(peer_id)
            },
{
    let pred = |m: Message| m@.between(peer_id, my_id);
    assert forall|k: int| 0 <= k < conversation_of(msgs, peer_id, my_id).len() implies {
        let got = #[trigger] conversation_of(msgs, peer_id, my_id)[k];
        &&& got@.between(peer_id, my_id)
        &&& got@.involves(my_id)
        &&& got@.involves(peer_id)
    } by {
        msgs.lemma_filter_pred(pred, k);
    }
}

} // verus!
