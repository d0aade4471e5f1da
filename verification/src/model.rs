use vstd::prelude::*;

verus! {

/// A peer as seen by the registry: identity, display name, the address the
/// peer was last observed at, and the time of its latest announcement.
#[derive(Debug)]
pub struct Peer {
    pub id: String,
    pub name: String,
    pub ip: String,
    pub port: u16,
    pub last_seen: i64,
}

/// Mathematical model of a [`Peer`].
#[verifier::ext_equal]
pub struct PeerModel {
    pub id: Seq<char>,
    pub name: Seq<char>,
    pub ip: Seq<char>,
    pub port: u16,
    pub last_seen: i64,
}

impl View for Peer {
    type V = PeerModel;

    open spec fn view(&self) -> PeerModel {
        PeerModel {
            id: self.id@,
            name: self.name@,
            ip: self.ip@,
            port: self.port,
            last_seen: self.last_seen,
        }
    }
}

impl Clone for Peer {
    fn clone(&self) -> (r: Self)
        ensures
            r == self,
    {
        Peer {
            id: self.id.clone(),
            name: self.name.clone(),
            ip: self.ip.clone(),
            port: self.port,
            last_seen: self.last_seen,
        }
    }
}

/// A chat message. Immutable once created; `content` carries the text of a
/// text message, or a human-readable caption for a file transfer. For file
/// messages `file_name` holds the original name and `file_data` the payload
/// in a text-safe encoding.
#[derive(Debug)]
pub struct Message {
    pub id: String,
    pub from_id: String,
    pub from_name: String,
    pub to_id: String,
    pub content: String,
    pub timestamp: i64,
    pub is_file: bool,
    pub file_name: Option<String>,
    pub file_data: Option<String>,
}

/// Mathematical model of a [`Message`].
#[verifier::ext_equal]
pub struct MessageModel {
    pub id: Seq<char>,
    pub from_id: Seq<char>,
    pub from_name: Seq<char>,
    pub to_id: Seq<char>,
    pub content: Seq<char>,
    pub timestamp: i64,
    pub is_file: bool,
    pub file_name: Option<Seq<char>>,
    pub file_data: Option<Seq<char>>,
}

pub open spec fn opt_string_view(o: Option<String>) -> Option<Seq<char>> {
    match o {
        Option::None => Option::None,
        Option::Some(s) => Option::Some(s@),
    }
}

impl View for Message {
    type V = MessageModel;

    open spec fn view(&self) -> MessageModel {
        MessageModel {
            id: self.id@,
            from_id: self.from_id@,
            from_name: self.from_name@,
            to_id: self.to_id@,
            content: self.content@,
            timestamp: self.timestamp,
            is_file: self.is_file,
            file_name: opt_string_view(self.file_name),
            file_data: opt_string_view(self.file_data),
        }
    }
}

impl DeepView for Message {
    type V = MessageModel;

    open spec fn deep_view(&self) -> MessageModel {
        self.view()
    }
}

impl MessageModel {
    /// The presence rule for file fields: a message carries a file name and a
    /// file payload exactly when it is a file message.
    pub open spec fn wf(self) -> bool {
        &&& self.file_name is Some <==> self.is_file
        &&& self.file_data is Some <==> self.is_file
    }

    /// Whether `id` is a party (sender or receiver) of this message.
    pub open spec fn involves(self, id: Seq<char>) -> bool {
        self.from_id == id || self.to_id == id
    }

    /// Whether this message belongs to the conversation between `a` and `b`.
    pub open spec fn between(self, a: Seq<char>, b: Seq<char>) -> bool {
        (self.from_id == a && self.to_id == b) || (self.from_id == b && self.to_id == a)
    }
}

fn clone_opt_string(o: &Option<String>) -> (r: Option<String>)
    ensures
        r == o,
{
    match o {
        Option::None => Option::None,
        Option::Some(s) => Option::Some(s.clone()),
    }
}

impl Clone for Message {
    fn clone(&self) -> (r: Self)
        ensures
            r == self,
    {
        Message {
            id: self.id.clone(),
            from_id: self.from_id.clone(),
            from_name: self.from_name.clone(),
            to_id: self.to_id.clone(),
            content: self.content.clone(),
            timestamp: self.timestamp,
            is_file: self.is_file,
            file_name: clone_opt_string(&self.file_name),
            file_data: clone_opt_string(&self.file_data),
        }
    }
}

/// A discovery announcement: the record a node broadcasts periodically so
/// that others can learn its id, display name and message port.
pub struct Announcement {
    pub id: String,
    pub name: String,
    pub port: u16,
}

/// Mathematical model of an [`Announcement`].
#[verifier::ext_equal]
pub struct AnnouncementModel {
    pub id: Seq<char>,
    pub name: Seq<char>,
    pub port: u16,
}

impl View for Announcement {
    type V = AnnouncementModel;

    open spec fn view(&self) -> AnnouncementModel {
        AnnouncementModel { id: self.id@, name: self.name@, port: self.port }
    }
}

impl Clone for Announcement {
    fn clone(&self) -> (r: Self)
        ensures
            r == self,
    {
        Announcement { id: self.id.clone(), name: self.name.clone(), port: self.port }
    }
}

/// The wire discriminator of an envelope: a presentation hint telling the
/// receiver whether the payload is a plain text message or a file transfer.
#[derive(PartialEq, Eq, Structural, Clone, Copy)]
pub enum EnvelopeKind {
    Text,
    File,
}

/// The wire wrapper around a [`Message`]: what one node writes to another
/// over the message port.
pub struct Envelope {
    pub kind: EnvelopeKind,
    pub payload: Message,
}

/// Mathematical model of an [`Envelope`].
#[verifier::ext_equal]
pub struct EnvelopeModel {
    pub kind: EnvelopeKind,
    pub payload: MessageModel,
}

impl View for Envelope {
    type V = EnvelopeModel;

    open spec fn view(&self) -> EnvelopeModel {
        EnvelopeModel { kind: self.kind, payload: self.payload@ }
    }
}

/// A human-readable arrival alert handed to the notification sink.
pub struct Notification {
    pub title: String,
    pub body: String,
}

/// Mathematical model of a [`Notification`].
#[verifier::ext_equal]
pub struct NotificationModel {
    pub title: Seq<char>,
    pub body: Seq<char>,
}

impl View for Notification {
    type V = NotificationModel;

    open spec fn view(&self) -> NotificationModel {
        NotificationModel { title: self.title@, body: self.body@ }
    }
}

} // verus!
