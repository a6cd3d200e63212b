//! Server messages and inbound client operations.

use vstd::prelude::*;

use crate::client::token_shape;
use crate::codec::decode_frame;
use crate::codec::encode_fields;
use crate::codec::encode_message_fields;
use crate::codec::frame;
use crate::codec::mention_seq;
use crate::codec::scan_mentions;
use crate::random::sample_alphanumeric;

verus! {

/// The identifier under which join and leave notices are authored.
pub open spec fn system_author() -> Seq<char> {
    "0000000000000000"@
}

/// A broadcast event as delivered to one recipient. The mention flag is
/// computed per recipient and never stored centrally.
pub struct Message {
    /// Freshly generated sixteen-character identifier of the event.
    pub message_uuid: String,
    pub author_uuid: String,
    pub data: String,
    pub edited: bool,
    pub is_mentioned: bool,
}

impl Message {
    /// A fresh sixteen-character message identifier.
    fn generate_message_id() -> (r: String)
        ensures
            token_shape(r@),
    {
        sample_alphanumeric(16)
    }

    /// A new, unedited, unflagged message with a fresh identifier.
    pub fn new(data: String, author_uuid: String) -> (r: Message)
        ensures
            token_shape(r.message_uuid@),
            r.author_uuid == author_uuid,
            r.data == data,
            r.edited == false,
            r.is_mentioned == false,
    {
        Message {
            message_uuid: Self::generate_message_id(),
            author_uuid,
            data,
            edited: false,
            is_mentioned: false,
        }
    }

    /// A synthetic system message, used for the join and leave notices.
    pub fn new_server_message(data: String) -> (r: Message)
        ensures
            token_shape(r.message_uuid@),
            r.author_uuid@ == system_author(),
            r.data == data,
            r.edited == false,
            r.is_mentioned == false,
    {
        Self::new(data, "0000000000000000".to_owned())
    }

    /// The identifiers mentioned in this message's body, in order of
    /// appearance, duplicates preserved.
    pub fn mentions(&self) -> (r: Vec<String>)
        ensures
            r.deep_view() == mention_seq(self.data@),
    {
        scan_mentions(self.data.as_str())
    }

    /// The same message with the per-recipient mention flag set.
    pub fn set_mention(&self) -> (r: Message)
        ensures
            r == (Message { is_mentioned: true, ..*self }),
    {
        Message {
            message_uuid: self.message_uuid.clone(),
            author_uuid: self.author_uuid.clone(),
            data: self.data.clone(),
            edited: self.edited,
            is_mentioned: true,
        }
    }

    /// The outbound JSON encoding of this message.
    pub fn to_message(&self) -> (r: String)
        ensures
            r@ == encode_fields(
                self.message_uuid@,
                self.author_uuid@,
                self.data@,
                self.edited,
                self.is_mentioned,
            ),
    {
        encode_message_fields(
            self.message_uuid.as_str(),
            self.author_uuid.as_str(),
            self.data.as_str(),
            self.edited,
            self.is_mentioned,
        )
    }
}

/// The operation of an inbound frame.
#[derive(Clone, Copy, Debug, PartialEq, Eq, Structural)]
pub enum MessageOps {
    NewMessage,
    EditMessage,
    DeleteMessage,
}

/// The operation named by a decoded operation number.
pub open spec fn op_of(d: u8) -> MessageOps {
    if d == 0 {
        MessageOps::NewMessage
    } else if d == 1 {
        MessageOps::EditMessage
    } else {
        MessageOps::DeleteMessage
    }
}

/// A decoded inbound operation.
pub struct ClientSend {
    pub op: MessageOps,
    pub allowed_mentions: bool,
    /// For an edit or a delete: the target identifier, exactly sixteen
    /// characters. Always absent for a new message.
    pub message_uuid: Option<String>,
    pub message: String,
}

impl ClientSend {
    /// Decodes one inbound frame. Returns `None` exactly when the text is
    /// not a well-formed frame of the grammar in [`crate::codec`]: in
    /// particular an edit or delete whose identifier is shorter than sixteen
    /// characters after truncation is rejected here, and a new message
    /// discards any supplied identifier.
    pub fn parse(data: &str) -> (r: Option<ClientSend>)
        ensures
            r is Some <==> frame(data@) is Some,
            r matches Some(cs) ==> frame(data@) matches Some(f) && cs.op == op_of(f.op)
                && cs.allowed_mentions == f.allowed_mentions && cs.message_uuid.deep_view()
                == f.message_uuid && cs.message@ == f.message,
            r matches Some(cs) ==> (cs.op == MessageOps::NewMessage ==> cs.message_uuid is None),
            r matches Some(cs) ==> (cs.op != MessageOps::NewMessage ==> (cs.message_uuid matches Some(
                u,
            ) && u@.len() == 16)),
    {
        match decode_frame(data) {
            None => None,
            Some(d) => {
                let op = match d.op {
                    0 => MessageOps::NewMessage,
                    1 => MessageOps::EditMessage,
                    _ => MessageOps::DeleteMessage,
                };
                Some(
                    ClientSend {
                        op,
                        allowed_mentions: d.allowed_mentions,
                        message_uuid: d.message_uuid,
                        message: d.message,
                    },
                )
            },
        }
    }

    /// Applies the identifier rule in place: a new message discards any
    /// identifier; an edit or a delete keeps its identifier truncated to the
    /// first sixteen characters, dropping it when fewer remain.
    pub fn parse_message_uuid(&mut self)
        ensures
            final(self).op == old(self).op,
            final(self).allowed_mentions == old(self).allowed_mentions,
            final(self).message == old(self).message,
            old(self).op == MessageOps::NewMessage ==> final(self).message_uuid is None,
            old(self).op != MessageOps::NewMessage ==> match old(self).message_uuid {
                None => final(self).message_uuid is None,
                Some(u) => if u@.len() >= 16 {
                    final(self).message_uuid.deep_view() == Some(u@.take(16))
                } else {
                    final(self).message_uuid is None
                },
            },
    {
        match self.op {
            MessageOps::NewMessage => {
                self.message_uuid = None;
            },
            MessageOps::EditMessage | MessageOps::DeleteMessage => {
                let uuid = match &self.message_uuid {
                    None => None,
                    Some(u) => {
                        let uc = crate::text::str_to_chars(u.as_str());
                        if uc.len() >= 16 {
                            Some(crate::codec::take_prefix(u, 16))
                        } else {
                            None
                        }
                    },
                };
                self.message_uuid = uuid;
            },
        }
    }
}

} // verus!
