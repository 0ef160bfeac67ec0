//! The control-protocol codec: the multi-frame wire message, its header, and
//! the error taxonomy whose codes travel inside error replies.
//!
//! A control message is an ordered list of at least four byte frames:
//! version, receiver full name, sender full name, a 20-byte header
//! (conversation-id, message-id, message-type), then any payload frames.

use vstd::prelude::*;

use crate::VERSION;
use crate::base::ContentTypes;
use crate::base::FullName;
use crate::base::create_conversation_id;
use crate::base::spec_parse_full_name;

verus! {

broadcast use crate::base::lemma_vec_u8_deep_view;

/// A frame vector failed to parse as a control message.
#[derive(Clone, Copy, PartialEq, Eq, Structural, Debug)]
pub enum FrameError {
    NotEnoughFrames,
}

/// The header frame taken apart: 16-byte conversation-id, 3-byte message-id,
/// 1-byte message-type.
pub struct Header {
    pub conversation_id: Vec<u8>,
    pub message_id: Vec<u8>,
    pub message_type: u8,
}

impl Header {
    /// Split a header frame into its three fields. The message-type is the
    /// header's twentieth and last byte, index 19.
    pub fn from_frame(frame: &Vec<u8>) -> (r: Header)
        requires
            frame@.len() >= 20,
        ensures
            r.conversation_id@ == frame@.subrange(0, 16),
            r.message_id@ == frame@.subrange(16, 19),
            r.message_type == frame@[19],
    {
        let conversation_id = vstd::slice::slice_to_vec(
            vstd::slice::slice_subrange(frame.as_slice(), 0, 16),
        );
        let message_id = vstd::slice::slice_to_vec(
            vstd::slice::slice_subrange(frame.as_slice(), 16, 19),
        );
        let message_type = frame[19];
        Header { conversation_id, message_id, message_type }
    }
}

/// The payload frames that a content variant contributes to a message.
pub open spec fn spec_content_frames(content: ContentTypes) -> Seq<Seq<u8>> {
    match content {
        ContentTypes::Frame(f) => seq![f@],
        ContentTypes::Frames(fs) => fs.deep_view(),
        ContentTypes::Null => Seq::empty(),
    }
}

/// The message-id bytes that go into the header: the given three bytes, or
/// zeroes when none were given.
pub open spec fn spec_message_id_bytes(message_id: Option<&Vec<u8>>) -> Seq<u8> {
    match message_id {
        Some(m) => m@,
        None => seq![0u8, 0u8, 0u8],
    }
}

/// The frame list that `Message::build` lays out: a version frame, the two
/// names, the assembled header, then the payload.
pub open spec fn spec_built_frames(
    receiver: Seq<u8>,
    sender: Seq<u8>,
    conversation_id: Seq<u8>,
    message_id: Seq<u8>,
    message_type: u8,
    payload: Seq<Seq<u8>>,
) -> Seq<Seq<u8>> {
    seq![seq![VERSION], receiver, sender, conversation_id + message_id + seq![message_type]]
        + payload
}

/// A control-protocol message: the parsed view of a frame list.
#[derive(Clone)]
pub struct Message {
    frames: Vec<Vec<u8>>,
}

impl View for Message {
    type V = Seq<Seq<u8>>;

    closed spec fn view(&self) -> Seq<Seq<u8>> {
        self.frames.deep_view()
    }
}

impl Message {
    /// Accept a frame list from the wire; fewer than four frames are invalid.
    pub fn new(frames: Vec<Vec<u8>>) -> (r: Result<Message, FrameError>)
        ensures
            match r {
                Ok(m) => m@ == frames.deep_view() && frames.deep_view().len() >= 4,
                Err(e) => frames.deep_view().len() < 4 && e == FrameError::NotEnoughFrames,
            },
    {
        if frames.len() < 4 {
            return Err(FrameError::NotEnoughFrames);
        }
        Ok(Message { frames })
    }

    /// Lay out the exact frame list: version, receiver, sender, the 20-byte
    /// header (the given conversation-id or a fresh one, the given message-id
    /// or zeroes, the type byte), then the payload frames.
    pub fn build(
        receiver: Vec<u8>,
        sender: Vec<u8>,
        conversation_id: Option<&Vec<u8>>,
        message_id: Option<&Vec<u8>>,
        message_type: u8,
        content: ContentTypes,
    ) -> (r: Message)
        requires
            (conversation_id matches Some(c) ==> c@.len() == 16),
            (message_id matches Some(m) ==> m@.len() == 3),
        ensures
            (conversation_id matches Some(c) ==> r@ == spec_built_frames(
                receiver@,
                sender@,
                c@,
                spec_message_id_bytes(message_id),
                message_type,
                spec_content_frames(content),
            )),
            exists|cid: Seq<u8>|
                cid.len() == 16 && r@ == #[trigger] spec_built_frames(
                    receiver@,
                    sender@,
                    cid,
                    spec_message_id_bytes(message_id),
                    message_type,
                    spec_content_frames(content),
                ),
    {
        let ghost ghost_content = content;
        let mut header: Vec<u8> = match conversation_id {
            Some(c) => vstd::slice::slice_to_vec(c.as_slice()),
            None => create_conversation_id(),
        };
        let ghost cid: Seq<u8> = header@;
        match message_id {
            Some(m) => {
                let mut mid = vstd::slice::slice_to_vec(m.as_slice());
                header.append(&mut mid);
            },
            None => {
                header.push(0);
                header.push(0);
                header.push(0);
            },
        }
        header.push(message_type);
        let mut frames: Vec<Vec<u8>> = Vec::new();
        let version_frame: Vec<u8> = vec![VERSION];
        frames.push(version_frame);
        frames.push(receiver);
        frames.push(sender);
        frames.push(header);
        match content {
            ContentTypes::Frame(frame) => {
                frames.push(frame);
            },
            ContentTypes::Frames(mut content_frames) => {
                frames.append(&mut content_frames);
            },
            ContentTypes::Null => {},
        }
        let r = Message { frames };
        proof {
            let mid = spec_message_id_bytes(message_id);
            assert(r.frames@[3]@ =~= cid + mid + seq![message_type]);
            assert(r@ =~~= spec_built_frames(
                receiver@,
                sender@,
                cid,
                mid,
                message_type,
                spec_content_frames(ghost_content),
            ));
            match conversation_id {
                Some(c) => {
                    assert(cid =~= c@);
                },
                None => {},
            }
        }
        r
    }

    /// The version byte, if the version frame is non-empty.
    pub fn version(&self) -> (r: Option<u8>)
        requires
            self@.len() >= 4,
        ensures
            match r {
                Some(v) => self@[0].len() > 0 && v == self@[0][0],
                None => self@[0].len() == 0,
            },
    {
        if self.frames[0].len() > 0 {
            Some(self.frames[0][0])
        } else {
            None
        }
    }

    /// The receiver full-name frame.
    pub fn receiver_frame(&self) -> (r: &Vec<u8>)
        requires
            self@.len() >= 4,
        ensures
            r@ == self@[1],
    {
        &self.frames[1]
    }

    /// The receiver frame parsed as a full name.
    pub fn receiver(&self) -> (r: FullName)
        requires
            self@.len() >= 4,
            spec_parse_full_name(self@[1]) is Some,
        ensures
            spec_parse_full_name(self@[1]) == Some((r.namespace@, r.name@)),
    {
        match FullName::from_vec(&self.frames[1]) {
            Ok(f) => f,
            Err(_) => vstd::pervasive::unreached(),
        }
    }

    /// The sender full-name frame.
    pub fn sender_frame(&self) -> (r: &Vec<u8>)
        requires
            self@.len() >= 4,
        ensures
            r@ == self@[2],
    {
        &self.frames[2]
    }

    /// The sender frame parsed as a full name.
    pub fn sender(&self) -> (r: FullName)
        requires
            self@.len() >= 4,
            spec_parse_full_name(self@[2]) is Some,
        ensures
            spec_parse_full_name(self@[2]) == Some((r.namespace@, r.name@)),
    {
        match FullName::from_vec(&self.frames[2]) {
            Ok(f) => f,
            Err(_) => vstd::pervasive::unreached(),
        }
    }

    /// The header frame taken apart.
    pub fn header(&self) -> (r: Header)
        requires
            self@.len() >= 4,
            self@[3].len() >= 20,
        ensures
            r.conversation_id@ == self@[3].subrange(0, 16),
            r.message_id@ == self@[3].subrange(16, 19),
            r.message_type == self@[3][19],
    {
        Header::from_frame(&self.frames[3])
    }

    /// The first payload frame, if any.
    pub fn content_frame(&self) -> (r: Option<&Vec<u8>>)
        requires
            self@.len() >= 4,
        ensures
            match r {
                Some(c) => self@.len() >= 5 && c@ == self@[4],
                None => self@.len() == 4,
            },
    {
        if self.frames.len() >= 5 {
            Some(&self.frames[4])
        } else {
            None
        }
    }

    /// All payload frames.
    pub fn payload(&self) -> (r: &[Vec<u8>])
        requires
            self@.len() >= 4,
        ensures
            r.deep_view() == self@.skip(4),
    {
        let r = vstd::slice::slice_subrange(self.frames.as_slice(), 4, self.frames.len());
        proof {
            assert(r.deep_view() =~~= self@.skip(4));
        }
        r
    }

    /// The raw frame list.
    pub fn to_frames(&self) -> (r: &Vec<Vec<u8>>)
        ensures
            r.deep_view() == self@,
    {
        &self.frames
    }
}

/// Law: a message built from parts gives them back on parsing. The frame list
/// that `Message::build` lays out has at least four frames, so `Message::new`
/// accepts it, and every accessor projects out the part that went in:
/// receiver, sender, the three header fields, and the payload.
pub proof fn lemma_build_parse_round_trip(
    receiver: Seq<u8>,
    sender: Seq<u8>,
    conversation_id: Seq<u8>,
    message_id: Seq<u8>,
    message_type: u8,
    payload: Seq<Seq<u8>>,
)
    requires
        conversation_id.len() == 16,
        message_id.len() == 3,
    ensures
        ({
            let frames = spec_built_frames(
                receiver,
                sender,
                conversation_id,
                message_id,
                message_type,
                payload,
            );
            &&& frames.len() == 4 + payload.len()
            &&& frames[0] == seq![VERSION]
            &&& frames[1] == receiver
            &&& frames[2] == sender
            &&& frames[3].len() == 20
            &&& frames[3].subrange(0, 16) == conversation_id
            &&& frames[3].subrange(16, 19) == message_id
            &&& frames[3][19] == message_type
            &&& frames.skip(4) == payload
        }),
{
    let frames = spec_built_frames(
        receiver,
        sender,
        conversation_id,
        message_id,
        message_type,
        payload,
    );
    assert(frames[3].subrange(0, 16) =~= conversation_id);
    assert(frames[3].subrange(16, 19) =~= message_id);
    assert(frames.skip(4) =~= payload);
}

/// The closed set of protocol errors: the JSON-RPC 2.0 codes and the
/// LECO-specific directory and routing codes.
#[derive(Clone, Copy, PartialEq, Eq, Structural, Debug)]
pub enum Error {
    InvalidRequest,
    MethodNotFound,
    InvalidParams,
    InternalError,
    ParseError,
    ServerError,
    NotSignedIn,
    DuplicateName,
    NodeUnknown,
    ReceiverUnknown,
}

impl Error {
    /// The stable integer code of each error kind.
    pub open spec fn spec_code(&self) -> i16 {
        match self {
            Error::InvalidRequest => -32600i16,
            Error::MethodNotFound => -32601i16,
            Error::InvalidParams => -32602i16,
            Error::InternalError => -32603i16,
            Error::ParseError => -32700i16,
            Error::ServerError => -32000i16,
            Error::NotSignedIn => -32090i16,
            Error::DuplicateName => -32091i16,
            Error::NodeUnknown => -32092i16,
            Error::ReceiverUnknown => -32093i16,
        }
    }

    pub fn code(&self) -> (r: i16)
        ensures
            r == self.spec_code(),
    {
        match self {
            Error::InvalidRequest => -32600i16,
            Error::MethodNotFound => -32601i16,
            Error::InvalidParams => -32602i16,
            Error::InternalError => -32603i16,
            Error::ParseError => -32700i16,
            Error::ServerError => -32000i16,
            Error::NotSignedIn => -32090i16,
            Error::DuplicateName => -32091i16,
            Error::NodeUnknown => -32092i16,
            Error::ReceiverUnknown => -32093i16,
        }
    }

    /// The human-readable message of each error kind.
    pub open spec fn spec_message(&self) -> Seq<char> {
        match self {
            Error::NotSignedIn => "Component not signed in yet!"@,
            Error::DuplicateName => "The name is already taken."@,
            Error::NodeUnknown => "Node is unknown."@,
            Error::ReceiverUnknown => "Receiver is not in addresses list."@,
            _ => "Server error."@,
        }
    }

    pub fn message(&self) -> (r: &'static str)
        ensures
            r@ == self.spec_message(),
    {
        match self {
            Error::NotSignedIn => "Component not signed in yet!",
            Error::DuplicateName => "The name is already taken.",
            Error::NodeUnknown => "Node is unknown.",
            Error::ReceiverUnknown => "Receiver is not in addresses list.",
            _ => "Server error.",
        }
    }

    /// The message of each error kind as the bytes that go on the wire.
    pub open spec fn spec_message_bytes(&self) -> Seq<u8> {
        match self {
            Error::NotSignedIn => seq![
                67u8, 111u8, 109u8, 112u8, 111u8, 110u8, 101u8, 110u8, 116u8, 32u8, 110u8, 111u8,
                116u8, 32u8, 115u8, 105u8, 103u8, 110u8, 101u8, 100u8, 32u8, 105u8, 110u8, 32u8,
                121u8, 101u8, 116u8, 33u8,
            ],
            Error::DuplicateName => seq![
                84u8, 104u8, 101u8, 32u8, 110u8, 97u8, 109u8, 101u8, 32u8, 105u8, 115u8, 32u8,
                97u8, 108u8, 114u8, 101u8, 97u8, 100u8, 121u8, 32u8, 116u8, 97u8, 107u8, 101u8,
                110u8, 46u8,
            ],
            Error::NodeUnknown => seq![
                78u8, 111u8, 100u8, 101u8, 32u8, 105u8, 115u8, 32u8, 117u8, 110u8, 107u8, 110u8,
                111u8, 119u8, 110u8, 46u8,
            ],
            Error::ReceiverUnknown => seq![
                82u8, 101u8, 99u8, 101u8, 105u8, 118u8, 101u8, 114u8, 32u8, 105u8, 115u8, 32u8,
                110u8, 111u8, 116u8, 32u8, 105u8, 110u8, 32u8, 97u8, 100u8, 100u8, 114u8, 101u8,
                115u8, 115u8, 101u8, 115u8, 32u8, 108u8, 105u8, 115u8, 116u8, 46u8,
            ],
            _ => seq![
                83u8, 101u8, 114u8, 118u8, 101u8, 114u8, 32u8, 101u8, 114u8, 114u8, 111u8, 114u8,
                46u8,
            ],
        }
    }

    pub fn message_bytes(&self) -> (r: Vec<u8>)
        ensures
            r@ == self.spec_message_bytes(),
    {
        let r: Vec<u8> = match self {
            Error::NotSignedIn => vec![
                67u8, 111u8, 109u8, 112u8, 111u8, 110u8, 101u8, 110u8, 116u8, 32u8, 110u8, 111u8,
                116u8, 32u8, 115u8, 105u8, 103u8, 110u8, 101u8, 100u8, 32u8, 105u8, 110u8, 32u8,
                121u8, 101u8, 116u8, 33u8,
            ],
            Error::DuplicateName => vec![
                84u8, 104u8, 101u8, 32u8, 110u8, 97u8, 109u8, 101u8, 32u8, 105u8, 115u8, 32u8,
                97u8, 108u8, 114u8, 101u8, 97u8, 100u8, 121u8, 32u8, 116u8, 97u8, 107u8, 101u8,
                110u8, 46u8,
            ],
            Error::NodeUnknown => vec![
                78u8, 111u8, 100u8, 101u8, 32u8, 105u8, 115u8, 32u8, 117u8, 110u8, 107u8, 110u8,
                111u8, 119u8, 110u8, 46u8,
            ],
            Error::ReceiverUnknown => vec![
                82u8, 101u8, 99u8, 101u8, 105u8, 118u8, 101u8, 114u8, 32u8, 105u8, 115u8, 32u8,
                110u8, 111u8, 116u8, 32u8, 105u8, 110u8, 32u8, 97u8, 100u8, 100u8, 114u8, 101u8,
                115u8, 115u8, 101u8, 115u8, 32u8, 108u8, 105u8, 115u8, 116u8, 46u8,
            ],
            _ => vec![
                83u8, 101u8, 114u8, 118u8, 101u8, 114u8, 32u8, 101u8, 114u8, 114u8, 111u8, 114u8,
                46u8,
            ],
        };
        proof {
            assert(r@ =~= self.spec_message_bytes());
        }
        r
    }
}

} // verus!
