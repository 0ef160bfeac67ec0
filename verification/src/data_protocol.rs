//! The data-protocol codec: a published message is a topic frame, a 17-byte
//! header (16-byte conversation-id, then the type byte), and payload frames.

use vstd::prelude::*;

use crate::base::ContentTypes;
use crate::base::create_conversation_id;
use vstd::string::StringSliceAdditionalSpecFns;

verus! {

broadcast use crate::base::lemma_vec_u8_deep_view;

/// A message in the data protocol.
pub struct DataMessage {
    pub topic: Vec<u8>,
    pub header: Vec<u8>,
    pub payload: Vec<Vec<u8>>,
}

/// The payload frames that a content variant contributes to a data message;
/// with no content a single empty frame is sent.
pub open spec fn spec_data_content_frames(content: ContentTypes) -> Seq<Seq<u8>> {
    match content {
        ContentTypes::Frame(f) => seq![f@],
        ContentTypes::Frames(fs) => fs.deep_view(),
        ContentTypes::Null => seq![Seq::empty()],
    }
}

impl DataMessage {
    /// Assemble a data message: the topic's bytes, a header of a fresh
    /// conversation-id followed by the type byte, and the content's frames.
    pub fn new(topic: &str, m_type: u8, content: ContentTypes) -> (r: DataMessage)
        ensures
            r.topic@ == topic.spec_bytes(),
            r.header@.len() == 17,
            r.header@[16] == m_type,
            r.payload.deep_view() == spec_data_content_frames(content),
    {
        let ghost ghost_content = content;
        let mut header = create_conversation_id();
        header.push(m_type);
        let payload: Vec<Vec<u8>> = match content {
            ContentTypes::Frame(c) => vec![c],
            ContentTypes::Frames(c) => c,
            ContentTypes::Null => vec![Vec::new()],
        };
        proof {
            assert(payload.deep_view() =~~= spec_data_content_frames(ghost_content));
        }
        DataMessage {
            topic: vstd::slice::slice_to_vec(topic.as_bytes()),
            header,
            payload,
        }
    }

    /// The conversation-id: the first sixteen header bytes.
    pub fn conversation_id(&self) -> (r: &[u8])
        requires
            self.header@.len() >= 16,
        ensures
            r@ == self.header@.subrange(0, 16),
    {
        vstd::slice::slice_subrange(self.header.as_slice(), 0, 16)
    }

    /// The message type: the seventeenth header byte.
    pub fn message_type(&self) -> (r: u8)
        requires
            self.header@.len() >= 17,
        ensures
            r == self.header@[16],
    {
        self.header[16]
    }

    /// Emit the message as its wire frames: topic, header, then the payload.
    pub fn to_frames(self) -> (r: Vec<Vec<u8>>)
        ensures
            r.deep_view() == seq![self.topic@, self.header@] + self.payload.deep_view(),
    {
        let ghost this = self;
        let mut frames: Vec<Vec<u8>> = Vec::new();
        frames.push(self.topic);
        frames.push(self.header);
        let mut payload = self.payload;
        frames.append(&mut payload);
        proof {
            assert(frames.deep_view() =~~= seq![this.topic@, this.header@]
                + this.payload.deep_view());
        }
        frames
    }
}

} // verus!
