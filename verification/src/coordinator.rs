//! The Coordinator routing core: authorization of inbound messages against
//! the Component directory, local routing, synthesis of replies and error
//! replies, the self-handler for COORDINATOR-directed methods, and the
//! timeout scan that pings and evicts silent Components.
//!
//! Everything here is pure state: reading from and writing to the router
//! transport stay with the caller, which hands in the peer identity and the
//! parsed frames and sends out what these functions return.

use vstd::prelude::*;

use crate::base::ContentTypes;
use crate::base::FullName;
use crate::base::bytes_eq;
use crate::base::spec_parse_full_name;
use crate::control_protocol::Error;
use crate::control_protocol::Message;
use crate::control_protocol::spec_built_frames;
use crate::control_protocol::spec_message_id_bytes;
use crate::directory::Component;
use crate::directory::Directory;
use crate::directory::spec_stale;
use crate::json::Request;
use crate::json::is_sign_in;
use crate::json::spec_error_json;
use crate::json::spec_is_sign_in;
use crate::json::spec_parsed_request;
use crate::json::spec_request_json;
use crate::json::spec_response_json;
use crate::json::spec_sign_in_method;
use vstd::string::StringSliceAdditionalSpecFns;

verus! {

broadcast use crate::base::lemma_vec_u8_deep_view;

/// Idle seconds after which a silent Component is pinged.
pub const PING_THRESHOLD: u64 = 10;

/// Idle seconds after which a silent Component is evicted.
pub const EVICT_THRESHOLD: u64 = 30;

/// Bytes of `COORDINATOR`: the short name under which every Coordinator is
/// addressable.
pub open spec fn spec_coordinator_name() -> Seq<u8> {
    seq![67u8, 79u8, 79u8, 82u8, 68u8, 73u8, 78u8, 65u8, 84u8, 79u8, 82u8]
}

fn coordinator_name() -> (r: Vec<u8>)
    ensures
        r@ =~= spec_coordinator_name(),
{
    vec![67u8, 79u8, 79u8, 82u8, 68u8, 73u8, 78u8, 65u8, 84u8, 79u8, 82u8]
}

/// Bytes of `sign_out`.
pub open spec fn spec_sign_out_method() -> Seq<u8> {
    seq![115u8, 105u8, 103u8, 110u8, 95u8, 111u8, 117u8, 116u8]
}

fn sign_out_method() -> (r: Vec<u8>)
    ensures
        r@ =~= spec_sign_out_method(),
{
    vec![115u8, 105u8, 103u8, 110u8, 95u8, 111u8, 117u8, 116u8]
}

/// Bytes of `pong`.
pub open spec fn spec_pong_method() -> Seq<u8> {
    seq![112u8, 111u8, 110u8, 103u8]
}

fn pong_method() -> (r: Vec<u8>)
    ensures
        r@ =~= spec_pong_method(),
{
    vec![112u8, 111u8, 110u8, 103u8]
}

/// Bytes of `shut_down`.
pub open spec fn spec_shut_down_method() -> Seq<u8> {
    seq![115u8, 104u8, 117u8, 116u8, 95u8, 100u8, 111u8, 119u8, 110u8]
}

fn shut_down_method() -> (r: Vec<u8>)
    ensures
        r@ =~= spec_shut_down_method(),
{
    vec![115u8, 104u8, 117u8, 116u8, 95u8, 100u8, 111u8, 119u8, 110u8]
}

/// A peer identity together with a message read from or bound for it.
pub struct MessageContainer {
    pub identity: Vec<u8>,
    pub message: Message,
}

/// A routed message: the namespace it resolves to (empty means local) and
/// the identity to write it to.
pub struct SendingContainer {
    pub receiving_namespace: Vec<u8>,
    pub msg_cont: MessageContainer,
}

/// The Coordinator's state: its namespace, its full name
/// `namespace.COORDINATOR`, the directory of signed-in Components, and the
/// running flag that `shut_down` clears.
pub struct Coordinator {
    pub namespace: Vec<u8>,
    pub full_name: Vec<u8>,
    pub components: Directory,
    pub running: bool,
}

/// The content bytes of an error reply: the serialized error response with
/// id 0 and the error's code and message.
pub open spec fn spec_error_content(error: Error) -> Seq<u8> {
    spec_error_json(0, error.spec_code(), error.spec_message_bytes())
}

/// The single payload frame of a response reply.
pub open spec fn spec_response_payload(id: u16, result: Option<u64>) -> Seq<Seq<u8>> {
    seq![spec_response_json(id, result)]
}

/// The frames of an error reply from this Coordinator: addressed to
/// `receiver`, sent under `my_full_name`, keeping the conversation-id.
pub open spec fn spec_error_frames(
    receiver: Seq<u8>,
    my_full_name: Seq<u8>,
    cid: Seq<u8>,
    error: Error,
) -> Seq<Seq<u8>> {
    spec_built_frames(receiver, my_full_name, cid, seq![0u8, 0u8, 0u8], 1, seq![
        spec_error_content(error),
    ])
}

impl Coordinator {
    /// The directory keeps its invariant.
    pub open spec fn wf(&self) -> bool {
        self.components.wf()
    }

    /// Set a Coordinator up under `name`: the name becomes its namespace and
    /// `name.COORDINATOR` its full name; the directory starts empty and the
    /// routing loop is not yet running.
    pub fn new(name: &str) -> (r: Coordinator)
        ensures
            r.wf(),
            r.namespace@ == name.spec_bytes(),
            r.full_name@ == name.spec_bytes() + seq![46u8] + spec_coordinator_name(),
            r.components@ == Map::<Seq<u8>, (Seq<u8>, u64)>::empty(),
            !r.running,
    {
        let namespace = vstd::slice::slice_to_vec(name.as_bytes());
        let mut full_name = vstd::slice::slice_to_vec(name.as_bytes());
        full_name.push(46);
        let mut coordinator = coordinator_name();
        full_name.append(&mut coordinator);
        proof {
            assert(full_name@ =~= name.spec_bytes() + seq![46u8] + spec_coordinator_name());
        }
        Coordinator {
            namespace,
            full_name,
            components: Directory::new(),
            running: false,
        }
    }

    /// Where a receiver full name resolves to: locally (its namespace is this
    /// Coordinator's or empty) through the directory, yielding the empty
    /// namespace and the Component's identity, or `ReceiverUnknown` when the
    /// name is not signed in; any other namespace is `NodeUnknown`.
    pub open spec fn spec_find_routing(
        dir: Map<Seq<u8>, (Seq<u8>, u64)>,
        my_namespace: Seq<u8>,
        receiver_namespace: Seq<u8>,
        receiver_name: Seq<u8>,
    ) -> Result<(Seq<u8>, Seq<u8>), Error> {
        if receiver_namespace == my_namespace || receiver_namespace.len() == 0 {
            if dir.contains_key(receiver_name) {
                Ok((Seq::empty(), dir[receiver_name].0))
            } else {
                Err(Error::ReceiverUnknown)
            }
        } else {
            Err(Error::NodeUnknown)
        }
    }

    /// Find the namespace and identity of the receiver, or say why not.
    pub fn find_routing_information(&self, receiver_name: &FullName) -> (r: Result<
        (Vec<u8>, Vec<u8>),
        Error,
    >)
        requires
            self.wf(),
        ensures
            match r {
                Ok(t) => Self::spec_find_routing(
                    self.components@,
                    self.namespace@,
                    receiver_name.namespace@,
                    receiver_name.name@,
                ) == Ok::<(Seq<u8>, Seq<u8>), Error>((t.0@, t.1@)),
                Err(e) => Self::spec_find_routing(
                    self.components@,
                    self.namespace@,
                    receiver_name.namespace@,
                    receiver_name.name@,
                ) == Err::<(Seq<u8>, Seq<u8>), Error>(e),
            },
    {
        let local = receiver_name.namespace.len() == 0 || bytes_eq(
            &receiver_name.namespace,
            &self.namespace,
        );
        if local {
            match self.components.get(&receiver_name.name) {
                Some(comp) => Ok((Vec::new(), comp.identity)),
                None => Err(Error::ReceiverUnknown),
            }
        } else {
            Err(Error::NodeUnknown)
        }
    }

    /// Build an error reply addressed to `receiver` from this Coordinator,
    /// keeping the given conversation-id; its content carries the error's
    /// stable code and message.
    pub fn create_error(
        &self,
        receiver: Vec<u8>,
        error: Error,
        conversation_id: Option<&Vec<u8>>,
    ) -> (r: Message)
        requires
            (conversation_id matches Some(c) ==> c@.len() == 16),
        ensures
            (conversation_id matches Some(c) ==> r@ == spec_error_frames(
                receiver@,
                self.full_name@,
                c@,
                error,
            )),
            exists|cid: Seq<u8>|
                cid.len() == 16 && r@ == #[trigger] spec_error_frames(
                    receiver@,
                    self.full_name@,
                    cid,
                    error,
                ),
    {
        let error_response = crate::json::ErrorResponse::build(
            0,
            error.code(),
            error.message_bytes(),
        );
        let content = error_response.to_bytes();
        let ghost content_view = content@;
        let ghost receiver_view = receiver@;
        let sender = vstd::slice::slice_to_vec(self.full_name.as_slice());
        let ghost sender_view = sender@;
        let r = Message::build(
            receiver,
            sender,
            conversation_id,
            None,
            1,
            ContentTypes::Frame(content),
        );
        proof {
            let mid: Seq<u8> = seq![0u8, 0u8, 0u8];
            let payload: Seq<Seq<u8>> = seq![content_view];
            let cid = choose|cid: Seq<u8>|
                cid.len() == 16 && r@ == #[trigger] spec_built_frames(
                    receiver_view,
                    sender_view,
                    cid,
                    mid,
                    1,
                    payload,
                );
            assert(r@ == spec_error_frames(receiver_view, self.full_name@, cid, error));
        }
        r
    }

    /// Build a response reply addressed to `receiver` from this Coordinator,
    /// keeping the given conversation-id; its content carries the request's
    /// id and the result.
    pub fn create_response(
        &self,
        receiver: Vec<u8>,
        id: u16,
        conversation_id: Option<&Vec<u8>>,
        result: Option<u64>,
    ) -> (r: Message)
        requires
            (conversation_id matches Some(c) ==> c@.len() == 16),
        ensures
            (conversation_id matches Some(c) ==> r@ == spec_built_frames(
                receiver@,
                self.full_name@,
                c@,
                seq![0u8, 0u8, 0u8],
                1,
                seq![spec_response_json(id, result)],
            )),
            exists|cid: Seq<u8>|
                cid.len() == 16 && r@ == #[trigger] spec_built_frames(
                    receiver@,
                    self.full_name@,
                    cid,
                    spec_message_id_bytes(None),
                    1,
                    spec_response_payload(id, result),
                ),
    {
        let response = crate::json::Response::build(id, result);
        let content = response.to_bytes();
        let ghost content_view = content@;
        let ghost receiver_view = receiver@;
        let sender = vstd::slice::slice_to_vec(self.full_name.as_slice());
        let ghost sender_view = sender@;
        let r = Message::build(
            receiver,
            sender,
            conversation_id,
            None,
            1,
            ContentTypes::Frame(content),
        );
        proof {
            let payload: Seq<Seq<u8>> = seq![content_view];
            let cid = choose|cid: Seq<u8>|
                cid.len() == 16 && r@ == #[trigger] spec_built_frames(
                    receiver_view,
                    sender_view,
                    cid,
                    spec_message_id_bytes(None),
                    1,
                    payload,
                );
            assert(payload =~= spec_response_payload(id, result));
            assert(r@ == spec_built_frames(
                receiver_view,
                self.full_name@,
                cid,
                spec_message_id_bytes(None),
                1,
                spec_response_payload(id, result),
            ));
        }
        r
    }

    /// The authorization decision for one inbound message. A signed-in sender
    /// must arrive under the identity it signed in with; any other identity is
    /// `DuplicateName`. An unknown sender is admitted only when it addresses
    /// `COORDINATOR` and its first content frame is a `sign_in` request;
    /// otherwise it is `NotSignedIn`.
    pub open spec fn spec_check(
        dir: Map<Seq<u8>, (Seq<u8>, u64)>,
        identity: Seq<u8>,
        sender_name: Seq<u8>,
        receiver_name: Seq<u8>,
        content: Option<Seq<u8>>,
    ) -> Option<Error> {
        if dir.contains_key(sender_name) {
            if dir[sender_name].0 == identity {
                None
            } else {
                Some(Error::DuplicateName)
            }
        } else {
            if receiver_name == spec_coordinator_name() && (content matches Some(c)
                && spec_is_sign_in(c)) {
                None
            } else {
                Some(Error::NotSignedIn)
            }
        }
    }

    /// The first content frame, if the message carries one.
    pub open spec fn spec_content_of(frames: Seq<Seq<u8>>) -> Option<Seq<u8>> {
        if frames.len() >= 5 {
            Some(frames[4])
        } else {
            None
        }
    }

    /// Check whether the message is from a signed-in Component or signing in.
    /// On permission the sender's directory entry carries the incoming
    /// identity and is last seen `now`, whether it was touched or just signed
    /// in; on failure the directory is untouched.
    pub fn check_message(
        &mut self,
        identity: &Vec<u8>,
        message: &Message,
        sender_name: &FullName,
        receiver_name: &FullName,
        now: u64,
    ) -> (r: Result<(), Error>)
        requires
            old(self).wf(),
            message@.len() >= 4,
        ensures
            final(self).wf(),
            (r is Ok <==> Self::spec_check(
                old(self).components@,
                identity@,
                sender_name.name@,
                receiver_name.name@,
                Self::spec_content_of(message@),
            ) is None),
            (r matches Err(e) ==> Self::spec_check(
                old(self).components@,
                identity@,
                sender_name.name@,
                receiver_name.name@,
                Self::spec_content_of(message@),
            ) == Some(e)),
            r is Ok ==> final(self).components@ == old(self).components@.insert(
                sender_name.name@,
                (identity@, now),
            ),
            r is Err ==> final(self).components@ == old(self).components@,
            final(self).namespace == old(self).namespace,
            final(self).full_name == old(self).full_name,
            final(self).running == old(self).running,
    {
        let ghost dir0 = self.components@;
        let r: Result<(), Error> = match self.components.get(&sender_name.name) {
            Some(component) => {
                if bytes_eq(&component.identity, identity) {
                    self.components.touch(&sender_name.name, now);
                    Ok(())
                } else {
                    Err(Error::DuplicateName)
                }
            },
            None => {
                let signing_in = match message.content_frame() {
                    Some(content) => is_sign_in(content.as_slice()),
                    None => false,
                };
                let expected = coordinator_name();
                if bytes_eq(&receiver_name.name, &expected) && signing_in {
                    self.sign_in(identity, sender_name, now)
                } else {
                    Err(Error::NotSignedIn)
                }
            },
        };
        r
    }

    /// One whole routing step, as a function of the Coordinator's state and
    /// the inbound delivery: the directory and running flag afterwards, and
    /// what goes out, if anything — the resolved namespace (empty means
    /// local), the identity to write to, and the message frames.
    ///
    /// The step authorizes the sender; on failure the error reply goes back
    /// out the incoming identity. An authorized message addressed to
    /// `COORDINATOR` in this namespace (or none) is answered by the
    /// self-handler and the reply is routed to the original sender. Any other
    /// authorized message is forwarded to its receiver; if the receiver does
    /// not resolve, an error reply goes to the original sender instead, and
    /// is dropped if the sender cannot be resolved either.
    pub open spec fn spec_route(
        dir: Map<Seq<u8>, (Seq<u8>, u64)>,
        running: bool,
        my_namespace: Seq<u8>,
        my_full_name: Seq<u8>,
        identity: Seq<u8>,
        frames: Seq<Seq<u8>>,
        now: u64,
    ) -> (Map<Seq<u8>, (Seq<u8>, u64)>, bool, Option<(Seq<u8>, Seq<u8>, Seq<Seq<u8>>)>) {
        let sender = spec_parse_full_name(frames[2])->0;
        let receiver = spec_parse_full_name(frames[1])->0;
        let cid = frames[3].subrange(0, 16);
        let content = Self::spec_content_of(frames);
        match Self::spec_check(dir, identity, sender.1, receiver.1, content) {
            Some(error) => (
                dir,
                running,
                Some(
                    (
                        Seq::empty(),
                        identity,
                        spec_error_frames(frames[2], my_full_name, cid, error),
                    ),
                ),
            ),
            None => {
                let dir1 = dir.insert(sender.1, (identity, now));
                if receiver.1 == spec_coordinator_name() && (receiver.0 == my_namespace
                    || receiver.0.len() == 0) {
                    let dir2 = if Self::spec_is_method(content, spec_sign_out_method()) {
                        dir1.remove(sender.1)
                    } else {
                        dir1
                    };
                    let running2 = if Self::spec_is_method(content, spec_shut_down_method()) {
                        false
                    } else {
                        running
                    };
                    let reply = spec_built_frames(
                        frames[2],
                        my_full_name,
                        cid,
                        seq![0u8, 0u8, 0u8],
                        1,
                        seq![Self::spec_handle_reply_content(content)],
                    );
                    match Self::spec_find_routing(dir2, my_namespace, sender.0, sender.1) {
                        Ok(route) => (dir2, running2, Some((route.0, route.1, reply))),
                        Err(_) => (dir2, running2, None),
                    }
                } else {
                    match Self::spec_find_routing(dir1, my_namespace, receiver.0, receiver.1) {
                        Ok(route) => (dir1, running, Some((route.0, route.1, frames))),
                        Err(error) => {
                            let err_reply = spec_error_frames(
                                frames[2],
                                my_full_name,
                                cid,
                                error,
                            );
                            match Self::spec_find_routing(
                                dir1,
                                my_namespace,
                                sender.0,
                                sender.1,
                            ) {
                                Ok(route) => (dir1, running, Some((route.0, route.1, err_reply))),
                                Err(_) => (dir1, running, None),
                            }
                        },
                    }
                }
            },
        }
    }

    /// Take one inbound delivery through authorization, the self-handler and
    /// route resolution, until it is ready to be sent: everything short of
    /// reading and writing the transport. The returned container, if any,
    /// carries what `spec_route` says it must.
    pub fn route_message(&mut self, msg_cont: MessageContainer, now: u64) -> (r: Option<
        SendingContainer,
    >)
        requires
            old(self).wf(),
            msg_cont.message@.len() >= 4,
            msg_cont.message@[3].len() >= 20,
            spec_parse_full_name(msg_cont.message@[1]) is Some,
            spec_parse_full_name(msg_cont.message@[2]) is Some,
        ensures
            final(self).wf(),
            final(self).namespace == old(self).namespace,
            final(self).full_name == old(self).full_name,
            final(self).components@ == Self::spec_route(
                old(self).components@,
                old(self).running,
                old(self).namespace@,
                old(self).full_name@,
                msg_cont.identity@,
                msg_cont.message@,
                now,
            ).0,
            final(self).running == Self::spec_route(
                old(self).components@,
                old(self).running,
                old(self).namespace@,
                old(self).full_name@,
                msg_cont.identity@,
                msg_cont.message@,
                now,
            ).1,
            (match r {
                Some(sc) => {
                    let out = Self::spec_route(
                        old(self).components@,
                        old(self).running,
                        old(self).namespace@,
                        old(self).full_name@,
                        msg_cont.identity@,
                        msg_cont.message@,
                        now,
                    ).2;
                    &&& out is Some
                    &&& sc.receiving_namespace@ == (out->0).0
                    &&& sc.msg_cont.identity@ == (out->0).1
                    &&& sc.msg_cont.message@ == (out->0).2
                },
                None => Self::spec_route(
                    old(self).components@,
                    old(self).running,
                    old(self).namespace@,
                    old(self).full_name@,
                    msg_cont.identity@,
                    msg_cont.message@,
                    now,
                ).2 is None,
            }),
    {
        let MessageContainer { identity, message } = msg_cont;
        let sender_name = message.sender();
        let receiver_name = message.receiver();
        match self.check_message(&identity, &message, &sender_name, &receiver_name, now) {
            Err(error) => {
                let receiver = vstd::slice::slice_to_vec(message.sender_frame().as_slice());
                let conversation_id = message.header().conversation_id;
                let reply = self.create_error(receiver, error, Some(&conversation_id));
                Some(
                    SendingContainer {
                        receiving_namespace: Vec::new(),
                        msg_cont: MessageContainer { identity, message: reply },
                    },
                )
            },
            Ok(()) => {
                let coordinator = coordinator_name();
                let self_directed = bytes_eq(&receiver_name.name, &coordinator) && (
                receiver_name.namespace.len() == 0 || bytes_eq(
                    &receiver_name.namespace,
                    &self.namespace,
                ));
                if self_directed {
                    let reply = self.handle_message_content(&message, &sender_name);
                    match self.find_routing_information(&sender_name) {
                        Ok(route) => Some(
                            SendingContainer {
                                receiving_namespace: route.0,
                                msg_cont: MessageContainer { identity: route.1, message: reply },
                            },
                        ),
                        Err(_) => None,
                    }
                } else {
                    match self.find_routing_information(&receiver_name) {
                        Ok(route) => Some(
                            SendingContainer {
                                receiving_namespace: route.0,
                                msg_cont: MessageContainer { identity: route.1, message },
                            },
                        ),
                        Err(error) => {
                            let receiver = vstd::slice::slice_to_vec(
                                message.sender_frame().as_slice(),
                            );
                            let conversation_id = message.header().conversation_id;
                            let reply = self.create_error(
                                receiver,
                                error,
                                Some(&conversation_id),
                            );
                            match self.find_routing_information(&sender_name) {
                                Ok(route) => Some(
                                    SendingContainer {
                                        receiving_namespace: route.0,
                                        msg_cont: MessageContainer {
                                            identity: route.1,
                                            message: reply,
                                        },
                                    },
                                ),
                                Err(_) => None,
                            }
                        },
                    }
                }
            },
        }
    }

    /// Put the sender in the directory under its short name, bound to the
    /// identity it arrived with and seen now.
    fn sign_in(&mut self, identity: &Vec<u8>, sender_name: &FullName, now: u64) -> (r: Result<
        (),
        Error,
    >)
        requires
            old(self).wf(),
        ensures
            final(self).wf(),
            r is Ok,
            final(self).components@ == old(self).components@.insert(
                sender_name.name@,
                (identity@, now),
            ),
            final(self).namespace == old(self).namespace,
            final(self).full_name == old(self).full_name,
            final(self).running == old(self).running,
    {
        let name = vstd::slice::slice_to_vec(sender_name.name.as_slice());
        self.components.insert(name, Component::build(identity, now));
        Ok(())
    }

    /// Take the sender out of the directory.
    fn sign_out(&mut self, sender_name: &FullName) -> (r: Result<Option<u64>, Error>)
        requires
            old(self).wf(),
        ensures
            final(self).wf(),
            r == Ok::<Option<u64>, Error>(None::<u64>),
            final(self).components@ == old(self).components@.remove(sender_name.name@),
            final(self).namespace == old(self).namespace,
            final(self).full_name == old(self).full_name,
            final(self).running == old(self).running,
    {
        self.components.remove(&sender_name.name);
        Ok(None)
    }

    /// Whether the content frame parses as a request for method `m`.
    pub open spec fn spec_is_method(content: Option<Seq<u8>>, m: Seq<u8>) -> bool {
        content matches Some(c) && spec_parsed_request(c) matches Some(p) && p.1 == m
    }

    /// What the self-handler answers: a response with the request's id and a
    /// null result for the four control methods, `InvalidRequest` for any
    /// other method, and `ParseError` when there is no content frame or it
    /// does not parse as a request.
    pub open spec fn spec_handle_reply_content(content: Option<Seq<u8>>) -> Seq<u8> {
        match content {
            Some(c) => match spec_parsed_request(c) {
                Some(p) => if p.1 == spec_sign_in_method() || p.1 == spec_sign_out_method()
                    || p.1 == spec_pong_method() || p.1 == spec_shut_down_method() {
                    spec_response_json(p.0, None)
                } else {
                    spec_error_content(Error::InvalidRequest)
                },
                None => spec_error_content(Error::ParseError),
            },
            None => spec_error_content(Error::ParseError),
        }
    }

    /// Handle the content of a message directed at this Coordinator itself:
    /// dispatch on the request's method (`sign_in` and `pong` were already
    /// acted on during the check; `sign_out` removes the sender; `shut_down`
    /// clears the running flag) and build the reply, addressed back to the
    /// sender under the same conversation-id.
    pub fn handle_message_content(&mut self, message: &Message, sender_name: &FullName) -> (r:
        Message)
        requires
            old(self).wf(),
            message@.len() >= 4,
            message@[3].len() >= 20,
        ensures
            final(self).wf(),
            r@ == spec_built_frames(
                message@[2],
                old(self).full_name@,
                message@[3].subrange(0, 16),
                seq![0u8, 0u8, 0u8],
                1,
                seq![Self::spec_handle_reply_content(Self::spec_content_of(message@))],
            ),
            final(self).components@ == if Self::spec_is_method(
                Self::spec_content_of(message@),
                spec_sign_out_method(),
            ) {
                old(self).components@.remove(sender_name.name@)
            } else {
                old(self).components@
            },
            final(self).running == if Self::spec_is_method(
                Self::spec_content_of(message@),
                spec_shut_down_method(),
            ) {
                false
            } else {
                old(self).running
            },
            final(self).namespace == old(self).namespace,
            final(self).full_name == old(self).full_name,
    {
        let receiver = vstd::slice::slice_to_vec(message.sender_frame().as_slice());
        let conversation_id = message.header().conversation_id;
        let content = match message.content_frame() {
            Some(content) => content,
            None => {
                return self.create_error(receiver, Error::ParseError, Some(&conversation_id));
            },
        };
        let request = match crate::json::parse_request(content.as_slice()) {
            Some(request) => request,
            None => {
                return self.create_error(receiver, Error::ParseError, Some(&conversation_id));
            },
        };
        let result: Result<Option<u64>, Error> = if bytes_eq(
            &request.method,
            &crate::json::sign_in_method(),
        ) {
            Ok(None)
        } else if bytes_eq(&request.method, &sign_out_method()) {
            self.sign_out(sender_name)
        } else if bytes_eq(&request.method, &pong_method()) {
            Ok(None)
        } else if bytes_eq(&request.method, &shut_down_method()) {
            self.shut_down()
        } else {
            Err(Error::InvalidRequest)
        };
        match result {
            Ok(result) => self.create_response(
                receiver,
                request.id,
                Some(&conversation_id),
                result,
            ),
            Err(error) => self.create_error(receiver, error, Some(&conversation_id)),
        }
    }

    /// The frames of a ping: a `pong` request with id 0, addressed to `name`
    /// from this Coordinator, under a fresh conversation-id.
    pub open spec fn spec_ping_frames(
        name: Seq<u8>,
        my_full_name: Seq<u8>,
        cid: Seq<u8>,
    ) -> Seq<Seq<u8>> {
        spec_built_frames(name, my_full_name, cid, seq![0u8, 0u8, 0u8], 1, seq![
            spec_request_json(0, spec_pong_method()),
        ])
    }

    /// Build a ping for the Component named `name`.
    fn local_ping(&self, name: &Vec<u8>) -> (r: Message)
        ensures
            exists|cid: Seq<u8>|
                cid.len() == 16 && r@ == #[trigger] Self::spec_ping_frames(
                    name@,
                    self.full_name@,
                    cid,
                ),
    {
        let request = Request::build(0, pong_method());
        let content = request.to_bytes();
        let ghost content_view = content@;
        let receiver = vstd::slice::slice_to_vec(name.as_slice());
        let sender = vstd::slice::slice_to_vec(self.full_name.as_slice());
        let ghost sender_view = sender@;
        let r = Message::build(receiver, sender, None, None, 1, ContentTypes::Frame(content));
        proof {
            let mid: Seq<u8> = seq![0u8, 0u8, 0u8];
            let payload: Seq<Seq<u8>> = seq![content_view];
            let cid = choose|cid: Seq<u8>|
                cid.len() == 16 && r@ == #[trigger] spec_built_frames(
                    name@,
                    sender_view,
                    cid,
                    mid,
                    1,
                    payload,
                );
            assert(r@ == Self::spec_ping_frames(name@, self.full_name@, cid));
        }
        r
    }

    /// Walk the directory: build a ping for every Component that has been
    /// silent for at least the ping threshold, then evict every one silent
    /// for at least the eviction threshold. After the scan the directory
    /// holds no entry that was silent that long.
    /// Build a ping for every Component that has been silent for at least
    /// the ping threshold: one for each such entry, addressed to its name and
    /// bound for its identity, and nothing else.
    #[verifier::rlimit(30)]
    fn build_pings(&self, now: u64) -> (pings: Vec<MessageContainer>)
        requires
            self.wf(),
        ensures
            forall|j: int|
                #![trigger pings@[j]]
                0 <= j < pings@.len() ==> {
                    &&& self.components@.contains_key(pings@[j].message@[1])
                    &&& spec_stale(self.components@[pings@[j].message@[1]], now, PING_THRESHOLD)
                    &&& pings@[j].identity@ == self.components@[pings@[j].message@[1]].0
                    &&& exists|cid: Seq<u8>|
                        cid.len() == 16 && pings@[j].message@ == #[trigger] Self::spec_ping_frames(
                            pings@[j].message@[1],
                            self.full_name@,
                            cid,
                        )
                },
            forall|k: Seq<u8>|
                self.components@.contains_key(k) && spec_stale(
                    #[trigger] self.components@[k],
                    now,
                    PING_THRESHOLD,
                ) ==> exists|j: int| 0 <= j < pings@.len() && pings@[j].message@[1] == k,
    {
        let stale = self.components.stale_entries(now, PING_THRESHOLD);
        let mut pings: Vec<MessageContainer> = Vec::new();
        let len = stale.len();
        let mut i: usize = 0;
        while i < len
            invariant
                self.wf(),
                len == stale@.len(),
                i <= len,
                pings@.len() == i,
                forall|j: int|
                    0 <= j < stale@.len() ==> self.components@.contains_key(
                        #[trigger] stale@[j].0@,
                    ) && self.components@[stale@[j].0@].0 == stale@[j].1@ && spec_stale(
                        self.components@[stale@[j].0@],
                        now,
                        PING_THRESHOLD,
                    ),
                forall|j: int|
                    0 <= j < i ==> #[trigger] pings@[j].identity@ == stale@[j].1@ && exists|
                        cid: Seq<u8>,
                    |
                        cid.len() == 16 && pings@[j].message@ == #[trigger] Self::spec_ping_frames(
                            stale@[j].0@,
                            self.full_name@,
                            cid,
                        ),
            decreases len - i,
        {
            let ghost pings_before = pings@;
            let entry = &stale[i];
            let message = self.local_ping(&entry.0);
            let identity = vstd::slice::slice_to_vec(entry.1.as_slice());
            pings.push(MessageContainer { identity, message });
            proof {
                assert forall|j: int|
                    0 <= j < i + 1 implies #[trigger] pings@[j].identity@ == stale@[j].1@
                    && exists|cid: Seq<u8>|
                        cid.len() == 16 && pings@[j].message@ == #[trigger] Self::spec_ping_frames(
                            stale@[j].0@,
                            self.full_name@,
                            cid,
                        ) by {
                    if j < i {
                        assert(pings@[j] == pings_before[j]);
                        assert(pings_before[j].identity@ == stale@[j].1@);
                        let cid = choose|cid: Seq<u8>|
                            cid.len() == 16 && pings_before[j].message@
                                == #[trigger] Self::spec_ping_frames(
                                stale@[j].0@,
                                self.full_name@,
                                cid,
                            );
                        assert(cid.len() == 16 && pings@[j].message@ == Self::spec_ping_frames(
                            stale@[j].0@,
                            self.full_name@,
                            cid,
                        ));
                    } else {
                        let cid = choose|cid: Seq<u8>|
                            cid.len() == 16 && message@ == #[trigger] Self::spec_ping_frames(
                                entry.0@,
                                self.full_name@,
                                cid,
                            );
                        assert(cid.len() == 16 && pings@[j].message@ == Self::spec_ping_frames(
                            stale@[j].0@,
                            self.full_name@,
                            cid,
                        ));
                    }
                }
            }
            i += 1;
        }
        proof {
            assert forall|k: Seq<u8>|
                self.components@.contains_key(k) && spec_stale(
                    #[trigger] self.components@[k],
                    now,
                    PING_THRESHOLD,
                ) implies exists|j: int| 0 <= j < pings@.len() && pings@[j].message@[1] == k by {
                let j = choose|j: int| 0 <= j < stale@.len() && stale@[j].0@ == k;
                assert(pings@[j].identity@ == stale@[j].1@);
                let cid = choose|cid: Seq<u8>|
                    cid.len() == 16 && pings@[j].message@ == #[trigger] Self::spec_ping_frames(
                        stale@[j].0@,
                        self.full_name@,
                        cid,
                    );
                assert(pings@[j].message@[1] == k);
            }
            assert forall|j: int|
                #![trigger pings@[j]]
                0 <= j < pings@.len() implies {
                &&& self.components@.contains_key(pings@[j].message@[1])
                &&& spec_stale(self.components@[pings@[j].message@[1]], now, PING_THRESHOLD)
                &&& pings@[j].identity@ == self.components@[pings@[j].message@[1]].0
                &&& exists|cid: Seq<u8>|
                    cid.len() == 16 && pings@[j].message@ == #[trigger] Self::spec_ping_frames(
                        pings@[j].message@[1],
                        self.full_name@,
                        cid,
                    )
            } by {
                let k = stale@[j].0@;
                assert(pings@[j].identity@ == stale@[j].1@);
                let cid = choose|cid: Seq<u8>|
                    cid.len() == 16 && pings@[j].message@ == #[trigger] Self::spec_ping_frames(
                        stale@[j].0@,
                        self.full_name@,
                        cid,
                    );
                assert(pings@[j].message@[1] == k);
                assert(self.components@.contains_key(k) && spec_stale(
                    self.components@[k],
                    now,
                    PING_THRESHOLD,
                ) && pings@[j].identity@ == self.components@[k].0);
            }
        }
        pings
    }

    /// Walk the directory: build a ping for every Component that has been
    /// silent for at least the ping threshold, then evict every one silent
    /// for at least the eviction threshold. After the scan the directory
    /// holds no entry that was silent that long.
    pub fn check_timeouts(&mut self, now: u64) -> (pings: Vec<MessageContainer>)
        requires
            old(self).wf(),
        ensures
            final(self).wf(),
            final(self).namespace == old(self).namespace,
            final(self).full_name == old(self).full_name,
            final(self).running == old(self).running,
            forall|k: Seq<u8>|
                final(self).components@.contains_key(k) <==> (old(
                    self,
                ).components@.contains_key(k) && !spec_stale(
                    #[trigger] old(self).components@[k],
                    now,
                    EVICT_THRESHOLD,
                )),
            forall|k: Seq<u8>|
                #[trigger] final(self).components@.contains_key(k) ==> final(self).components@[k]
                    == old(self).components@[k],
            forall|j: int|
                #![trigger pings@[j]]
                0 <= j < pings@.len() ==> {
                    &&& old(self).components@.contains_key(pings@[j].message@[1])
                    &&& spec_stale(
                        old(self).components@[pings@[j].message@[1]],
                        now,
                        PING_THRESHOLD,
                    )
                    &&& pings@[j].identity@ == old(self).components@[pings@[j].message@[1]].0
                    &&& exists|cid: Seq<u8>|
                        cid.len() == 16 && pings@[j].message@ == #[trigger] Self::spec_ping_frames(
                            pings@[j].message@[1],
                            old(self).full_name@,
                            cid,
                        )
                },
            forall|k: Seq<u8>|
                old(self).components@.contains_key(k) && spec_stale(
                    #[trigger] old(self).components@[k],
                    now,
                    PING_THRESHOLD,
                ) ==> exists|j: int| 0 <= j < pings@.len() && pings@[j].message@[1] == k,
    {
        let pings = self.build_pings(now);
        self.components.evict(now, EVICT_THRESHOLD);
        pings
    }

    /// Stop the routing loop after the current iteration.
    fn shut_down(&mut self) -> (r: Result<Option<u64>, Error>)
        requires
            old(self).wf(),
        ensures
            final(self).wf(),
            r == Ok::<Option<u64>, Error>(None::<u64>),
            !final(self).running,
            final(self).components@ == old(self).components@,
            final(self).namespace == old(self).namespace,
            final(self).full_name == old(self).full_name,
    {
        self.running = false;
        Ok(None)
    }
}

} // verus!
