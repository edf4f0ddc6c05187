//! The node: its identity state, the initialization handshake, message id
//! allocation, and the loop that reads envelopes and dispatches them.
use vstd::prelude::*;

use std::marker::PhantomData;

use crate::io::{
    is_quit_word, signal_of_line, trimmed, MessageReader, MessageReaderError, MessageWriter,
    MessageWriterError,
};
use crate::{Message, MessageView, NodeMessage};

verus! {

/// The content of an initialization request, as values.
pub struct InitView {
    pub node_id: Seq<char>,
    pub node_ids: Seq<Seq<char>>,
}

/// The identity that an initialization request assigns: this node's id and
/// the full roster of the cluster, this node included.
pub struct InitMessage {
    pub node_id: String,
    pub node_ids: Vec<String>,
}

impl View for InitMessage {
    type V = InitView;

    open spec fn view(&self) -> InitView {
        InitView { node_id: self.node_id@, node_ids: self.node_ids.deep_view() }
    }
}

/// A payload type that may be an initialization request.
pub trait TryIntoInitMessage {
    /// The initialization request that this payload is, if it is one.
    ///
    /// The default is one unspecified value, the same for every payload. It
    /// exists so that payload types written in plain Rust, which cannot state
    /// a spec function, can still implement the trait; for such a type the
    /// contract of `try_into_init_message` is not checked, and what is proved
    /// of a node holds only as far as that method keeps it. A verified
    /// implementation, such as the echo node's, replaces the default.
    closed spec fn init_request(&self) -> Option<InitView> {
        arbitrary()
    }

    fn try_into_init_message(&self) -> (r: Option<InitMessage>)
        ensures
            match r {
                Some(m) => self.init_request() == Some(m@),
                None => self.init_request() is None,
            },
    ;
}

/// A payload type that can acknowledge an initialization request.
pub trait CreatesInitOkMessage: Sized {
    /// The acknowledgement payload. The default is one unspecified value,
    /// for the same reason and with the same reach as the default of
    /// `TryIntoInitMessage::init_request`.
    closed spec fn init_ok() -> Self {
        arbitrary()
    }

    fn create_init_ok() -> (r: Self)
        ensures
            r == Self::init_ok(),
    ;
}

/// What a node knows of itself: its id and the roster, both unset until the
/// handshake, and the next message id it will hand out.
pub struct NodeState {
    pub node_id: Option<Seq<char>>,
    pub peer_ids: Option<Seq<Seq<char>>>,
    pub next_message_id: usize,
}

impl NodeState {
    /// The id and the roster are set together, and ids start at 1.
    pub open spec fn wf(self) -> bool {
        &&& (self.node_id is Some) == (self.peer_ids is Some)
        &&& self.next_message_id >= 1
    }
}

/// The state of a node that has not yet seen a handshake.
pub open spec fn fresh_state() -> NodeState {
    NodeState { node_id: None, peer_ids: None, next_message_id: 1 }
}

/// The state after a handshake that carried `init`: identity set, one
/// message id spent on the acknowledgement.
pub open spec fn handshake(s: NodeState, init: InitView) -> NodeState {
    NodeState {
        node_id: Some(init.node_id),
        peer_ids: Some(init.node_ids),
        next_message_id: (s.next_message_id + 1) as usize,
    }
}

/// The acknowledgement of the initialization request `req`, sent with
/// message id `id`: it answers as the request's destination, to its source.
pub open spec fn init_ok_reply<T: CreatesInitOkMessage>(
    req: MessageView<T>,
    id: usize,
) -> MessageView<T> {
    MessageView {
        src: req.dest,
        dest: req.src,
        msg_id: Some(id),
        in_reply_to: req.msg_id,
        body: T::init_ok(),
    }
}

/// A read result that ends the run loop: stream closed, or quit requested.
pub open spec fn is_stop_signal<T: NodeMessage>(read: Result<Message<T>, MessageReaderError>) -> bool {
    read matches Err(MessageReaderError::Closed) || read matches Err(MessageReaderError::Quit)
}

/// Whether the handshake on a request can be completed: the request carries
/// a message id to answer and the counter has an id left.
pub open spec fn handshake_possible<T: NodeMessage>(s: NodeState, req: MessageView<T>) -> bool {
    req.msg_id is Some && s.next_message_id < usize::MAX
}

/// The node's state after it handled `read`. Only an initialization
/// request that can be answered changes it. A repeated handshake is
/// accepted: it overwrites the id and the roster and spends another id.
pub open spec fn next_state<T: NodeMessage + TryIntoInitMessage>(
    s: NodeState,
    read: Result<Message<T>, MessageReaderError>,
) -> NodeState {
    match read {
        Ok(m) => match m@.body.init_request() {
            Some(init) => if handshake_possible(s, m@) {
                handshake(s, init)
            } else {
                s
            },
            None => s,
        },
        Err(_) => s,
    }
}

/// Why a node could not handle a step.
#[derive(Debug)]
pub enum NodeError {
    MessageReader(MessageReaderError),
    MessageWriter(MessageWriterError),
    /// An initialization request came without a message id to answer. The
    /// protocol requires one, so this is a breach of its contract by the
    /// sender; the node refuses the request rather than aborting.
    MissingMessageId,
    /// The counter has handed out every message id it can hold.
    MessageIdsExhausted,
}

/// What the node does with one read result.
#[derive(Debug)]
pub enum Action<T: NodeMessage> {
    /// End the run loop.
    Stop,
    /// Report the error; the loop goes on.
    Fail(NodeError),
    /// Send this message through the writer.
    Reply(Message<T>),
    /// Hand this message to the application handler.
    Dispatch(Message<T>),
}

/// The action that handling `read` in state `s` yields.
pub open spec fn step_action<T: NodeMessage + TryIntoInitMessage + CreatesInitOkMessage>(
    s: NodeState,
    read: Result<Message<T>, MessageReaderError>,
    a: Action<T>,
) -> bool {
    match read {
        Err(e) => if is_stop_signal(read) {
            a is Stop
        } else {
            a == Action::<T>::Fail(NodeError::MessageReader(e))
        },
        Ok(m) => match m@.body.init_request() {
            None => a == Action::Dispatch(m),
            Some(init) => if m@.msg_id is None {
                a == Action::<T>::Fail(NodeError::MissingMessageId)
            } else if s.next_message_id == usize::MAX {
                a == Action::<T>::Fail(NodeError::MessageIdsExhausted)
            } else {
                a matches Action::Reply(r) && r@ == init_ok_reply(m@, s.next_message_id)
            },
        },
    }
}

/// The replies that handling `read` in state `s` hands to the writer: the
/// acknowledgement of an initialization request that can be answered.
pub open spec fn step_writes<T: NodeMessage + TryIntoInitMessage + CreatesInitOkMessage>(
    s: NodeState,
    read: Result<Message<T>, MessageReaderError>,
) -> Seq<MessageView<T>> {
    match read {
        Ok(m) => match m@.body.init_request() {
            Some(_) => if handshake_possible(s, m@) {
                seq![init_ok_reply(m@, s.next_message_id)]
            } else {
                Seq::empty()
            },
            None => Seq::empty(),
        },
        Err(_) => Seq::empty(),
    }
}

/// The messages that handling `read` hands to the application handler: the
/// envelope itself when its payload is not an initialization request.
pub open spec fn step_dispatches<T: NodeMessage + TryIntoInitMessage>(
    read: Result<Message<T>, MessageReaderError>,
) -> Seq<MessageView<T>> {
    match read {
        Ok(m) => if m@.body.init_request() is None {
            seq![m@]
        } else {
            Seq::empty()
        },
        Err(_) => Seq::empty(),
    }
}

/// The result a step gives for the outcome of writing its reply.
pub open spec fn write_result(w: Result<(), MessageWriterError>) -> Result<bool, NodeError> {
    match w {
        Ok(()) => Ok(true),
        Err(e) => Err(NodeError::MessageWriter(e)),
    }
}

/// What one step does with `read` in state `s`, seen from its writer and
/// its result: the writer's history goes from `sent0` to `sent1`, and the
/// step returns `r`. A stop signal gives `Ok(false)`, any other failed read
/// the reader's own error, a dispatched message the base handler's
/// `Ok(true)`; a handshake that can be answered hands exactly its reply to
/// the writer and returns what the write gave, `Ok(true)` or the writer's
/// own error. Nothing else reaches the writer.
pub open spec fn step_effect<T: NodeMessage + TryIntoInitMessage + CreatesInitOkMessage>(
    s: NodeState,
    read: Result<Message<T>, MessageReaderError>,
    sent0: Seq<(MessageView<T>, Result<(), MessageWriterError>)>,
    sent1: Seq<(MessageView<T>, Result<(), MessageWriterError>)>,
    r: Result<bool, NodeError>,
) -> bool {
    match read {
        Err(e) => sent1 == sent0 && if is_stop_signal(read) {
            r == Ok::<bool, NodeError>(false)
        } else {
            r == Err::<bool, NodeError>(NodeError::MessageReader(e))
        },
        Ok(m) => match m@.body.init_request() {
            None => sent1 == sent0 && r == Ok::<bool, NodeError>(true),
            Some(_) => if m@.msg_id is None {
                sent1 == sent0 && r == Err::<bool, NodeError>(NodeError::MissingMessageId)
            } else if s.next_message_id == usize::MAX {
                sent1 == sent0 && r == Err::<bool, NodeError>(NodeError::MessageIdsExhausted)
            } else {
                &&& sent1.len() == sent0.len() + 1
                &&& sent1.drop_last() == sent0
                &&& sent1.last().0 == init_ok_reply(m@, s.next_message_id)
                &&& r == write_result(sent1.last().1)
            },
        },
    }
}

/// The messages in a writer's history, without the write results.
pub open spec fn messages_of<T>(sent: Seq<(MessageView<T>, Result<(), MessageWriterError>)>) -> Seq<
    MessageView<T>,
> {
    sent.map_values(|p: (MessageView<T>, Result<(), MessageWriterError>)| p.0)
}

/// The state after handling `reads` in order, starting from `s`.
pub open spec fn run_state<T: NodeMessage + TryIntoInitMessage>(
    s: NodeState,
    reads: Seq<Result<Message<T>, MessageReaderError>>,
) -> NodeState
    decreases reads.len(),
{
    if reads.len() == 0 {
        s
    } else {
        next_state(run_state(s, reads.drop_last()), reads.last())
    }
}

/// The replies handed to the writer while handling `reads` from `s`.
pub open spec fn run_writes<T: NodeMessage + TryIntoInitMessage + CreatesInitOkMessage>(
    s: NodeState,
    reads: Seq<Result<Message<T>, MessageReaderError>>,
) -> Seq<MessageView<T>>
    decreases reads.len(),
{
    if reads.len() == 0 {
        Seq::empty()
    } else {
        run_writes(s, reads.drop_last()) + step_writes(
            run_state(s, reads.drop_last()),
            reads.last(),
        )
    }
}

/// The messages handed to the application handler while handling `reads`.
pub open spec fn run_dispatches<T: NodeMessage + TryIntoInitMessage>(
    reads: Seq<Result<Message<T>, MessageReaderError>>,
) -> Seq<MessageView<T>>
    decreases reads.len(),
{
    if reads.len() == 0 {
        Seq::empty()
    } else {
        run_dispatches(reads.drop_last()) + step_dispatches(reads.last())
    }
}

/// A protocol node: reads envelopes from `R`, answers the initialization
/// handshake itself, and hands every other envelope to the application.
///
/// Beside its state the node keeps a ghost record of the messages it handed
/// to the application handler, in order. What it read and what it wrote are
/// in the histories of its reader and its writer.
pub struct Node<T: NodeMessage, R: MessageReader<T>, W: MessageWriter<T>> {
    reader: R,
    writer: W,
    _phantom: PhantomData<T>,
    node_id: Option<String>,
    all_node_ids: Option<Vec<String>>,
    next_message_id: usize,
    dispatched: Ghost<Seq<MessageView<T>>>,
}

impl<T: NodeMessage, R: MessageReader<T>, W: MessageWriter<T>> View for Node<T, R, W> {
    type V = NodeState;

    closed spec fn view(&self) -> NodeState {
        NodeState {
            node_id: match self.node_id {
                Some(s) => Some(s@),
                None => None,
            },
            peer_ids: match self.all_node_ids {
                Some(v) => Some(v.deep_view()),
                None => None,
            },
            next_message_id: self.next_message_id,
        }
    }
}

impl<T: NodeMessage, R: MessageReader<T>, W: MessageWriter<T>> Node<T, R, W> {
    pub closed spec fn reader(&self) -> R {
        self.reader
    }

    pub closed spec fn writer(&self) -> W {
        self.writer
    }

    /// Every message this node handed to the application handler, in order.
    pub closed spec fn dispatched(&self) -> Seq<MessageView<T>> {
        self.dispatched@
    }

    /// Reader, writer and record are the same in both.
    pub open spec fn same_io(&self, other: &Self) -> bool {
        &&& self.reader() == other.reader()
        &&& self.writer() == other.writer()
        &&& self.dispatched() == other.dispatched()
    }

    /// The results this node's reader has returned.
    pub open spec fn reads(&self) -> Seq<Result<Message<T>, MessageReaderError>> {
        self.reader().returned()
    }

    /// The messages this node's writer has been handed, with the results.
    pub open spec fn sent(&self) -> Seq<(MessageView<T>, Result<(), MessageWriterError>)> {
        self.writer().sent()
    }
}

impl<
    T: NodeMessage + TryIntoInitMessage + CreatesInitOkMessage,
    R: MessageReader<T>,
    W: MessageWriter<T>,
> Node<T, R, W> {
    /// A node that has not yet seen a handshake, over the given reader and
    /// writer.
    pub fn new(reader: R, writer: W) -> (r: Self)
        ensures
            r@ == fresh_state(),
            r.reader() == reader,
            r.writer() == writer,
            r.dispatched() == Seq::<MessageView<T>>::empty(),
    {
        Node {
            reader,
            writer,
            _phantom: PhantomData,
            node_id: None,
            all_node_ids: None,
            next_message_id: 1,
            dispatched: Ghost(Seq::empty()),
        }
    }

    pub fn node_id(&self) -> (r: Option<&str>)
        ensures
            match r {
                Some(s) => self@.node_id == Some(s@),
                None => self@.node_id is None,
            },
    {
        match &self.node_id {
            Some(s) => Some(s.as_str()),
            None => None,
        }
    }

    pub fn all_node_ids(&self) -> (r: Option<Vec<String>>)
        ensures
            match r {
                Some(v) => self@.peer_ids == Some(v.deep_view()),
                None => self@.peer_ids is None,
            },
    {
        match &self.all_node_ids {
            Some(v) => {
                let c = v.clone();
                assert(c.deep_view() =~= v.deep_view());
                Some(c)
            },
            None => None,
        }
    }

    /// Returns the current counter value and advances it.
    fn allocate_next_message_id(&mut self) -> (r: usize)
        requires
            old(self).next_message_id < usize::MAX,
        ensures
            r == old(self).next_message_id,
            final(self).next_message_id == old(self).next_message_id + 1,
            final(self).node_id == old(self).node_id,
            final(self).all_node_ids == old(self).all_node_ids,
            final(self).same_io(old(self)),
    {
        let next_id = self.next_message_id;
        self.next_message_id = self.next_message_id + 1;
        next_id
    }

    /// Completes the handshake on `message`, whose payload is the
    /// initialization request `init` and which carries a message id to answer.
    fn handle_init_message(&mut self, message: Message<T>, init: InitMessage) -> (a: Action<T>)
        requires
            message@.body.init_request() == Some(init@),
            message@.msg_id is Some,
        ensures
            final(self)@ == next_state(old(self)@, Ok::<Message<T>, MessageReaderError>(message)),
            step_action(old(self)@, Ok::<Message<T>, MessageReaderError>(message), a),
            final(self).same_io(old(self)),
    {
        let reply_to = message.msg_id().unwrap();
        if self.next_message_id == usize::MAX {
            return Action::Fail(NodeError::MessageIdsExhausted);
        }
        self.node_id = Some(init.node_id);
        self.all_node_ids = Some(init.node_ids);
        let id = self.allocate_next_message_id();
        let reply = Message::new_reply(
            message.dest().to_owned(),
            message.src().to_owned(),
            reply_to,
            Some(id),
            T::create_init_ok(),
        );
        Action::Reply(reply)
    }

    /// Decides what to do with one result of the reader, and performs the
    /// handshake when the result is an initialization request. A request
    /// without a message id breaks the protocol's contract; it is refused
    /// with `MissingMessageId` before any state changes. A repeated handshake
    /// is accepted and overwrites the id and the roster.
    pub fn handle_read(&mut self, read: Result<Message<T>, MessageReaderError>) -> (a: Action<T>)
        ensures
            final(self)@ == next_state(old(self)@, read),
            step_action(old(self)@, read, a),
            final(self).same_io(old(self)),
    {
        match read {
            Ok(message) => match message.body().try_into_init_message() {
                Some(init) => {
                    if message.msg_id().is_none() {
                        Action::Fail(NodeError::MissingMessageId)
                    } else {
                        self.handle_init_message(message, init)
                    }
                },
                None => Action::Dispatch(message),
            },
            Err(MessageReaderError::Closed) => Action::Stop,
            Err(MessageReaderError::Quit) => Action::Stop,
            Err(e) => Action::Fail(NodeError::MessageReader(e)),
        }
    }

    /// The application handler: the base node accepts every message and
    /// touches neither the reader nor the writer.
    fn handle_user_message(&mut self, _message: Message<T>) -> (r: Result<bool, NodeError>)
        ensures
            r == Ok::<bool, NodeError>(true),
            final(self)@ == old(self)@,
            final(self).same_io(old(self)),
    {
        Ok(true)
    }

    /// Reads one envelope and handles it: a stop signal gives `Ok(false)`;
    /// an initialization request is answered through the writer; any other
    /// envelope goes to the application handler. Errors of the reader, the
    /// writer and the handshake come back as `Err`.
    pub fn run_step(&mut self) -> (r: Result<bool, NodeError>)
        ensures
            final(self).reads().len() == old(self).reads().len() + 1,
            final(self).reads().drop_last() == old(self).reads(),
            final(self)@ == next_state(old(self)@, final(self).reads().last()),
            step_effect(old(self)@, final(self).reads().last(), old(self).sent(), final(self).sent(), r),
            final(self).dispatched() == old(self).dispatched() + step_dispatches(
                final(self).reads().last(),
            ),
            old(self)@.wf() ==> final(self)@.wf(),
            final(self)@.next_message_id >= old(self)@.next_message_id,
    {
        let read = self.reader.read();
        let ghost event = read;
        let ghost sent0 = self.writer.sent();
        let r = match self.handle_read(read) {
            Action::Stop => Ok(false),
            Action::Fail(e) => Err(e),
            Action::Reply(m) => match self.writer.write(m) {
                Ok(()) => Ok(true),
                Err(e) => Err(NodeError::MessageWriter(e)),
            },
            Action::Dispatch(m) => {
                self.dispatched = Ghost(self.dispatched@.push(m@));
                self.handle_user_message(m)
            },
        };
        proof {
            lemma_next_state_wf(old(self)@, event);
            assert(self.reads().drop_last() =~= old(self).reads());
            assert(self.dispatched@ =~= old(self).dispatched@ + step_dispatches(event));
            if self.sent().len() == sent0.len() + 1 {
                assert(self.sent().drop_last() =~= sent0);
            }
        }
        r
    }

    /// Runs the node until the reader reports that the stream closed or a
    /// quit was requested. Failed steps are skipped and the loop goes on. The
    /// loop also ends after `usize::MAX` reads, a count no run reaches.
    ///
    /// The reads of this run are handled once each, in order: the final
    /// state, the replies handed to the writer and the messages dispatched
    /// are those of handling them one after the other, and only the last can
    /// be a stop signal.
    pub fn run(&mut self) -> (r: Result<(), NodeError>)
        ensures
            r is Ok,
            final(self).reads().len() >= old(self).reads().len(),
            final(self).reads().take(old(self).reads().len() as int) == old(self).reads(),
            final(self).sent().len() >= old(self).sent().len(),
            final(self).sent().take(old(self).sent().len() as int) == old(self).sent(),
            ({
                let run = final(self).reads().skip(old(self).reads().len() as int);
                &&& final(self)@ == run_state(old(self)@, run)
                &&& messages_of(final(self).sent()) == messages_of(old(self).sent()) + run_writes(
                    old(self)@,
                    run,
                )
                &&& final(self).dispatched() == old(self).dispatched() + run_dispatches(run)
                &&& forall|i: int| 0 <= i < run.len() - 1 ==> !is_stop_signal(#[trigger] run[i])
                &&& (run.len() > 0 && is_stop_signal(run.last()) || run.len() == usize::MAX)
            }),
            old(self)@.wf() ==> final(self)@.wf(),
            final(self)@.next_message_id >= old(self)@.next_message_id,
    {
        let ghost start = self.reads().len();
        let ghost s0 = self@;
        let ghost w0 = self.sent();
        let ghost d0 = self.dispatched();
        let mut steps: usize = 0;
        loop
            invariant_except_break
                forall|i: int|
                    0 <= i < self.reads().skip(start as int).len() ==> !is_stop_signal(
                        #[trigger] self.reads().skip(start as int)[i],
                    ),
            invariant
                start == old(self).reads().len(),
                s0 == old(self)@,
                w0 == old(self).sent(),
                d0 == old(self).dispatched(),
                self.reads().len() == start + steps,
                self.reads().take(start as int) == old(self).reads(),
                self.sent().len() >= w0.len(),
                self.sent().take(w0.len() as int) == w0,
                self@ == run_state(s0, self.reads().skip(start as int)),
                messages_of(self.sent()) == messages_of(w0) + run_writes(
                    s0,
                    self.reads().skip(start as int),
                ),
                self.dispatched() == d0 + run_dispatches(self.reads().skip(start as int)),
                old(self)@.wf() ==> self@.wf(),
                self@.next_message_id >= old(self)@.next_message_id,
            ensures
                forall|i: int|
                    0 <= i < self.reads().skip(start as int).len() - 1 ==> !is_stop_signal(
                        #[trigger] self.reads().skip(start as int)[i],
                    ),
                self.reads().skip(start as int).len() > 0 && is_stop_signal(
                    self.reads().skip(start as int).last(),
                ) || steps == usize::MAX,
            decreases usize::MAX - steps,
        {
            if steps == usize::MAX {
                break;
            }
            let ghost before = self.reads();
            let ghost sent_before = self.sent();
            let ghost st = self@;
            let r = self.run_step();
            steps = steps + 1;
            proof {
                let run0 = before.skip(start as int);
                let run1 = self.reads().skip(start as int);
                assert(run1.drop_last() =~= run0);
                assert(run1.last() == self.reads().last());
                assert(self.reads().take(start as int) =~= before.take(start as int));
                lemma_step_messages(st, run1.last(), sent_before, self.sent(), r);
                assert(self.sent().take(w0.len() as int) =~= sent_before.take(w0.len() as int));
                assert(messages_of(w0) + run_writes(s0, run1) =~= messages_of(w0) + run_writes(
                    s0,
                    run0,
                ) + step_writes(st, run1.last()));
                assert(d0 + run_dispatches(run1) =~= d0 + run_dispatches(run0) + step_dispatches(
                    run1.last(),
                ));
                assert forall|i: int| 0 <= i < run1.len() - 1 implies !is_stop_signal(
                    #[trigger] run1[i],
                ) by {
                    assert(run1[i] == run0[i]);
                }
            }
            match r {
                Ok(false) => break,
                _ => {},
            }
        }
        Ok(())
    }
}

/// One step's effect on the writer's history: its messages grow by exactly
/// the step's replies, and what was there stays.
pub proof fn lemma_step_messages<T: NodeMessage + TryIntoInitMessage + CreatesInitOkMessage>(
    s: NodeState,
    read: Result<Message<T>, MessageReaderError>,
    sent0: Seq<(MessageView<T>, Result<(), MessageWriterError>)>,
    sent1: Seq<(MessageView<T>, Result<(), MessageWriterError>)>,
    r: Result<bool, NodeError>,
)
    requires
        step_effect(s, read, sent0, sent1, r),
    ensures
        messages_of(sent1) == messages_of(sent0) + step_writes(s, read),
        sent1.len() >= sent0.len(),
        sent1.take(sent0.len() as int) == sent0,
{
    assert(messages_of(sent1) =~= messages_of(sent0) + step_writes(s, read));
    assert(sent1.take(sent0.len() as int) =~= sent0);
}

/// Handling a read result keeps a well-formed state well-formed and never
/// moves the message id counter back.
pub proof fn lemma_next_state_wf<T: NodeMessage + TryIntoInitMessage>(
    s: NodeState,
    read: Result<Message<T>, MessageReaderError>,
)
    ensures
        s.wf() ==> next_state(s, read).wf(),
        next_state(s, read).next_message_id >= s.next_message_id,
{
}

/// Message ids of handshake replies: a fresh node answers its first
/// handshake with id 1, and each handshake answers with the current counter
/// value and advances the counter by exactly one.
pub proof fn lemma_handshake_message_ids<
    T: NodeMessage + TryIntoInitMessage + CreatesInitOkMessage,
>(s: NodeState, m: Message<T>)
    requires
        m@.body.init_request() is Some,
        m@.msg_id is Some,
    ensures
        next_state(fresh_state(), Ok::<Message<T>, MessageReaderError>(m)).next_message_id == 2,
        forall|a: Action<T>|
            step_action(fresh_state(), Ok::<Message<T>, MessageReaderError>(m), a) ==> (
            a matches Action::Reply(r) && r@.msg_id == Some(1usize)),
        s.next_message_id < usize::MAX ==> next_state(
            s,
            Ok::<Message<T>, MessageReaderError>(m),
        ).next_message_id == s.next_message_id + 1,
        s.next_message_id < usize::MAX ==> forall|a: Action<T>|
            step_action(s, Ok::<Message<T>, MessageReaderError>(m), a) ==> (
            a matches Action::Reply(r) && r@.msg_id == Some(s.next_message_id)),
{
}

/// A quit line and the end of the stream end the run alike: both are stop
/// signals, both leave the node's state as it was, and neither reaches the
/// application handler.
pub proof fn lemma_termination_equivalence<
    T: NodeMessage + TryIntoInitMessage + CreatesInitOkMessage,
>(s: NodeState, bytes_read: usize, line: Seq<char>)
    requires
        bytes_read != 0,
        is_quit_word(trimmed(line)),
    ensures
        signal_of_line(bytes_read, line) == Some(MessageReaderError::Quit),
        signal_of_line(0, line) == Some(MessageReaderError::Closed),
        is_stop_signal::<T>(Err(MessageReaderError::Quit)),
        is_stop_signal::<T>(Err(MessageReaderError::Closed)),
        next_state::<T>(s, Err(MessageReaderError::Quit)) == s,
        next_state::<T>(s, Err(MessageReaderError::Closed)) == s,
        forall|a: Action<T>| step_action(s, Err(MessageReaderError::Quit), a) <==> a is Stop,
        forall|a: Action<T>| step_action(s, Err(MessageReaderError::Closed), a) <==> a is Stop,
{
}

/// An envelope whose payload is not an initialization request never changes
/// the node's identity or counter, and goes to the application unchanged.
pub proof fn lemma_non_init_passthrough<
    T: NodeMessage + TryIntoInitMessage + CreatesInitOkMessage,
>(s: NodeState, m: Message<T>)
    requires
        m@.body.init_request() is None,
    ensures
        next_state(s, Ok::<Message<T>, MessageReaderError>(m)) == s,
        forall|a: Action<T>|
            step_action(s, Ok::<Message<T>, MessageReaderError>(m), a) <==> a == Action::Dispatch(m),
{
}

/// Over a whole run, a closed stream and a quit request are the same: after
/// the same earlier reads, ending with either leaves the same state, the
/// same replies and the same dispatched messages as the earlier reads alone.
pub proof fn lemma_stop_signals_agree<
    T: NodeMessage + TryIntoInitMessage + CreatesInitOkMessage,
>(
    s: NodeState,
    earlier: Seq<Result<Message<T>, MessageReaderError>>,
    e1: Result<Message<T>, MessageReaderError>,
    e2: Result<Message<T>, MessageReaderError>,
)
    requires
        is_stop_signal(e1),
        is_stop_signal(e2),
    ensures
        run_state(s, earlier.push(e1)) == run_state(s, earlier),
        run_state(s, earlier.push(e2)) == run_state(s, earlier),
        run_writes(s, earlier.push(e1)) == run_writes(s, earlier),
        run_writes(s, earlier.push(e2)) == run_writes(s, earlier),
        run_dispatches(earlier.push(e1)) == run_dispatches(earlier),
        run_dispatches(earlier.push(e2)) == run_dispatches(earlier),
{
    assert(earlier.push(e1).drop_last() =~= earlier);
    assert(earlier.push(e2).drop_last() =~= earlier);
    assert(run_writes(s, earlier) + Seq::<MessageView<T>>::empty() =~= run_writes(s, earlier));
    assert(run_dispatches(earlier) + Seq::<MessageView<T>>::empty() =~= run_dispatches(earlier));
}

/// Over a whole run, reads that carry no initialization request leave the
/// node's identity and counter as they were and write nothing.
pub proof fn lemma_non_init_run<T: NodeMessage + TryIntoInitMessage + CreatesInitOkMessage>(
    s: NodeState,
    reads: Seq<Result<Message<T>, MessageReaderError>>,
)
    requires
        forall|i: int|
            0 <= i < reads.len() ==> (#[trigger] reads[i] matches Ok(m)
                ==> m@.body.init_request() is None),
    ensures
        run_state(s, reads) == s,
        run_writes(s, reads) == Seq::<MessageView<T>>::empty(),
    decreases reads.len(),
{
    if reads.len() > 0 {
        let rest = reads.drop_last();
        assert forall|i: int| 0 <= i < rest.len() implies (#[trigger] rest[i] matches Ok(m)
            ==> m@.body.init_request() is None) by {
            assert(rest[i] == reads[i]);
        }
        lemma_non_init_run(s, rest);
        assert(reads[reads.len() - 1] == reads.last());
        assert(run_writes(s, rest) + step_writes(s, reads.last()) =~= Seq::<MessageView<T>>::empty());
    }
}

} // verus!
