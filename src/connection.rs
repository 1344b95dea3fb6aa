use crate::error::{ConnectionError, CtrlError};
use crate::frame::{
    is_client_id, is_server_id, frame_is, no_flags, Flags, RawFrame, Type, ECODE_PROTO,
};
use crate::stream::{Item, StreamHandle};
use crate::Config;
use std::collections::BTreeMap;
use vstd::prelude::*;

verus! {

broadcast use vstd::laws_cmp::group_laws_cmp, vstd::std_specs::btree::group_btree_axioms;

/// Connection mode.
#[derive(Clone, Copy, Debug, PartialEq, Eq, Hash, Structural)]
pub enum Mode {
    Client,
    Server,
}

/// `id` may be allocated by this side.
pub open spec fn is_local_id(mode: Mode, id: u32) -> bool {
    match mode {
        Mode::Client => is_client_id(id),
        Mode::Server => is_server_id(id),
    }
}

/// `id` may be allocated by the peer.
pub open spec fn is_remote_id(mode: Mode, id: u32) -> bool {
    match mode {
        Mode::Client => is_server_id(id),
        Mode::Server => is_client_id(id),
    }
}

/// The first ID that a side allocates.
pub open spec fn first_id(mode: Mode) -> u32 {
    match mode {
        Mode::Client => 1,
        Mode::Server => 2,
    }
}

/// Outcome of handing an item to a stream.
#[derive(Clone, Copy, Debug, PartialEq, Eq, Structural)]
pub enum Delivery {
    Despatched,
    StreamNotFound,
    ReceiverFull,
}

/// Commands from a control handle to its connection.
#[derive(Debug, PartialEq, Eq)]
pub enum Cmd {
    OpenStream(Option<Vec<u8>>),
}

/// What an inbound frame leads to.
#[derive(Debug, PartialEq, Eq)]
pub enum Event {
    /// Nothing to send and no stream to surface.
    Nothing,
    /// The peer opened the stream with this ID.
    NewStream(u32),
    /// A frame to send in reply.
    Reply(RawFrame),
    /// The peer broke the protocol: this go-away is the last frame to send.
    /// The connection is closing: it takes no more work, and is to be
    /// terminated once the go-away has been flushed.
    GoAway(RawFrame),
    /// The connection has ended.
    Closed,
}

/// The abstract state of a connection.
pub ghost struct ConnView {
    pub dead: bool,
    /// A go-away has been handed out and the connection waits for it to be
    /// flushed before it terminates.
    pub closing: bool,
    pub mode: Mode,
    pub window: u32,
    pub counter: u32,
    pub streams: Map<u32, StreamHandle>,
    /// Items delivered to streams, in order, not yet taken by the driver.
    pub inbox: Seq<(u32, Item)>,
    /// A frame that the sink could not take yet.
    pub pending: Option<RawFrame>,
}

/// A connection which multiplexes streams to the remote endpoint.
///
/// It holds the decisions of the protocol: the driver that owns the transport
/// hands it commands, stream items and inbound frames, sends the frames it
/// returns and forwards the delivered items to each stream.
pub struct Connection {
    is_dead: bool,
    is_closing: bool,
    mode: Mode,
    config: Config,
    id_counter: u32,
    streams: BTreeMap<u32, StreamHandle>,
    inbox: Vec<(u32, Item)>,
    pending: Option<RawFrame>,
}

/// The body of an optional initial payload.
pub open spec fn body_of(data: Option<Vec<u8>>) -> Seq<u8> {
    match data {
        Some(d) => d@,
        None => Seq::<u8>::empty(),
    }
}

/// Flags with at most ACK set.
pub open spec fn ack_flags(ack: bool) -> Flags {
    Flags { syn: false, ack, fin: false, rst: false }
}

/// A `Finish` for stream `id` when `fin` holds.
pub open spec fn fin_items(id: u32, fin: bool) -> Seq<(u32, Item)> {
    if fin {
        seq![(id, Item::Finish)]
    } else {
        Seq::<(u32, Item)>::empty()
    }
}

/// What a stream opened by the peer receives first: `Finish` if the opening
/// frame half-closes, then the initial body if there is one.
pub open spec fn opening_items(id: u32, fin: bool, body: Vec<u8>) -> Seq<(u32, Item)> {
    fin_items(id, fin) + if body@.len() > 0 {
        seq![(id, Item::Data(body))]
    } else {
        Seq::<(u32, Item)>::empty()
    }
}

/// The state of a new connection.
pub open spec fn initial(window: u32, mode: Mode) -> ConnView {
    ConnView {
        dead: false,
        closing: false,
        mode,
        window,
        counter: first_id(mode),
        streams: Map::<u32, StreamHandle>::empty(),
        inbox: Seq::<(u32, Item)>::empty(),
        pending: None,
    }
}

/// The handle of a stream just opened.
pub open spec fn fresh(recv_win: u32, ack: bool) -> StreamHandle {
    StreamHandle { recv_win, receiver_open: true, ack }
}

impl ConnView {
    /// The connection takes no more work: it is dead, or closing.
    pub open spec fn shut(self) -> bool {
        self.dead || self.closing
    }

    /// The invariants of a connection's state.
    pub open spec fn wf(self) -> bool {
        &&& self.counter >= first_id(self.mode)
        &&& self.counter % 2 == first_id(self.mode) % 2
        &&& self.dead ==> self.streams.is_empty()
        &&& forall|id: u32| #[trigger]
            self.streams.contains_key(id) ==> {
                ||| is_local_id(self.mode, id) && id < self.counter && !self.streams[id].ack
                ||| is_remote_id(self.mode, id)
            }
    }

    pub open spec fn with_streams(self, streams: Map<u32, StreamHandle>) -> ConnView {
        ConnView { streams, ..self }
    }

    pub open spec fn with_items(self, items: Seq<(u32, Item)>) -> ConnView {
        ConnView { inbox: self.inbox + items, ..self }
    }

    /// The state after terminating: dead, with no stream left.
    pub open spec fn terminated(self) -> ConnView {
        ConnView { dead: true, streams: Map::<u32, StreamHandle>::empty(), ..self }
    }

    /// The state after the peer reset stream `id`: it is told so, if it still
    /// listens, and is dropped.
    pub open spec fn reset(self, id: u32) -> ConnView {
        ConnView {
            streams: self.streams.remove(id),
            inbox: if self.streams.contains_key(id) && self.streams[id].receiver_open {
                self.inbox.push((id, Item::Reset))
            } else {
                self.inbox
            },
            ..self
        }
    }
}

/// What delivering `item` to stream `id` does to `old`, giving `new` and `r`.
pub open spec fn deliver_step(old: ConnView, id: u32, item: Item, new: ConnView, r: Delivery) -> bool {
    if !old.streams.contains_key(id) {
        r == Delivery::StreamNotFound && new == old
    } else if item is Data && item->Data_0@.len() > old.streams[id].recv_win {
        r == Delivery::ReceiverFull && new == old
    } else if !old.streams[id].receiver_open {
        r == Delivery::StreamNotFound && new == old.with_streams(old.streams.remove(id))
    } else {
        r == Delivery::Despatched && new == old.with_items(seq![(id, item)])
    }
}

/// Answering a protocol violation: a go-away with `ECODE_PROTO`, after which
/// the connection is closing; the stream table stays as it was until the
/// go-away has been flushed and the connection terminates.
pub open spec fn violation(old: ConnView, new: ConnView, ev: Event) -> bool {
    &&& ev is GoAway
    &&& frame_is(ev->GoAway_0, Type::GoAway, no_flags(), 0, ECODE_PROTO, seq![])
    &&& new == (ConnView { closing: true, ..old })
}

/// What a command to open a stream with initial body `data` does.
pub open spec fn open_step(
    old: ConnView,
    data: Option<Vec<u8>>,
    new: ConnView,
    r: Result<(u32, RawFrame), ConnectionError>,
) -> bool {
    if old.shut() {
        r == Err::<(u32, RawFrame), ConnectionError>(ConnectionError::Closed) && new == old
    } else if old.counter > u32::MAX - 2 {
        r == Err::<(u32, RawFrame), ConnectionError>(ConnectionError::NoMoreStreamIds) && new
            == old.terminated()
    } else {
        let id = old.counter;
        &&& r is Ok
        &&& r->Ok_0.0 == id
        &&& frame_is(
            r->Ok_0.1,
            Type::Data,
            Flags { syn: true, ack: false, fin: false, rst: false },
            id,
            body_of(data).len() as u32,
            body_of(data),
        )
        &&& new == ConnView {
            counter: (id + 2) as u32,
            streams: old.streams.insert(id, fresh(old.window, false)),
            ..old
        }
    }
}

/// What an item that stream `id` sends does, and the frame it becomes.
pub open spec fn item_step(old: ConnView, id: u32, item: Item, new: ConnView, r: Option<RawFrame>) -> bool {
    let a = old.streams.contains_key(id) && old.streams[id].ack;
    let cleared = if a {
        old.with_streams(old.streams.insert(id, StreamHandle { ack: false, ..old.streams[id] }))
    } else {
        old
    };
    if old.shut() {
        r is None && new == old
    } else {
        &&& r is Some
        &&& match item {
            Item::Data(b) => new == cleared && frame_is(
                r->Some_0,
                Type::Data,
                ack_flags(a),
                id,
                b@.len() as u32,
                b@,
            ),
            Item::WindowUpdate(n) => new == cleared && frame_is(
                r->Some_0,
                Type::WindowUpdate,
                ack_flags(a),
                id,
                n,
                seq![],
            ),
            Item::Reset => new == old.with_streams(old.streams.remove(id)) && frame_is(
                r->Some_0,
                Type::Data,
                Flags { syn: false, ack: false, fin: false, rst: true },
                id,
                0,
                seq![],
            ),
            Item::Finish => new == old && frame_is(
                r->Some_0,
                Type::Data,
                Flags { syn: false, ack: false, fin: true, rst: false },
                id,
                0,
                seq![],
            ),
        }
    }
}

/// What an inbound data frame `f` does.
pub open spec fn data_step(old: ConnView, f: RawFrame, new: ConnView, ev: Event) -> bool {
    let id = f.header.stream_id;
    let fl = f.header.flags;
    if fl.rst {
        ev is Nothing && new == old.reset(id)
    } else if fl.syn {
        if !is_remote_id(old.mode, id) || f.body@.len() > old.window || old.streams.contains_key(
            id,
        ) {
            violation(old, new, ev)
        } else {
            &&& ev == Event::NewStream(id)
            &&& new == old.with_streams(old.streams.insert(id, fresh(old.window, true))).with_items(
                opening_items(id, fl.fin, f.body),
            )
        }
    } else if !old.streams.contains_key(id) {
        ev is Nothing && new == old
    } else if f.body@.len() > old.streams[id].recv_win {
        violation(old, new, ev)
    } else if !old.streams[id].receiver_open {
        ev is Nothing && new == old.with_streams(old.streams.remove(id))
    } else {
        ev is Nothing && new == old.with_items(seq![(id, Item::Data(f.body))] + fin_items(id, fl.fin))
    }
}

/// What an inbound window update `f` does.
pub open spec fn window_update_step(old: ConnView, f: RawFrame, new: ConnView, ev: Event) -> bool {
    let id = f.header.stream_id;
    let fl = f.header.flags;
    let credit = f.header.aux;
    if fl.rst {
        ev is Nothing && new == old.reset(id)
    } else if fl.syn {
        if !is_remote_id(old.mode, id) || old.streams.contains_key(id) {
            violation(old, new, ev)
        } else {
            &&& ev == Event::NewStream(id)
            &&& new == old.with_streams(old.streams.insert(id, fresh(credit, true))).with_items(
                fin_items(id, fl.fin),
            )
        }
    } else if !old.streams.contains_key(id) {
        ev is Nothing && new == old
    } else if !old.streams[id].receiver_open {
        ev is Nothing && new == old.with_streams(old.streams.remove(id))
    } else {
        ev is Nothing && new == old.with_items(seq![(id, Item::WindowUpdate(credit))] + fin_items(id, fl.fin))
    }
}

/// What an inbound ping `f` does: a ping that is no answer, on the session or
/// on a known stream, is answered on the session with its nonce.
pub open spec fn ping_step(old: ConnView, f: RawFrame, new: ConnView, ev: Event) -> bool {
    let id = f.header.stream_id;
    &&& new == old
    &&& if !f.header.flags.ack && (id == 0 || old.streams.contains_key(id)) {
        ev is Reply && frame_is(ev->Reply_0, Type::Ping, ack_flags(true), 0, f.header.aux, seq![])
    } else {
        ev is Nothing
    }
}

/// What an inbound frame `f` does.
pub open spec fn frame_step(old: ConnView, f: RawFrame, new: ConnView, ev: Event) -> bool {
    if old.shut() {
        ev is Closed && new == old
    } else {
        match f.header.typ {
            Type::Data => data_step(old, f, new, ev),
            Type::WindowUpdate => window_update_step(old, f, new, ev),
            Type::Ping => ping_step(old, f, new, ev),
            Type::GoAway => ev is Closed && new == old.terminated(),
        }
    }
}

impl Connection {
    pub closed spec fn view(&self) -> ConnView {
        ConnView {
            dead: self.is_dead,
            closing: self.is_closing,
            mode: self.mode,
            window: self.config.receive_window,
            counter: self.id_counter,
            streams: self.streams@,
            inbox: self.inbox@,
            pending: self.pending,
        }
    }

    /// Create a new connection either in client or server mode.
    pub fn new(config: Config, mode: Mode) -> (r: Connection)
        ensures
            r@.wf(),
            r@ == initial(config.receive_window, mode),
    {
        let id_counter: u32 = match mode {
            Mode::Client => 1,
            Mode::Server => 2,
        };
        Connection {
            is_dead: false,
            is_closing: false,
            mode,
            config,
            id_counter,
            streams: BTreeMap::new(),
            inbox: Vec::new(),
            pending: None,
        }
    }

    /// Get a control handle which allows to open new streams.
    pub fn control(&self) -> (r: Ctrl)
        ensures
            r.receive_window() == self@.window,
    {
        Ctrl::new(self.config)
    }

    /// Whether a go-away waits to be flushed before the connection
    /// terminates.
    pub fn is_closing(&self) -> (r: bool)
        ensures
            r == self@.closing,
    {
        self.is_closing
    }

    pub fn is_dead(&self) -> (r: bool)
        ensures
            r == self@.dead,
    {
        self.is_dead
    }

    pub fn mode(&self) -> (r: Mode)
        ensures
            r == self@.mode,
    {
        self.mode
    }

    /// The ID that the next stream opened by this side gets.
    pub fn id_counter(&self) -> (r: u32)
        ensures
            r == self@.counter,
    {
        self.id_counter
    }

    /// Allocate the next local stream ID.
    pub fn next_stream_id(&mut self) -> (r: Result<u32, ConnectionError>)
        ensures
            old(self)@.counter > u32::MAX - 2 ==> r == Err::<u32, ConnectionError>(
                ConnectionError::NoMoreStreamIds,
            ) && final(self)@ == old(self)@,
            old(self)@.counter <= u32::MAX - 2 ==> {
                &&& r == Ok::<u32, ConnectionError>(old(self)@.counter)
                &&& final(self)@ == (ConnView { counter: (old(self)@.counter + 2) as u32, ..old(self)@ })
            },
    {
        if self.id_counter > u32::MAX - 2 {
            return Err(ConnectionError::NoMoreStreamIds);
        }
        let proposed = self.id_counter;
        self.id_counter = self.id_counter + 2;
        Ok(proposed)
    }

    /// Whether `id` is acceptable for an inbound frame of type `ty` that opens
    /// a stream or addresses the session.
    pub fn is_valid_remote_id(&self, id: u32, ty: Type) -> (r: bool)
        ensures
            r == match ty {
                Type::Ping | Type::GoAway => id == 0,
                _ => is_remote_id(self@.mode, id),
            },
    {
        match ty {
            Type::Ping | Type::GoAway => return id == 0,
            _ => {},
        }
        match self.mode {
            Mode::Client => id != 0 && id % 2 == 0,
            Mode::Server => id % 2 == 1,
        }
    }

    /// Enter a fresh handle for stream `id` into the table.
    fn new_stream(&mut self, id: u32, ack: bool, recv_window: u32)
        ensures
            final(self)@ == old(self)@.with_streams(old(self)@.streams.insert(id, fresh(recv_window, ack))),
    {
        self.streams.insert(id, StreamHandle::new(recv_window, ack));
    }

    /// Hand `item` to stream `id`.
    pub fn deliver(&mut self, id: u32, item: Item) -> (r: Delivery)
        ensures
            deliver_step(old(self)@, id, item, final(self)@, r),
    {
        match self.streams.get(&id) {
            None => Delivery::StreamNotFound,
            Some(h) => {
                let full = match &item {
                    Item::Data(body) => body.len() as u64 > h.recv_win as u64,
                    _ => false,
                };
                if full {
                    return Delivery::ReceiverFull;
                }
                if !h.receiver_open {
                    self.streams.remove(&id);
                    return Delivery::StreamNotFound;
                }
                self.inbox.push((id, item));
                proof {
                    assert(self.inbox@ =~= old(self).inbox@ + seq![(id, item)]);
                }
                Delivery::Despatched
            },
        }
    }

    /// Mark the connection dead and drop every stream: once a go-away has
    /// been flushed, or when the transport ends or fails.
    pub fn terminate(&mut self)
        ensures
            final(self)@ == old(self)@.terminated(),
    {
        self.is_dead = true;
        self.streams.clear();
    }
}

impl Connection {
    /// Open a stream of this side with initial body `data`: the new stream's
    /// ID and the frame that announces it. Running out of IDs terminates the
    /// connection.
    pub fn open_stream(&mut self, data: Option<Vec<u8>>) -> (r: Result<(u32, RawFrame), ConnectionError>)
        requires
            old(self)@.pending is None,
            old(self)@.wf(),
            body_of(data).len() <= u32::MAX,
        ensures
            final(self)@.wf(),
            open_step(old(self)@, data, final(self)@, r),
    {
        if self.is_dead || self.is_closing {
            return Err(ConnectionError::Closed);
        }
        let id = match self.next_stream_id() {
            Ok(id) => id,
            Err(e) => {
                self.terminate();
                proof {
                    assert(self@.streams =~= Map::<u32, StreamHandle>::empty());
                }
                return Err(e);
            },
        };
        proof {
            assert(!old(self)@.streams.contains_key(id));
        }
        let credit = self.config.receive_window;
        self.new_stream(id, false, credit);
        let body = match data {
            Some(d) => d,
            None => Vec::new(),
        };
        let mut frame = RawFrame::data(id, body);
        frame.header.flags.syn = true;
        proof {
            assert(frame.body@ =~= body_of(data));
        }
        Ok((id, frame))
    }

    /// Turn an item sent by stream `id` into the frame that carries it. The
    /// first data or window update of a stream opened by the peer
    /// acknowledges it.
    pub fn on_stream_item(&mut self, id: u32, item: Item) -> (r: Option<RawFrame>)
        requires
            old(self)@.pending is None,
            old(self)@.wf(),
            item is Data ==> item->Data_0@.len() <= u32::MAX,
        ensures
            final(self)@.wf(),
            item_step(old(self)@, id, item, final(self)@, r),
    {
        if self.is_dead || self.is_closing {
            return None;
        }
        match item {
            Item::Data(body) => {
                let ack = self.take_ack(id);
                let mut frame = RawFrame::data(id, body);
                frame.header.flags.ack = ack;
                Some(frame)
            },
            Item::WindowUpdate(n) => {
                let ack = self.take_ack(id);
                let mut frame = RawFrame::window_update(id, n);
                frame.header.flags.ack = ack;
                Some(frame)
            },
            Item::Reset => {
                self.streams.remove(&id);
                let mut frame = RawFrame::data(id, Vec::new());
                frame.header.flags.rst = true;
                proof {
                    assert(self@.streams =~= old(self)@.streams.remove(id));
                }
                Some(frame)
            },
            Item::Finish => {
                let mut frame = RawFrame::data(id, Vec::new());
                frame.header.flags.fin = true;
                Some(frame)
            },
        }
    }

    /// Whether the next frame on stream `id` must acknowledge it; the flag is
    /// cleared.
    fn take_ack(&mut self, id: u32) -> (r: bool)
        requires
            old(self)@.wf(),
        ensures
            final(self)@.wf(),
            r == (old(self)@.streams.contains_key(id) && old(self)@.streams[id].ack),
            final(self)@ == if r {
                old(self)@.with_streams(
                    old(self)@.streams.insert(id, StreamHandle { ack: false, ..old(self)@.streams[id] }),
                )
            } else {
                old(self)@
            },
    {
        match self.streams.get(&id) {
            Some(h) => {
                if h.ack {
                    let mut h2 = *h;
                    h2.ack = false;
                    self.streams.insert(id, h2);
                    true
                } else {
                    false
                }
            },
            None => false,
        }
    }

    /// Handle the outcome of a protocol violation by the peer.
    fn protocol_error(&mut self) -> (ev: Event)
        requires
            old(self)@.wf(),
        ensures
            final(self)@.wf(),
            violation(old(self)@, final(self)@, ev),
    {
        self.is_closing = true;
        proof {
            assert(self@ == (ConnView { closing: true, ..old(self)@ }));
        }
        Event::GoAway(RawFrame::go_away(ECODE_PROTO))
    }

    /// The peer reset stream `id`.
    fn on_reset(&mut self, id: u32)
        requires
            old(self)@.wf(),
        ensures
            final(self)@.wf(),
            final(self)@ == old(self)@.reset(id),
    {
        self.deliver(id, Item::Reset);
        self.streams.remove(&id);
        proof {
            assert(self@.streams =~= old(self)@.streams.remove(id));
            assert(self@.inbox =~= old(self)@.reset(id).inbox);
        }
    }

    /// The peer half-closed stream `id`.
    fn on_finish(&mut self, id: u32) -> (r: Delivery)
        ensures
            deliver_step(old(self)@, id, Item::Finish, final(self)@, r),
    {
        self.deliver(id, Item::Finish)
    }

    pub fn on_data(&mut self, frame: RawFrame) -> (ev: Event)
        requires
            old(self)@.wf(),
            !old(self)@.shut(),
        ensures
            final(self)@.wf(),
            data_step(old(self)@, frame, final(self)@, ev),
    {
        let ghost f = frame;
        let id = frame.header.stream_id;
        let flags = frame.header.flags;
        if flags.rst {
            self.on_reset(id);
            return Event::Nothing;
        }
        let body = frame.body;
        if flags.syn {
            if !self.is_valid_remote_id(id, Type::Data) {
                return self.protocol_error();
            }
            let credit = self.config.receive_window;
            if body.len() as u64 > credit as u64 {
                return self.protocol_error();
            }
            if self.streams.contains_key(&id) {
                return self.protocol_error();
            }
            self.new_stream(id, true, credit);
            let ghost mid = self@;
            if flags.fin {
                self.deliver(id, Item::Finish);
            }
            let ghost mid2 = self@;
            if body.len() > 0 {
                self.deliver(id, Item::Data(body));
            }
            proof {
                assert(mid2.inbox =~= mid.inbox + fin_items(id, flags.fin));
                assert(self@.inbox =~= mid.inbox + opening_items(id, flags.fin, f.body));
            }
            return Event::NewStream(id);
        }
        match self.deliver(id, Item::Data(body)) {
            Delivery::Despatched => {
                if flags.fin {
                    self.on_finish(id);
                }
                proof {
                    assert(self@.inbox =~= old(self)@.inbox + (seq![(id, Item::Data(f.body))] + fin_items(id, flags.fin)));
                }
                Event::Nothing
            },
            Delivery::StreamNotFound => Event::Nothing,
            Delivery::ReceiverFull => self.protocol_error(),
        }
    }

    pub fn on_window_update(&mut self, frame: &RawFrame) -> (ev: Event)
        requires
            old(self)@.wf(),
            !old(self)@.shut(),
        ensures
            final(self)@.wf(),
            window_update_step(old(self)@, *frame, final(self)@, ev),
    {
        let id = frame.header.stream_id;
        let flags = frame.header.flags;
        if flags.rst {
            self.on_reset(id);
            return Event::Nothing;
        }
        let credit = frame.header.aux;
        if flags.syn {
            if !self.is_valid_remote_id(id, Type::WindowUpdate) {
                return self.protocol_error();
            }
            if self.streams.contains_key(&id) {
                return self.protocol_error();
            }
            self.new_stream(id, true, credit);
            let ghost mid = self@;
            if flags.fin {
                self.deliver(id, Item::Finish);
            }
            proof {
                assert(self@.inbox =~= mid.inbox + fin_items(id, flags.fin));
            }
            return Event::NewStream(id);
        }
        if self.deliver(id, Item::WindowUpdate(credit)) == Delivery::StreamNotFound {
            return Event::Nothing;
        }
        if flags.fin {
            self.on_finish(id);
        }
        proof {
            assert(self@.inbox =~= old(self)@.inbox + (seq![(id, Item::WindowUpdate(credit))] + fin_items(id, flags.fin)));
        }
        Event::Nothing
    }

    pub fn on_ping(&self, frame: &RawFrame) -> (r: Option<RawFrame>)
        ensures
            ping_step(self@, *frame, self@, if r is Some { Event::Reply(r->Some_0) } else { Event::Nothing }),
    {
        let id = frame.header.stream_id;
        if frame.header.flags.ack {
            None
        } else if id == 0 || self.streams.contains_key(&id) {
            let mut pong = RawFrame::ping(frame.header.aux);
            pong.header.flags.ack = true;
            Some(pong)
        } else {
            None
        }
    }

    /// The peer is going away.
    fn on_go_away(&mut self)
        ensures
            final(self)@ == old(self)@.terminated(),
    {
        self.terminate();
    }

    /// Dispatch an inbound frame by its type.
    pub fn on_frame(&mut self, frame: RawFrame) -> (ev: Event)
        requires
            old(self)@.pending is None,
            old(self)@.wf(),
        ensures
            final(self)@.wf(),
            frame_step(old(self)@, frame, final(self)@, ev),
    {
        if self.is_dead || self.is_closing {
            return Event::Closed;
        }
        match frame.header.typ {
            Type::Data => self.on_data(frame),
            Type::WindowUpdate => self.on_window_update(&frame),
            Type::Ping => match self.on_ping(&frame) {
                Some(pong) => Event::Reply(pong),
                None => Event::Nothing,
            },
            Type::GoAway => {
                self.on_go_away();
                proof {
                    assert(self@.streams =~= Map::<u32, StreamHandle>::empty());
                }
                Event::Closed
            },
        }
    }
}

impl Connection {
    /// Create a connection whose next local stream ID is `id_counter`, as
    /// one that has already opened the streams of this side below it.
    pub fn with_id_counter(config: Config, mode: Mode, id_counter: u32) -> (r: Connection)
        requires
            id_counter >= first_id(mode),
            id_counter % 2 == first_id(mode) % 2,
        ensures
            r@.wf(),
            r@ == (ConnView { counter: id_counter, ..initial(config.receive_window, mode) }),
    {
        let mut c = Connection::new(config, mode);
        c.id_counter = id_counter;
        c
    }

    /// The handle of stream `id`, if it is in the table.
    pub fn stream(&self, id: u32) -> (r: Option<StreamHandle>)
        ensures
            r == if self@.streams.contains_key(id) {
                Some(self@.streams[id])
            } else {
                None::<StreamHandle>
            },
    {
        match self.streams.get(&id) {
            Some(h) => Some(*h),
            None => None,
        }
    }

    /// Hand out the items delivered to streams since the last call, in order.
    pub fn take_items(&mut self) -> (r: Vec<(u32, Item)>)
        requires
            old(self)@.wf(),
        ensures
            final(self)@.wf(),
            r@ == old(self)@.inbox,
            final(self)@ == (ConnView { inbox: Seq::<(u32, Item)>::empty(), ..old(self)@ }),
    {
        let mut items = Vec::new();
        std::mem::swap(&mut items, &mut self.inbox);
        proof {
            assert(self.inbox@ =~= Seq::<(u32, Item)>::empty());
        }
        items
    }

    /// Stream `id` has read `n` bytes: its receive window shrinks by `n`, down
    /// to zero at most.
    pub fn consume(&mut self, id: u32, n: u32)
        requires
            old(self)@.wf(),
        ensures
            final(self)@.wf(),
            final(self)@ == if old(self)@.streams.contains_key(id) {
                let h = old(self)@.streams[id];
                let w = if n <= h.recv_win { (h.recv_win - n) as u32 } else { 0u32 };
                old(self)@.with_streams(old(self)@.streams.insert(id, StreamHandle { recv_win: w, ..h }))
            } else {
                old(self)@
            },
    {
        match self.streams.get(&id) {
            Some(h) => {
                let mut h2 = *h;
                h2.recv_win = if n <= h.recv_win { h.recv_win - n } else { 0 };
                self.streams.insert(id, h2);
            },
            None => {},
        }
    }

    /// Stream `id` grants the peer `n` more bytes: its receive window grows by
    /// `n`, up to `u32::MAX` at most.
    pub fn credit(&mut self, id: u32, n: u32)
        requires
            old(self)@.wf(),
        ensures
            final(self)@.wf(),
            final(self)@ == if old(self)@.streams.contains_key(id) {
                let h = old(self)@.streams[id];
                let w = if h.recv_win + n <= u32::MAX { (h.recv_win + n) as u32 } else { u32::MAX };
                old(self)@.with_streams(old(self)@.streams.insert(id, StreamHandle { recv_win: w, ..h }))
            } else {
                old(self)@
            },
    {
        match self.streams.get(&id) {
            Some(h) => {
                let mut h2 = *h;
                h2.recv_win = h.recv_win.saturating_add(n);
                self.streams.insert(id, h2);
            },
            None => {},
        }
    }

    /// Stream `id` takes no more items; the next delivery to it drops it.
    pub fn close_receiver(&mut self, id: u32)
        requires
            old(self)@.wf(),
        ensures
            final(self)@.wf(),
            final(self)@ == if old(self)@.streams.contains_key(id) {
                let h = old(self)@.streams[id];
                old(self)@.with_streams(old(self)@.streams.insert(id, StreamHandle { receiver_open: false, ..h }))
            } else {
                old(self)@
            },
    {
        match self.streams.get(&id) {
            Some(h) => {
                let mut h2 = *h;
                h2.receiver_open = false;
                self.streams.insert(id, h2);
            },
            None => {},
        }
    }

    /// Whether a frame waits for the sink.
    pub fn has_pending(&self) -> (r: bool)
        ensures
            r == self@.pending is Some,
    {
        self.pending.is_some()
    }

    /// Take the frame that waits for the sink, if any; the slot is then empty.
    pub fn take_pending(&mut self) -> (r: Option<RawFrame>)
        requires
            old(self)@.wf(),
        ensures
            final(self)@.wf(),
            r == old(self)@.pending,
            final(self)@ == (ConnView { pending: None, ..old(self)@ }),
    {
        self.pending.take()
    }

    /// Keep `frame`, which the sink did not take, until the next drive. Only
    /// one frame can wait.
    pub fn park(&mut self, frame: RawFrame)
        requires
            old(self)@.wf(),
            old(self)@.pending is None,
        ensures
            final(self)@.wf(),
            final(self)@ == (ConnView { pending: Some(frame), ..old(self)@ }),
    {
        self.pending = Some(frame);
    }
}

/// A control handle which allows to open new streams.
#[derive(Clone, Copy, Debug)]
pub struct Ctrl {
    config: Config,
}

impl Ctrl {
    pub closed spec fn receive_window(&self) -> u32 {
        self.config.receive_window
    }

    fn new(config: Config) -> (r: Ctrl)
        ensures
            r.receive_window() == config.receive_window,
    {
        Ctrl { config }
    }

    /// Check a request to open a stream with initial body `data` and build the
    /// command that asks the connection for it.
    pub fn open_stream(&self, data: Option<Vec<u8>>) -> (r: Result<Cmd, CtrlError>)
        ensures
            match data {
                Some(d) if d@.len() > self.receive_window() => r == Err::<Cmd, CtrlError>(
                    CtrlError::InitialBodyTooLarge(self.receive_window()),
                ),
                _ => r == Ok::<Cmd, CtrlError>(Cmd::OpenStream(data)),
            },
    {
        let max_len = self.config.receive_window;
        let too_large = match &data {
            Some(d) => d.len() as u64 > max_len as u64,
            None => false,
        };
        if too_large {
            return Err(CtrlError::InitialBodyTooLarge(max_len));
        }
        Ok(Cmd::OpenStream(data))
    }
}

} // verus!
