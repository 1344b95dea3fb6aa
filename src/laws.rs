use crate::connection::{
    data_step, frame_step, is_local_id, is_remote_id, item_step, open_step, ConnView, Event,
};
use crate::error::ConnectionError;
use crate::frame::{RawFrame, Type, ECODE_PROTO};
use crate::stream::Item;
use vstd::prelude::*;

verus! {

/// A stream opened here gets an ID of this side's parity, and the frame
/// that opens it carries that ID.
pub proof fn lemma_local_id_parity(
    c0: ConnView,
    data: Option<Vec<u8>>,
    c1: ConnView,
    r: Result<(u32, RawFrame), ConnectionError>,
)
    requires
        c0.wf(),
        open_step(c0, data, c1, r),
    ensures
        r is Ok ==> is_local_id(c0.mode, r->Ok_0.0) && r->Ok_0.1.header.stream_id == r->Ok_0.0,
{
}

/// A stream that the peer opens is accepted only with an ID of the peer's
/// parity, and the frames sent about the session (ping replies and
/// go-aways) carry ID 0.
pub proof fn lemma_remote_id_parity(c0: ConnView, f: RawFrame, c1: ConnView, ev: Event)
    requires
        frame_step(c0, f, c1, ev),
    ensures
        ev is NewStream ==> is_remote_id(c0.mode, ev->NewStream_0),
        ev is Reply ==> ev->Reply_0.header.stream_id == 0,
        ev is GoAway ==> ev->GoAway_0.header.stream_id == 0,
{
}

/// Two streams opened one after the other get IDs two apart.
pub proof fn lemma_monotonic_ids(
    c0: ConnView,
    d1: Option<Vec<u8>>,
    c1: ConnView,
    r1: Result<(u32, RawFrame), ConnectionError>,
    d2: Option<Vec<u8>>,
    c2: ConnView,
    r2: Result<(u32, RawFrame), ConnectionError>,
)
    requires
        open_step(c0, d1, c1, r1),
        open_step(c1, d2, c2, r2),
        r1 is Ok,
        r2 is Ok,
    ensures
        r2->Ok_0.0 == r1->Ok_0.0 + 2,
{
}

/// The items that take the acknowledgement of a stream: data and window
/// updates.
pub open spec fn takes_ack(i: Item) -> bool {
    i is Data || i is WindowUpdate
}

/// No item before position `j` of `items` takes the acknowledgement.
pub open spec fn none_takes_ack_before(items: Seq<Item>, j: int) -> bool {
    forall|k: int| 0 <= k < j ==> !takes_ack(#[trigger] items[k])
}

/// `s` are the states of a connection whose stream `id` sends `items`, one
/// after the other, as `frames`.
pub open spec fn item_steps(s: Seq<ConnView>, id: u32, items: Seq<Item>, frames: Seq<Option<RawFrame>>) -> bool {
    &&& s.len() == items.len() + 1
    &&& frames.len() == items.len()
    &&& forall|k: int| 0 <= k < items.len() ==> #[trigger] item_step(s[k], id, items[k], s[k + 1], frames[k])
}

proof fn lemma_ack_prefix(s: Seq<ConnView>, id: u32, items: Seq<Item>, frames: Seq<Option<RawFrame>>, n: int)
    requires
        item_steps(s, id, items, frames),
        !s[0].shut(),
        s[0].streams.contains_key(id),
        s[0].streams[id].ack,
        forall|k: int| 0 <= k < items.len() ==> !((#[trigger] items[k]) is Reset),
        0 <= n <= items.len(),
    ensures
        !s[n].shut(),
        s[n].streams.contains_key(id),
        s[n].streams[id].ack == none_takes_ack_before(items, n),
    decreases n,
{
    if n > 0 {
        let k = n - 1;
        lemma_ack_prefix(s, id, items, frames, k);
        assert(item_step(s[k], id, items[k], s[k + 1], frames[k]));
        assert(!(items[k] is Reset));
        if takes_ack(items[k]) {
            assert(!none_takes_ack_before(items, n));
        } else {
            assert(none_takes_ack_before(items, n) == none_takes_ack_before(items, k));
        }
    }
}

/// A stream opened by the peer is acknowledged by exactly one frame: the
/// first data or window update sent on it. Finish items sent before it do
/// not take the acknowledgement, and no frame after it carries one.
pub proof fn lemma_one_ack(
    c0: ConnView,
    f: RawFrame,
    s: Seq<ConnView>,
    id: u32,
    items: Seq<Item>,
    frames: Seq<Option<RawFrame>>,
)
    requires
        frame_step(c0, f, s[0], Event::NewStream(id)),
        item_steps(s, id, items, frames),
        forall|k: int| 0 <= k < items.len() ==> !((#[trigger] items[k]) is Reset),
    ensures
        forall|j: int|
            0 <= j < items.len() ==> (#[trigger] frames[j]) is Some && (frames[j]->Some_0.header.flags.ack
                <==> takes_ack(items[j]) && none_takes_ack_before(items, j)),
{
    assert(!s[0].shut());
    assert forall|j: int| 0 <= j < items.len() implies (#[trigger] frames[j]) is Some && (
    frames[j]->Some_0.header.flags.ack <==> takes_ack(items[j]) && none_takes_ack_before(items, j)) by {
        lemma_ack_prefix(s, id, items, frames, j);
        assert(item_step(s[j], id, items[j], s[j + 1], frames[j]));
    }
}

/// Once the flag of stream `id` is clear, no frame sent on it acknowledges
/// it, and the flag stays clear.
pub proof fn lemma_ack_stays_clear(c0: ConnView, id: u32, i: Item, c1: ConnView, r: Option<RawFrame>)
    requires
        item_step(c0, id, i, c1, r),
        c0.streams.contains_key(id) ==> !c0.streams[id].ack,
    ensures
        r is Some ==> !r->Some_0.header.flags.ack,
        c1.streams.contains_key(id) ==> !c1.streams[id].ack,
{
}

/// A data frame longer than the receive window it meets is not delivered:
/// it is answered with a go-away, the connection is closing, and the stream
/// table stays as it was until the go-away has been flushed.
pub proof fn lemma_window_safety(c0: ConnView, f: RawFrame, c1: ConnView, ev: Event)
    requires
        c0.wf(),
        !c0.shut(),
        frame_step(c0, f, c1, ev),
        f.header.typ == Type::Data,
        !f.header.flags.rst,
        f.header.flags.syn ==> f.body@.len() > c0.window,
        !f.header.flags.syn ==> c0.streams.contains_key(f.header.stream_id) && f.body@.len()
            > c0.streams[f.header.stream_id].recv_win,
    ensures
        ev is GoAway,
        ev->GoAway_0.header.typ == Type::GoAway,
        ev->GoAway_0.header.aux == ECODE_PROTO,
        c1.closing,
        !c1.dead,
        c1.streams == c0.streams,
        c1.inbox == c0.inbox,
{
}

/// Once a go-away has been handed out, and after termination, nothing more
/// is sent: no inbound frame, stream item or open request produces a frame
/// or changes the state. After termination the table is empty.
pub proof fn lemma_post_terminate_silence(
    c0: ConnView,
    f: RawFrame,
    c1: ConnView,
    ev: Event,
    id: u32,
    i: Item,
    c2: ConnView,
    r: Option<RawFrame>,
    data: Option<Vec<u8>>,
    c3: ConnView,
    o: Result<(u32, RawFrame), ConnectionError>,
)
    requires
        c0.wf(),
        c0.shut(),
        frame_step(c0, f, c1, ev),
        item_step(c0, id, i, c2, r),
        open_step(c0, data, c3, o),
    ensures
        c0.dead ==> c0.streams.is_empty(),
        ev is Closed && c1 == c0,
        r is None && c2 == c0,
        o is Err && c3 == c0,
{
}

/// `s` are the states of a connection that sends the data items `bodies`
/// on stream `id`, one after the other, as the frames `frames`.
pub open spec fn sends(s: Seq<ConnView>, id: u32, bodies: Seq<Vec<u8>>, frames: Seq<Option<RawFrame>>) -> bool {
    &&& s.len() == bodies.len() + 1
    &&& frames.len() == bodies.len()
    &&& forall|k: int|
        0 <= k < bodies.len() ==> #[trigger] item_step(s[k], id, Item::Data(bodies[k]), s[k + 1], frames[k])
}

/// `p` are the states of a connection that receives `frames`, one after the
/// other, with the outcomes `evs`.
pub open spec fn receives(p: Seq<ConnView>, frames: Seq<Option<RawFrame>>, evs: Seq<Event>) -> bool {
    &&& p.len() == frames.len() + 1
    &&& evs.len() == frames.len()
    &&& forall|k: int| 0 <= k < frames.len() ==> #[trigger] frame_step(p[k], frames[k]->Some_0, p[k + 1], evs[k])
}

/// The items that stream `id` receives for the first `n` of `frames`.
pub open spec fn data_items(id: u32, frames: Seq<Option<RawFrame>>, n: int) -> Seq<(u32, Item)> {
    Seq::new(n as nat, |k: int| (id, Item::Data(frames[k]->Some_0.body)))
}

proof fn lemma_sends_live(s: Seq<ConnView>, id: u32, bodies: Seq<Vec<u8>>, frames: Seq<Option<RawFrame>>, n: int)
    requires
        sends(s, id, bodies, frames),
        !s[0].shut(),
        0 <= n <= bodies.len(),
    ensures
        !s[n].shut(),
        forall|k: int| 0 <= k < n ==> (#[trigger] frames[k]) is Some && frames[k]->Some_0.body@ == bodies[k]@
            && frames[k]->Some_0.header.typ == Type::Data && !frames[k]->Some_0.header.flags.syn
            && !frames[k]->Some_0.header.flags.rst && !frames[k]->Some_0.header.flags.fin,
    decreases n,
{
    if n > 0 {
        lemma_sends_live(s, id, bodies, frames, n - 1);
        let k = n - 1;
        assert(item_step(s[k], id, Item::Data(bodies[k]), s[k + 1], frames[k]));
    }
}

proof fn lemma_receives_data(
    p: Seq<ConnView>,
    frames: Seq<Option<RawFrame>>,
    evs: Seq<Event>,
    id: u32,
    n: int,
)
    requires
        receives(p, frames, evs),
        !p[0].shut(),
        p[0].streams.contains_key(id),
        p[0].streams[id].receiver_open,
        forall|k: int| 0 <= k < frames.len() ==> {
            &&& (#[trigger] frames[k]) is Some
            &&& frames[k]->Some_0.header.typ == Type::Data
            &&& frames[k]->Some_0.header.stream_id == id
            &&& !frames[k]->Some_0.header.flags.syn
            &&& !frames[k]->Some_0.header.flags.rst
            &&& !frames[k]->Some_0.header.flags.fin
            &&& frames[k]->Some_0.body@.len() <= p[0].streams[id].recv_win
        },
        0 <= n <= frames.len(),
    ensures
        !p[n].shut(),
        p[n].streams == p[0].streams,
        p[n].inbox == p[0].inbox + data_items(id, frames, n),
    decreases n,
{
    if n > 0 {
        lemma_receives_data(p, frames, evs, id, n - 1);
        let f = frames[n - 1]->Some_0;
        assert(frame_step(p[n - 1], f, p[n], evs[n - 1]));
        assert(data_step(p[n - 1], f, p[n], evs[n - 1]));
        assert(p[n].inbox =~= p[0].inbox + data_items(id, frames, n));
    }
}

/// Data sent on a stream reaches the peer's stream with the same bytes, in
/// the order sent, each once: the data items that a connection sends on a
/// stream, taken in by a peer that holds the stream open with room in its
/// window for each, are appended to the peer's deliveries in that order and
/// nothing else is.
pub proof fn lemma_round_trip(
    s: Seq<ConnView>,
    id: u32,
    bodies: Seq<Vec<u8>>,
    frames: Seq<Option<RawFrame>>,
    p: Seq<ConnView>,
    evs: Seq<Event>,
)
    requires
        sends(s, id, bodies, frames),
        !s[0].shut(),
        receives(p, frames, evs),
        !p[0].shut(),
        p[0].streams.contains_key(id),
        p[0].streams[id].receiver_open,
        forall|k: int| 0 <= k < bodies.len() ==> (#[trigger] bodies[k])@.len() <= p[0].streams[id].recv_win,
    ensures
        p.last().inbox.len() == p[0].inbox.len() + bodies.len(),
        p.last().inbox.subrange(0, p[0].inbox.len() as int) == p[0].inbox,
        forall|k: int|
            0 <= k < bodies.len() ==> {
                let (i, item) = #[trigger] p.last().inbox[p[0].inbox.len() + k];
                &&& i == id
                &&& item is Data
                &&& item->Data_0@ == bodies[k]@
            },
{
    let n = bodies.len() as int;
    lemma_sends_live(s, id, bodies, frames, n);
    assert forall|k: int| 0 <= k < frames.len() implies {
        &&& (#[trigger] frames[k]) is Some
        &&& frames[k]->Some_0.header.typ == Type::Data
        &&& frames[k]->Some_0.header.stream_id == id
        &&& !frames[k]->Some_0.header.flags.syn
        &&& !frames[k]->Some_0.header.flags.rst
        &&& !frames[k]->Some_0.header.flags.fin
        &&& frames[k]->Some_0.body@.len() <= p[0].streams[id].recv_win
    } by {
        assert(item_step(s[k], id, Item::Data(bodies[k]), s[k + 1], frames[k]));
        assert(bodies[k]@.len() <= p[0].streams[id].recv_win);
    }
    lemma_receives_data(p, frames, evs, id, n);
    assert(p.last() == p[n]);
    assert(p.last().inbox.subrange(0, p[0].inbox.len() as int) =~= p[0].inbox);
    assert forall|k: int| 0 <= k < bodies.len() implies {
        let (i, item) = #[trigger] p.last().inbox[p[0].inbox.len() + k];
        &&& i == id
        &&& item is Data
        &&& item->Data_0@ == bodies[k]@
    } by {
        assert(p.last().inbox[p[0].inbox.len() + k] == data_items(id, frames, n)[k]);
        assert(frames[k] is Some);
    }
}

} // verus!
