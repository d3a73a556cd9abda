//! The decisions of the connection pipeline: how messages are framed on a
//! connection, which connection ids are in use, which worker takes a
//! request, and what becomes of a response whose connection is out of
//! sight. The sockets, threads and channels themselves are not here.

use crate::error::DataError;
use crate::idset::id_in;
use crate::le::{get_u64, lemma_u64_le_roundtrip, put_u64, u64_from_le, u64_le};
use crate::request::{lemma_request_round_trip, parse_request, BoardRequest, BoardRequestView};
use crate::response::{maybe_encoding, maybe_view, BoardResponse, MaybeBoardResponse};
use crate::wire::{lemma_concat_assoc, put_bytes};
use vstd::prelude::*;
use vstd::slice::slice_subrange;

verus! {

/// The number of bytes of the length that precedes every message.
pub const FRAME_PREFIX_LEN: usize = 8;

/// The number of workers that handle requests, unless set otherwise.
pub const DEFAULT_WORKERS: usize = 4;

/// A message as it travels: its length in bytes as a 64-bit number, then
/// the message.
pub open spec fn frame_of(payload: Seq<u8>) -> Seq<u8> {
    u64_le(payload.len() as u64) + payload
}

/// The message at the front of `s`, which the length before it announces.
pub open spec fn parse_frame(s: Seq<u8>) -> Result<(Seq<u8>, Seq<u8>), DataError> {
    if s.len() < 8 {
        Err(DataError::InsufficientBytes)
    } else if s.len() - 8 < u64_from_le(s) {
        Err(DataError::InsufficientBytes)
    } else {
        Ok((s.subrange(8, 8 + u64_from_le(s)), s.skip(8 + u64_from_le(s))))
    }
}

/// A message taken out of its frame is the message, whatever follows.
pub proof fn lemma_frame_round_trip(payload: Seq<u8>, rest: Seq<u8>)
    requires
        payload.len() <= u64::MAX,
    ensures
        parse_frame(frame_of(payload) + rest) == Ok::<(Seq<u8>, Seq<u8>), DataError>(
            (payload, rest),
        ),
{
    let s = frame_of(payload) + rest;
    lemma_u64_le_roundtrip(payload.len() as u64, payload + rest);
    lemma_concat_assoc(u64_le(payload.len() as u64), payload, rest);
    assert(s.subrange(8, 8 + payload.len() as int) =~= payload);
    assert(s.skip(8 + payload.len() as int) =~= rest);
}

/// A frame that announces more bytes than follow its length is cut short.
pub proof fn lemma_frame_length_exceeds(s: Seq<u8>)
    requires
        s.len() >= 8,
        u64_from_le(s) > s.len() - 8,
    ensures
        parse_frame(s) == Err::<(Seq<u8>, Seq<u8>), DataError>(DataError::InsufficientBytes),
{
}

/// Puts a message into its frame.
pub fn frame(payload: &[u8]) -> (framed: Vec<u8>)
    ensures
        framed@ == frame_of(payload@),
{
    let mut framed = Vec::new();
    put_u64(&mut framed, payload.len() as u64);
    put_bytes(&mut framed, payload);
    framed
}

/// Takes the message at the front of `data` out of its frame, and gives
/// the bytes after it.
pub fn take_frame(data: &[u8]) -> (res: Result<(&[u8], &[u8]), DataError>)
    ensures
        match res {
            Ok((payload, rest)) => parse_frame(data@) == Ok::<(Seq<u8>, Seq<u8>), DataError>(
                (payload@, rest@),
            ),
            Err(e) => parse_frame(data@) == Err::<(Seq<u8>, Seq<u8>), DataError>(e),
        },
{
    if data.len() < FRAME_PREFIX_LEN {
        return Err(DataError::InsufficientBytes);
    }
    assert(data@.skip(0) =~= data@);
    let len = get_u64(data, 0);
    if ((data.len() - FRAME_PREFIX_LEN) as u64) < len {
        return Err(DataError::InsufficientBytes);
    }
    let end = FRAME_PREFIX_LEN + len as usize;
    let payload = slice_subrange(data, FRAME_PREFIX_LEN, end);
    let rest = slice_subrange(data, end, data.len());
    Ok((payload, rest))
}

/// The request that a frame holds. A frame that is cut short, or whose
/// message is no request, holds none.
pub open spec fn request_of(frame: Seq<u8>) -> Option<BoardRequestView> {
    match parse_frame(frame) {
        Ok((payload, _)) => match parse_request(payload) {
            Ok((request, _)) => Some(request),
            Err(_) => None,
        },
        Err(_) => None,
    }
}

/// Takes the request out of a frame that was read from a connection. What
/// cannot be decoded is passed over in silence.
pub fn request_in(frame: &[u8]) -> (res: Option<BoardRequest>)
    ensures
        match res {
            Some(request) => request_of(frame@) == Some(request@),
            None => request_of(frame@) is None,
        },
{
    match take_frame(frame) {
        Ok((payload, _)) => match BoardRequest::from_data(payload) {
            Ok(request) => Some(request),
            Err(_) => None,
        },
        Err(_) => None,
    }
}

/// A request that was put into a frame is taken out of it again.
pub proof fn lemma_request_through_frame(request: BoardRequestView)
    requires
        request.encodable(),
        request.decodable(),
        request.encoding().len() <= u64::MAX,
    ensures
        request_of(frame_of(request.encoding())) == Some(request),
{
    lemma_frame_round_trip(request.encoding(), Seq::empty());
    lemma_request_round_trip(request);
    assert(frame_of(request.encoding()) + Seq::<u8>::empty() == frame_of(request.encoding()));
}

/// The frame in which an answer travels. An answer that cannot be encoded
/// travels as a failure.
pub fn response_frame(val: &MaybeBoardResponse) -> (framed: Vec<u8>)
    ensures
        framed@ == frame_of(
            if crate::response::maybe_encodable(maybe_view(*val)) {
                maybe_encoding(maybe_view(*val))
            } else {
                maybe_encoding(Err(DataError::OOBUsizeConversion))
            },
        ),
{
    match BoardResponse::into_data(val) {
        Ok(payload) => frame(payload.as_slice()),
        Err(e) => {
            let failure: MaybeBoardResponse = Err(e);
            match BoardResponse::into_data(&failure) {
                Ok(payload) => frame(payload.as_slice()),
                Err(_) => vstd::pervasive::unreached(),
            }
        },
    }
}

/// What the reader of a connection does after a look at its first bytes.
#[derive(Clone, Copy, Debug, PartialEq, Eq, Structural)]
pub enum IngressAction {
    /// The length is not there yet: leave the connection for this round.
    Skip,
    /// Read a frame of this many bytes, its length included.
    Read(usize),
    /// The length announces more than can be held: drop the connection.
    Drop,
}

/// What to do with a connection of which `peeked` are the first bytes,
/// eight of them at most.
pub open spec fn ingress_rule(peeked: Seq<u8>) -> IngressAction {
    if peeked.len() < 8 {
        IngressAction::Skip
    } else if u64_from_le(peeked) + 8 > usize::MAX {
        IngressAction::Drop
    } else {
        IngressAction::Read((u64_from_le(peeked) + 8) as usize)
    }
}

/// Decides what to do with a connection after a look at its first bytes.
pub fn ingress_action(peeked: &[u8]) -> (action: IngressAction)
    ensures
        action == ingress_rule(peeked@),
{
    if peeked.len() < FRAME_PREFIX_LEN {
        return IngressAction::Skip;
    }
    assert(peeked@.skip(0) =~= peeked@);
    let len = get_u64(peeked, 0);
    if len > (usize::MAX - FRAME_PREFIX_LEN) as u64 {
        IngressAction::Drop
    } else {
        IngressAction::Read(len as usize + FRAME_PREFIX_LEN)
    }
}

/// What becomes of a response at the writer of connections.
#[derive(Clone, Copy, Debug, PartialEq, Eq, Structural)]
pub enum EgressAction {
    /// Frame it and write it to its connection.
    Write,
    /// Keep it until the writer has looked at the registry again.
    Retain,
    /// Drop it: its connection is gone.
    Discard,
}

/// What becomes of a response: it is written where the writer has its
/// connection; where it has not, the response is kept once, until the
/// writer has looked at the registry again, and dropped after that.
pub fn egress_action(connection_known: bool, retained_before: bool) -> (action: EgressAction)
    ensures
        action == if connection_known {
            EgressAction::Write
        } else if retained_before {
            EgressAction::Discard
        } else {
            EgressAction::Retain
        },
{
    if connection_known {
        EgressAction::Write
    } else if retained_before {
        EgressAction::Discard
    } else {
        EgressAction::Retain
    }
}

/// Of the responses that wait, those whose connection is among `known`, in
/// the order in which they came.
pub open spec fn due<T>(waiting: Seq<(u64, T)>, known: Seq<u64>) -> Seq<(u64, T)>
    decreases waiting.len(),
{
    if waiting.len() == 0 {
        Seq::empty()
    } else if known.contains(waiting[0].0) {
        seq![waiting[0]] + due(waiting.drop_first(), known)
    } else {
        due(waiting.drop_first(), known)
    }
}

/// What the writer of connections keeps: the connections that it has in
/// sight, and the responses that have come for connections out of sight.
#[derive(Debug)]
pub struct Egress<T> {
    /// The connections that the writer can write to.
    pub known: Vec<u64>,
    /// Responses that wait for their connection to come into sight, each
    /// with the id of its connection, the oldest first.
    pub waiting: Vec<(u64, T)>,
}

impl<T> Egress<T> {
    /// A writer that has no connection in sight and nothing waiting.
    pub fn new() -> (egress: Self)
        ensures
            egress.known@ == Seq::<u64>::empty(),
            egress.waiting@ == Seq::<(u64, T)>::empty(),
    {
        Egress { known: Vec::new(), waiting: Vec::new() }
    }

    /// Takes a response for the connection `conn_id`. Where the connection
    /// is in sight the response is handed back, to be written; where it is
    /// not, the response is kept until the writer has looked at the
    /// registry again.
    pub fn accept(&mut self, conn_id: u64, response: T) -> (res: Option<T>)
        ensures
            final(self).known == old(self).known,
            old(self).known@.contains(conn_id) ==> res == Some(response) && final(self).waiting
                == old(self).waiting,
            !old(self).known@.contains(conn_id) ==> res is None && final(self).waiting@ == old(
                self,
            ).waiting@.push((conn_id, response)),
    {
        match egress_action(id_in(&self.known, conn_id), false) {
            EgressAction::Write => Some(response),
            _ => {
                self.waiting.push((conn_id, response));
                None
            },
        }
    }

    /// Takes note of the connections that are registered now. These are
    /// the connections in sight from now on. Of the responses that have
    /// waited, those whose connection is among them are handed back, to be
    /// written in this order; the others are dropped. Nothing waits any
    /// more.
    pub fn refresh(&mut self, registered: Vec<u64>) -> (ready: Vec<(u64, T)>)
        ensures
            final(self).known == registered,
            final(self).waiting@ == Seq::<(u64, T)>::empty(),
            ready@ == due(old(self).waiting@, registered@),
    {
        let mut ready: Vec<(u64, T)> = Vec::new();
        while self.waiting.len() > 0
            invariant
                self.known == old(self).known,
                ready@ + due(self.waiting@, registered@) == due(old(self).waiting@, registered@),
            decreases self.waiting.len(),
        {
            let ghost before = self.waiting@;
            let ghost written = ready@;
            let response = self.waiting.remove(0);
            assert(self.waiting@ == before.drop_first());
            match egress_action(id_in(&registered, response.0), true) {
                EgressAction::Write => {
                    ready.push(response);
                    assert(ready@ + due(self.waiting@, registered@) == written + (seq![before[0]]
                        + due(before.drop_first(), registered@)));
                },
                _ => {},
            }
        }
        self.known = registered;
        ready
    }
}

/// The workers and the connections whose requests they are busy with.
#[derive(Debug)]
pub struct Dispatcher {
    /// For each worker the connection whose request it is handling, if it
    /// is handling one.
    pub slots: Vec<Option<u64>>,
}

impl View for Dispatcher {
    type V = Seq<Option<u64>>;

    open spec fn view(&self) -> Seq<Option<u64>> {
        self.slots@
    }
}

/// Whether every worker is busy.
pub open spec fn all_busy(slots: Seq<Option<u64>>) -> bool {
    forall|w: int| 0 <= w < slots.len() ==> (#[trigger] slots[w]) is Some
}

/// Whether `worker` is the first worker that is free.
pub open spec fn first_free(slots: Seq<Option<u64>>, worker: int) -> bool {
    &&& 0 <= worker < slots.len()
    &&& slots[worker] is None
    &&& forall|w: int| 0 <= w < worker ==> (#[trigger] slots[w]) is Some
}

impl Dispatcher {
    /// A dispatcher over `workers` workers, all free.
    pub fn new(workers: usize) -> (dispatcher: Self)
        ensures
            dispatcher@ == Seq::new(workers as nat, |w: int| None::<u64>),
    {
        let mut slots: Vec<Option<u64>> = Vec::new();
        let mut w: usize = 0;
        while w < workers
            invariant
                w <= workers,
                slots@ =~= Seq::new(w as nat, |w: int| None::<u64>),
            decreases workers - w,
        {
            slots.push(None);
            w += 1;
        }
        Dispatcher { slots }
    }

    /// Whether every worker is busy. The dispatcher then has to wait for a
    /// response before it can take another request.
    pub fn is_saturated(&self) -> (saturated: bool)
        ensures
            saturated == all_busy(self@),
    {
        let mut w: usize = 0;
        while w < self.slots.len()
            invariant
                w <= self.slots.len(),
                forall|v: int| 0 <= v < w ==> (#[trigger] self.slots@[v]) is Some,
            decreases self.slots.len() - w,
        {
            if self.slots[w].is_none() {
                return false;
            }
            w += 1;
        }
        true
    }

    /// Gives a request of connection `conn_id` to the first free worker
    /// and says which it is. Where every worker is busy nothing changes:
    /// the request is not taken.
    pub fn assign(&mut self, conn_id: u64) -> (res: Option<usize>)
        ensures
            match res {
                Some(worker) => first_free(old(self)@, worker as int) && final(self)@ == old(
                    self,
                )@.update(worker as int, Some(conn_id)),
                None => all_busy(old(self)@) && final(self)@ == old(self)@,
            },
    {
        let mut w: usize = 0;
        while w < self.slots.len()
            invariant
                w <= self.slots.len(),
                self.slots@ == old(self).slots@,
                forall|v: int| 0 <= v < w ==> (#[trigger] self.slots@[v]) is Some,
            decreases self.slots.len() - w,
        {
            if self.slots[w].is_none() {
                self.slots.set(w, Some(conn_id));
                return Some(w);
            }
            w += 1;
        }
        None
    }

    /// Takes note that `worker` has finished, and gives the connection
    /// that its response belongs to. The worker is free again.
    pub fn complete(&mut self, worker: usize) -> (res: Option<u64>)
        ensures
            worker < old(self)@.len() ==> res == old(self)@[worker as int] && final(self)@
                == old(self)@.update(worker as int, None),
            worker >= old(self)@.len() ==> res is None && final(self)@ == old(self)@,
    {
        if worker >= self.slots.len() {
            return None;
        }
        let conn_id = self.slots[worker];
        self.slots.set(worker, None);
        conn_id
    }
}

/// The ids of the connections that are open.
#[derive(Debug)]
pub struct ConnectionIds {
    ids: Vec<u64>,
    next_id: u64,
}

/// The first id from `from` on that is not in `ids`.
pub open spec fn first_unused(ids: Set<u64>, from: u64) -> Option<u64>
    decreases u64::MAX - from,
{
    if !ids.contains(from) {
        Some(from)
    } else if from == u64::MAX {
        None
    } else {
        first_unused(ids, (from + 1) as u64)
    }
}

/// Taking one element out of a sequence takes nothing else out of it.
proof fn lemma_remove_keeps_others(before: Seq<u64>, at: int, x: u64)
    requires
        0 <= at < before.len(),
        x != before[at],
    ensures
        before.remove(at).contains(x) <==> before.contains(x),
{
    let after = before.remove(at);
    if before.contains(x) {
        let k = choose|k: int| 0 <= k < before.len() && before[k] == x;
        if k < at {
            assert(after[k] == x);
        } else {
            assert(after[k - 1] == x);
        }
    }
}

impl ConnectionIds {
    /// The ids that are registered.
    pub closed spec fn registered(self) -> Set<u64> {
        self.ids@.to_set()
    }

    /// The id from which the search for the next free id starts.
    pub closed spec fn next_id(self) -> u64 {
        self.next_id
    }

    /// A registry without connections.
    pub fn new() -> (registry: Self)
        ensures
            registry.registered() == Set::<u64>::empty(),
            registry.next_id() == 0,
    {
        let registry = ConnectionIds { ids: Vec::new(), next_id: 0 };
        registry
    }

    /// Whether the connection `id` is registered.
    pub fn contains(&self, id: u64) -> (found: bool)
        ensures
            found == self.registered().contains(id),
    {
        id_in(&self.ids, id)
    }

    /// Registers a new connection under an id that no open connection
    /// has, and gives that id: the first that is free from `next_id` on.
    /// The search for the next begins behind it. Only when every id from
    /// `next_id` on is taken, none is given and nothing changes.
    pub fn register(&mut self) -> (res: Option<u64>)
        ensures
            res == first_unused(old(self).registered(), old(self).next_id()),
            match res {
                Some(id) => final(self).registered() == old(self).registered().insert(id)
                    && final(self).next_id() == (if id == u64::MAX {
                    id
                } else {
                    (id + 1) as u64
                }),
                None => final(self).registered() == old(self).registered()
                    && final(self).next_id() == old(self).next_id(),
            },
    {
        let mut candidate = self.next_id;
        loop
            invariant
                self.ids@ == old(self).ids@,
                self.next_id == old(self).next_id,
                first_unused(self.ids@.to_set(), candidate) == first_unused(
                    old(self).ids@.to_set(),
                    old(self).next_id,
                ),
            decreases u64::MAX - candidate,
        {
            if !id_in(&self.ids, candidate) {
                self.ids.push(candidate);
                self.next_id = if candidate == u64::MAX {
                    candidate
                } else {
                    candidate + 1
                };
                proof {
                    old(self).ids@.lemma_push_to_set_commute(candidate);
                }
                return Some(candidate);
            }
            if candidate == u64::MAX {
                return None;
            }
            candidate += 1;
        }
    }

    /// Forgets the connection `id`, and says whether it was registered.
    pub fn remove(&mut self, id: u64) -> (found: bool)
        ensures
            found == old(self).registered().contains(id),
            final(self).registered() == old(self).registered().remove(id),
            final(self).next_id() == old(self).next_id(),
    {
        let found = id_in(&self.ids, id);
        let mut i: usize = 0;
        while i < self.ids.len()
            invariant
                i <= self.ids.len(),
                self.next_id == old(self).next_id,
                forall|j: int| 0 <= j < i ==> self.ids@[j] != id,
                forall|x: u64|
                    x != id ==> (self.ids@.contains(x) <==> old(self).ids@.contains(x)),
            decreases self.ids.len() - i,
        {
            if self.ids[i] == id {
                let ghost before = self.ids@;
                self.ids.remove(i);
                proof {
                    assert forall|x: u64| x != id implies (self.ids@.contains(x)
                        <==> old(self).ids@.contains(x)) by {
                        lemma_remove_keeps_others(before, i as int, x);
                    }
                }
            } else {
                i += 1;
            }
        }
        found
    }
}

} // verus!
