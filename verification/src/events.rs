//! The event-sourced change log: an append-only, double-buffered sequence
//! of map events with independent reader cursors.
//!
//! Two buffers are kept, "current" and "previous". Sending appends to
//! "current"; once per frame a driver swaps the buffers, discarding the
//! old "previous". Each event therefore survives for the frame in which
//! it was sent plus the following one. A reader remembers the id of the
//! next event it has not consumed; draining yields every retained event
//! with a greater or equal id, in send order. If the buffers are swapped
//! at most once between two drains of a reader, that reader sees every
//! event exactly once; a second swap silently drops the older generation,
//! an accepted consequence of the fixed buffer depth.

use vstd::prelude::*;
use crate::coords::Point3;
use crate::tile::{Tile, TileSetter};

verus! {

/// An opaque identifier of a visual entity spawned by the host for a
/// chunk.
#[derive(Clone, Copy, Debug, PartialEq, Eq, Structural)]
pub struct Entity(pub u64);

/// Events that happen on a chunk, identified by its flat map index or by
/// its storage handle.
#[derive(Debug, PartialEq)]
pub enum MapEvent {
    /// A chunk was created and stored at a map index.
    Created {
        /// The map index where the chunk was stored.
        index: usize,
        /// The storage handle of the chunk.
        handle: usize,
    },
    /// A chunk needs to be redrawn from scratch.
    Refresh {
        /// The storage handle of the chunk.
        handle: usize,
    },
    /// Tiles of a chunk were modified.
    Modified {
        /// The storage handle of the chunk.
        handle: usize,
        /// The batch of local-coordinate writes to replay.
        setter: TileSetter,
    },
    /// A chunk's visual entity needs to be despawned, keeping the chunk.
    Despawned {
        /// The storage handle of the chunk.
        handle: usize,
        /// The entity that needs to be despawned.
        entity: Entity,
    },
    /// A chunk was removed from a map index; its data is gone.
    Removed {
        /// The map index where the chunk was removed.
        index: usize,
        /// The entity that needs to be despawned.
        entity: Entity,
    },
}

/// The mathematical form of a [`MapEvent`]: the same variants, with the
/// tile batch abstracted to its sequence of entries.
pub ghost enum MapEventView {
    /// A chunk was created and stored at a map index.
    Created { index: int, handle: int },
    /// A chunk needs to be redrawn from scratch.
    Refresh { handle: int },
    /// Tiles of a chunk were modified.
    Modified { handle: int, setter: Seq<(Point3, Tile)> },
    /// A chunk's visual entity needs to be despawned.
    Despawned { handle: int, entity: Entity },
    /// A chunk was removed from a map index.
    Removed { index: int, entity: Entity },
}

impl View for MapEvent {
    type V = MapEventView;

    open spec fn view(&self) -> MapEventView {
        match self {
            MapEvent::Created { index, handle } => MapEventView::Created {
                index: *index as int,
                handle: *handle as int,
            },
            MapEvent::Refresh { handle } => MapEventView::Refresh { handle: *handle as int },
            MapEvent::Modified { handle, setter } => MapEventView::Modified {
                handle: *handle as int,
                setter: setter@,
            },
            MapEvent::Despawned { handle, entity } => MapEventView::Despawned {
                handle: *handle as int,
                entity: *entity,
            },
            MapEvent::Removed { index, entity } => MapEventView::Removed {
                index: *index as int,
                entity: *entity,
            },
        }
    }
}

impl Clone for MapEvent {
    /// A clone describes exactly the same change.
    fn clone(&self) -> (event: Self)
        ensures
            event@ == self@,
    {
        match self {
            MapEvent::Created { index, handle } => MapEvent::Created { index: *index, handle: *handle },
            MapEvent::Refresh { handle } => MapEvent::Refresh { handle: *handle },
            MapEvent::Modified { handle, setter } => MapEvent::Modified {
                handle: *handle,
                setter: setter.clone(),
            },
            MapEvent::Despawned { handle, entity } => MapEvent::Despawned {
                handle: *handle,
                entity: *entity,
            },
            MapEvent::Removed { index, entity } => MapEvent::Removed { index: *index, entity: *entity },
        }
    }
}

/// The mathematical state of an event log: the two generations still
/// retained, and the id of the oldest retained event. Event `i` of
/// `buffered()` carries the id `first_id + i`; ids grow by one per send
/// and are never reused.
pub ghost struct EventsView {
    /// The events of the closed generation, oldest first.
    pub previous: Seq<MapEventView>,
    /// The events of the open generation, oldest first.
    pub current: Seq<MapEventView>,
    /// The id of the first event of `previous`.
    pub first_id: int,
}

impl EventsView {
    /// Every retained event, oldest first.
    pub open spec fn buffered(self) -> Seq<MapEventView> {
        self.previous + self.current
    }

    /// The id one past the newest event ever sent.
    pub open spec fn next_id(self) -> int {
        self.first_id + self.buffered().len()
    }

    /// The state after appending one event to the open generation.
    pub open spec fn send(self, event: MapEventView) -> EventsView {
        EventsView { current: self.current.push(event), ..self }
    }

    /// The state after a buffer swap: the open generation closes, the old
    /// closed generation is discarded, and a new open generation starts.
    pub open spec fn update(self) -> EventsView {
        EventsView {
            previous: self.current,
            current: Seq::empty(),
            first_id: self.first_id + self.previous.len(),
        }
    }

    /// Where a reader whose next unconsumed id is `cursor` starts reading
    /// inside `buffered()`: ids below `first_id` are gone, ids at or past
    /// `next_id()` do not exist yet.
    pub open spec fn read_start(self, cursor: int) -> int {
        if cursor <= self.first_id {
            0
        } else if cursor - self.first_id <= self.buffered().len() {
            cursor - self.first_id
        } else {
            self.buffered().len() as int
        }
    }

    /// The events a reader at `cursor` drains: every retained event with
    /// an id at or past the cursor, in send order.
    pub open spec fn read_from(self, cursor: int) -> Seq<MapEventView> {
        self.buffered().skip(self.read_start(cursor))
    }
}

/// The state after sending each event of `sent`, in order.
pub open spec fn send_all(v: EventsView, sent: Seq<MapEventView>) -> EventsView
    decreases sent.len(),
{
    if sent.len() == 0 {
        v
    } else {
        send_all(v, sent.drop_last()).send(sent.last())
    }
}

/// Sending touches only the open generation, which grows by the events
/// sent, in order.
pub proof fn lemma_send_all(v: EventsView, sent: Seq<MapEventView>)
    ensures
        send_all(v, sent).previous == v.previous,
        send_all(v, sent).first_id == v.first_id,
        send_all(v, sent).current == v.current + sent,
    decreases sent.len(),
{
    if sent.len() == 0 {
        assert(v.current + sent =~= v.current);
    } else {
        lemma_send_all(v, sent.drop_last());
        assert(v.current + sent =~= (v.current + sent.drop_last()).push(sent.last()));
    }
}

/// Exactly-once delivery: a reader that has drained everything, then any
/// number of events sent, then one buffer swap, then a drain, receives
/// exactly the events sent, in send order.
pub proof fn lemma_exactly_once_delivery(v: EventsView, sent: Seq<MapEventView>, cursor: int)
    requires
        cursor == v.next_id(),
    ensures
        send_all(v, sent).update().read_from(cursor) == sent,
{
    lemma_send_all(v, sent);
    let after = send_all(v, sent).update();
    assert(after.buffered() =~= v.current + sent);
    assert(after.read_start(cursor) == v.current.len());
    assert(after.buffered().skip(v.current.len() as int) =~= sent);
}

/// Bounded retention: after two buffer swaps with no intervening drain,
/// nothing is retained; the events of the older generation are lost, an
/// accepted consequence of the buffer depth of one.
pub proof fn lemma_missed_generation(v: EventsView, sent: Seq<MapEventView>, cursor: int)
    ensures
        send_all(v, sent).update().update().read_from(cursor) == Seq::<MapEventView>::empty(),
{
    let after = send_all(v, sent).update().update();
    assert(after.buffered() =~= Seq::<MapEventView>::empty());
    assert(after.read_from(cursor) =~= Seq::<MapEventView>::empty());
}

/// An append-only, double-buffered event log.
#[derive(Debug)]
pub struct Events {
    previous: Vec<MapEvent>,
    current: Vec<MapEvent>,
    previous_start: usize,
}

impl View for Events {
    type V = EventsView;

    closed spec fn view(&self) -> EventsView {
        EventsView {
            previous: self.previous@.map_values(|e: MapEvent| e@),
            current: self.current@.map_values(|e: MapEvent| e@),
            first_id: self.previous_start as int,
        }
    }
}

impl Events {
    /// The ids of retained events fit the machine word: ids are never
    /// negative, and swapping buffers computes the id that follows the
    /// closed generation.
    pub open spec fn wf(&self) -> bool {
        &&& 0 <= self@.first_id
        &&& self@.first_id + self@.previous.len() <= usize::MAX
    }

    /// Creates an empty log whose first event will carry id zero.
    pub fn new() -> (events: Events)
        ensures
            events@ == (EventsView {
                previous: Seq::<MapEventView>::empty(),
                current: Seq::<MapEventView>::empty(),
                first_id: 0int,
            }),
            events.wf(),
    {
        let events = Events { previous: Vec::new(), current: Vec::new(), previous_start: 0 };
        proof {
            assert(events@.previous =~= Seq::<MapEventView>::empty());
            assert(events@.current =~= Seq::<MapEventView>::empty());
        }
        events
    }

    /// Appends an event to the open generation.
    pub fn send(&mut self, event: MapEvent)
        ensures
            final(self)@ == old(self)@.send(event@),
            final(self).wf() == old(self).wf(),
    {
        let ghost before = self.current@.map_values(|e: MapEvent| e@);
        self.current.push(event);
        proof {
            assert(self.current@.map_values(|e: MapEvent| e@) =~= before.push(event@));
        }
    }

    /// Swaps the buffers: the open generation closes and the generation
    /// closed before it is discarded. In general, this should be called
    /// once per frame.
    pub fn update(&mut self)
        requires
            old(self).wf(),
            old(self)@.next_id() <= usize::MAX,
        ensures
            final(self)@ == old(self)@.update(),
            final(self).wf(),
    {
        self.previous_start = self.previous_start + self.previous.len();
        let mut swapped: Vec<MapEvent> = Vec::new();
        core::mem::swap(&mut swapped, &mut self.current);
        self.previous = swapped;
        proof {
            assert(self.current@.map_values(|e: MapEvent| e@) =~= Seq::<MapEventView>::empty());
        }
    }

    /// Whether the id that would follow another buffer swap still fits
    /// the machine word.
    pub fn has_id_room(&self) -> (room: bool)
        ensures
            room == (self@.next_id() <= usize::MAX),
    {
        match self.previous_start.checked_add(self.previous.len()) {
            Some(through_previous) => through_previous.checked_add(self.current.len()).is_some(),
            None => false,
        }
    }

    /// A fresh reader whose cursor is at id zero: it will see every event
    /// still retained.
    pub fn get_reader(&self) -> (reader: EventReader)
        ensures
            reader.cursor == 0,
    {
        EventReader { cursor: 0 }
    }
}

/// A reader's memory between drains: the id of the next event it has not
/// consumed.
#[derive(Clone, Copy, Debug, PartialEq, Eq, Structural)]
pub struct EventReader {
    /// The id of the next event to consume.
    pub cursor: usize,
}

impl EventReader {
    /// Drains the log: yields every retained event the reader has not
    /// consumed, in send order, and advances the cursor past the newest
    /// event.
    pub fn read(&mut self, events: &Events) -> (drained: Vec<MapEvent>)
        requires
            events.wf(),
            old(self).cursor <= events@.next_id(),
            events@.next_id() <= usize::MAX,
        ensures
            drained@.map_values(|e: MapEvent| e@) == events@.read_from(old(self).cursor as int),
            final(self).cursor == events@.next_id(),
    {
        let ghost v = events@;
        let ghost start = v.read_start(self.cursor as int);
        let mut drained: Vec<MapEvent> = Vec::new();
        let previous_len: usize = events.previous.len();
        let start_previous: usize = if self.cursor > events.previous_start {
            self.cursor - events.previous_start
        } else {
            0
        };
        let start_previous: usize = if start_previous > previous_len {
            previous_len
        } else {
            start_previous
        };
        let mut i: usize = start_previous;
        while i < events.previous.len()
            invariant
                start_previous <= i <= events.previous.len(),
                events@ == v,
                drained@.map_values(|e: MapEvent| e@) =~= v.previous.subrange(
                    start_previous as int,
                    i as int,
                ),
            decreases events.previous.len() - i,
        {
            let ghost before = drained@.map_values(|e: MapEvent| e@);
            drained.push(events.previous[i].clone());
            proof {
                assert(drained@.map_values(|e: MapEvent| e@) =~= before.push(v.previous[i as int]));
            }
            i = i + 1;
        }
        let past_previous: usize = if self.cursor > events.previous_start {
            self.cursor - events.previous_start
        } else {
            0
        };
        let start_current: usize = if past_previous > previous_len {
            past_previous - previous_len
        } else {
            0
        };
        let mut j: usize = start_current;
        while j < events.current.len()
            invariant
                start_current <= j <= events.current.len(),
                events@ == v,
                start_previous <= v.previous.len(),
                drained@.map_values(|e: MapEvent| e@) =~= v.previous.subrange(
                    start_previous as int,
                    v.previous.len() as int,
                ) + v.current.subrange(start_current as int, j as int),
            decreases events.current.len() - j,
        {
            let ghost before = drained@.map_values(|e: MapEvent| e@);
            drained.push(events.current[j].clone());
            proof {
                assert(drained@.map_values(|e: MapEvent| e@) =~= before.push(v.current[j as int]));
            }
            j = j + 1;
        }
        self.cursor = events.previous_start + events.previous.len() + events.current.len();
        proof {
            assert(drained@.map_values(|e: MapEvent| e@) =~= v.buffered().skip(start));
        }
        drained
    }
}

} // verus!
