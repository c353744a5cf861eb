//! The unified event channel: engine events and application events
//! merged into one ordered stream, read non-destructively by any
//! number of independent readers.

use vstd::prelude::*;

verus! {

/// What the server hands a freshly introduced client: its assigned
/// entity and the spawn position, in fixed position units.
#[derive(Clone, Copy, PartialEq, Eq, Structural, Debug)]
pub struct ClientInitialData {
    pub player_entity: usize,
    pub start_x: i64,
    pub start_y: i64,
}

/// Why a connection attempt failed.
#[derive(Clone, Copy, PartialEq, Eq, Structural, Debug)]
pub enum ConnectionError {
    /// The server refused the handshake (for instance, at capacity).
    Refused,
    /// The transport reported the peer gone before the handshake ended.
    Lost,
}

/// An application-level notification raised by the network layer.
#[derive(Clone, Copy, Debug)]
pub enum AppEvent {
    /// A handshake finished, successfully or not.
    Connection(Result<ClientInitialData, ConnectionError>),
    /// A connected peer went away.
    Disconnect,
}

/// An engine-level notification from the window and input layer.
#[derive(Clone, Copy, PartialEq, Eq, Structural, Debug)]
pub enum EngineEvent {
    CloseRequested,
    KeyPressed(u32),
    KeyReleased(u32),
    MouseMoved(i64, i64),
}

/// The single event type the top-level state machine consumes:
/// engine events and application events through one channel.
#[derive(Clone, Copy, Debug)]
pub enum WestinyEvent {
    /// Window, UI and input events.
    EngineEvent(EngineEvent),
    /// All the application events.
    App(AppEvent),
}

/// An ordered event stream with multi-consumer, non-destructive
/// reads: writers append, and each reader walks the stream through
/// its own cursor without consuming events for anyone else.
pub struct EventChannel<T> {
    pub events: Vec<T>,
}

/// A reader's position in a channel: how many of its events this
/// consumer has already seen. Valid only for the channel it was
/// registered with.
pub struct ReaderId {
    pub cursor: usize,
}

impl<T: Copy> EventChannel<T> {
    /// An empty channel.
    pub fn new() -> (r: EventChannel<T>)
        ensures
            r.events@.len() == 0,
    {
        EventChannel { events: Vec::new() }
    }

    /// Appends one event; everything already written stays in place,
    /// so no reader loses its footing.
    pub fn single_write(&mut self, event: T)
        ensures
            final(self).events@ == old(self).events@.push(event),
    {
        self.events.push(event);
    }

    /// Registers a reader that will see every event written from now
    /// on.
    pub fn register_reader(&self) -> (r: ReaderId)
        ensures
            r.cursor == self.events@.len(),
    {
        ReaderId { cursor: self.events.len() }
    }

    /// Returns everything newly available since this reader's last
    /// read, in writing order, and moves only this reader's cursor:
    /// a poll, never blocking, never consuming for other readers.
    pub fn read(&self, reader: &mut ReaderId) -> (r: Vec<T>)
        requires
            old(reader).cursor <= self.events@.len(),
        ensures
            r@ == self.events@.skip(old(reader).cursor as int),
            final(reader).cursor == self.events@.len(),
    {
        let mut r: Vec<T> = Vec::new();
        let mut i: usize = reader.cursor;
        proof {
            assert(self.events@.subrange(reader.cursor as int, reader.cursor as int)
                =~= Seq::<T>::empty());
        }
        while i < self.events.len()
            invariant
                old(reader).cursor <= i <= self.events@.len(),
                r@ == self.events@.subrange(old(reader).cursor as int, i as int),
            decreases self.events@.len() - i,
        {
            r.push(self.events[i]);
            proof {
                assert(self.events@.subrange(old(reader).cursor as int, i + 1)
                    =~= self.events@.subrange(old(reader).cursor as int, i as int).push(
                    self.events@[i as int],
                ));
            }
            i += 1;
        }
        reader.cursor = self.events.len();
        proof {
            assert(self.events@.subrange(
                old(reader).cursor as int,
                self.events@.len() as int,
            ) =~= self.events@.skip(old(reader).cursor as int));
        }
        r
    }
}

} // verus!
