//! Byte sinks: the capabilities the formatting adapter writes through.
//!
//! A sink is anything that can accept one byte for transmission.  Three
//! concrete sinks are provided: a model of a memory-mapped transmit
//! register, a buffer feeding a host stream's bulk write, and a bounded
//! transmit buffer that refuses bytes once full.  The unsafe volatile
//! store and the foreign bulk-write call themselves belong to the
//! embedding layer, which drains a sink's accumulated bytes; the adapter
//! never touches a raw address or a foreign calling convention.

use vstd::prelude::*;

verus! {

/// The single error of this crate: the underlying byte sink failed or
/// refused a write.  The adapter does not retry and does not roll back
/// bytes already written.
#[derive(Clone, Copy, Debug, PartialEq, Eq, Structural)]
pub struct SinkError;

/// A capability that accepts bytes one at a time for transmission.
///
/// `written()` models the bytes the sink has accepted so far, oldest
/// first.  `config()` is the sink's fixed configuration — the register
/// address, the buffer capacity — which no write may change.  `full()`
/// says whether the sink refuses the next byte; a sink for which
/// `infallible()` holds never refuses a write and stays infallible
/// afterwards.  `valid()` is the sink's well-formedness, which
/// constructors establish and writes preserve.
pub trait ByteSink {
    /// The bytes this sink has accepted so far, in acceptance order.
    spec fn written(&self) -> Seq<u8>;

    /// Whether every write to this sink is guaranteed to succeed.
    spec fn infallible(&self) -> bool;

    /// The sink's fixed configuration, untouched by writes.
    spec fn config(&self) -> int;

    /// Whether the sink refuses the next byte.
    spec fn full(&self) -> bool;

    /// The sink's well-formedness: writes preserve it.
    spec fn valid(&self) -> bool;

    /// Attempt to transmit one byte.  On success the byte is appended to
    /// the accepted bytes; on refusal nothing is.  A write touches
    /// nothing but the accepted bytes: the configuration stays, and a
    /// well-formed sink stays well formed.
    fn write_byte(&mut self, b: u8) -> (r: Result<(), SinkError>)
        ensures
            r is Ok ==> final(self).written() == old(self).written().push(b),
            r is Err ==> final(self).written() == old(self).written(),
            r is Err <==> old(self).full(),
            final(self).config() == old(self).config(),
            old(self).valid() ==> final(self).valid(),
            old(self).infallible() ==> r is Ok && final(self).infallible(),
    ;
}

/// A model of a write-only, memory-mapped transmit register at a fixed
/// address.  Storing a byte to the register cannot be observed to fail,
/// so this sink is infallible.  `stores` records each store in order;
/// the embedding layer replays it with volatile stores to `addr`.
pub struct RegisterSink {
    /// The fixed address of the transmit register.
    pub addr: usize,
    /// Every byte stored to the register, in store order.
    pub stores: Vec<u8>,
}

impl RegisterSink {
    /// A register sink bound to the transmit register at `addr`, with no
    /// stores performed yet.
    pub fn new(addr: usize) -> (s: RegisterSink)
        ensures
            s.addr == addr,
            s.written() == Seq::<u8>::empty(),
            s.infallible(),
    {
        RegisterSink { addr, stores: Vec::new() }
    }
}

impl ByteSink for RegisterSink {
    open spec fn written(&self) -> Seq<u8> {
        self.stores@
    }

    open spec fn infallible(&self) -> bool {
        true
    }

    open spec fn config(&self) -> int {
        self.addr as int
    }

    open spec fn full(&self) -> bool {
        false
    }

    open spec fn valid(&self) -> bool {
        true
    }

    fn write_byte(&mut self, b: u8) -> (r: Result<(), SinkError>) {
        self.stores.push(b);
        Ok(())
    }
}

/// The host-stream writer: it accumulates formatted bytes in a transient
/// buffer which the embedding layer hands to the host's bulk-write call
/// in one piece.  The bulk write is fire and forget, so this sink is
/// infallible.
pub struct DebugWriter {
    /// The formatted bytes awaiting the host's bulk write.
    pub buffer: Vec<u8>,
}

impl DebugWriter {
    /// A writer with an empty buffer.
    pub fn new() -> (w: DebugWriter)
        ensures
            w.written() == Seq::<u8>::empty(),
            w.infallible(),
    {
        DebugWriter { buffer: Vec::new() }
    }

    /// Hand the accumulated bytes over for the bulk write and leave the
    /// writer empty for the next call.
    pub fn take_buffer(&mut self) -> (b: Vec<u8>)
        ensures
            b@ == old(self).written(),
            final(self).written() == Seq::<u8>::empty(),
            final(self).infallible(),
    {
        let mut b: Vec<u8> = Vec::new();
        core::mem::swap(&mut b, &mut self.buffer);
        b
    }
}

impl ByteSink for DebugWriter {
    open spec fn written(&self) -> Seq<u8> {
        self.buffer@
    }

    open spec fn infallible(&self) -> bool {
        true
    }

    open spec fn config(&self) -> int {
        0
    }

    open spec fn full(&self) -> bool {
        false
    }

    open spec fn valid(&self) -> bool {
        true
    }

    fn write_byte(&mut self, b: u8) -> (r: Result<(), SinkError>) {
        self.buffer.push(b);
        Ok(())
    }
}

/// A transmit buffer of fixed capacity: it accepts bytes until full and
/// refuses every byte after that.  It stands for an environment whose
/// write primitive can reject a write, so it is not infallible.
pub struct BoundedSink {
    /// The bytes accepted so far, at most `capacity` of them.
    pub accepted: Vec<u8>,
    /// The size of the transmit buffer.
    pub capacity: usize,
}

impl BoundedSink {
    /// An empty bounded sink that will accept `capacity` bytes.
    pub fn new(capacity: usize) -> (s: BoundedSink)
        ensures
            s.capacity == capacity,
            s.written() == Seq::<u8>::empty(),
            s.valid(),
    {
        BoundedSink { accepted: Vec::new(), capacity }
    }
}

impl ByteSink for BoundedSink {
    open spec fn written(&self) -> Seq<u8> {
        self.accepted@
    }

    open spec fn infallible(&self) -> bool {
        false
    }

    open spec fn config(&self) -> int {
        self.capacity as int
    }

    open spec fn full(&self) -> bool {
        self.accepted@.len() >= self.capacity
    }

    open spec fn valid(&self) -> bool {
        self.accepted@.len() <= self.capacity
    }

    fn write_byte(&mut self, b: u8) -> (r: Result<(), SinkError>) {
        if self.accepted.len() < self.capacity {
            self.accepted.push(b);
            Ok(())
        } else {
            Err(SinkError)
        }
    }
}

} // verus!
