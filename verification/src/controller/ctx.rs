//! What the controller asks of the link it is attached to.
//!
//! The controller does not touch the link itself: a call hands its requests to a
//! [`DeviceCtx`], in order, and whoever drives the controller carries them out and
//! reports each finished transfer by its token.
use vstd::prelude::*;

verus! {

/// A request to the link.
#[derive(Debug, PartialEq, Eq)]
pub enum TransportEvent {
    /// Read `len` bytes of guest memory and report them under `token`.
    DmaRead { token: u64, gpa: u64, len: u32 },
    /// Write `data` to guest memory and report that under `token`.
    DmaWrite { token: u64, gpa: u64, data: Vec<u8> },
    /// Raise MSI-X vector `msix_index`.
    FireInterrupt { msix_index: u32 },
}

/// A request to the link, as contracts speak of it.
#[verifier::ext_equal]
pub enum Event {
    DmaRead { token: u64, gpa: u64, len: u32 },
    DmaWrite { token: u64, gpa: u64, data: Seq<u8> },
    FireInterrupt { msix_index: u32 },
}

impl View for TransportEvent {
    type V = Event;

    open spec fn view(&self) -> Event {
        match *self {
            TransportEvent::DmaRead { token, gpa, len } => Event::DmaRead { token, gpa, len },
            TransportEvent::DmaWrite { token, gpa, data } => Event::DmaWrite {
                token,
                gpa,
                data: data@,
            },
            TransportEvent::FireInterrupt { msix_index } => Event::FireInterrupt { msix_index },
        }
    }
}

/// The successor of a counter that starts over after its last value.
pub open spec fn successor(x: u64) -> u64 {
    if x == u64::MAX {
        0
    } else {
        (x + 1) as u64
    }
}

/// The requests made so far, and the token of the next transfer.
#[verifier::ext_equal]
pub struct Trace {
    pub now: u64,
    pub next_token: u64,
    pub events: Seq<Event>,
}

impl Trace {
    /// One more request: read `len` bytes at `gpa`.
    pub open spec fn read(self, gpa: u64, len: u32) -> Trace {
        Trace {
            now: self.now,
            next_token: successor(self.next_token),
            events: self.events.push(Event::DmaRead { token: self.next_token, gpa, len }),
        }
    }

    /// One more request: write `data` at `gpa`.
    pub open spec fn write(self, gpa: u64, data: Seq<u8>) -> Trace {
        Trace {
            now: self.now,
            next_token: successor(self.next_token),
            events: self.events.push(Event::DmaWrite { token: self.next_token, gpa, data }),
        }
    }

    /// One more request: raise vector `msix_index`.
    pub open spec fn interrupt(self, msix_index: u32) -> Trace {
        Trace {
            now: self.now,
            next_token: self.next_token,
            events: self.events.push(Event::FireInterrupt { msix_index }),
        }
    }

    /// The requests of `self` come first in `later`, unchanged.
    pub open spec fn extended_by(self, later: Trace) -> bool {
        self.events.is_prefix_of(later.events)
    }
}

/// The link as the controller sees it during a call.
pub struct DeviceCtx {
    now_ns: u64,
    next_token: u64,
    events: Vec<TransportEvent>,
}

impl View for DeviceCtx {
    type V = Trace;

    closed spec fn view(&self) -> Trace {
        Trace {
            now: self.now_ns,
            next_token: self.next_token,
            events: self.events@.map_values(|e: TransportEvent| e@),
        }
    }
}

proof fn lemma_pushed_event(s: Seq<TransportEvent>, e: TransportEvent)
    ensures
        s.push(e).map_values(|e: TransportEvent| e@) == s.map_values(|e: TransportEvent| e@).push(
            e@,
        ),
{
    assert(s.push(e).map_values(|e: TransportEvent| e@) =~= s.map_values(
        |e: TransportEvent| e@,
    ).push(e@));
}

impl DeviceCtx {
    /// A link with no requests, whose first transfer gets `token`; the clock reads 0.
    pub fn with_start_token(token: u64) -> (r: Self)
        ensures
            r@ == (Trace { now: 0, next_token: token, events: Seq::empty() }),
    {
        let r = DeviceCtx { now_ns: 0, next_token: token, events: Vec::new() };
        assert(r@.events =~= Seq::empty());
        r
    }

    /// Sets the clock that calls read: nanoseconds since any fixed instant.
    pub fn set_now(&mut self, now_ns: u64)
        ensures
            final(self)@ == (Trace { now: now_ns, ..old(self)@ }),
    {
        self.now_ns = now_ns;
    }

    /// The clock.
    pub fn now(&self) -> (r: u64)
        ensures
            r == self@.now,
    {
        self.now_ns
    }

    /// The requests made so far, oldest first.
    pub fn events(&self) -> (r: &Vec<TransportEvent>)
        ensures
            r@.map_values(|e: TransportEvent| e@) == self@.events,
    {
        &self.events
    }

    /// Hands the requests over and forgets them.
    pub fn take_events(&mut self) -> (r: Vec<TransportEvent>)
        ensures
            r@.map_values(|e: TransportEvent| e@) == old(self)@.events,
            final(self)@ == (Trace { events: Seq::empty(), ..old(self)@ }),
    {
        let mut r: Vec<TransportEvent> = Vec::new();
        core::mem::swap(&mut r, &mut self.events);
        assert(self@.events =~= Seq::empty());
        r
    }

    /// Asks for `len` bytes at `gpa`; the result is the token under which they come.
    pub fn dma_read(&mut self, gpa: u64, len: u32) -> (token: u64)
        ensures
            token == old(self)@.next_token,
            final(self)@ == old(self)@.read(gpa, len),
    {
        let token: u64 = self.next_token;
        self.next_token = token.wrapping_add(1);
        proof {
            lemma_pushed_event(self.events@, TransportEvent::DmaRead { token, gpa, len });
        }
        self.events.push(TransportEvent::DmaRead { token, gpa, len });
        token
    }

    /// Asks for `data` to be written at `gpa`; the result is the token under which
    /// the end of the transfer is reported.
    pub fn dma_write(&mut self, gpa: u64, data: Vec<u8>) -> (token: u64)
        ensures
            token == old(self)@.next_token,
            final(self)@ == old(self)@.write(gpa, data@),
    {
        let token: u64 = self.next_token;
        self.next_token = token.wrapping_add(1);
        proof {
            lemma_pushed_event(self.events@, TransportEvent::DmaWrite { token, gpa, data });
        }
        self.events.push(TransportEvent::DmaWrite { token, gpa, data });
        token
    }

    /// Asks for `data` to be written at `gpa`; nobody waits for the end of the transfer.
    pub fn dma_write_fire_and_forget(&mut self, gpa: u64, data: Vec<u8>)
        ensures
            final(self)@ == old(self)@.write(gpa, data@),
    {
        let _ = self.dma_write(gpa, data);
    }

    /// Asks for MSI-X vector `msix_index` to be raised.
    pub fn fire_interrupt(&mut self, msix_index: u32)
        ensures
            final(self)@ == old(self)@.interrupt(msix_index),
    {
        proof {
            lemma_pushed_event(self.events@, TransportEvent::FireInterrupt { msix_index });
        }
        self.events.push(TransportEvent::FireInterrupt { msix_index });
    }
}

/// The counter after `n` steps.
pub open spec fn counted_on(x: u64, n: nat) -> u64
    decreases n,
{
    if n == 0 {
        x
    } else {
        successor(counted_on(x, (n - 1) as nat))
    }
}

proof fn lemma_counted_on(x: u64, n: nat)
    requires
        n <= u64::MAX,
    ensures
        counted_on(x, n) == (if x + n > u64::MAX {
            x + n - u64::MAX - 1
        } else {
            x + n
        }),
    decreases n,
{
    if n > 0 {
        lemma_counted_on(x, (n - 1) as nat);
    }
}

/// The numbers that a counter gives differ from each other until it has started over.
pub proof fn law_counter_does_not_repeat(x: u64, i: nat, j: nat)
    requires
        i < j <= u64::MAX,
    ensures
        counted_on(x, i) != counted_on(x, j),
{
    lemma_counted_on(x, i);
    lemma_counted_on(x, j);
}

} // verus!
