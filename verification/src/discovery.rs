//! The device locator: decides, from a stream of service-discovery
//! announcements, whether the meter's address has been found or the search is
//! exhausted.
//!
//! The multicast transport lives outside this crate; it hands each
//! announcement across as a [`DiscoveryEvent`] and performs the shutdown that
//! every terminal decision asks for. The decisions themselves are a pure
//! state machine over those events, so they can be verified and tested
//! without a network.

use vstd::prelude::*;

verus! {

/// One announcement from the service-discovery subsystem, reduced to what the
/// locator's decisions depend on.
pub enum DiscoveryEvent {
    /// A service was resolved, carrying the addresses it announced, in
    /// announcement order.
    Resolved(Vec<String>),
    /// The underlying browser started (or restarted) a search pass.
    SearchStarted,
    /// Any other announcement; observed and ignored.
    Other,
}

/// How many search passes are observed before the search counts as exhausted:
/// the discovery subsystem restarts its search periodically, so a run of
/// passes with no resolution means the device is not answering.
pub const SEARCH_PASS_LIMIT: u64 = 5;

/// What the locator decides on one event, given how many search passes it has
/// already seen: `None` keeps listening; `Some(res)` stops with the result.
///
/// A resolved service ends the search at once: with its first address on
/// success, or with `None` if — against the protocol — it carried no address
/// at all, since no made-up address may ever be returned. A search pass that
/// reaches the limit ends the search with `None`; any other event changes
/// nothing.
pub open spec fn spec_decision(passes: int, e: DiscoveryEvent) -> Option<Option<Seq<char>>> {
    match e {
        DiscoveryEvent::Resolved(addrs) => {
            if addrs@.len() > 0 {
                Some(Some(addrs@[0]@))
            } else {
                Some(None)
            }
        },
        DiscoveryEvent::SearchStarted => {
            if passes + 1 >= SEARCH_PASS_LIMIT {
                Some(None)
            } else {
                None
            }
        },
        DiscoveryEvent::Other => None,
    }
}

/// The pass count after one event: only a search pass advances it.
pub open spec fn spec_next_passes(passes: int, e: DiscoveryEvent) -> int {
    match e {
        DiscoveryEvent::SearchStarted => passes + 1,
        _ => passes,
    }
}

/// The result of running the locator over a whole event stream, starting
/// with `passes` search passes already seen: the address found (if any) and
/// how many events were consumed before stopping.
///
/// A stream that ends before any terminal decision models a closed event
/// source: the result is `None` with every event consumed.
pub open spec fn spec_locate(events: Seq<DiscoveryEvent>, passes: int) -> (Option<Seq<char>>, int)
    decreases events.len(),
{
    if events.len() == 0 {
        (None, 0)
    } else {
        match spec_decision(passes, events[0]) {
            Some(res) => (res, 1),
            None => {
                let rest = spec_locate(events.drop_first(), spec_next_passes(passes, events[0]));
                (rest.0, 1 + rest.1)
            },
        }
    }
}

/// Whether an executable decision agrees with a spec-level one.
pub open spec fn decision_matches(r: Option<Option<String>>, d: Option<Option<Seq<char>>>) -> bool {
    match (r, d) {
        (Option::None, Option::None) => true,
        (Option::Some(Option::None), Option::Some(Option::None)) => true,
        (Option::Some(Option::Some(s)), Option::Some(Option::Some(v))) => s@ == v,
        _ => false,
    }
}

/// The locator's state between events: how many search passes it has seen.
pub struct Locator {
    passes: u64,
}

impl Locator {
    /// How many search passes this locator has seen so far.
    pub closed spec fn passes_seen(self) -> int {
        self.passes as int
    }

    /// A live locator has not yet reached the pass limit.
    pub open spec fn wf(self) -> bool {
        0 <= self.passes_seen() < SEARCH_PASS_LIMIT
    }

    /// A fresh locator that has seen no events.
    pub fn new() -> (r: Locator)
        ensures
            r.wf(),
            r.passes_seen() == 0,
    {
        Locator { passes: 0 }
    }

    /// Whether the locator may still take events: the pass limit is not
    /// reached.
    pub fn still_listening(&self) -> (b: bool)
        ensures
            b == self.wf(),
    {
        self.passes < SEARCH_PASS_LIMIT
    }

    /// Feeds one announcement to the locator. `None` means keep listening;
    /// `Some(res)` means stop listening, shut the discovery subsystem down,
    /// and take `res` as the search's result.
    pub fn on_event(&mut self, e: &DiscoveryEvent) -> (r: Option<Option<String>>)
        requires
            old(self).wf(),
        ensures
            decision_matches(r, spec_decision(old(self).passes_seen(), *e)),
            r is None ==> final(self).wf() && final(self).passes_seen() == spec_next_passes(
                old(self).passes_seen(),
                *e,
            ),
    {
        match e {
            DiscoveryEvent::Resolved(addrs) => {
                if addrs.len() > 0 {
                    Some(Some(addrs[0].clone()))
                } else {
                    Some(None)
                }
            },
            DiscoveryEvent::SearchStarted => {
                self.passes = self.passes + 1;
                if self.passes >= SEARCH_PASS_LIMIT {
                    Some(None)
                } else {
                    None
                }
            },
            DiscoveryEvent::Other => None,
        }
    }
}

/// Runs the locator over a recorded event stream: returns the search's result
/// and how many events were consumed before the locator stopped (every event,
/// if the stream ended first — a closed source).
pub fn locate_from_events(events: &Vec<DiscoveryEvent>) -> (r: (Option<String>, usize))
    ensures
        ({
            let (res, used) = spec_locate(events@, 0);
            r.1 == used && match (r.0, res) {
                (Option::None, Option::None) => true,
                (Option::Some(s), Option::Some(v)) => s@ == v,
                _ => false,
            }
        }),
{
    let mut locator = Locator::new();
    let mut i: usize = 0;
    proof {
        assert(events@.skip(0) =~= events@);
    }
    loop
        invariant
            0 <= i <= events@.len(),
            locator.wf(),
            spec_locate(events@, 0) == ({
                let rest = spec_locate(events@.skip(i as int), locator.passes_seen());
                (rest.0, i + rest.1)
            }),
        decreases events@.len() - i,
    {
        if i >= events.len() {
            proof {
                assert(events@.skip(i as int).len() == 0);
            }
            return (None, i);
        }
        let e = &events[i];
        proof {
            assert(events@.skip(i as int)[0] == events@[i as int]);
            assert(events@.skip(i as int).drop_first() =~= events@.skip(i as int + 1));
        }
        let decision = locator.on_event(e);
        i = i + 1;
        match decision {
            Some(res) => {
                return (res, i);
            },
            None => {},
        }
    }
}

} // verus!
