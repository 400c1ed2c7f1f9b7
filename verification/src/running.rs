//! Cross-RDH running checks, kept per link: the page sequence within a
//! CDP, orbit agreement within an HBF, and orbit monotonicity across
//! HBFs.

use vstd::prelude::*;
use crate::rdh::{trig_bit, Rdh};
use crate::text::{dec_chars, dec_u64};

verus! {

/// An RDH opens a heartbeat frame: page 0 with the HB trigger bit set.
pub open spec fn opens_hbf(r: Rdh) -> bool {
    r.pages_counter == 0 && trig_bit(r.trigger_type, 1)
}

/// The running state kept per link.
#[verifier::ext_equal]
pub ghost struct RunningState {
    /// The previous RDH of the link.
    pub prev: Option<Rdh>,
    /// The orbit of the open heartbeat frame, until its stop page.
    pub open_orbit: Option<u32>,
    /// The orbit of the last opened heartbeat frame.
    pub last_orbit: Option<u32>,
}

/// The state a fresh link starts from.
pub open spec fn init_running_state() -> RunningState {
    RunningState { prev: None, open_orbit: None, last_orbit: None }
}

/// The page-sequence rule is violated at `r`: the first page of a link
/// and the page after a stop must be page 0, any other page increments
/// by one.
pub open spec fn page_err(s: RunningState, r: Rdh) -> bool {
    match s.prev {
        None => r.pages_counter != 0,
        Some(p) => if p.stop_bit == 1 {
            r.pages_counter != 0
        } else {
            r.pages_counter != p.pages_counter + 1
        },
    }
}

/// The orbit rule is violated at `r`: a packet inside an open heartbeat
/// frame carries another orbit.
pub open spec fn orbit_err(s: RunningState, r: Rdh) -> bool {
    if opens_hbf(r) {
        false
    } else {
        match s.open_orbit {
            Some(o) => r.orbit != o,
            None => false,
        }
    }
}

/// The monotonicity rule is violated at `r`: a newly opened heartbeat
/// frame has a smaller orbit than the one opened before it.
pub open spec fn mono_err(s: RunningState, r: Rdh) -> bool {
    opens_hbf(r) && match s.last_orbit {
        Some(o) => r.orbit < o,
        None => false,
    }
}

/// The running state after `r`.
pub open spec fn running_step(s: RunningState, r: Rdh) -> RunningState {
    RunningState {
        prev: Some(r),
        open_orbit: if r.stop_bit == 1 {
            None
        } else if opens_hbf(r) {
            Some(r.orbit)
        } else {
            s.open_orbit
        },
        last_orbit: if opens_hbf(r) {
            Some(r.orbit)
        } else {
            s.last_orbit
        },
    }
}

/// The running state after the first `n` RDHs of a link.
pub open spec fn running_run(s: Seq<Rdh>, n: int) -> RunningState
    decreases n,
{
    if n <= 0 {
        init_running_state()
    } else {
        running_step(running_run(s, n - 1), s[n - 1])
    }
}

/// How many running rules the `n`-th RDH of a link violates.
pub open spec fn errs_at(s: Seq<Rdh>, i: int) -> nat {
    let st = running_run(s, i);
    (if page_err(st, s[i]) {
        1nat
    } else {
        0nat
    }) + (if orbit_err(st, s[i]) {
        1nat
    } else {
        0nat
    }) + (if mono_err(st, s[i]) {
        1nat
    } else {
        0nat
    })
}

/// No RDH of the link violates a running rule.
pub open spec fn running_clean(s: Seq<Rdh>) -> bool {
    forall|i: int| 0 <= i < s.len() ==> errs_at(s, i) == 0
}

/// The page number the next RDH of the link must carry: 0 at the start
/// of the link and after a stop page, the successor of the previous page
/// otherwise.
pub open spec fn expected_page_of(s: RunningState) -> int {
    match s.prev {
        None => 0,
        Some(p) => if p.stop_bit == 1 {
            0
        } else {
            p.pages_counter + 1
        },
    }
}

/// The message of a page-sequence violation.
pub open spec fn page_msg_chars(s: RunningState, r: Rdh) -> Seq<char> {
    "pages counter mismatch, expected "@ + dec_chars(expected_page_of(s) as nat) + ", got "@
        + dec_chars(r.pages_counter as nat)
}

/// The message of an orbit violation within an HBF.
pub open spec fn orbit_msg_chars(s: RunningState, r: Rdh) -> Seq<char> {
    "orbit mismatch within HBF, expected "@ + dec_chars(s.open_orbit->Some_0 as nat) + ", got "@
        + dec_chars(r.orbit as nat)
}

/// The message of an orbit-monotonicity violation across HBFs.
pub open spec fn mono_msg_chars(s: RunningState, r: Rdh) -> Seq<char> {
    "orbit decreased across HBFs, last "@ + dec_chars(s.last_orbit->Some_0 as nat) + ", got "@
        + dec_chars(r.orbit as nat)
}

/// The per-link running checker.
pub struct RdhRunningChecker {
    prev: Option<Rdh>,
    open_orbit: Option<u32>,
    last_orbit: Option<u32>,
}

impl RdhRunningChecker {
    /// The state the transition relation speaks of.
    pub closed spec fn abs(self) -> RunningState {
        RunningState { prev: self.prev, open_orbit: self.open_orbit, last_orbit: self.last_orbit }
    }

    /// A fresh checker for one link.
    pub fn new() -> (r: Self)
        ensures
            r.abs() == init_running_state(),
    {
        RdhRunningChecker { prev: None, open_orbit: None, last_orbit: None }
    }

    /// Check one RDH against the running rules: one message naming each
    /// violated rule with its expected and found values, page sequence
    /// first, and the state advances by the transition relation.
    pub fn check(&mut self, r: &Rdh) -> (msgs: Vec<String>)
        ensures
            final(self).abs() == running_step(old(self).abs(), *r),
            msgs@.len() == (if page_err(old(self).abs(), *r) {
                1int
            } else {
                0int
            }) + (if orbit_err(old(self).abs(), *r) {
                1int
            } else {
                0int
            }) + (if mono_err(old(self).abs(), *r) {
                1int
            } else {
                0int
            }),
            page_err(old(self).abs(), *r) ==> msgs@[0]@ == page_msg_chars(old(self).abs(), *r),
            orbit_err(old(self).abs(), *r) ==> msgs@[if page_err(old(self).abs(), *r) {
                1int
            } else {
                0int
            }]@ == orbit_msg_chars(old(self).abs(), *r),
            mono_err(old(self).abs(), *r) ==> msgs@[if page_err(old(self).abs(), *r) {
                1int
            } else {
                0int
            }]@ == mono_msg_chars(old(self).abs(), *r),
    {
        let mut msgs: Vec<String> = Vec::new();
        let expected_page: u16 = match &self.prev {
            None => 0,
            Some(p) => if p.stop_bit == 1 {
                0
            } else if p.pages_counter == u16::MAX {
                // The successor does not fit in a page counter, so any
                // page number mismatches.
                let mut msg = String::from_str("pages counter mismatch, expected ");
                msg.append(dec_u64(p.pages_counter as u64 + 1).as_str());
                msg.append(", got ");
                msg.append(dec_u64(r.pages_counter as u64).as_str());
                msgs.push(msg);
                0
            } else {
                p.pages_counter + 1
            },
        };
        let page_overflowed = msgs.len() == 1;
        if !page_overflowed && r.pages_counter != expected_page {
            let mut msg = String::from_str("pages counter mismatch, expected ");
            msg.append(dec_u64(expected_page as u64).as_str());
            msg.append(", got ");
            msg.append(dec_u64(r.pages_counter as u64).as_str());
            msgs.push(msg);
        }
        let opens = r.pages_counter == 0 && {
            let t = r.trigger_type;
            t & 2 != 0
        };
        proof {
            assert((r.trigger_type & 2 != 0) == trig_bit(r.trigger_type, 1)) by (bit_vector);
        }
        if !opens {
            if let Some(o) = self.open_orbit {
                if r.orbit != o {
                    let mut msg = String::from_str("orbit mismatch within HBF, expected ");
                    msg.append(dec_u64(o as u64).as_str());
                    msg.append(", got ");
                    msg.append(dec_u64(r.orbit as u64).as_str());
                    msgs.push(msg);
                }
            }
        } else {
            if let Some(o) = self.last_orbit {
                if r.orbit < o {
                    let mut msg = String::from_str("orbit decreased across HBFs, last ");
                    msg.append(dec_u64(o as u64).as_str());
                    msg.append(", got ");
                    msg.append(dec_u64(r.orbit as u64).as_str());
                    msgs.push(msg);
                }
            }
        }
        self.prev = Some(*r);
        if r.stop_bit == 1 {
            self.open_orbit = None;
        } else if opens {
            self.open_orbit = Some(r.orbit);
        }
        if opens {
            self.last_orbit = Some(r.orbit);
        }
        msgs
    }
}

/// The page sequence of a link is well formed: page numbers restart at 0
/// after each stop page and increment by one otherwise, starting at 0.
pub open spec fn page_seq_ok(s: Seq<Rdh>) -> bool {
    &&& (s.len() > 0 ==> s[0].pages_counter == 0)
    &&& (forall|i: int|
        1 <= i < s.len() ==> (if (#[trigger] s[i - 1]).stop_bit == 1 {
            s[i].pages_counter == 0
        } else {
            s[i].pages_counter == s[i - 1].pages_counter + 1
        }))
}

/// A clean run has a well-formed page sequence, and the other way round
/// a well-formed page sequence raises no page errors.
pub proof fn lemma_clean_pages(s: Seq<Rdh>)
    ensures
        (forall|i: int| 0 <= i < s.len() ==> !page_err(running_run(s, i), s[i])) <==> page_seq_ok(s),
{
    lemma_run_prev(s);
    if forall|i: int| 0 <= i < s.len() ==> !page_err(running_run(s, i), s[i]) {
        assert forall|i: int|
            1 <= i < s.len() implies (if (#[trigger] s[i - 1]).stop_bit == 1 {
            s[i].pages_counter == 0
        } else {
            s[i].pages_counter == s[i - 1].pages_counter + 1
        }) by {
            assert(!page_err(running_run(s, i), s[i]));
        }
        if s.len() > 0 {
            assert(!page_err(running_run(s, 0), s[0]));
        }
    }
    if page_seq_ok(s) {
        assert forall|i: int| 0 <= i < s.len() implies !page_err(running_run(s, i), s[i]) by {
            if i > 0 {
                assert(running_run(s, i).prev == Some(s[i - 1]));
            }
        }
    }
}

/// The previous RDH of the running state is the preceding element.
proof fn lemma_run_prev(s: Seq<Rdh>)
    ensures
        forall|i: int|
            0 <= i < s.len() ==> running_run(s, i).prev == (if i == 0 {
                Option::<Rdh>::None
            } else {
                Some(s[i - 1])
            }),
{
    assert forall|i: int|
        0 <= i < s.len() implies running_run(s, i).prev == (if i == 0 {
        Option::<Rdh>::None
    } else {
        Some(s[i - 1])
    }) by {
        if i > 0 {
            assert(running_run(s, i) == running_step(running_run(s, i - 1), s[i - 1]));
        }
    }
}

/// The start of the CDP that the `i`-th RDH of a link belongs to: the
/// position after the last stop page before it.
pub open spec fn cdp_start(s: Seq<Rdh>, i: int) -> int
    decreases i,
{
    if i <= 0 {
        0
    } else if s[i - 1].stop_bit == 1 {
        i
    } else {
        cdp_start(s, i - 1)
    }
}

/// Within every CDP of a well-formed link stream, the pages counter
/// counts the pages from 0: each RDH's pages counter is its distance
/// from the start of its CDP, and a stop bit closes the CDP so that it
/// is set only on the last page.
pub proof fn lemma_cdp_page_sequence(s: Seq<Rdh>, i: int)
    requires
        page_seq_ok(s),
        0 <= i < s.len(),
    ensures
        0 <= cdp_start(s, i) <= i,
        s[i].pages_counter == i - cdp_start(s, i),
        forall|j: int| cdp_start(s, i) <= j < i ==> s[j].stop_bit != 1,
    decreases i,
{
    if i > 0 {
        if s[i - 1].stop_bit == 1 {
            assert(cdp_start(s, i) == i);
        } else {
            lemma_cdp_page_sequence(s, i - 1);
        }
    }
}

/// The index of the RDH that opened the heartbeat frame still open
/// after the first `i` RDHs of a link, if one is open.
pub open spec fn open_hbf_after(s: Seq<Rdh>, i: int) -> Option<int>
    decreases i,
{
    if i <= 0 {
        None
    } else if s[i - 1].stop_bit == 1 {
        None
    } else if opens_hbf(s[i - 1]) {
        Some(i - 1)
    } else {
        open_hbf_after(s, i - 1)
    }
}

/// The heartbeat frame that governs the `i`-th RDH: the RDH itself when
/// it opens one, else the frame open before it.
pub open spec fn hbf_opener(s: Seq<Rdh>, i: int) -> Option<int> {
    if opens_hbf(s[i]) {
        Some(i)
    } else {
        open_hbf_after(s, i)
    }
}

/// The open orbit of the running state is the orbit of the governing
/// opener.
proof fn lemma_run_open_orbit(s: Seq<Rdh>, i: int)
    requires
        0 <= i <= s.len(),
    ensures
        running_run(s, i).open_orbit == (match open_hbf_after(s, i) {
            Some(j) => Some(s[j].orbit),
            None => Option::<u32>::None,
        }),
        open_hbf_after(s, i) is Some ==> 0 <= open_hbf_after(s, i)->Some_0 < i,
    decreases i,
{
    if i > 0 {
        lemma_run_open_orbit(s, i - 1);
        assert(running_run(s, i) == running_step(running_run(s, i - 1), s[i - 1]));
    }
}

/// Across every heartbeat frame of a link stream on which no orbit
/// error is raised, all RDHs carry the orbit of the RDH that opened the
/// frame.
pub proof fn lemma_hbf_shared_orbit(s: Seq<Rdh>, i: int)
    requires
        forall|k: int| 0 <= k < s.len() ==> !orbit_err(running_run(s, k), s[k]),
        0 <= i < s.len(),
        hbf_opener(s, i) is Some,
    ensures
        0 <= hbf_opener(s, i)->Some_0 <= i,
        s[i].orbit == s[hbf_opener(s, i)->Some_0].orbit,
{
    lemma_run_open_orbit(s, i);
    if !opens_hbf(s[i]) {
        assert(!orbit_err(running_run(s, i), s[i]));
    }
}

} // verus!
