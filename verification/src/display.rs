//! The choices of the direct-rendering display: which mode to drive, which
//! encoder and CRTC to route the picture through, and when the next
//! once-a-second tick is due. Device handles are their raw numbers here.

use vstd::prelude::*;

verus! {

/// Whether some mode is marked preferred.
pub open spec fn has_preferred(preferred: Seq<bool>) -> bool {
    exists|i: int| 0 <= i < preferred.len() && preferred[i]
}

/// Picks the mode to drive from the "preferred" marks of the connector's
/// modes, in the connector's order: the first preferred mode, or else the
/// first mode; `None` when the connector lists no mode.
pub fn pick_mode(preferred: &Vec<bool>) -> (r: Option<usize>)
    ensures
        r is None <==> preferred@.len() == 0,
        r matches Some(i) ==> i < preferred@.len(),
        r matches Some(i) ==> (has_preferred(preferred@) <==> preferred@[i as int]),
        r matches Some(i) ==> forall|j: int| 0 <= j < i ==> !preferred@[j],
        !has_preferred(preferred@) && preferred@.len() > 0 ==> r == Some(0usize),
{
    let mut i: usize = 0;
    while i < preferred.len()
        invariant
            i <= preferred@.len(),
            forall|j: int| 0 <= j < i ==> !preferred@[j],
        decreases preferred@.len() - i,
    {
        if preferred[i] {
            return Some(i);
        }
        i = i + 1;
    }
    if preferred.len() == 0 {
        None
    } else {
        Some(0)
    }
}

/// The encoders to try, in order: the connector's current encoder, if it has
/// one, then every encoder the connector lists.
pub fn encoder_candidates(current: Option<u32>, encoders: &Vec<u32>) -> (v: Vec<u32>)
    ensures
        v@ == (match current {
            Some(c) => seq![c],
            None => Seq::<u32>::empty(),
        }) + encoders@,
{
    let mut v: Vec<u32> = Vec::new();
    if let Some(c) = current {
        v.push(c);
    }
    let ghost start = v@;
    let mut i: usize = 0;
    while i < encoders.len()
        invariant
            i <= encoders@.len(),
            v@ == start + encoders@.subrange(0, i as int),
        decreases encoders@.len() - i,
    {
        v.push(encoders[i]);
        i = i + 1;
        assert(encoders@.subrange(0, i as int) =~= encoders@.subrange(0, i - 1).push(encoders@[i - 1]));
    }
    assert(encoders@.subrange(0, encoders@.len() as int) =~= encoders@);
    v
}

/// An encoder as the device describes it: its handle, the CRTC it drives now,
/// if any, and the CRTCs it can drive.
#[derive(Clone, Debug)]
pub struct EncoderInfo {
    pub handle: u32,
    pub crtc: Option<u32>,
    pub possible_crtcs: Vec<u32>,
}

/// What one encoder offers: its current CRTC where that one is possible for
/// it, else its first possible CRTC; nothing where it can drive none.
pub open spec fn encoder_choice(e: EncoderInfo) -> Option<(u32, u32)> {
    if e.crtc is Some && e.possible_crtcs@.contains(e.crtc->0) {
        Some((e.handle, e.crtc->0))
    } else if e.possible_crtcs@.len() > 0 {
        Some((e.handle, e.possible_crtcs@[0]))
    } else {
        None
    }
}

/// The first offer among the candidates from position `i` on; a candidate
/// that the device would not describe (`None`) is passed over.
pub open spec fn first_choice_from(infos: Seq<Option<EncoderInfo>>, i: int) -> Option<(u32, u32)>
    decreases infos.len() - i,
{
    if i < 0 || i >= infos.len() {
        None
    } else {
        match infos[i] {
            Some(e) => if encoder_choice(e) is Some {
                encoder_choice(e)
            } else {
                first_choice_from(infos, i + 1)
            },
            None => first_choice_from(infos, i + 1),
        }
    }
}

/// Whether `c` occurs in `v`.
fn contains_u32(v: &Vec<u32>, c: u32) -> (b: bool)
    ensures
        b == v@.contains(c),
{
    let mut i: usize = 0;
    while i < v.len()
        invariant
            i <= v@.len(),
            forall|j: int| 0 <= j < i ==> v@[j] != c,
        decreases v@.len() - i,
    {
        if v[i] == c {
            assert(v@[i as int] == c);
            return true;
        }
        i = i + 1;
    }
    false
}

/// Picks the encoder and CRTC for the picture: the first candidate, in the
/// order given, that offers a CRTC. `None` when no candidate does.
pub fn select_encoder_and_crtc(infos: &Vec<Option<EncoderInfo>>) -> (r: Option<(u32, u32)>)
    ensures
        r == first_choice_from(infos@, 0),
{
    let mut i: usize = 0;
    while i < infos.len()
        invariant
            i <= infos@.len(),
            first_choice_from(infos@, 0) == first_choice_from(infos@, i as int),
        decreases infos@.len() - i,
    {
        match &infos[i] {
            Some(e) => {
                let current_possible = match e.crtc {
                    Some(c) => contains_u32(&e.possible_crtcs, c),
                    None => false,
                };
                if current_possible {
                    return Some((e.handle, e.crtc.unwrap()));
                }
                if e.possible_crtcs.len() > 0 {
                    return Some((e.handle, e.possible_crtcs[0]));
                }
            },
            None => {},
        }
        i = i + 1;
    }
    None
}

/// The `k`-th tick of a schedule that starts at `start`.
pub open spec fn scheduled_tick(start: int, period: int, k: nat) -> int {
    start + k * period
}

/// Decides whether the once-a-second tick is due at `now` and when the next
/// one is: on a due tick the schedule moves forward by whole periods to the
/// first instant after `now`, skipping the ticks that were missed.
pub fn advance_tick(now: u64, next_tick: u64, period: u64) -> (r: (bool, u64))
    requires
        period > 0,
        now + period <= u64::MAX,
    ensures
        r.0 == (now >= next_tick),
        !r.0 ==> r.1 == next_tick,
        r.0 ==> now < r.1 <= now + period,
        exists|k: nat| r.1 == #[trigger] scheduled_tick(next_tick as int, period as int, k),
{
    if now < next_tick {
        assert(next_tick == scheduled_tick(next_tick as int, period as int, 0));
        return (false, next_tick);
    }
    let mut next = next_tick;
    let ghost mut k: nat = 0;
    while next <= now
        invariant
            next_tick <= now,
            now + period <= u64::MAX,
            period > 0,
            next_tick <= next <= now + period,
            next == next_tick + k * period,
        decreases now + period - next,
    {
        next = next + period;
        proof {
            assert((k + 1) * period == k * period + period) by (nonlinear_arith);
            k = k + 1;
        }
    }
    assert(next == scheduled_tick(next_tick as int, period as int, k));
    (true, next)
}

} // verus!
