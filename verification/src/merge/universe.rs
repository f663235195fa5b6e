//! The merge state of one universe: a lane per input and the merged channels.

use vstd::prelude::*;
use crate::clock::{elapsed, since, Nanos};
use super::MergeMode;

verus! {

/// One source's latest data for a universe.
#[verifier::ext_equal]
pub struct LaneModel {
    pub data: Seq<u8>,
    pub last_seen: Nanos,
}

/// The merge state of a universe.
#[verifier::ext_equal]
pub struct UniverseModel {
    /// The latest data of each input.
    pub lanes: Seq<Option<LaneModel>>,
    /// The input that owns each channel (latest-takes-precedence only).
    pub owner: Seq<Option<usize>>,
    /// The merged channels.
    pub merged: Seq<u8>,
}

/// The one expiry rule: silent for longer than the timeout. A timeout of 0 never
/// expires.
pub open spec fn expired(lane: LaneModel, timeout: Nanos, now: Nanos) -> bool {
    timeout != 0 && elapsed(now, lane.last_seen) > timeout
}

/// Whether a lane has data for a channel.
pub open spec fn covers(lane: Option<LaneModel>, ch: int) -> bool {
    lane is Some && 0 <= ch < lane->0.data.len()
}

/// What a lane says of a channel: its value, if the lane is live and covers it.
pub open spec fn contribution(
    lane: Option<LaneModel>,
    timeout: Nanos,
    now: Nanos,
    ch: int,
) -> Option<u8> {
    if covers(lane, ch) && !expired(lane->0, timeout, now) {
        Some(lane->0.data[ch])
    } else {
        None
    }
}

/// The winner of two values: the smaller one in `lowest`, else the larger one.
pub open spec fn winner(mode: MergeMode, a: u8, b: u8) -> u8 {
    if mode == MergeMode::Lowest {
        if a <= b {
            a
        } else {
            b
        }
    } else {
        if a >= b {
            a
        } else {
            b
        }
    }
}

/// The winner over all contributions to a channel; `None` where there are none.
pub open spec fn combined(
    lanes: Seq<Option<LaneModel>>,
    mode: MergeMode,
    timeout: Nanos,
    now: Nanos,
    ch: int,
) -> Option<u8>
    decreases lanes.len(),
{
    if lanes.len() == 0 {
        None
    } else {
        match (
            combined(lanes.drop_last(), mode, timeout, now, ch),
            contribution(lanes.last(), timeout, now, ch),
        ) {
            (None, c) => c,
            (r, None) => r,
            (Some(a), Some(v)) => Some(winner(mode, a, v)),
        }
    }
}

/// The channels after a full highest/lowest merge; a channel without a live
/// contribution holds its value.
pub open spec fn recomputed(
    lanes: Seq<Option<LaneModel>>,
    merged: Seq<u8>,
    mode: MergeMode,
    timeout: Nanos,
    now: Nanos,
) -> Seq<u8> {
    Seq::new(
        merged.len(),
        |ch: int|
            match combined(lanes, mode, timeout, now, ch) {
                Some(v) => v,
                None => merged[ch],
            },
    )
}

/// A universe of `n` inputs that has heard nothing.
pub open spec fn silent(n: nat) -> UniverseModel {
    UniverseModel {
        lanes: Seq::new(n, |i: int| None),
        owner: Seq::empty(),
        merged: Seq::empty(),
    }
}

/// `s` extended to at least `len` items.
pub open spec fn extended<T>(s: Seq<T>, len: nat, fill: T) -> Seq<T> {
    if s.len() >= len {
        s
    } else {
        Seq::new(
            len,
            |i: int|
                if i < s.len() {
                    s[i]
                } else {
                    fill
                },
        )
    }
}

/// Whether a packet takes a channel: it carries it, and the value is not what the
/// same input's live lane already said.
pub open spec fn takes(
    lane: Option<LaneModel>,
    timeout: Nanos,
    now: Nanos,
    data: Seq<u8>,
    ch: int,
) -> bool {
    0 <= ch < data.len() && contribution(lane, timeout, now, ch) != Some(data[ch])
}

/// A universe after one packet of `data` from `input`.
pub open spec fn ingested(
    u: UniverseModel,
    mode: MergeMode,
    timeout: Nanos,
    input: int,
    data: Seq<u8>,
    now: Nanos,
) -> UniverseModel {
    let owner = extended(u.owner, data.len(), None);
    let merged = extended(u.merged, data.len(), 0u8);
    let lanes = u.lanes.update(input, Some(LaneModel { data, last_seen: now }));
    if mode == MergeMode::Ltp {
        UniverseModel {
            lanes,
            owner: Seq::new(
                owner.len(),
                |ch: int|
                    if takes(u.lanes[input], timeout, now, data, ch) {
                        Some(input as usize)
                    } else {
                        owner[ch]
                    },
            ),
            merged: Seq::new(
                merged.len(),
                |ch: int|
                    if takes(u.lanes[input], timeout, now, data, ch) {
                        data[ch]
                    } else {
                        merged[ch]
                    },
            ),
        }
    } else {
        UniverseModel { lanes, owner, merged: recomputed(lanes, merged, mode, timeout, now) }
    }
}

/// The lanes without the expired ones.
pub open spec fn survivors(
    lanes: Seq<Option<LaneModel>>,
    timeout: Nanos,
    now: Nanos,
) -> Seq<Option<LaneModel>> {
    Seq::new(
        lanes.len(),
        |i: int|
            if lanes[i] is Some && expired(lanes[i]->0, timeout, now) {
                None
            } else {
                lanes[i]
            },
    )
}

/// Among the lanes that cover a channel, the one heard most recently (the first
/// of several).
pub open spec fn freshest(lanes: Seq<Option<LaneModel>>, ch: int) -> Option<int>
    decreases lanes.len(),
{
    if lanes.len() == 0 {
        None
    } else {
        let last = lanes.len() - 1;
        let best = freshest(lanes.drop_last(), ch);
        if covers(lanes[last], ch) && (best is None || lanes[last]->0.last_seen
            > lanes[best->0]->0.last_seen) {
            Some(last)
        } else {
            best
        }
    }
}

/// Whether a channel's owner is gone.
pub open spec fn orphaned(lanes: Seq<Option<LaneModel>>, owner: Option<usize>) -> bool {
    owner is Some && lanes[owner->0 as int] is None
}

/// A universe after its orphaned channels have fallen back to the freshest
/// remaining source; with none left a channel holds its value, unowned.
pub open spec fn reassigned(u: UniverseModel) -> UniverseModel {
    UniverseModel {
        lanes: u.lanes,
        owner: Seq::new(
            u.owner.len(),
            |ch: int|
                if orphaned(u.lanes, u.owner[ch]) {
                    match freshest(u.lanes, ch) {
                        Some(i) => Some(i as usize),
                        None => None,
                    }
                } else {
                    u.owner[ch]
                },
        ),
        merged: Seq::new(
            u.merged.len(),
            |ch: int|
                if orphaned(u.lanes, u.owner[ch]) && freshest(u.lanes, ch) is Some {
                    u.lanes[freshest(u.lanes, ch)->0]->0.data[ch]
                } else {
                    u.merged[ch]
                },
        ),
    }
}

/// A universe after its expired lanes have been dropped and, if there were any,
/// its channels re-merged.
pub open spec fn pruned(
    u: UniverseModel,
    mode: MergeMode,
    timeout: Nanos,
    now: Nanos,
) -> UniverseModel {
    let lanes = survivors(u.lanes, timeout, now);
    if lanes == u.lanes {
        u
    } else if mode == MergeMode::Ltp {
        reassigned(UniverseModel { lanes, ..u })
    } else {
        UniverseModel {
            lanes,
            owner: u.owner,
            merged: recomputed(lanes, u.merged, mode, timeout, now),
        }
    }
}

/// Latest-takes-precedence book-keeping: a covered channel has an owner, an
/// owner is a present lane, and a channel its owner covers shows its value.
pub open spec fn coherent(u: UniverseModel) -> bool {
    &&& forall|i: int, ch: int|
        0 <= i < u.lanes.len() && #[trigger] covers(u.lanes[i], ch) ==> u.owner[ch] is Some
    &&& forall|ch: int|
        0 <= ch < u.owner.len() && (#[trigger] u.owner[ch]) is Some ==> {
            let lane = u.lanes[u.owner[ch]->0 as int];
            lane is Some && (covers(lane, ch) ==> u.merged[ch] == lane->0.data[ch])
        }
}

/// Whether the channels show the winners among the lanes that are live at a moment; a
/// channel to which no lane contributes may show anything.
pub open spec fn showing(u: UniverseModel, mode: MergeMode, timeout: Nanos, at: Nanos) -> bool {
    forall|ch: int|
        0 <= ch < u.merged.len() && combined(u.lanes, mode, timeout, at, ch) is Some ==> (
        #[trigger] u.merged[ch]) == combined(u.lanes, mode, timeout, at, ch)->0
}

/// Highest/lowest book-keeping: where a lane is present, the channels show the winners
/// among the lanes that were live when one of the present lanes was last heard.
pub open spec fn settled(u: UniverseModel, mode: MergeMode, timeout: Nanos) -> bool {
    ||| forall|i: int| 0 <= i < u.lanes.len() ==> (#[trigger] u.lanes[i]) is None
    ||| exists|k: int|
        0 <= k < u.lanes.len() && (#[trigger] u.lanes[k]) is Some && showing(
            u,
            mode,
            timeout,
            u.lanes[k]->0.last_seen,
        )
}

/// A universe of `n` inputs in good order.
pub open spec fn sound(u: UniverseModel, mode: MergeMode, timeout: Nanos, n: nat) -> bool {
    &&& u.lanes.len() == n
    &&& u.owner.len() == u.merged.len() <= 512
    &&& forall|i: int|
        0 <= i < n && (#[trigger] u.lanes[i]) is Some ==> u.lanes[i]->0.data.len()
            <= u.merged.len()
    &&& forall|ch: int|
        0 <= ch < u.owner.len() && (#[trigger] u.owner[ch]) is Some ==> u.owner[ch]->0 < n
    &&& mode == MergeMode::Ltp ==> coherent(u)
    &&& mode != MergeMode::Ltp ==> settled(u, mode, timeout)
}

pub proof fn lemma_same_contributions(
    lanes: Seq<Option<LaneModel>>,
    mode: MergeMode,
    timeout: Nanos,
    a: Nanos,
    b: Nanos,
    ch: int,
)
    requires
        forall|i: int|
            0 <= i < lanes.len() && (#[trigger] lanes[i]) is Some ==> expired(
                lanes[i]->0,
                timeout,
                a,
            ) == expired(lanes[i]->0, timeout, b),
    ensures
        combined(lanes, mode, timeout, a, ch) == combined(lanes, mode, timeout, b, ch),
    decreases lanes.len(),
{
    if lanes.len() > 0 {
        let init = lanes.drop_last();
        assert forall|i: int| 0 <= i < init.len() && (#[trigger] init[i]) is Some implies expired(
            init[i]->0,
            timeout,
            a,
        ) == expired(init[i]->0, timeout, b) by {
            assert(init[i] == lanes[i]);
        }
        lemma_same_contributions(init, mode, timeout, a, b, ch);
        assert(lanes.last() == lanes[lanes.len() - 1]);
    }
}

/// Whether no present lane was heard before lane `k`.
spec fn earliest(lanes: Seq<Option<LaneModel>>, k: int) -> bool {
    &&& 0 <= k < lanes.len()
    &&& lanes[k] is Some
    &&& forall|i: int|
        0 <= i < lanes.len() && (#[trigger] lanes[i]) is Some ==> lanes[k]->0.last_seen
            <= lanes[i]->0.last_seen
}

proof fn lemma_earliest(lanes: Seq<Option<LaneModel>>) -> (k: int)
    requires
        exists|i: int| 0 <= i < lanes.len() && (#[trigger] lanes[i]) is Some,
    ensures
        earliest(lanes, k),
    decreases lanes.len(),
{
    let init = lanes.drop_last();
    let last = lanes.len() - 1;
    if exists|i: int| 0 <= i < init.len() && (#[trigger] init[i]) is Some {
        let k = lemma_earliest(init);
        let best = if lanes[last] is Some && lanes[last]->0.last_seen < init[k]->0.last_seen {
            last
        } else {
            k
        };
        assert forall|i: int| 0 <= i < lanes.len() && (#[trigger] lanes[i]) is Some implies lanes[best]->0.last_seen
            <= lanes[i]->0.last_seen by {
            if i < last {
                assert(init[i] is Some);
            }
        }
        best
    } else {
        assert forall|i: int| 0 <= i < lanes.len() && (#[trigger] lanes[i]) is Some implies i
            == last by {
            if i < last {
                assert(init[i] is Some);
            }
        }
        last
    }
}

proof fn lemma_ingest_settles(
    u: UniverseModel,
    mode: MergeMode,
    timeout: Nanos,
    input: int,
    data: Seq<u8>,
    now: Nanos,
)
    requires
        mode != MergeMode::Ltp,
        0 <= input < u.lanes.len(),
    ensures
        settled(ingested(u, mode, timeout, input, data, now), mode, timeout),
{
    let v = ingested(u, mode, timeout, input, data, now);
    assert(v.lanes[input] == Some(LaneModel { data, last_seen: now }));
    assert(showing(v, mode, timeout, now));
}

proof fn lemma_prune_settles(u: UniverseModel, mode: MergeMode, timeout: Nanos, now: Nanos)
    requires
        mode != MergeMode::Ltp,
        settled(u, mode, timeout),
    ensures
        settled(pruned(u, mode, timeout, now), mode, timeout),
{
    let lanes = survivors(u.lanes, timeout, now);
    let v = pruned(u, mode, timeout, now);
    if lanes != u.lanes && exists|i: int| 0 <= i < lanes.len() && (#[trigger] lanes[i]) is Some {
        let k = lemma_earliest(lanes);
        let at = lanes[k]->0.last_seen;
        assert forall|i: int| 0 <= i < lanes.len() && (#[trigger] lanes[i]) is Some implies expired(
            lanes[i]->0,
            timeout,
            now,
        ) == expired(lanes[i]->0, timeout, at) by {
            assert(!expired(lanes[i]->0, timeout, now));
        }
        assert forall|ch: int|
            0 <= ch < v.merged.len() && combined(v.lanes, mode, timeout, at, ch) is Some implies (
        #[trigger] v.merged[ch]) == combined(v.lanes, mode, timeout, at, ch)->0 by {
            lemma_same_contributions(lanes, mode, timeout, now, at, ch);
        }
        assert(v.lanes[k] is Some && showing(v, mode, timeout, v.lanes[k]->0.last_seen));
    }
}

pub proof fn lemma_ingest_keeps_sound(
    u: UniverseModel,
    mode: MergeMode,
    n: nat,
    timeout: Nanos,
    input: int,
    data: Seq<u8>,
    now: Nanos,
)
    requires
        sound(u, mode, timeout, n),
        0 <= input < n <= usize::MAX,
        data.len() <= 512,
    ensures
        sound(ingested(u, mode, timeout, input, data, now), mode, timeout, n),
{
    let v = ingested(u, mode, timeout, input, data, now);
    if mode != MergeMode::Ltp {
        lemma_ingest_settles(u, mode, timeout, input, data, now);
    }
    assert forall|i: int| 0 <= i < n && (#[trigger] v.lanes[i]) is Some implies v.lanes[i]->0.data.len()
        <= v.merged.len() by {
        if i != input {
            assert(v.lanes[i] == u.lanes[i]);
        }
    }
    assert forall|ch: int| 0 <= ch < v.owner.len() && (#[trigger] v.owner[ch]) is Some implies v.owner[ch]->0
        < n by {
        if ch < u.owner.len() {
            assert(u.owner[ch] is Some ==> u.owner[ch]->0 < n);
        }
    }
    if mode == MergeMode::Ltp {
        assert forall|i: int, ch: int|
            0 <= i < v.lanes.len() && #[trigger] covers(v.lanes[i], ch) implies v.owner[ch] is Some by {
            if i != input {
                assert(v.lanes[i] == u.lanes[i]);
                assert(covers(u.lanes[i], ch));
                assert(u.owner[ch] is Some);
            } else if !takes(u.lanes[input], timeout, now, data, ch) {
                assert(covers(u.lanes[input], ch));
                assert(u.owner[ch] is Some);
            }
        }
        assert forall|ch: int| 0 <= ch < v.owner.len() && (#[trigger] v.owner[ch]) is Some implies ({
            let lane = v.lanes[v.owner[ch]->0 as int];
            lane is Some && (covers(lane, ch) ==> v.merged[ch] == lane->0.data[ch])
        }) by {
            if !takes(u.lanes[input], timeout, now, data, ch) {
                assert(ch < u.owner.len());
                assert(u.owner[ch] is Some);
                let o = u.owner[ch]->0 as int;
                if o != input {
                    assert(v.lanes[o] == u.lanes[o]);
                } else if ch < data.len() {
                    assert(covers(u.lanes[input], ch));
                }
            }
        }
    }
}

proof fn lemma_freshest(lanes: Seq<Option<LaneModel>>, ch: int)
    ensures
        freshest(lanes, ch) matches Some(i) ==> 0 <= i < lanes.len() && covers(lanes[i], ch),
        freshest(lanes, ch) is None ==> forall|i: int|
            0 <= i < lanes.len() ==> !(#[trigger] covers(lanes[i], ch)),
    decreases lanes.len(),
{
    if lanes.len() > 0 {
        lemma_freshest(lanes.drop_last(), ch);
        assert forall|i: int| 0 <= i < lanes.len() && freshest(lanes, ch) is None implies !(
        #[trigger] covers(lanes[i], ch)) by {
            if i < lanes.len() - 1 {
                assert(lanes.drop_last()[i] == lanes[i]);
                assert(!covers(lanes.drop_last()[i], ch));
            }
        }
    }
}

pub proof fn lemma_prune_keeps_sound(
    u: UniverseModel,
    mode: MergeMode,
    n: nat,
    timeout: Nanos,
    now: Nanos,
)
    requires
        sound(u, mode, timeout, n),
        n <= usize::MAX,
    ensures
        sound(pruned(u, mode, timeout, now), mode, timeout, n),
{
    if mode != MergeMode::Ltp {
        lemma_prune_settles(u, mode, timeout, now);
    }
    let lanes = survivors(u.lanes, timeout, now);
    let v = pruned(u, mode, timeout, now);
    if lanes != u.lanes {
        assert forall|i: int| 0 <= i < n && (#[trigger] v.lanes[i]) is Some implies v.lanes[i]->0.data.len()
            <= v.merged.len() by {
            assert(u.lanes[i] is Some);
        }
        assert forall|ch: int| 0 <= ch < v.owner.len() && (#[trigger] v.owner[ch]) is Some implies v.owner[ch]->0
            < n by {
            lemma_freshest(lanes, ch);
            assert(u.owner[ch] is Some ==> u.owner[ch]->0 < n);
        }
        if mode == MergeMode::Ltp {
            assert forall|i: int, ch: int|
                0 <= i < v.lanes.len() && #[trigger] covers(v.lanes[i], ch) implies v.owner[ch] is Some by {
                lemma_freshest(lanes, ch);
                assert(covers(u.lanes[i], ch));
                assert(u.owner[ch] is Some);
            }
            assert forall|ch: int| 0 <= ch < v.owner.len() && (#[trigger] v.owner[ch]) is Some implies ({
                let lane = v.lanes[v.owner[ch]->0 as int];
                lane is Some && (covers(lane, ch) ==> v.merged[ch] == lane->0.data[ch])
            }) by {
                lemma_freshest(lanes, ch);
                assert(u.owner[ch] is Some ==> u.owner[ch]->0 < n);
                if !orphaned(lanes, u.owner[ch]) {
                    assert(u.owner[ch] is Some);
                }
            }
        }
    }
}

/// One source's latest data for a universe.
pub struct Lane {
    data: Vec<u8>,
    last_seen: Nanos,
}

/// The model of a lane slot.
pub closed spec fn lane_of(slot: Option<Lane>) -> Option<LaneModel> {
    match slot {
        Some(l) => Some(LaneModel { data: l.data@, last_seen: l.last_seen }),
        None => None,
    }
}

/// Per-universe merge state: one lane per input and the merged output.
pub struct UniverseMerge {
    lanes: Vec<Option<Lane>>,
    owner: Vec<Option<usize>>,
    merged: Vec<u8>,
}

impl View for UniverseMerge {
    type V = UniverseModel;

    closed spec fn view(&self) -> UniverseModel {
        UniverseModel {
            lanes: Seq::new(self.lanes@.len(), |i: int| lane_of(self.lanes@[i])),
            owner: self.owner@,
            merged: self.merged@,
        }
    }
}

fn is_expired(lane: &Lane, timeout: Nanos, now: Nanos) -> (r: bool)
    ensures
        r == expired((LaneModel { data: lane.data@, last_seen: lane.last_seen }), timeout, now),
{
    timeout != 0 && since(now, lane.last_seen) > timeout
}

fn says(slot: &Option<Lane>, timeout: Nanos, now: Nanos, ch: usize) -> (r: Option<u8>)
    ensures
        r == contribution(lane_of(*slot), timeout, now, ch as int),
{
    match slot {
        Some(l) => if ch < l.data.len() && !is_expired(l, timeout, now) {
            Some(l.data[ch])
        } else {
            None
        },
        None => None,
    }
}

fn pick(mode: MergeMode, a: u8, b: u8) -> (r: u8)
    ensures
        r == winner(mode, a, b),
{
    if mode == MergeMode::Lowest {
        if a <= b {
            a
        } else {
            b
        }
    } else {
        if a >= b {
            a
        } else {
            b
        }
    }
}

impl UniverseMerge {
    /// A universe that has heard nothing.
    pub fn new(n_inputs: usize) -> (u: Self)
        ensures
            u@ == silent(n_inputs as nat),
    {
        let mut lanes: Vec<Option<Lane>> = Vec::new();
        let mut i: usize = 0;
        while i < n_inputs
            invariant
                i <= n_inputs,
                lanes@.len() == i,
                forall|k: int| 0 <= k < i ==> #[trigger] lanes@[k] is None,
            decreases n_inputs - i,
        {
            lanes.push(None);
            i += 1;
        }
        let u = UniverseMerge { lanes, owner: Vec::new(), merged: Vec::new() };
        assert(u@.lanes =~= silent(n_inputs as nat).lanes);
        u
    }

    /// The merged channels.
    pub fn output(&self) -> (r: &[u8])
        ensures
            r@ == self@.merged,
    {
        self.merged.as_slice()
    }

    fn grow(&mut self, len: usize)
        requires
            old(self)@.owner.len() == old(self)@.merged.len(),
        ensures
            final(self)@.lanes == old(self)@.lanes,
            final(self)@.owner == extended(old(self)@.owner, len as nat, None),
            final(self)@.merged == extended(old(self)@.merged, len as nat, 0u8),
    {
        let ghost before = self@;
        while self.merged.len() < len
            invariant
                self.lanes == old(self).lanes,
                self.owner@.len() == self.merged@.len(),
                before == old(self)@,
                before.owner.len() == before.merged.len(),
                self.merged@.len() <= len || self.merged@ == before.merged,
                self.merged@.len() >= before.merged.len(),
                self.owner@ == extended(before.owner, self.merged@.len(), None),
                self.merged@ == extended(before.merged, self.merged@.len(), 0u8),
            decreases len - self.merged.len(),
        {
            self.merged.push(0);
            self.owner.push(None);
            assert(self.owner@ =~= extended(before.owner, self.merged@.len(), None));
            assert(self.merged@ =~= extended(before.merged, self.merged@.len(), 0u8));
        }
        assert(self.owner@ =~= extended(before.owner, len as nat, None));
        assert(self.merged@ =~= extended(before.merged, len as nat, 0u8));
        assert(self@.lanes =~= before.lanes);
    }

    fn store(&mut self, input: usize, data: &[u8], now: Nanos)
        requires
            input < old(self)@.lanes.len(),
        ensures
            final(self)@ == (UniverseModel {
                lanes: old(self)@.lanes.update(
                    input as int,
                    Some(LaneModel { data: data@, last_seen: now }),
                ),
                ..old(self)@
            }),
    {
        let ghost before = self@;
        let lane = Lane { data: vstd::slice::slice_to_vec(data), last_seen: now };
        self.lanes.set(input, Some(lane));
        assert(self@.lanes =~= before.lanes.update(
            input as int,
            Some(LaneModel { data: data@, last_seen: now }),
        ));
    }

    /// Let a packet take the channels it changes; whether any output changed.
    fn take(&mut self, timeout: Nanos, input: usize, data: &[u8], now: Nanos) -> (changed: bool)
        requires
            input < old(self)@.lanes.len(),
            old(self)@.owner.len() == old(self)@.merged.len(),
            data@.len() <= old(self)@.merged.len(),
        ensures
            final(self)@.lanes == old(self)@.lanes,
            final(self)@.owner == Seq::new(
                old(self)@.owner.len(),
                |ch: int|
                    if takes(old(self)@.lanes[input as int], timeout, now, data@, ch) {
                        Some(input)
                    } else {
                        old(self)@.owner[ch]
                    },
            ),
            final(self)@.merged == Seq::new(
                old(self)@.merged.len(),
                |ch: int|
                    if takes(old(self)@.lanes[input as int], timeout, now, data@, ch) {
                        data@[ch]
                    } else {
                        old(self)@.merged[ch]
                    },
            ),
            changed == (final(self)@.merged != old(self)@.merged),
    {
        let ghost before = self@;
        let ghost lane = self@.lanes[input as int];
        let mut changed = false;
        let mut ch: usize = 0;
        while ch < data.len()
            invariant
                ch <= data@.len() <= before.merged.len(),
                input < before.lanes.len(),
                before == old(self)@,
                lane == before.lanes[input as int],
                self.lanes == old(self).lanes,
                self.owner@.len() == before.owner.len() == before.merged.len(),
                self.merged@.len() == before.merged.len(),
                forall|k: int|
                    0 <= k < ch ==> #[trigger] self.owner@[k] == (if takes(
                        lane,
                        timeout,
                        now,
                        data@,
                        k,
                    ) {
                        Some(input)
                    } else {
                        before.owner[k]
                    }),
                forall|k: int|
                    0 <= k < ch ==> #[trigger] self.merged@[k] == (if takes(
                        lane,
                        timeout,
                        now,
                        data@,
                        k,
                    ) {
                        data@[k]
                    } else {
                        before.merged[k]
                    }),
                forall|k: int| ch <= k < before.owner.len() ==> #[trigger] self.owner@[k] == before.owner[k],
                forall|k: int|
                    ch <= k < before.merged.len() ==> #[trigger] self.merged@[k] == before.merged[k],
                changed ==> self.merged@ != before.merged,
                !changed ==> forall|k: int|
                    0 <= k < ch ==> #[trigger] self.merged@[k] == before.merged[k],
            decreases data.len() - ch,
        {
            let v: u8 = data[ch];
            let prev: Option<u8> = says(&self.lanes[input], timeout, now, ch);
            assert(lane_of(self.lanes@[input as int]) == lane);
            let known = match prev {
                Some(p) => p == v,
                None => false,
            };
            if !known {
                assert(takes(lane, timeout, now, data@, ch as int));
                self.owner.set(ch, Some(input));
                if self.merged[ch] != v {
                    self.merged.set(ch, v);
                    changed = true;
                    assert(self.merged@[ch as int] != before.merged[ch as int]);
                }
            }
            proof {
                if changed && self.merged@ == before.merged {
                    assert(forall|k: int|
                        0 <= k < before.merged.len() ==> #[trigger] self.merged@[k]
                            == before.merged[k]);
                }
            }
            ch += 1;
        }
        assert(self@.lanes =~= before.lanes);
        assert(self@.owner =~= Seq::new(
            before.owner.len(),
            |ch: int|
                if takes(lane, timeout, now, data@, ch) {
                    Some(input)
                } else {
                    before.owner[ch]
                },
        ));
        assert(self@.merged =~= Seq::new(
            before.merged.len(),
            |ch: int|
                if takes(lane, timeout, now, data@, ch) {
                    data@[ch]
                } else {
                    before.merged[ch]
                },
        ));
        if !changed {
            assert(self@.merged =~= before.merged);
        }
        changed
    }

    fn combine(&self, mode: MergeMode, timeout: Nanos, now: Nanos, ch: usize) -> (r: Option<u8>)
        ensures
            r == combined(self@.lanes, mode, timeout, now, ch as int),
    {
        let mut acc: Option<u8> = None;
        let mut i: usize = 0;
        while i < self.lanes.len()
            invariant
                i <= self.lanes@.len(),
                acc == combined(self@.lanes.take(i as int), mode, timeout, now, ch as int),
            decreases self.lanes.len() - i,
        {
            assert(self@.lanes.take(i + 1).drop_last() =~= self@.lanes.take(i as int));
            let c: Option<u8> = says(&self.lanes[i], timeout, now, ch);
            acc = match (acc, c) {
                (None, c) => c,
                (Some(a), None) => Some(a),
                (Some(a), Some(v)) => Some(pick(mode, a, v)),
            };
            i += 1;
        }
        assert(self@.lanes.take(self@.lanes.len() as int) =~= self@.lanes);
        acc
    }

    /// Full highest/lowest merge from the live lanes; whether any output changed.
    fn recompute(&mut self, mode: MergeMode, timeout: Nanos, now: Nanos) -> (changed: bool)
        ensures
            final(self)@ == (UniverseModel {
                merged: recomputed(old(self)@.lanes, old(self)@.merged, mode, timeout, now),
                ..old(self)@
            }),
            changed == (final(self)@.merged != old(self)@.merged),
    {
        let ghost before = self@;
        let ghost target = recomputed(before.lanes, before.merged, mode, timeout, now);
        let mut changed = false;
        let mut ch: usize = 0;
        while ch < self.merged.len()
            invariant
                ch <= self.merged@.len(),
                before == old(self)@,
                target == recomputed(before.lanes, before.merged, mode, timeout, now),
                self.lanes == old(self).lanes,
                self.owner == old(self).owner,
                self.merged@.len() == before.merged.len(),
                forall|k: int| 0 <= k < ch ==> #[trigger] self.merged@[k] == target[k],
                forall|k: int|
                    ch <= k < before.merged.len() ==> #[trigger] self.merged@[k] == before.merged[k],
                changed ==> self.merged@ != before.merged,
                !changed ==> forall|k: int|
                    0 <= k < ch ==> #[trigger] self.merged@[k] == before.merged[k],
            decreases self.merged.len() - ch,
        {
            assert(self@.lanes =~= before.lanes);
            let acc: Option<u8> = self.combine(mode, timeout, now, ch);
            if let Some(v) = acc {
                if self.merged[ch] != v {
                    self.merged.set(ch, v);
                    changed = true;
                    assert(self.merged@[ch as int] != before.merged[ch as int]);
                }
            }
            ch += 1;
        }
        assert(self@.lanes =~= before.lanes);
        assert(self@.merged =~= target);
        if !changed {
            assert(self@.merged =~= before.merged);
        }
        changed
    }

    /// Drop the expired lanes; whether there were any.
    fn expire(&mut self, timeout: Nanos, now: Nanos) -> (removed: bool)
        ensures
            final(self)@ == (UniverseModel {
                lanes: survivors(old(self)@.lanes, timeout, now),
                ..old(self)@
            }),
            removed == (final(self)@.lanes != old(self)@.lanes),
    {
        let ghost before = self@;
        let ghost target = survivors(before.lanes, timeout, now);
        let mut removed = false;
        let mut i: usize = 0;
        while i < self.lanes.len()
            invariant
                i <= self.lanes@.len(),
                before == old(self)@,
                target == survivors(before.lanes, timeout, now),
                self.owner == old(self).owner,
                self.merged == old(self).merged,
                self.lanes@.len() == before.lanes.len(),
                forall|k: int| 0 <= k < i ==> lane_of(#[trigger] self.lanes@[k]) == target[k],
                forall|k: int|
                    i <= k < before.lanes.len() ==> lane_of(#[trigger] self.lanes@[k])
                        == before.lanes[k],
                removed ==> target != before.lanes,
                !removed ==> forall|k: int|
                    0 <= k < i ==> #[trigger] target[k] == before.lanes[k],
            decreases self.lanes.len() - i,
        {
            let gone = match &self.lanes[i] {
                Some(l) => is_expired(l, timeout, now),
                None => false,
            };
            assert(lane_of(self.lanes@[i as int]) == before.lanes[i as int]);
            if gone {
                self.lanes.set(i, None);
                removed = true;
                assert(target[i as int] != before.lanes[i as int]);
            }
            i += 1;
        }
        assert(self@.lanes =~= target);
        if !removed {
            assert(target =~= before.lanes);
        }
        removed
    }

    fn freshest_lane(&self, ch: usize) -> (r: Option<usize>)
        ensures
            r matches Some(i) ==> freshest(self@.lanes, ch as int) == Some(i as int),
            r is None ==> freshest(self@.lanes, ch as int) is None,
    {
        let mut best: Option<usize> = None;
        let mut i: usize = 0;
        while i < self.lanes.len()
            invariant
                i <= self.lanes@.len(),
                best matches Some(b) ==> b < i && freshest(self@.lanes.take(i as int), ch as int)
                    == Some(b as int) && covers(self@.lanes[b as int], ch as int),
                best is None ==> freshest(self@.lanes.take(i as int), ch as int) is None,
            decreases self.lanes.len() - i,
        {
            let ghost upto = self@.lanes.take(i + 1);
            assert(upto.drop_last() =~= self@.lanes.take(i as int));
            assert(upto[i as int] == lane_of(self.lanes@[i as int]));
            if let Some(l) = &self.lanes[i] {
                if ch < l.data.len() {
                    let newer = match best {
                        None => true,
                        Some(b) => {
                            assert(upto[b as int] == lane_of(self.lanes@[b as int]));
                            match &self.lanes[b] {
                                Some(m) => l.last_seen > m.last_seen,
                                None => true,
                            }
                        },
                    };
                    if newer {
                        best = Some(i);
                    }
                }
            }
            i += 1;
        }
        assert(self@.lanes.take(self@.lanes.len() as int) =~= self@.lanes);
        best
    }

    /// Let orphaned channels fall back; whether any output changed.
    fn reassign(&mut self) -> (changed: bool)
        requires
            old(self)@.owner.len() == old(self)@.merged.len(),
            forall|ch: int|
                0 <= ch < old(self)@.owner.len() && (#[trigger] old(self)@.owner[ch]) is Some
                    ==> old(self)@.owner[ch]->0 < old(self)@.lanes.len(),
        ensures
            final(self)@ == reassigned(old(self)@),
            changed == (final(self)@.merged != old(self)@.merged),
    {
        let ghost before = self@;
        let ghost target = reassigned(before);
        let mut changed = false;
        let mut ch: usize = 0;
        while ch < self.merged.len()
            invariant
                ch <= self.merged@.len(),
                before == old(self)@,
                target == reassigned(before),
                self.lanes == old(self).lanes,
                self.merged@.len() == before.merged.len() == before.owner.len()
                    == self.owner@.len(),
                forall|k: int|
                    0 <= k < before.owner.len() && (#[trigger] before.owner[k]) is Some
                        ==> before.owner[k]->0 < before.lanes.len(),
                forall|k: int| 0 <= k < ch ==> #[trigger] self.merged@[k] == target.merged[k],
                forall|k: int| 0 <= k < ch ==> #[trigger] self.owner@[k] == target.owner[k],
                forall|k: int|
                    ch <= k < before.merged.len() ==> #[trigger] self.merged@[k] == before.merged[k],
                forall|k: int| ch <= k < before.owner.len() ==> #[trigger] self.owner@[k] == before.owner[k],
                changed ==> self.merged@ != before.merged,
                !changed ==> forall|k: int|
                    0 <= k < ch ==> #[trigger] self.merged@[k] == before.merged[k],
            decreases self.merged.len() - ch,
        {
            assert(self@.lanes =~= before.lanes);
            assert(self.owner@[ch as int] == before.owner[ch as int]);
            let gone = match self.owner[ch] {
                None => false,
                Some(o) => {
                    assert(lane_of(self.lanes@[o as int]) == before.lanes[o as int]);
                    self.lanes[o].is_none()
                },
            };
            assert(gone == orphaned(before.lanes, before.owner[ch as int]));
            if gone {
                proof {
                    lemma_freshest(before.lanes, ch as int);
                }
                match self.freshest_lane(ch) {
                    Some(i) => {
                        assert(lane_of(self.lanes@[i as int]) == before.lanes[i as int]);
                        let value: u8 = match &self.lanes[i] {
                            Some(l) => l.data[ch],
                            None => 0,
                        };
                        self.owner.set(ch, Some(i));
                        if self.merged[ch] != value {
                            self.merged.set(ch, value);
                            changed = true;
                            assert(self.merged@[ch as int] != before.merged[ch as int]);
                        }
                    },
                    None => {
                        self.owner.set(ch, None);
                    },
                }
            }
            ch += 1;
        }
        assert(self@.lanes =~= before.lanes);
        assert(self@.owner =~= target.owner);
        assert(self@.merged =~= target.merged);
        if !changed {
            assert(self@.merged =~= before.merged);
        }
        changed
    }

    /// Feed one packet's data from an input; whether the merged output changed.
    pub fn ingest(
        &mut self,
        mode: MergeMode,
        timeout: Nanos,
        input: usize,
        data: &[u8],
        now: Nanos,
    ) -> (changed: bool)
        requires
            sound(old(self)@, mode, timeout, old(self)@.lanes.len()),
            input < old(self)@.lanes.len() <= usize::MAX,
            data@.len() <= 512,
        ensures
            final(self)@ == ingested(old(self)@, mode, timeout, input as int, data@, now),
            sound(final(self)@, mode, timeout, old(self)@.lanes.len()),
            changed == (final(self)@.merged != old(self)@.merged),
    {
        let ghost before = self@;
        proof {
            lemma_ingest_keeps_sound(
                before,
                mode,
                before.lanes.len(),
                timeout,
                input as int,
                data@,
                now,
            );
        }
        let longer = data.len() > self.merged.len();
        self.grow(data.len());
        let ghost grown = self@;
        if mode == MergeMode::Ltp {
            let moved = self.take(timeout, input, data, now);
            self.store(input, data, now);
            assert(self@ =~= ingested(before, mode, timeout, input as int, data@, now));
            longer || moved
        } else {
            self.store(input, data, now);
            let moved = self.recompute(mode, timeout, now);
            assert(self@ =~= ingested(before, mode, timeout, input as int, data@, now));
            longer || moved
        }
    }

    /// Drop expired lanes and re-merge; whether the merged output changed.
    pub fn prune(&mut self, mode: MergeMode, timeout: Nanos, now: Nanos) -> (changed: bool)
        requires
            sound(old(self)@, mode, timeout, old(self)@.lanes.len()),
            old(self)@.lanes.len() <= usize::MAX,
        ensures
            final(self)@ == pruned(old(self)@, mode, timeout, now),
            sound(final(self)@, mode, timeout, old(self)@.lanes.len()),
            changed == (final(self)@.merged != old(self)@.merged),
    {
        let ghost before = self@;
        proof {
            lemma_prune_keeps_sound(before, mode, before.lanes.len(), timeout, now);
        }
        let removed = self.expire(timeout, now);
        if !removed {
            assert(self@ =~= before);
            return false;
        }
        if mode == MergeMode::Ltp {
            let changed = self.reassign();
            assert(self@ =~= pruned(before, mode, timeout, now));
            changed
        } else {
            let changed = self.recompute(mode, timeout, now);
            assert(self@ =~= pruned(before, mode, timeout, now));
            changed
        }
    }
}

} // verus!
