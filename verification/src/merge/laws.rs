//! What holds of the merge as a whole.

use vstd::prelude::*;
use crate::artnet::Ip;
use crate::clock::Nanos;
use super::universe::{
    combined, contribution, covers, expired, freshest, ingested, lemma_same_contributions, pruned,
    showing, sound, survivors, takes, LaneModel, UniverseModel,
};
use super::{first_sender, kept, senders_noted, Interest, MergeMode, Merger, Patch};

verus! {

/// Whether a value is no worse than another in a mode.
pub open spec fn beats(mode: MergeMode, a: u8, b: u8) -> bool {
    if mode == MergeMode::Lowest {
        a <= b
    } else {
        a >= b
    }
}

/// A combined channel is one of the contributions, and none beats it: the
/// maximum in `htp`, the minimum in `lowest`. Without a contribution there is no
/// combined value.
pub proof fn law_combined_is_the_extreme(
    lanes: Seq<Option<LaneModel>>,
    mode: MergeMode,
    timeout: Nanos,
    now: Nanos,
    ch: int,
)
    ensures
        combined(lanes, mode, timeout, now, ch) is Some <==> exists|i: int|
            0 <= i < lanes.len() && (#[trigger] contribution(lanes[i], timeout, now, ch)) is Some,
        combined(lanes, mode, timeout, now, ch) matches Some(v) ==> {
            &&& exists|i: int|
                0 <= i < lanes.len() && (#[trigger] contribution(lanes[i], timeout, now, ch))
                    == Some(v)
            &&& forall|i: int|
                0 <= i < lanes.len() && (#[trigger] contribution(lanes[i], timeout, now, ch)) is Some
                    ==> beats(mode, v, contribution(lanes[i], timeout, now, ch)->0)
        },
    decreases lanes.len(),
{
    if lanes.len() > 0 {
        let init = lanes.drop_last();
        let last = lanes.len() - 1;
        law_combined_is_the_extreme(init, mode, timeout, now, ch);
        assert forall|i: int| 0 <= i < init.len() implies #[trigger] init[i] == lanes[i] by {}
        let head = combined(init, mode, timeout, now, ch);
        let tail = contribution(lanes[last], timeout, now, ch);
        if head is Some {
            let i = choose|i: int|
                0 <= i < init.len() && (#[trigger] contribution(init[i], timeout, now, ch)) == head;
            assert(contribution(lanes[i], timeout, now, ch) == head);
        }
        assert(lanes.last() == lanes[last]);
        assert forall|i: int|
            0 <= i < lanes.len() && (#[trigger] contribution(
                lanes[i],
                timeout,
                now,
                ch,
            )) is Some implies combined(lanes, mode, timeout, now, ch) is Some && beats(
            mode,
            combined(lanes, mode, timeout, now, ch)->0,
            contribution(lanes[i], timeout, now, ch)->0,
        ) by {
            if i < last {
                assert(contribution(init[i], timeout, now, ch) is Some);
            }
        }
    }
}

/// In `htp` and `lowest`, at any moment that no source was heard after: a channel shows
/// a value that no live source beats, and, where a live source covers it, one that a
/// present source sent. Where no source has been silent past the timeout, and after
/// pruning in any case, that is the extreme of the live sources.
pub proof fn law_channels_show_the_extreme(
    u: UniverseModel,
    mode: MergeMode,
    timeout: Nanos,
    n: nat,
    now: Nanos,
    ch: int,
)
    requires
        sound(u, mode, timeout, n),
        mode != MergeMode::Ltp,
        forall|i: int|
            0 <= i < n && (#[trigger] u.lanes[i]) is Some ==> u.lanes[i]->0.last_seen <= now,
        0 <= ch < u.merged.len(),
    ensures
        forall|i: int|
            0 <= i < n && (#[trigger] contribution(u.lanes[i], timeout, now, ch)) is Some ==> beats(
                mode,
                u.merged[ch],
                contribution(u.lanes[i], timeout, now, ch)->0,
            ),
        combined(u.lanes, mode, timeout, now, ch) is Some ==> exists|i: int|
            0 <= i < n && #[trigger] covers(u.lanes[i], ch) && u.merged[ch]
                == u.lanes[i]->0.data[ch],
        survivors(u.lanes, timeout, now) == u.lanes ==> (combined(
            u.lanes,
            mode,
            timeout,
            now,
            ch,
        ) matches Some(v) ==> u.merged[ch] == v),
        ({
            let p = pruned(u, mode, timeout, now);
            combined(p.lanes, mode, timeout, now, ch) matches Some(v) ==> p.merged[ch] == v
        }),
{
    law_combined_is_the_extreme(u.lanes, mode, timeout, now, ch);
    if combined(u.lanes, mode, timeout, now, ch) is Some {
        let live = choose|i: int|
            0 <= i < n && (#[trigger] contribution(u.lanes[i], timeout, now, ch)) is Some;
        assert(u.lanes[live] is Some);
        let k = choose|k: int|
            0 <= k < n && (#[trigger] u.lanes[k]) is Some && showing(
                u,
                mode,
                timeout,
                u.lanes[k]->0.last_seen,
            );
        let at = u.lanes[k]->0.last_seen;
        law_combined_is_the_extreme(u.lanes, mode, timeout, at, ch);
        assert forall|i: int|
            0 <= i < n && (#[trigger] contribution(
                u.lanes[i],
                timeout,
                now,
                ch,
            )) is Some implies contribution(u.lanes[i], timeout, at, ch) == contribution(
            u.lanes[i],
            timeout,
            now,
            ch,
        ) by {
            assert(u.lanes[i] is Some);
        }
        assert(contribution(u.lanes[live], timeout, at, ch) is Some);
        assert(u.merged[ch] == combined(u.lanes, mode, timeout, at, ch)->0);
        let from = choose|i: int|
            0 <= i < n && (#[trigger] contribution(u.lanes[i], timeout, at, ch)) == Some(
                u.merged[ch],
            );
        assert(covers(u.lanes[from], ch));
        if survivors(u.lanes, timeout, now) == u.lanes {
            assert forall|i: int| 0 <= i < n && (#[trigger] u.lanes[i]) is Some implies expired(
                u.lanes[i]->0,
                timeout,
                now,
            ) == expired(u.lanes[i]->0, timeout, at) by {
                assert(survivors(u.lanes, timeout, now)[i] is Some);
            }
            lemma_same_contributions(u.lanes, mode, timeout, now, at, ch);
        }
    }
    assert forall|i: int|
        0 <= i < n && (#[trigger] contribution(u.lanes[i], timeout, now, ch)) is Some implies beats(
        mode,
        u.merged[ch],
        contribution(u.lanes[i], timeout, now, ch)->0,
    ) by {
        assert(combined(u.lanes, mode, timeout, now, ch) is Some);
    }
}

/// A source is live for as long as its timeout says, to the nanosecond: with a timeout, a
/// lane contributes at `now` exactly while no more time than the timeout has passed since
/// it was heard; without one it always does. What it contributes is the value it sent.
pub proof fn law_a_source_lives_for_its_timeout(
    lane: LaneModel,
    timeout: Nanos,
    now: Nanos,
    ch: int,
)
    ensures
        contribution(Some(lane), timeout, now, ch) is Some <==> 0 <= ch < lane.data.len() && (timeout
            == 0 || now - lane.last_seen <= timeout),
        contribution(Some(lane), timeout, now, ch) matches Some(v) ==> v == lane.data[ch],
        contribution(None, timeout, now, ch) is None,
{
}

/// Pruning drops a lane exactly where more time than the timeout has passed since it was
/// heard, and leaves every other lane as it is.
pub proof fn law_prune_drops_the_silent(
    u: UniverseModel,
    mode: MergeMode,
    timeout: Nanos,
    now: Nanos,
    i: int,
)
    requires
        0 <= i < u.lanes.len(),
        u.lanes[i] is Some,
    ensures
        ({
            let p = pruned(u, mode, timeout, now);
            &&& p.lanes.len() == u.lanes.len()
            &&& p.lanes[i] is None <==> timeout > 0 && now - u.lanes[i]->0.last_seen > timeout
            &&& p.lanes[i] is Some ==> p.lanes[i] == u.lanes[i]
        }),
{
    let live = survivors(u.lanes, timeout, now);
    assert(live[i] is None <==> timeout > 0 && now - u.lanes[i]->0.last_seen > timeout);
}

/// A packet becomes what its input last said, and touches no other input's lane.
pub proof fn law_a_packet_is_remembered(
    u: UniverseModel,
    mode: MergeMode,
    timeout: Nanos,
    input: int,
    data: Seq<u8>,
    now: Nanos,
    other: int,
)
    requires
        0 <= input < u.lanes.len(),
        0 <= other < u.lanes.len(),
    ensures
        ({
            let v = ingested(u, mode, timeout, input, data, now);
            &&& v.lanes.len() == u.lanes.len()
            &&& v.lanes[input] is Some
            &&& v.lanes[input]->0.data == data
            &&& v.lanes[input]->0.last_seen == now
            &&& other != input ==> v.lanes[other] == u.lanes[other]
        }),
{
}

/// Whether a lane speaks for a channel: it is there, carries the channel, and was heard
/// no longer ago than the timeout.
pub open spec fn speaks(lane: Option<LaneModel>, timeout: Nanos, now: Nanos, ch: int) -> bool {
    &&& lane is Some
    &&& 0 <= ch < lane->0.data.len()
    &&& timeout == 0 || now <= lane->0.last_seen + timeout
}

/// Highest and lowest takes precedence, after any packet: a channel that some source
/// speaks for shows a value that one of them sent, and none of them sent a higher one (in
/// `lowest`, a lower one). A channel that no source speaks for holds its value, 0 where it
/// never had one.
pub proof fn law_packet_gives_the_extreme(
    u: UniverseModel,
    mode: MergeMode,
    timeout: Nanos,
    input: int,
    data: Seq<u8>,
    now: Nanos,
    ch: int,
)
    requires
        mode == MergeMode::Htp || mode == MergeMode::Lowest,
        0 <= input < u.lanes.len(),
        0 <= ch < ingested(u, mode, timeout, input, data, now).merged.len(),
    ensures
        ({
            let v = ingested(u, mode, timeout, input, data, now);
            &&& forall|i: int|
                0 <= i < v.lanes.len() && #[trigger] speaks(v.lanes[i], timeout, now, ch) ==> if mode
                    == MergeMode::Htp {
                    v.merged[ch] >= v.lanes[i]->0.data[ch]
                } else {
                    v.merged[ch] <= v.lanes[i]->0.data[ch]
                }
            &&& (exists|i: int|
                0 <= i < v.lanes.len() && #[trigger] speaks(v.lanes[i], timeout, now, ch))
                ==> exists|i: int|
                0 <= i < v.lanes.len() && #[trigger] speaks(v.lanes[i], timeout, now, ch)
                    && v.merged[ch] == v.lanes[i]->0.data[ch]
            &&& (forall|i: int|
                0 <= i < v.lanes.len() ==> !#[trigger] speaks(v.lanes[i], timeout, now, ch))
                ==> v.merged[ch] == if ch < u.merged.len() {
                u.merged[ch]
            } else {
                0
            }
        }),
{
    let v = ingested(u, mode, timeout, input, data, now);
    lemma_extreme_of(v.lanes, mode, timeout, now, ch);
}

proof fn lemma_extreme_of(
    lanes: Seq<Option<LaneModel>>,
    mode: MergeMode,
    timeout: Nanos,
    now: Nanos,
    ch: int,
)
    ensures
        forall|i: int|
            0 <= i < lanes.len() && #[trigger] speaks(lanes[i], timeout, now, ch) ==> combined(
                lanes,
                mode,
                timeout,
                now,
                ch,
            ) is Some && beats(mode, combined(lanes, mode, timeout, now, ch)->0, lanes[i]->0.data[ch]),
        combined(lanes, mode, timeout, now, ch) is Some ==> exists|i: int|
            0 <= i < lanes.len() && #[trigger] speaks(lanes[i], timeout, now, ch) && combined(
                lanes,
                mode,
                timeout,
                now,
                ch,
            )->0 == lanes[i]->0.data[ch],
{
    law_combined_is_the_extreme(lanes, mode, timeout, now, ch);
    assert forall|i: int| 0 <= i < lanes.len() && #[trigger] speaks(lanes[i], timeout, now, ch) implies combined(
        lanes,
        mode,
        timeout,
        now,
        ch,
    ) is Some && beats(mode, combined(lanes, mode, timeout, now, ch)->0, lanes[i]->0.data[ch]) by {
        assert(contribution(lanes[i], timeout, now, ch) is Some);
    }
    if combined(lanes, mode, timeout, now, ch) is Some {
        let i = choose|i: int|
            0 <= i < lanes.len() && (#[trigger] contribution(lanes[i], timeout, now, ch)) == combined(
                lanes,
                mode,
                timeout,
                now,
                ch,
            );
        assert(speaks(lanes[i], timeout, now, ch));
    }
}

/// Pruning in `htp` and `lowest`: where a source was dropped, a channel that some
/// remaining source carries shows the extreme of them; every other channel holds. Where
/// none was dropped, nothing changes.
pub proof fn law_prune_gives_the_extreme(
    u: UniverseModel,
    mode: MergeMode,
    timeout: Nanos,
    now: Nanos,
    ch: int,
)
    requires
        mode == MergeMode::Htp || mode == MergeMode::Lowest,
        0 <= ch < u.merged.len(),
    ensures
        ({
            let p = pruned(u, mode, timeout, now);
            &&& p.lanes == u.lanes ==> p.merged == u.merged
            &&& p.lanes != u.lanes ==> {
                &&& forall|i: int|
                    0 <= i < p.lanes.len() && #[trigger] speaks(p.lanes[i], timeout, now, ch)
                        ==> if mode == MergeMode::Htp {
                        p.merged[ch] >= p.lanes[i]->0.data[ch]
                    } else {
                        p.merged[ch] <= p.lanes[i]->0.data[ch]
                    }
                &&& (exists|i: int|
                    0 <= i < p.lanes.len() && #[trigger] speaks(p.lanes[i], timeout, now, ch))
                    ==> exists|i: int|
                    0 <= i < p.lanes.len() && #[trigger] speaks(p.lanes[i], timeout, now, ch)
                        && p.merged[ch] == p.lanes[i]->0.data[ch]
                &&& (forall|i: int|
                    0 <= i < p.lanes.len() ==> !#[trigger] speaks(p.lanes[i], timeout, now, ch))
                    ==> p.merged[ch] == u.merged[ch]
            }
        }),
{
    let p = pruned(u, mode, timeout, now);
    lemma_extreme_of(p.lanes, mode, timeout, now, ch);
}

/// Latest takes precedence, channel by channel: a packet takes a channel that it carries
/// where the same input did not say the same value before, or said it longer ago than the
/// timeout; every other channel, the ones past the packet among them, keeps its value and
/// its owner.
pub proof fn law_latest_change_wins(
    u: UniverseModel,
    timeout: Nanos,
    input: int,
    data: Seq<u8>,
    now: Nanos,
    ch: int,
)
    requires
        0 <= input < u.lanes.len() <= usize::MAX,
        u.owner.len() == u.merged.len(),
        0 <= ch < ingested(u, MergeMode::Ltp, timeout, input, data, now).merged.len(),
    ensures
        ({
            let v = ingested(u, MergeMode::Ltp, timeout, input, data, now);
            let said = u.lanes[input];
            let same = ch < data.len() && said is Some && ch < said->0.data.len()
                && said->0.data[ch] == data[ch] && (timeout == 0 || now - said->0.last_seen
                <= timeout);
            &&& ch < data.len() && !same ==> v.merged[ch] == data[ch] && v.owner[ch] == Some(
                input as usize,
            )
            &&& (ch >= data.len() || same) && ch < u.merged.len() ==> v.merged[ch] == u.merged[ch]
                && v.owner[ch] == u.owner[ch]
        }),
{
}

/// Latest takes precedence, when sources fall silent: a channel whose owner is still live
/// keeps its value. One whose owner is gone shows the value of the live source that was
/// heard last among those that carry it, the first of several; with none it holds, and
/// nobody owns it.
pub proof fn law_orphans_go_to_the_latest_heard(
    u: UniverseModel,
    n: nat,
    timeout: Nanos,
    now: Nanos,
    ch: int,
)
    requires
        sound(u, MergeMode::Ltp, timeout, n),
        n <= usize::MAX,
        0 <= ch < u.merged.len(),
        u.owner[ch] is Some,
    ensures
        ({
            let p = pruned(u, MergeMode::Ltp, timeout, now);
            let owner = u.lanes[u.owner[ch]->0 as int];
            let gone = timeout > 0 && now - owner->0.last_seen > timeout;
            &&& owner is Some
            &&& !gone ==> p.merged[ch] == u.merged[ch] && p.owner[ch] == u.owner[ch]
            &&& gone && p.owner[ch] is None ==> {
                &&& p.merged[ch] == u.merged[ch]
                &&& forall|i: int| 0 <= i < n ==> !#[trigger] speaks(u.lanes[i], timeout, now, ch)
            }
            &&& gone && p.owner[ch] is Some ==> {
                let b = p.owner[ch]->0 as int;
                &&& 0 <= b < n
                &&& speaks(u.lanes[b], timeout, now, ch)
                &&& p.merged[ch] == u.lanes[b]->0.data[ch]
                &&& forall|i: int|
                    0 <= i < n && #[trigger] speaks(u.lanes[i], timeout, now, ch) ==> if i < b {
                        u.lanes[i]->0.last_seen < u.lanes[b]->0.last_seen
                    } else {
                        u.lanes[i]->0.last_seen <= u.lanes[b]->0.last_seen
                    }
            }
        }),
{
    law_silent_owner_falls_back(u, n, timeout, now, ch);
    let live = survivors(u.lanes, timeout, now);
    law_freshest_is_the_latest_heard(live, ch);
    lemma_freshest_is_first(live, ch);
    assert(u.lanes[u.owner[ch]->0 as int] is Some);
    assert forall|i: int| 0 <= i < n implies (#[trigger] speaks(u.lanes[i], timeout, now, ch)
        <==> covers(live[i], ch)) && (covers(live[i], ch) ==> live[i] == u.lanes[i]) by {
        assert(live[i] is Some ==> live[i] == u.lanes[i]);
    }
}

proof fn lemma_freshest_is_first(lanes: Seq<Option<LaneModel>>, ch: int)
    ensures
        freshest(lanes, ch) matches Some(b) ==> 0 <= b < lanes.len() && forall|i: int|
            0 <= i < b && #[trigger] covers(lanes[i], ch) ==> lanes[i]->0.last_seen
                < lanes[b]->0.last_seen,
    decreases lanes.len(),
{
    if lanes.len() > 0 {
        let init = lanes.drop_last();
        lemma_freshest_is_first(init, ch);
        law_freshest_is_the_latest_heard(init, ch);
        assert forall|i: int| 0 <= i < init.len() implies #[trigger] init[i] == lanes[i] by {}
        if freshest(lanes, ch) is Some {
            let b = freshest(lanes, ch)->0;
            assert forall|i: int| 0 <= i < b && #[trigger] covers(lanes[i], ch) implies lanes[i]->0.last_seen
                < lanes[b]->0.last_seen by {
                assert(covers(init[i], ch));
            }
        }
    }
}

/// What a merger knows after a packet: the universe of the packet has heard, from that
/// input and at that moment, the first 512 bytes of it; every other universe is as it was,
/// or, where one more than 1024 would be known, forgotten.
pub proof fn law_a_packet_reaches_its_universe(
    m: &Merger,
    input: int,
    pa: u16,
    data: Seq<u8>,
    now: Nanos,
    other: u16,
)
    requires
        m.wf(),
        0 <= input < m.inputs(),
        other != pa,
    ensures
        ({
            let after = m.after(input, pa, data, now);
            let lane = after[pa].lanes[input];
            &&& after.contains_key(pa)
            &&& lane is Some
            &&& lane->0.last_seen == now
            &&& data.len() <= 512 ==> lane->0.data == data
            &&& data.len() > 512 ==> lane->0.data == data.take(512)
            &&& m@.contains_key(pa) || m@.dom().len() < 1024 ==> {
                &&& after.contains_key(other) == m@.contains_key(other)
                &&& m@.contains_key(other) ==> after[other] == m@[other]
            }
            &&& !m@.contains_key(pa) && m@.dom().len() == 1024 ==> !after.contains_key(other)
        }),
{
    if data.len() <= 512 {
        assert(data.take(data.len() as int) =~= data);
    }
}

/// Two senders on one input: the first one that was heard for a universe stays the first,
/// and is reported for every packet of another one, and for those alone.
pub proof fn law_the_first_sender_is_reported(
    m: Map<Patch, Ip>,
    key: Patch,
    first: Ip,
    second: Ip,
)
    requires
        m.dom().finite(),
        !m.contains_key(key),
    ensures
        first_sender(m, key, first) is None,
        senders_noted(m, key, first).contains_key(key),
        senders_noted(m, key, first)[key] == first,
        second != first ==> first_sender(senders_noted(m, key, first), key, second) == Some(first),
        second == first ==> first_sender(senders_noted(m, key, first), key, second) is None,
        senders_noted(senders_noted(m, key, first), key, second)[key] == first,
        m.dom().len() < 1024 ==> forall|k: Patch|
            k != key ==> (#[trigger] senders_noted(m, key, first).contains_key(k)
                == m.contains_key(k)),
{
}

/// With a single input the merge hands every packet through: the channels it
/// carries show its values, in every mode.
pub proof fn law_single_input_is_identity(
    u: UniverseModel,
    mode: MergeMode,
    timeout: Nanos,
    data: Seq<u8>,
    now: Nanos,
)
    requires
        sound(u, mode, timeout, 1),
        data.len() <= 512,
    ensures
        ({
            let v = ingested(u, mode, timeout, 0, data, now);
            &&& v.merged.take(data.len() as int) == data
            &&& data.len() >= u.merged.len() ==> v.merged == data
        }),
{
    let v = ingested(u, mode, timeout, 0, data, now);
    assert forall|ch: int| 0 <= ch < data.len() implies #[trigger] v.merged[ch] == data[ch] by {
        if mode == MergeMode::Ltp {
            if !takes(u.lanes[0], timeout, now, data, ch) {
                assert(covers(u.lanes[0], ch));
                assert(u.owner[ch] is Some);
                assert(u.owner[ch]->0 < 1);
            }
        } else {
            assert(v.lanes.drop_last() =~= Seq::empty());
            reveal_with_fuel(combined, 2);
            assert(contribution(v.lanes.last(), timeout, now, ch) == Some(data[ch]));
            assert(combined(v.lanes, mode, timeout, now, ch) == Some(data[ch]));
        }
    }
    assert(v.merged.take(data.len() as int) =~= data);
    if data.len() >= u.merged.len() {
        assert(v.merged =~= data);
    }
}

/// Latest takes precedence by change, not by arrival: a live source that sends
/// its data again moves no channel and takes none.
pub proof fn law_resend_does_not_steal(
    u: UniverseModel,
    n: nat,
    timeout: Nanos,
    input: int,
    now: Nanos,
)
    requires
        sound(u, MergeMode::Ltp, timeout, n),
        0 <= input < n,
        u.lanes[input] is Some,
        !expired(u.lanes[input]->0, timeout, now),
    ensures
        ({
            let v = ingested(u, MergeMode::Ltp, timeout, input, u.lanes[input]->0.data, now);
            v.merged == u.merged && v.owner == u.owner
        }),
{
    let v = ingested(u, MergeMode::Ltp, timeout, input, u.lanes[input]->0.data, now);
    assert(v.merged =~= u.merged);
    assert(v.owner =~= u.owner);
}

/// A channel that a source changes, or that it sends for the first time or after
/// it had expired, is its own from then on.
pub proof fn law_change_takes_the_channel(
    u: UniverseModel,
    n: nat,
    timeout: Nanos,
    input: int,
    data: Seq<u8>,
    now: Nanos,
    ch: int,
)
    requires
        sound(u, MergeMode::Ltp, timeout, n),
        0 <= input < n <= usize::MAX,
        0 <= ch < data.len() <= 512,
        u.lanes[input] is None || expired(u.lanes[input]->0, timeout, now) || !covers(
            u.lanes[input],
            ch,
        ) || u.lanes[input]->0.data[ch] != data[ch],
    ensures
        ({
            let v = ingested(u, MergeMode::Ltp, timeout, input, data, now);
            v.merged[ch] == data[ch] && v.owner[ch] == Some(input as usize)
        }),
{
}

/// The merged output never becomes shorter, and channels past a short packet
/// hold in `ltp`.
pub proof fn law_output_never_shrinks(
    u: UniverseModel,
    mode: MergeMode,
    timeout: Nanos,
    input: int,
    data: Seq<u8>,
    now: Nanos,
)
    ensures
        ({
            let v = ingested(u, mode, timeout, input, data, now);
            &&& v.merged.len() == (if data.len() > u.merged.len() {
                data.len()
            } else {
                u.merged.len()
            })
            &&& mode == MergeMode::Ltp ==> forall|ch: int|
                data.len() <= ch < u.merged.len() ==> v.merged[ch] == u.merged[ch]
        }),
        pruned(u, mode, timeout, now).merged.len() == u.merged.len(),
{
}

proof fn lemma_no_lane_no_value(
    lanes: Seq<Option<LaneModel>>,
    mode: MergeMode,
    timeout: Nanos,
    now: Nanos,
    ch: int,
)
    requires
        forall|i: int| 0 <= i < lanes.len() ==> (#[trigger] lanes[i]) is None,
    ensures
        combined(lanes, mode, timeout, now, ch) is None,
        freshest(lanes, ch) is None,
    decreases lanes.len(),
{
    if lanes.len() > 0 {
        let init = lanes.drop_last();
        assert forall|i: int| 0 <= i < init.len() implies (#[trigger] init[i]) is None by {
            assert(lanes[i] is None);
        }
        lemma_no_lane_no_value(init, mode, timeout, now, ch);
        assert(lanes[lanes.len() - 1] is None);
    }
}

/// When the last source goes silent the merged output holds, in every mode.
pub proof fn law_all_sources_dead_holds(
    u: UniverseModel,
    mode: MergeMode,
    timeout: Nanos,
    now: Nanos,
)
    requires
        forall|i: int|
            0 <= i < u.lanes.len() && (#[trigger] u.lanes[i]) is Some ==> expired(
                u.lanes[i]->0,
                timeout,
                now,
            ),
    ensures
        pruned(u, mode, timeout, now).merged == u.merged,
{
    let lanes = survivors(u.lanes, timeout, now);
    assert forall|i: int| 0 <= i < lanes.len() implies (#[trigger] lanes[i]) is None by {
        assert(u.lanes[i] is Some ==> expired(u.lanes[i]->0, timeout, now));
    }
    assert forall|ch: int| 0 <= ch < u.merged.len() implies pruned(
        u,
        mode,
        timeout,
        now,
    ).merged[ch] == u.merged[ch] by {
        lemma_no_lane_no_value(lanes, mode, timeout, now, ch);
    }
    assert(pruned(u, mode, timeout, now).merged =~= u.merged);
}

/// The freshest lane covers the channel, and no lane that covers it was heard
/// later.
pub proof fn law_freshest_is_the_latest_heard(lanes: Seq<Option<LaneModel>>, ch: int)
    ensures
        freshest(lanes, ch) matches Some(b) ==> {
            &&& 0 <= b < lanes.len()
            &&& covers(lanes[b], ch)
            &&& forall|i: int|
                0 <= i < lanes.len() && #[trigger] covers(lanes[i], ch) ==> lanes[i]->0.last_seen
                    <= lanes[b]->0.last_seen
        },
        freshest(lanes, ch) is None ==> forall|i: int|
            0 <= i < lanes.len() ==> !(#[trigger] covers(lanes[i], ch)),
    decreases lanes.len(),
{
    if lanes.len() > 0 {
        let init = lanes.drop_last();
        law_freshest_is_the_latest_heard(init, ch);
        assert forall|i: int| 0 <= i < init.len() implies #[trigger] init[i] == lanes[i] by {}
        assert forall|i: int| 0 <= i < lanes.len() && #[trigger] covers(lanes[i], ch) implies {
            &&& freshest(lanes, ch) is Some
            &&& lanes[i]->0.last_seen <= lanes[freshest(lanes, ch)->0]->0.last_seen
        } by {
            if i < init.len() {
                assert(covers(init[i], ch));
            }
        }
    }
}

/// When the owner of a channel goes silent, the channel falls back to the live
/// source that was heard last, if one covers it; a channel whose owner lives is
/// left alone.
pub proof fn law_silent_owner_falls_back(
    u: UniverseModel,
    n: nat,
    timeout: Nanos,
    now: Nanos,
    ch: int,
)
    requires
        sound(u, MergeMode::Ltp, timeout, n),
        n <= usize::MAX,
        0 <= ch < u.merged.len(),
        u.owner[ch] is Some,
    ensures
        ({
            let v = pruned(u, MergeMode::Ltp, timeout, now);
            let live = survivors(u.lanes, timeout, now);
            let gone = expired(u.lanes[u.owner[ch]->0 as int]->0, timeout, now);
            &&& !gone ==> v.merged[ch] == u.merged[ch] && v.owner[ch] == u.owner[ch]
            &&& gone ==> match freshest(live, ch) {
                Some(b) => v.merged[ch] == live[b]->0.data[ch] && v.owner[ch] == Some(b as usize),
                None => v.merged[ch] == u.merged[ch] && v.owner[ch] is None,
            }
        }),
{
    let live = survivors(u.lanes, timeout, now);
    let o = u.owner[ch]->0 as int;
    assert(u.lanes[o] is Some);
    if expired(u.lanes[o]->0, timeout, now) {
        assert(live[o] is None);
        assert(live != u.lanes);
    }
}

/// Pruning twice at one moment is pruning once.
pub proof fn law_prune_is_idempotent(u: UniverseModel, mode: MergeMode, timeout: Nanos, now: Nanos)
    ensures
        pruned(pruned(u, mode, timeout, now), mode, timeout, now) == pruned(u, mode, timeout, now),
{
    let v = pruned(u, mode, timeout, now);
    let live = survivors(u.lanes, timeout, now);
    assert(v.lanes =~= live);
    assert(survivors(live, timeout, now) =~= live);
}

/// A packet for one universe leaves every other universe as it was (the cap on
/// universes aside).
pub proof fn law_universes_are_independent(
    m: Map<u16, UniverseModel>,
    pa: u16,
    other: u16,
    u: UniverseModel,
)
    requires
        m.contains_key(pa) || m.dom().len() < 1024,
        other != pa,
    ensures
        kept(m, pa).insert(pa, u).contains_key(other) == m.contains_key(other),
        m.contains_key(other) ==> kept(m, pa).insert(pa, u)[other] == m[other],
{
}

/// A merger takes a packet into what it knew of the universe, nothing where it is new,
/// in its own mode and with its own timeout.
pub proof fn law_a_merger_merges_in_its_mode(
    m: &Merger,
    input: int,
    pa: u16,
    data: Seq<u8>,
    now: Nanos,
)
    requires
        m.wf(),
        0 <= input < m.inputs(),
        data.len() <= 512,
    ensures
        m@.contains_key(pa) ==> m.after(input, pa, data, now)[pa] == ingested(
            m@[pa],
            m.mode_of(),
            m.timeout_of(),
            input,
            data,
            now,
        ),
        !m@.contains_key(pa) ==> {
            let u = m.after(input, pa, data, now)[pa];
            &&& u.lanes.len() == m.inputs()
            &&& forall|i: int|
                0 <= i < m.inputs() && i != input ==> #[trigger] u.lanes[i] is None
            &&& u.merged == data
        },
{
    assert(data.take(data.len() as int) =~= data);
    if !m@.contains_key(pa) {
        let u = m.after(input, pa, data, now)[pa];
        let mode = m.mode_of();
        let timeout = m.timeout_of();
        assert(u.merged.len() == data.len());
        assert forall|i: int| 0 <= i < m.inputs() && i != input implies #[trigger] u.lanes[i] is None by {}
        assert forall|ch: int| 0 <= ch < data.len() implies u.merged[ch] == data[ch] by {
            if mode == MergeMode::Htp || mode == MergeMode::Lowest {
                lemma_extreme_of(u.lanes, mode, timeout, now, ch);
                assert(speaks(u.lanes[input], timeout, now, ch));
                assert forall|i: int| 0 <= i < u.lanes.len() && i != input implies !#[trigger] speaks(
                    u.lanes[i],
                    timeout,
                    now,
                    ch,
                ) by {}
            } else {
                let fresh = super::silent(m.inputs());
                assert(fresh.lanes[input] is None);
                law_latest_change_wins(fresh, timeout, input, data, now, ch);
            }
        }
        assert(u.merged =~= data);
    }
}

/// Mergers have the same settings where mode, timeout and number of inputs agree.
pub proof fn law_same_settings(a: &Merger, b: &Merger)
    ensures
        a.same_settings(b) <==> a.mode_of() == b.mode_of() && a.timeout_of() == b.timeout_of()
            && a.inputs() == b.inputs(),
{
}

/// Senders of 1024 patches are kept; the sender of one more makes all others forgotten.
pub proof fn law_senders_are_bounded(m: Map<Patch, Ip>, key: Patch, src: Ip, other: Patch)
    requires
        m.dom().finite(),
        !m.contains_key(key),
        other != key,
    ensures
        m.dom().len() < 1024 ==> senders_noted(m, key, src).contains_key(other) == m.contains_key(
            other,
        ) && (m.contains_key(other) ==> senders_noted(m, key, src)[other] == m[other]),
        m.dom().len() >= 1024 ==> !senders_noted(m, key, src).contains_key(other),
{
}

/// A merger that is interested in everything merges every universe.
pub proof fn law_interest_in_all(i: Interest, port_address: u16)
    ensures
        i is All ==> i.includes(port_address),
        i matches Interest::Only(set) ==> (i.includes(port_address) <==> set@.contains(
            port_address,
        )),
{
}

} // verus!
