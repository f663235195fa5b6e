//! Multi-source DMX input and per-channel merge.
//!
//! The bridge can listen for ArtNet on several inputs and merges the streams per
//! channel before mapping them onto lights:
//!
//! - `htp`: highest takes precedence.
//! - `lowest`: lowest takes precedence.
//! - `ltp`: latest takes precedence. The source that most recently *changed* its
//!   value owns the channel; a source that re-sends the same data does not steal a
//!   channel back.
//!
//! A source that goes quiet for longer than the timeout leaves the merge: its
//! contribution is removed, and the `ltp` channels it owned fall back to the most
//! recently heard remaining source. A channel with no live source holds its last
//! value.

use std::collections::{HashMap, HashSet};
use vstd::prelude::*;
use vstd::string::*;
use crate::artnet::{noted, fresh, ArtDmx, Ip, SeqTracker, Stream, SEQ_IDLE_RESET};
use crate::clock::{secs, seconds, Nanos};
use crate::config::ArtNet;
use crate::protocol::min_of;
use crate::table::{Key, Table};
use crate::text::{lower, spells, to_lower};

pub mod laws;
pub mod universe;

use universe::{ingested, pruned, silent, sound, survivors, UniverseMerge, UniverseModel};

verus! {

broadcast use {vstd::std_specs::hash::group_hash_axioms, vstd::string::group_string_axioms};

/// Channels in a DMX universe.
pub const DMX_CHANNELS: usize = 512;

/// Cap on merged universes.
pub const MAX_UNIVERSES: usize = 1024;

/// The number of inputs has to stay below this.
pub const INPUT_LIMIT: usize = 255;

/// How a channel is combined across sources.
#[derive(Debug, Clone, Copy, PartialEq, Eq, Structural)]
pub enum MergeMode {
    /// The highest value wins.
    Htp,
    /// The lowest value wins.
    Lowest,
    /// The source that changed its value last wins.
    Ltp,
}

/// Merge mode names accepted in config (aliases: `highest` = htp, `latest` = ltp).
pub const KNOWN_MERGE_MODES: [&'static str; 3] = ["htp", "lowest", "ltp"];

/// The merge mode of a lower-case name.
pub open spec fn mode_named(s: Seq<char>) -> Option<MergeMode> {
    if s == "htp"@ || s == "highest"@ {
        Some(MergeMode::Htp)
    } else if s == "lowest"@ {
        Some(MergeMode::Lowest)
    } else if s == "ltp"@ || s == "latest"@ {
        Some(MergeMode::Ltp)
    } else {
        None
    }
}

impl MergeMode {
    /// The mode of a config name, whatever the case of its ASCII letters.
    pub fn parse(s: &str) -> (r: Option<Self>)
        ensures
            r == mode_named(lower(s@)),
    {
        let s = to_lower(s);
        if spells(&s, "htp") || spells(&s, "highest") {
            Some(MergeMode::Htp)
        } else if spells(&s, "lowest") {
            Some(MergeMode::Lowest)
        } else if spells(&s, "ltp") || spells(&s, "latest") {
            Some(MergeMode::Ltp)
        } else {
            None
        }
    }

    /// The canonical config name.
    pub open spec fn name(self) -> Seq<char> {
        match self {
            MergeMode::Htp => "htp"@,
            MergeMode::Lowest => "lowest"@,
            MergeMode::Ltp => "ltp"@,
        }
    }

    /// The canonical config name.
    pub fn as_str(&self) -> (r: &'static str)
        ensures
            r@ == self.name(),
    {
        match self {
            MergeMode::Htp => "htp",
            MergeMode::Lowest => "lowest",
            MergeMode::Ltp => "ltp",
        }
    }
}

/// The name of a mode stands for that mode.
pub proof fn law_mode_name_parses_back(m: MergeMode)
    ensures
        mode_named(m.name()) == Some(m),
        lower(m.name()) == m.name(),
{
    reveal_strlit("htp");
    reveal_strlit("highest");
    reveal_strlit("lowest");
    reveal_strlit("ltp");
    reveal_strlit("latest");
    assert("htp"@.len() == 3 && "lowest"@.len() == 6 && "ltp"@.len() == 3);
    assert("lowest"@.len() != "highest"@.len());
    assert("ltp"@[0] == 'l' && "htp"@[0] == 'h');
    assert(lower(m.name()) =~= m.name());
}

/// Per-channel DMX merger across a fixed set of inputs. The clock is always
/// passed in.
pub struct Merger {
    mode: MergeMode,
    timeout: Nanos,
    n_inputs: usize,
    universes: HashMap<u16, UniverseMerge>,
}

impl View for Merger {
    type V = Map<u16, UniverseModel>;

    closed spec fn view(&self) -> Map<u16, UniverseModel> {
        self.universes@.map_values(|u: UniverseMerge| u@)
    }
}

/// The universes that a packet for `pa` meets: all of them, or none where one
/// more would pass the cap.
pub open spec fn kept(m: Map<u16, UniverseModel>, pa: u16) -> Map<u16, UniverseModel> {
    if !m.contains_key(pa) && m.dom().len() >= 1024 {
        Map::empty()
    } else {
        m
    }
}

/// The universe `pa`, silent where nothing has been heard of it.
pub open spec fn universe_at(m: Map<u16, UniverseModel>, pa: u16, n: nat) -> UniverseModel {
    if m.contains_key(pa) {
        m[pa]
    } else {
        silent(n)
    }
}

/// At most 512 bytes of a packet count.
pub open spec fn channels_of(data: Seq<u8>) -> Seq<u8> {
    data.take(min_of(data.len() as int, 512))
}

/// There is no merge mode of that name.
#[derive(Debug, Clone, Copy, PartialEq, Eq, Structural)]
pub struct UnknownMergeMode;

impl Merger {
    /// The merge mode.
    pub closed spec fn mode_of(&self) -> MergeMode {
        self.mode
    }

    /// The timeout, 0 for none.
    pub closed spec fn timeout_of(&self) -> Nanos {
        self.timeout
    }

    /// The number of inputs.
    pub closed spec fn inputs(&self) -> nat {
        self.n_inputs as nat
    }

    /// Every universe is in good order, and there are no more than the cap.
    pub open spec fn wf(&self) -> bool {
        &&& 1 <= self.inputs() < INPUT_LIMIT
        &&& self@.dom().finite()
        &&& self@.dom().len() <= MAX_UNIVERSES
        &&& forall|pa: u16| #[trigger]
            self@.contains_key(pa) ==> sound(
                self@[pa],
                self.mode_of(),
                self.timeout_of(),
                self.inputs(),
            )
    }

    /// Two mergers with the same settings.
    pub open spec fn same_settings(&self, other: &Self) -> bool {
        &&& self.mode_of() == other.mode_of()
        &&& self.timeout_of() == other.timeout_of()
        &&& self.inputs() == other.inputs()
    }

    /// The universes after a packet.
    pub open spec fn after(&self, input: int, pa: u16, data: Seq<u8>, now: Nanos) -> Map<
        u16,
        UniverseModel,
    > {
        kept(self@, pa).insert(
            pa,
            ingested(
                universe_at(self@, pa, self.inputs()),
                self.mode_of(),
                self.timeout_of(),
                input,
                channels_of(data),
                now,
            ),
        )
    }

    /// A merger for `n_inputs` inputs; a timeout of 0 means that sources never
    /// expire.
    pub fn new(mode: MergeMode, timeout: Nanos, n_inputs: usize) -> (m: Self)
        requires
            1 <= n_inputs < INPUT_LIMIT,
        ensures
            m.wf(),
            m.mode_of() == mode,
            m.timeout_of() == timeout,
            m.inputs() == n_inputs,
            m@ == Map::<u16, UniverseModel>::empty(),
    {
        let m = Merger { mode, timeout, n_inputs, universes: HashMap::new() };
        assert(m@ =~= Map::<u16, UniverseModel>::empty());
        m
    }

    /// The merger of a configuration: its mode, its timeout, and one input for every
    /// listener. Refused where the mode has no such name.
    pub fn configured(artnet: &ArtNet) -> (r: Result<Self, UnknownMergeMode>)
        requires
            artnet.input_count() < INPUT_LIMIT,
        ensures
            r is Ok <==> mode_named(lower(artnet.merge@)) is Some,
            r matches Ok(m) ==> {
                &&& m.wf()
                &&& mode_named(lower(artnet.merge@)) == Some(m.mode_of())
                &&& m.timeout_of() == seconds(artnet.merge_timeout_secs as int)
                &&& m.inputs() == artnet.input_count()
                &&& m@ == Map::<u16, UniverseModel>::empty()
            },
    {
        match MergeMode::parse(artnet.merge.as_str()) {
            Some(mode) => Ok(
                Merger::new(mode, secs(artnet.merge_timeout_secs), artnet.inputs.len() + 1),
            ),
            None => Err(UnknownMergeMode),
        }
    }

    /// Whether silent sources expire.
    pub fn timeout_enabled(&self) -> (r: bool)
        ensures
            r == (self.timeout_of() != 0),
    {
        self.timeout != 0
    }

    /// How many inputs this merger was built for.
    pub fn input_count(&self) -> (r: usize)
        ensures
            r == self.inputs(),
    {
        self.n_inputs
    }

    /// Feed one packet's data from `input`. Returns whether the merged output
    /// changed (a longer output is a change), and the merged channels of that
    /// universe.
    pub fn ingest(&mut self, input: usize, port_address: u16, data: &[u8], now: Nanos) -> (r: (
        bool,
        Vec<u8>,
    ))
        requires
            old(self).wf(),
            input < old(self).inputs(),
        ensures
            final(self).wf(),
            final(self).same_settings(old(self)),
            final(self)@ == old(self).after(input as int, port_address, data@, now),
            r.1@ == final(self)@[port_address].merged,
            r.0 == (r.1@ != universe_at(old(self)@, port_address, old(self).inputs()).merged),
    {
        let len: usize = if data.len() < DMX_CHANNELS {
            data.len()
        } else {
            DMX_CHANNELS
        };
        let ghost sent = data@;
        let data: &[u8] = vstd::slice::slice_subrange(data, 0, len);
        assert(data@ =~= channels_of(sent));
        let ghost model = old(self)@;
        assert(model.dom() =~= self.universes@.dom());
        if !self.universes.contains_key(&port_address) && self.universes.len() >= MAX_UNIVERSES {
            self.universes.clear();
        }
        let ghost base = self.universes@;
        assert(base.map_values(|u: UniverseMerge| u@) =~= kept(model, port_address));
        let mut u: UniverseMerge = match self.universes.remove(&port_address) {
            Some(u) => u,
            None => UniverseMerge::new(self.n_inputs),
        };
        assert(u@ == universe_at(model, port_address, self.inputs()));
        let changed = u.ingest(self.mode, self.timeout, input, data, now);
        let out: Vec<u8> = vstd::slice::slice_to_vec(u.output());
        self.universes.insert(port_address, u);
        assert(self@ =~= old(self).after(input as int, port_address, sent, now));
        assert(self@.dom() =~= kept(model, port_address).dom().insert(port_address));
        (changed, out)
    }

    /// Drop sources that have been silent past the timeout and re-merge. Returns
    /// the port-addresses whose merged output changed, each once, in no
    /// particular order. Does nothing when the timeout is disabled.
    pub fn prune(&mut self, now: Nanos) -> (r: Vec<u16>)
        requires
            old(self).wf(),
        ensures
            final(self).wf(),
            final(self).same_settings(old(self)),
            final(self)@.dom() == old(self)@.dom(),
            forall|pa: u16| #[trigger]
                old(self)@.contains_key(pa) ==> final(self)@[pa] == pruned(
                    old(self)@[pa],
                    old(self).mode_of(),
                    old(self).timeout_of(),
                    now,
                ),
            r@.no_duplicates(),
            forall|pa: u16| #[trigger]
                r@.contains(pa) <==> old(self)@.contains_key(pa) && final(self)@[pa].merged
                    != old(self)@[pa].merged,
            old(self).timeout_of() == 0 ==> final(self)@ == old(self)@ && r@.len() == 0,
    {
        let ghost model = self@;
        let ghost mode = self.mode;
        let ghost timeout = self.timeout;
        if self.timeout == 0 {
            assert forall|pa: u16| #[trigger] model.contains_key(pa) implies model[pa] == pruned(
                model[pa],
                mode,
                timeout,
                now,
            ) by {
                assert(survivors(model[pa].lanes, timeout, now) =~= model[pa].lanes);
            }
            return Vec::new();
        }
        let mut keys: Vec<u16> = Vec::new();
        for k in it: self.universes.keys()
            invariant
                self.universes@ == old(self).universes@,
                it.seq().no_duplicates(),
                it.seq().unref().to_set() == self.universes@.dom(),
                keys@ == it.seq().unref().take(it.index() as int),
                keys@.no_duplicates(),
                it.index() == it.seq().len() ==> keys@.to_set() == self.universes@.dom(),
        {
            let ghost all = it.seq().unref();
            assert forall|j: int| 0 <= j < keys@.len() implies keys@[j] != *k by {
                assert(keys@[j] == *it.seq()[j]);
                assert(it.seq()[j] != it.seq()[it.index() as int]);
            }
            keys.push(*k);
            assert(keys@ =~= all.take(it.index() + 1));
            assert(all.take(all.len() as int) =~= all);
        }
        assert(model.dom() =~= self.universes@.dom());
        let mut changed: Vec<u16> = Vec::new();
        let mut i: usize = 0;
        while i < keys.len()
            invariant
                i <= keys@.len(),
                model == old(self)@,
                mode == old(self).mode_of(),
                timeout == old(self).timeout_of(),
                old(self).wf(),
                self.same_settings(old(self)),
                keys@.no_duplicates(),
                keys@.to_set() == model.dom(),
                self@.dom() == model.dom(),
                forall|j: int|
                    0 <= j < i ==> self@[#[trigger] keys@[j]] == pruned(
                        model[keys@[j]],
                        mode,
                        timeout,
                        now,
                    ),
                forall|j: int| i <= j < keys@.len() ==> self@[#[trigger] keys@[j]] == model[keys@[j]],
                changed@.no_duplicates(),
                forall|pa: u16| #[trigger]
                    changed@.contains(pa) <==> exists|j: int|
                        0 <= j < i && #[trigger] keys@[j] == pa && self@[pa].merged
                            != model[pa].merged,
            decreases keys.len() - i,
        {
            let ghost before = *self;
            let ghost said = changed@;
            let pa: u16 = keys[i];
            assert(keys@.to_set().contains(pa));
            assert(model.contains_key(pa));
            assert(self@.contains_key(pa));
            assert(self.universes@.contains_key(pa));
            let mut u: UniverseMerge = match self.universes.remove(&pa) {
                Some(u) => u,
                None => UniverseMerge::new(self.n_inputs),
            };
            assert(u@ == model[pa]);
            let moved = u.prune(self.mode, self.timeout, now);
            self.universes.insert(pa, u);
            assert(self@ =~= before@.insert(pa, pruned(model[pa], mode, timeout, now)));
            if moved {
                changed.push(pa);
            }
            assert forall|p: u16| #[trigger]
                changed@.contains(p) <==> exists|j: int|
                    0 <= j < i + 1 && #[trigger] keys@[j] == p && self@[p].merged
                        != model[p].merged by {
                if changed@.contains(p) {
                    if p == pa && moved {
                        assert(keys@[i as int] == p);
                    } else {
                        let q = choose|q: int| 0 <= q < changed@.len() && changed@[q] == p;
                        assert(said[q] == p);
                        assert(said.contains(p));
                        let j = choose|j: int|
                            0 <= j < i && #[trigger] keys@[j] == p && before@[p].merged
                                != model[p].merged;
                        assert(keys@[j] == p);
                    }
                }
                if exists|j: int|
                    0 <= j < i + 1 && #[trigger] keys@[j] == p && self@[p].merged
                        != model[p].merged {
                    let j = choose|j: int|
                        0 <= j < i + 1 && #[trigger] keys@[j] == p && self@[p].merged
                            != model[p].merged;
                    if j == i {
                        assert(moved);
                        assert(changed@[changed@.len() - 1] == p);
                    } else {
                        assert(keys@[j] == p && before@[p].merged != model[p].merged);
                        assert(said.contains(p));
                        let q = choose|q: int| 0 <= q < said.len() && said[q] == p;
                        assert(changed@[q] == p);
                    }
                }
            }
            assert(!said.contains(pa)) by {
                if said.contains(pa) {
                    let j = choose|j: int|
                        0 <= j < i && #[trigger] keys@[j] == pa && before@[pa].merged
                            != model[pa].merged;
                    assert(keys@[j] == keys@[i as int]);
                }
            }
            i += 1;
        }
        assert forall|pa: u16| #[trigger] model.contains_key(pa) implies self@[pa] == pruned(
            model[pa],
            mode,
            timeout,
            now,
        ) && (exists|j: int| 0 <= j < keys@.len() && #[trigger] keys@[j] == pa) by {
            assert(keys@.to_set().contains(pa));
            assert(keys@.contains(pa));
            let j = choose|j: int| 0 <= j < keys@.len() && keys@[j] == pa;
            assert(keys@[j] == pa);
        }
        assert forall|pa: u16| #[trigger] self@.contains_key(pa) implies sound(
            self@[pa],
            self.mode_of(),
            self.timeout_of(),
            self.inputs(),
        ) by {
            assert(model.contains_key(pa));
            universe::lemma_prune_keeps_sound(model[pa], mode, self.inputs(), timeout, now);
        }
        assert forall|pa: u16| #[trigger] changed@.contains(pa) implies model.contains_key(pa) by {
            let j = choose|j: int|
                0 <= j < keys@.len() && #[trigger] keys@[j] == pa && self@[pa].merged
                    != model[pa].merged;
            assert(keys@.to_set().contains(keys@[j]));
        }
        changed
    }

    /// The current merged channels of a universe, if any data has been seen.
    pub fn merged(&self, port_address: u16) -> (r: Option<&[u8]>)
        ensures
            r is Some <==> self@.contains_key(port_address),
            r matches Some(s) ==> s@ == self@[port_address].merged,
    {
        match self.universes.get(&port_address) {
            Some(u) => Some(u.output()),
            None => None,
        }
    }
}

/// What senders are kept by: the input and the port-address.
#[derive(Debug, Clone, Copy, PartialEq, Eq, Structural)]
pub struct Patch {
    pub input: usize,
    pub port_address: u16,
}

impl Key for Patch {
    fn same(&self, other: &Self) -> (r: bool) {
        *self == *other
    }
}

/// The first sender each input has heard for each universe.
pub struct Senders {
    seen: Table<Patch, Ip>,
}

/// The senders that a packet for `key` meets: all of them, or none where one more
/// would pass the cap.
pub open spec fn senders_kept(m: Map<Patch, Ip>, key: Patch) -> Map<Patch, Ip> {
    if !m.contains_key(key) && m.dom().len() >= 1024 {
        Map::empty()
    } else {
        m
    }
}

/// The senders after a packet: the first sender of a patch stays.
pub open spec fn senders_noted(m: Map<Patch, Ip>, key: Patch, src: Ip) -> Map<Patch, Ip> {
    if m.contains_key(key) {
        m
    } else {
        senders_kept(m, key).insert(key, src)
    }
}

/// The first sender of a patch, where another one than `src` has been heard.
pub open spec fn first_sender(m: Map<Patch, Ip>, key: Patch, src: Ip) -> Option<Ip> {
    if m.contains_key(key) && m[key] != src {
        Some(m[key])
    } else {
        None
    }
}

impl View for Senders {
    type V = Map<Patch, Ip>;

    closed spec fn view(&self) -> Map<Patch, Ip> {
        self.seen@
    }
}

impl Senders {
    /// No patch is kept twice, and no more than the cap.
    pub closed spec fn wf(&self) -> bool {
        self.seen.wf() && self@.dom().len() <= 1024
    }

    /// No sender heard yet.
    pub fn new() -> (s: Self)
        ensures
            s.wf(),
            s@ == Map::<Patch, Ip>::empty(),
    {
        Senders { seen: Table::new() }
    }
}

/// Record which sender an input has been hearing for a universe, and report the
/// first one whenever a packet of a different sender arrives. Two sources on one
/// input share a lane, and the merge can no longer tell them apart.
pub fn note_sender(seen: &mut Senders, input: usize, port_address: u16, src: Ip) -> (r: Option<Ip>)
    requires
        old(seen).wf(),
    ensures
        final(seen).wf(),
        final(seen)@.dom().len() <= MAX_UNIVERSES,
        r == first_sender(old(seen)@, (Patch { input, port_address }), src),
        final(seen)@ == senders_noted(old(seen)@, (Patch { input, port_address }), src),
{
    let key = Patch { input, port_address };
    let first: Option<Ip> = match seen.seen.get(key) {
        Some(ip) => Some(*ip),
        None => None,
    };
    match first {
        Some(ip) => if ip == src {
            None
        } else {
            Some(ip)
        },
        None => {
            proof {
                seen.seen.lemma_count();
            }
            if seen.seen.len() >= MAX_UNIVERSES {
                seen.seen.clear();
            }
            seen.seen.insert(key, src);
            assert(seen@.dom() =~= senders_kept(old(seen)@, key).dom().insert(key));
            None
        },
    }
}

/// Which port-addresses are merged at all. ArtNet is routinely broadcast, so a
/// bridge that drives one universe sees traffic for many others.
#[derive(Debug)]
pub enum Interest {
    /// Merge every universe that arrives.
    All,
    /// Merge only these port-addresses.
    Only(HashSet<u16>),
}

impl Interest {
    /// Whether a port-address is to be merged.
    pub open spec fn includes(&self, port_address: u16) -> bool {
        match *self {
            Interest::All => true,
            Interest::Only(set) => set@.contains(port_address),
        }
    }

    /// Only the given universes.
    pub fn only(universes: &[u16]) -> (r: Self)
        ensures
            r is Only,
            forall|pa: u16| r.includes(pa) <==> universes@.contains(pa),
    {
        let mut set: HashSet<u16> = HashSet::new();
        let mut i: usize = 0;
        while i < universes.len()
            invariant
                i <= universes@.len(),
                set@ == universes@.take(i as int).to_set(),
            decreases universes.len() - i,
        {
            set.insert(universes[i]);
            proof {
                let upto = universes@.take(i as int);
                assert(universes@.take(i + 1) =~= upto.push(universes@[i as int]));
                assert forall|pa: u16|
                    upto.push(universes@[i as int]).contains(pa) <==> upto.contains(pa) || pa
                        == universes@[i as int] by {
                    let v = universes@[i as int];
                    if upto.contains(pa) {
                        let k = choose|k: int| 0 <= k < upto.len() && upto[k] == pa;
                        assert(upto.push(v)[k] == pa);
                    }
                    assert(upto.push(v)[upto.len() as int] == v);
                }
                assert(universes@.take(i + 1).to_set() =~= upto.to_set().insert(
                    universes@[i as int],
                ));
            }
            i += 1;
        }
        assert(universes@.take(universes@.len() as int) =~= universes@);
        Interest::Only(set)
    }

    /// Should `port_address` be merged?
    pub fn wants(&self, port_address: u16) -> (r: bool)
        ensures
            r == self.includes(port_address),
    {
        match self {
            Interest::All => true,
            Interest::Only(set) => set.contains(&port_address),
        }
    }
}

impl Clone for Interest {
    /// The same interest once more.
    fn clone(&self) -> (r: Self)
        ensures
            r is All <==> *self is All,
            forall|pa: u16| #[trigger] r.includes(pa) <==> self.includes(pa),
    {
        match self {
            Interest::All => Interest::All,
            Interest::Only(set) => {
                let mut copy: HashSet<u16> = HashSet::new();
                for k in it: set.iter()
                    invariant
                        it.seq().unref().to_set() == set@,
                        copy@ == it.seq().unref().take(it.index() as int).to_set(),
                        it.index() == it.seq().len() ==> copy@ == set@,
                {
                    let ghost all = it.seq().unref();
                    copy.insert(*k);
                    proof {
                        let upto = all.take(it.index() as int);
                        assert(all.take(it.index() + 1) =~= upto.push(*k));
                        upto.lemma_push_to_set_commute(*k);
                        assert(all.take(all.len() as int) =~= all);
                    }
                }
                Interest::Only(copy)
            },
        }
    }
}

/// What became of one ArtDmx packet.
#[derive(Debug)]
pub enum Handled {
    /// No light is patched to its universe.
    Unmapped,
    /// It repeats or lies behind a packet that was accepted.
    Stale,
    /// It went into the merge.
    Merged {
        /// The merged channels of its universe.
        data: Vec<u8>,
        /// Whether they changed.
        changed: bool,
        /// The first sender of the input, where this packet is the first to show
        /// that the input has a second one.
        shared: Option<Ip>,
    },
}

/// The inputs and the merger do not belong together: `inputs` sockets, a merger
/// for `merger`.
#[derive(Debug, Clone, Copy, PartialEq, Eq, Structural)]
pub struct InputMismatch {
    pub inputs: usize,
    pub merger: usize,
}

/// What happens to received packets between the sockets and the lights: foreign
/// universes and stale packets are dropped, the rest is merged. One sequence
/// tracker per input, and one warning per input that two sources share.
pub struct Pipeline {
    merger: Merger,
    interest: Interest,
    seq: Vec<SeqTracker>,
    senders: Senders,
    shared_warned: Vec<bool>,
}

impl Pipeline {
    /// The universes.
    pub closed spec fn merger_of(&self) -> Merger {
        self.merger
    }

    /// What is merged.
    pub closed spec fn interest_of(&self) -> Interest {
        self.interest
    }

    /// The sequence streams of an input.
    pub closed spec fn streams(&self, input: int) -> Map<Stream, (u8, Nanos)> {
        self.seq@[input]@
    }

    /// The first senders.
    pub closed spec fn senders_of(&self) -> Map<Patch, Ip> {
        self.senders@
    }

    /// Whether an input has been found shared.
    pub closed spec fn warned(&self, input: int) -> bool {
        self.shared_warned@[input]
    }

    /// All parts are in good order and made for the same number of inputs.
    pub closed spec fn wf(&self) -> bool {
        &&& self.merger.wf()
        &&& self.seq@.len() == self.merger.inputs()
        &&& self.shared_warned@.len() == self.merger.inputs()
        &&& forall|i: int|
            0 <= i < self.seq@.len() ==> (#[trigger] self.seq@[i]).wf() && self.seq@[i].window()
                == SEQ_IDLE_RESET
        &&& self.senders.wf()
    }

    /// The number of inputs.
    pub open spec fn inputs(&self) -> nat {
        self.merger_of().inputs()
    }

    /// A pipeline that has heard nothing; refused where the number of bound inputs
    /// is not the one the merger was built for.
    pub fn new(inputs: usize, merger: Merger, interest: Interest) -> (r: Result<
        Self,
        InputMismatch,
    >)
        requires
            merger.wf(),
        ensures
            r is Ok <==> inputs == merger.inputs(),
            r matches Err(e) ==> e.inputs == inputs && e.merger == merger.inputs(),
            r matches Ok(p) ==> {
                &&& p.wf()
                &&& p.merger_of() == merger
                &&& p.interest_of() == interest
                &&& p.senders_of() == Map::<Patch, Ip>::empty()
                &&& forall|i: int|
                    0 <= i < inputs ==> (#[trigger] p.streams(i)) == Map::<
                        Stream,
                        (u8, Nanos),
                    >::empty()
                &&& forall|i: int| 0 <= i < inputs ==> !#[trigger] p.warned(i)
            },
    {
        if inputs != merger.input_count() {
            return Err(InputMismatch { inputs, merger: merger.input_count() });
        }
        let mut seq: Vec<SeqTracker> = Vec::new();
        let mut shared_warned: Vec<bool> = Vec::new();
        let mut i: usize = 0;
        while i < inputs
            invariant
                i <= inputs,
                seq@.len() == i,
                shared_warned@.len() == i,
                forall|k: int|
                    0 <= k < i ==> (#[trigger] seq@[k]).wf() && seq@[k].window() == SEQ_IDLE_RESET
                        && seq@[k]@ == Map::<Stream, (u8, Nanos)>::empty(),
                forall|k: int| 0 <= k < i ==> !#[trigger] shared_warned@[k],
            decreases inputs - i,
        {
            seq.push(SeqTracker::new());
            shared_warned.push(false);
            i += 1;
        }
        Ok(Pipeline { merger, interest, seq, senders: Senders::new(), shared_warned })
    }

    /// Whether the pipeline has to be ticked: sources expire and there is more
    /// than one input. With a single input total loss is the failsafe's business.
    pub fn prune_enabled(&self) -> (r: bool)
        requires
            self.wf(),
        ensures
            r == (self.merger_of().timeout_of() != 0 && self.inputs() > 1),
    {
        self.merger.timeout_enabled() && self.merger.input_count() > 1
    }

    /// Handle one packet from an input.
    ///
    /// A packet for a foreign universe changes nothing at all, so that foreign
    /// senders cannot use up what belongs to the real ones. A stale one only
    /// counts as such. Every other packet is merged.
    pub fn packet(&mut self, input: usize, src: Ip, pkt: &ArtDmx, now: Nanos) -> (r: Handled)
        requires
            old(self).wf(),
            input < old(self).inputs(),
        ensures
            final(self).wf(),
            final(self).interest_of() == old(self).interest_of(),
            final(self).merger_of().same_settings(&old(self).merger_of()),
            ({
                let stream = Stream { src, port_address: pkt.port_address };
                let patch = Patch { input, port_address: pkt.port_address };
                let streams = old(self).streams(input as int);
                let wanted = old(self).interest_of().includes(pkt.port_address);
                let is_fresh = fresh(streams, SEQ_IDLE_RESET, stream, pkt.sequence, now);
                let watching = old(self).inputs() > 1 && !old(self).warned(input as int);
                let found = first_sender(old(self).senders_of(), patch, src);
                &&& r is Unmapped <==> !wanted
                &&& r is Stale <==> wanted && !is_fresh
                &&& !wanted ==> *final(self) == *old(self)
                &&& wanted ==> final(self).streams(input as int) == noted(
                    streams,
                    SEQ_IDLE_RESET,
                    stream,
                    pkt.sequence,
                    now,
                )
                &&& r !is Merged ==> {
                    &&& final(self).merger_of() == old(self).merger_of()
                    &&& final(self).senders_of() == old(self).senders_of()
                    &&& final(self).warned(input as int) == old(self).warned(input as int)
                }
                &&& r matches Handled::Merged { data, changed, shared } ==> {
                    &&& final(self).merger_of()@ == old(self).merger_of().after(
                        input as int,
                        pkt.port_address,
                        pkt.data@,
                        now,
                    )
                    &&& data@ == final(self).merger_of()@[pkt.port_address].merged
                    &&& changed == (data@ != universe_at(
                        old(self).merger_of()@,
                        pkt.port_address,
                        old(self).inputs(),
                    ).merged)
                    &&& shared == (if watching {
                        found
                    } else {
                        None
                    })
                    &&& final(self).senders_of() == (if watching {
                        senders_noted(old(self).senders_of(), patch, src)
                    } else {
                        old(self).senders_of()
                    })
                    &&& final(self).warned(input as int) == (old(self).warned(input as int)
                        || shared is Some)
                }
                &&& forall|i: int|
                    0 <= i < old(self).inputs() && i != input ==> (#[trigger] final(self).streams(i))
                        == old(self).streams(i)
                &&& forall|i: int|
                    0 <= i < old(self).inputs() && i != input ==> (#[trigger] final(self).warned(i))
                        == old(self).warned(i)
            }),
    {
        if !self.interest.wants(pkt.port_address) {
            return Handled::Unmapped;
        }
        if !self.note_sequence(input, src, pkt.port_address, pkt.sequence, now) {
            return Handled::Stale;
        }
        let ghost sequenced = *self;
        let mut shared: Option<Ip> = None;
        if self.merger.input_count() > 1 && !self.shared_warned[input] {
            shared = note_sender(&mut self.senders, input, pkt.port_address, src);
            if shared.is_some() {
                self.shared_warned.set(input, true);
            }
        }
        let (changed, data) = self.merger.ingest(input, pkt.port_address, &pkt.data, now);
        assert forall|i: int| 0 <= i < old(self).inputs() && i != input implies (
        #[trigger] self.streams(i)) == old(self).streams(i) by {
            assert(sequenced.streams(i) == old(self).streams(i));
        }
        Handled::Merged { data, changed, shared }
    }

    fn note_sequence(
        &mut self,
        input: usize,
        src: Ip,
        port_address: u16,
        sequence: u8,
        now: Nanos,
    ) -> (r: bool)
        requires
            old(self).wf(),
            input < old(self).inputs(),
        ensures
            final(self).wf(),
            final(self).merger == old(self).merger,
            final(self).interest == old(self).interest,
            final(self).senders == old(self).senders,
            final(self).shared_warned == old(self).shared_warned,
            r == fresh(
                old(self).streams(input as int),
                SEQ_IDLE_RESET,
                (Stream { src, port_address }),
                sequence,
                now,
            ),
            final(self).streams(input as int) == noted(
                old(self).streams(input as int),
                SEQ_IDLE_RESET,
                (Stream { src, port_address }),
                sequence,
                now,
            ),
            forall|i: int|
                0 <= i < old(self).inputs() && i != input ==> (#[trigger] final(self).streams(i))
                    == old(self).streams(i),
    {
        let t: &mut SeqTracker = &mut self.seq[input];
        t.is_fresh(src, port_address, sequence, now)
    }

    /// Drop the sources that went silent. Returns the universes whose merged
    /// output changed, each with its channels; nothing where pruning is off.
    pub fn tick(&mut self, now: Nanos) -> (r: Vec<(u16, Vec<u8>)>)
        requires
            old(self).wf(),
        ensures
            final(self).wf(),
            final(self).interest_of() == old(self).interest_of(),
            final(self).senders_of() == old(self).senders_of(),
            final(self).merger_of().same_settings(&old(self).merger_of()),
            forall|i: int|
                0 <= i < old(self).inputs() ==> (#[trigger] final(self).streams(i)) == old(
                    self,
                ).streams(i),
            forall|i: int|
                0 <= i < old(self).inputs() ==> (#[trigger] final(self).warned(i)) == old(
                    self,
                ).warned(i),
            ({
                let before = old(self).merger_of();
                let after = final(self).merger_of();
                let on = before.timeout_of() != 0 && before.inputs() > 1;
                &&& !on ==> after == before && r@.len() == 0
                &&& after@.dom() == before@.dom()
                &&& on ==> forall|pa: u16| #[trigger]
                    before@.contains_key(pa) ==> after@[pa] == pruned(
                        before@[pa],
                        before.mode_of(),
                        before.timeout_of(),
                        now,
                    )
                &&& on ==> forall|pa: u16| #[trigger]
                    before@.contains_key(pa) && after@[pa].merged != before@[pa].merged
                        <==> (exists|k: int| 0 <= k < r@.len() && (#[trigger] r@[k]).0 == pa)
                &&& forall|k: int|
                    0 <= k < r@.len() ==> (#[trigger] r@[k]).1@ == after@[r@[k].0].merged
                &&& forall|j: int, k: int|
                    0 <= j < k < r@.len() ==> (#[trigger] r@[j]).0 != (#[trigger] r@[k]).0
            }),
    {
        let mut out: Vec<(u16, Vec<u8>)> = Vec::new();
        if !self.prune_enabled() {
            return out;
        }
        let ghost before = self.merger;
        let changed: Vec<u16> = self.merger.prune(now);
        let ghost after = self.merger;
        assert forall|k: int| 0 <= k < changed@.len() implies after@.contains_key(
            #[trigger] changed@[k],
        ) by {
            assert(changed@.contains(changed@[k]));
        }
        let mut i: usize = 0;
        while i < changed.len()
            invariant
                i <= changed@.len(),
                after == self.merger,
                forall|k: int| 0 <= k < changed@.len() ==> after@.contains_key(#[trigger] changed@[k]),
                out@.len() == i,
                forall|k: int|
                    0 <= k < i ==> (#[trigger] out@[k]).0 == changed@[k] && out@[k].1@
                        == after@[changed@[k]].merged,
            decreases changed.len() - i,
        {
            assert(after@.contains_key(changed@[i as int]));
            if let Some(m) = self.merger.merged(changed[i]) {
                out.push((changed[i], vstd::slice::slice_to_vec(m)));
            }
            i += 1;
        }
        assert forall|pa: u16| #[trigger]
            before@.contains_key(pa) && after@[pa].merged != before@[pa].merged <==> (exists|k: int|
                0 <= k < out@.len() && (#[trigger] out@[k]).0 == pa) by {
            if before@.contains_key(pa) && after@[pa].merged != before@[pa].merged {
                assert(changed@.contains(pa));
                let k = choose|k: int| 0 <= k < changed@.len() && changed@[k] == pa;
                assert(out@[k].0 == pa);
            }
            if exists|k: int| 0 <= k < out@.len() && (#[trigger] out@[k]).0 == pa {
                let k = choose|k: int| 0 <= k < out@.len() && (#[trigger] out@[k]).0 == pa;
                assert(changed@[k] == pa);
                assert(changed@.contains(pa));
            }
        }
        assert forall|j: int, k: int| 0 <= j < k < out@.len() implies (#[trigger] out@[j]).0 != (
        #[trigger] out@[k]).0 by {
            assert(changed@[j] != changed@[k]);
        }
        out
    }
}

} // verus!
