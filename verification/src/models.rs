//! Light model capability catalog: which model an advertised BLE name belongs to
//! and what that model can do.

use vstd::prelude::*;
use vstd::string::*;
use crate::profile::Profile;
use crate::text::{
    ascii_only, chars_of, contains, has_part, to_unicode_upper, unicode_upper, upper,
};

verus! {

/// One model's capabilities.
#[derive(Debug, Clone)]
pub struct Model {
    /// Friendly model name.
    pub name: String,
    /// Numeric product ids that appear in `NW-<id>&...` advertised names.
    pub product_ids: Vec<String>,
    /// Name parts for older lights that advertise their name directly.
    pub name_matches: Vec<String>,
    /// BLE command family: `classic`, `infinity` or `home`.
    pub driver: String,
    /// Whether the light is colour-capable.
    pub supports_rgb: bool,
    /// Whether the light supports green/magenta tint.
    pub supports_gm: bool,
    /// Colour-temperature range, in hundreds of kelvin.
    pub cct_min: u8,
    pub cct_max: u8,
    /// 2 = MAC-embedded advanced-mode frames, anything else = direct frames.
    pub cmd_type: u8,
    /// Direct R/G/B/C/W mixing mode.
    pub supports_rgbcw: bool,
    /// CIE xy mode.
    pub supports_xy: bool,
    /// Hardware DMX input.
    pub supports_dmx: bool,
    /// Built-in effect engine.
    pub supports_fx: bool,
    /// Pixel effect class, 0 = none.
    pub pixel_classify: u8,
}

/// The `cmd_type` of a model that does not declare one.
pub const DEFAULT_MODEL_CMD_TYPE: u8 = 1;

impl Model {
    /// The DMX profile that best fits this model: `advanced` for colour, else
    /// `cct_gm` with a tint, else `cct`.
    pub fn profile(&self) -> (r: Profile)
        ensures
            r == (if self.supports_rgb {
                Profile::Advanced
            } else if self.supports_gm {
                Profile::CctGm
            } else {
                Profile::Cct
            }),
    {
        if self.supports_rgb {
            Profile::Advanced
        } else if self.supports_gm {
            Profile::CctGm
        } else {
            Profile::Cct
        }
    }
}

/// All known models.
#[derive(Debug, Clone)]
pub struct Catalog {
    pub models: Vec<Model>,
}

/// What a model is recognised by: product ids, and name parts with their weight.
#[verifier::ext_equal]
pub struct KeyModel {
    pub ids: Seq<Seq<char>>,
    pub names: Seq<(Seq<char>, usize)>,
}

/// What a model is recognised by, in upper case; a name part's weight is its
/// length in bytes.
#[derive(Debug)]
pub struct ModelKeys {
    pub ids: Vec<String>,
    pub names: Vec<(String, usize)>,
}

impl View for ModelKeys {
    type V = KeyModel;

    open spec fn view(&self) -> KeyModel {
        KeyModel {
            ids: Seq::new(self.ids@.len(), |i: int| self.ids@[i]@),
            names: Seq::new(self.names@.len(), |i: int| (self.names@[i].0@, self.names@[i].1)),
        }
    }
}

/// The views of a list of keys.
pub open spec fn keys_view(keys: Seq<ModelKeys>) -> Seq<KeyModel> {
    Seq::new(keys.len(), |i: int| keys[i]@)
}

/// Whether one of the ids stands in a name.
pub open spec fn has_id(ids: Seq<Seq<char>>, hay: Seq<char>) -> bool {
    exists|i: int| 0 <= i < ids.len() && has_part(hay, #[trigger] ids[i])
}

/// The first model from `from` on with a product id in the name.
pub open spec fn by_id(keys: Seq<KeyModel>, hay: Seq<char>, from: int) -> Option<int>
    decreases keys.len() - from,
{
    if from >= keys.len() {
        None
    } else if has_id(keys[from].ids, hay) {
        Some(from)
    } else {
        by_id(keys, hay, from + 1)
    }
}

/// The better of what was best so far and the name parts of model `m`: a part has
/// to stand in the name and to be strictly longer.
pub open spec fn best_part(
    names: Seq<(Seq<char>, usize)>,
    hay: Seq<char>,
    m: int,
    best: Option<(int, usize)>,
) -> Option<(int, usize)>
    decreases names.len(),
{
    if names.len() == 0 {
        best
    } else {
        let b = best_part(names.drop_last(), hay, m, best);
        let n = names.last();
        if has_part(hay, n.0) && (b is None || n.1 > (b->0).1) {
            Some((m, n.1))
        } else {
            b
        }
    }
}

/// The model with the longest name part in the name, the first one among equals.
pub open spec fn by_name(keys: Seq<KeyModel>, hay: Seq<char>) -> Option<(int, usize)>
    decreases keys.len(),
{
    if keys.len() == 0 {
        None
    } else {
        best_part(
            keys.last().names,
            hay,
            keys.len() - 1,
            by_name(keys.drop_last(), hay),
        )
    }
}

/// The model a name belongs to: a product id wins over name parts.
pub open spec fn recognised(keys: Seq<KeyModel>, hay: Seq<char>) -> Option<int> {
    match by_id(keys, hay, 0) {
        Some(m) => Some(m),
        None => match by_name(keys, hay) {
            Some((m, _)) => Some(m),
            None => None,
        },
    }
}

fn any_id(ids: &Vec<String>, hay: &[char]) -> (r: bool)
    ensures
        r == has_id(Seq::new(ids@.len(), |i: int| ids@[i]@), hay@),
{
    let ghost all = Seq::new(ids@.len(), |i: int| ids@[i]@);
    let mut i: usize = 0;
    while i < ids.len()
        invariant
            i <= ids@.len(),
            all == Seq::new(ids@.len(), |i: int| ids@[i]@),
            forall|k: int| 0 <= k < i ==> !has_part(hay@, #[trigger] all[k]),
        decreases ids.len() - i,
    {
        let id = chars_of(ids[i].as_str());
        if contains(hay, &id) {
            assert(has_part(hay@, all[i as int]));
            return true;
        }
        i += 1;
    }
    false
}

fn best_of(
    names: &Vec<(String, usize)>,
    hay: &[char],
    m: usize,
    best: Option<(usize, usize)>,
    Ghost(b0): Ghost<Option<(int, usize)>>,
) -> (r: Option<(usize, usize)>)
    requires
        best matches Some(b) ==> b0 == Some((b.0 as int, b.1)) && b.0 <= m,
        best is None ==> b0 is None,
    ensures
        ({
            let all = Seq::new(names@.len(), |i: int| (names@[i].0@, names@[i].1));
            &&& r matches Some(b) ==> best_part(all, hay@, m as int, b0) == Some((b.0 as int, b.1))
                && b.0 <= m
            &&& r is None ==> best_part(all, hay@, m as int, b0) is None
        }),
{
    let ghost all = Seq::new(names@.len(), |i: int| (names@[i].0@, names@[i].1));
    let mut best = best;
    let mut i: usize = 0;
    assert(all.take(0) =~= Seq::empty());
    while i < names.len()
        invariant
            i <= names@.len(),
            all == Seq::new(names@.len(), |i: int| (names@[i].0@, names@[i].1)),
            best matches Some(b) ==> best_part(all.take(i as int), hay@, m as int, b0) == Some(
                (b.0 as int, b.1),
            ) && b.0 <= m,
            best is None ==> best_part(all.take(i as int), hay@, m as int, b0) is None,
        decreases names.len() - i,
    {
        assert(all.take(i + 1).drop_last() =~= all.take(i as int));
        assert(all.take(i + 1).last() == all[i as int]);
        let part = chars_of(names[i].0.as_str());
        if contains(hay, &part) {
            let better = match best {
                None => true,
                Some(b) => names[i].1 > b.1,
            };
            if better {
                best = Some((m, names[i].1));
            }
        }
        i += 1;
    }
    assert(all.take(all.len() as int) =~= all);
    best
}

/// The model that an upper-case name belongs to, by the upper-case keys of all
/// models: product ids win over name parts, among name parts the longest wins.
pub fn recognise(keys: &Vec<ModelKeys>, hay: &str) -> (r: Option<usize>)
    ensures
        r matches Some(m) ==> m < keys@.len() && recognised(keys_view(keys@), hay@) == Some(
            m as int,
        ),
        r is None ==> recognised(keys_view(keys@), hay@) is None,
{
    let ghost all = keys_view(keys@);
    let chars = chars_of(hay);
    let mut i: usize = 0;
    while i < keys.len()
        invariant
            i <= keys@.len(),
            all == keys_view(keys@),
            chars@ == hay@,
            by_id(all, hay@, 0) == by_id(all, hay@, i as int),
        decreases keys.len() - i,
    {
        assert(all[i as int] == keys@[i as int]@);
        if any_id(&keys[i].ids, &chars) {
            return Some(i);
        }
        i += 1;
    }
    let mut best: Option<(usize, usize)> = None;
    let mut m: usize = 0;
    while m < keys.len()
        invariant
            m <= keys@.len(),
            all == keys_view(keys@),
            chars@ == hay@,
            best matches Some(b) ==> b.0 < m && by_name(all.take(m as int), hay@) == Some(
                (b.0 as int, b.1),
            ),
            best is None ==> by_name(all.take(m as int), hay@) is None,
        decreases keys.len() - m,
    {
        assert(all.take(m + 1).drop_last() =~= all.take(m as int));
        assert(all.take(m + 1).last() == keys@[m as int]@);
        best = best_of(&keys[m].names, &chars, m, best, Ghost(by_name(all.take(m as int), hay@)));
        m += 1;
    }
    assert(all.take(all.len() as int) =~= all);
    match best {
        Some((m, _)) => Some(m),
        None => None,
    }
}

/// The keys of a model, each text in Unicode upper case.
pub open spec fn keys_of(m: &Model) -> KeyModel {
    KeyModel {
        ids: Seq::new(m.product_ids@.len(), |i: int| unicode_upper(m.product_ids@[i]@)),
        names: Seq::new(
            m.name_matches@.len(),
            |i: int| (unicode_upper(m.name_matches@[i]@), byte_len(m.name_matches@[i]@)),
        ),
    }
}

/// The keys of a model, each text in ASCII upper case.
pub open spec fn ascii_keys_of(m: &Model) -> KeyModel {
    KeyModel {
        ids: Seq::new(m.product_ids@.len(), |i: int| upper(m.product_ids@[i]@)),
        names: Seq::new(
            m.name_matches@.len(),
            |i: int| (upper(m.name_matches@[i]@), byte_len(m.name_matches@[i]@)),
        ),
    }
}

/// Whether all keys of a model are ASCII.
pub open spec fn ascii_keys(m: &Model) -> bool {
    &&& forall|i: int| 0 <= i < m.product_ids@.len() ==> ascii_only((#[trigger] m.product_ids@[i])@)
    &&& forall|i: int|
        0 <= i < m.name_matches@.len() ==> ascii_only((#[trigger] m.name_matches@[i])@)
}

/// The length of a text in bytes.
pub open spec fn byte_len(s: Seq<char>) -> usize {
    vstd::utf8::encode_utf8(s).len() as usize
}

fn upper_keys(m: &Model) -> (r: ModelKeys)
    ensures
        r@ == keys_of(m),
        ascii_keys(m) ==> r@ == ascii_keys_of(m),
{
    let mut ids: Vec<String> = Vec::new();
    let mut i: usize = 0;
    while i < m.product_ids.len()
        invariant
            i <= m.product_ids@.len(),
            ids@.len() == i,
            forall|k: int|
                0 <= k < i ==> (#[trigger] ids@[k])@ == unicode_upper(m.product_ids@[k]@),
            forall|k: int|
                0 <= k < i && ascii_only(m.product_ids@[k]@) ==> (#[trigger] ids@[k])@ == upper(
                    m.product_ids@[k]@,
                ),
        decreases m.product_ids.len() - i,
    {
        ids.push(to_unicode_upper(m.product_ids[i].as_str()));
        i += 1;
    }
    let mut names: Vec<(String, usize)> = Vec::new();
    let mut i: usize = 0;
    while i < m.name_matches.len()
        invariant
            i <= m.name_matches@.len(),
            names@.len() == i,
            forall|k: int|
                0 <= k < i ==> (#[trigger] names@[k]).0@ == unicode_upper(m.name_matches@[k]@)
                    && names@[k].1 == byte_len(m.name_matches@[k]@),
            forall|k: int|
                0 <= k < i && ascii_only(m.name_matches@[k]@) ==> (#[trigger] names@[k]).0@
                    == upper(m.name_matches@[k]@),
        decreases m.name_matches.len() - i,
    {
        let text: &str = m.name_matches[i].as_str();
        names.push((to_unicode_upper(text), text.len()));
        i += 1;
    }
    let r = ModelKeys { ids, names };
    assert(r@ =~= keys_of(m));
    proof {
        if ascii_keys(m) {
            assert(r@ =~= ascii_keys_of(m));
        }
    }
    r
}

impl Catalog {
    /// Identify a light from its advertised BLE name, whatever its case: product
    /// ids win over name parts; among name parts the longest wins, so that
    /// `RGB660 PRO` beats `RGB660`.
    pub fn identify(&self, ble_name: &str) -> (r: Option<&Model>)
        ensures
            ({
                let keys = Seq::new(self.models@.len(), |i: int| keys_of(&self.models@[i]));
                let found = recognised(keys, unicode_upper(ble_name@));
                &&& r is Some <==> found is Some
                &&& found matches Some(m) ==> 0 <= m < self.models@.len() && r == Some(
                    &self.models@[m],
                )
            }),
            (ascii_only(ble_name@) && forall|i: int|
                0 <= i < self.models@.len() ==> ascii_keys(&#[trigger] self.models@[i])) ==> {
                let keys = Seq::new(self.models@.len(), |i: int| ascii_keys_of(&self.models@[i]));
                let found = recognised(keys, upper(ble_name@));
                &&& r is Some <==> found is Some
                &&& found matches Some(m) ==> r == Some(&self.models@[m])
            },
    {
        let hay = to_unicode_upper(ble_name);
        let mut keys: Vec<ModelKeys> = Vec::new();
        let mut i: usize = 0;
        while i < self.models.len()
            invariant
                i <= self.models@.len(),
                keys@.len() == i,
                forall|k: int| 0 <= k < i ==> (#[trigger] keys@[k])@ == keys_of(&self.models@[k]),
                forall|k: int|
                    0 <= k < i && ascii_keys(&self.models@[k]) ==> (#[trigger] keys@[k])@
                        == ascii_keys_of(&self.models@[k]),
            decreases self.models.len() - i,
        {
            keys.push(upper_keys(&self.models[i]));
            i += 1;
        }
        proof {
            assert(keys_view(keys@) =~= Seq::new(
                self.models@.len(),
                |i: int| keys_of(&self.models@[i]),
            ));
            if forall|i: int|
                0 <= i < self.models@.len() ==> ascii_keys(&#[trigger] self.models@[i]) {
                assert(keys_view(keys@) =~= Seq::new(
                    self.models@.len(),
                    |i: int| ascii_keys_of(&self.models@[i]),
                ));
            }
        }
        match recognise(&keys, hay.as_str()) {
            Some(m) => Some(&self.models[m]),
            None => None,
        }
    }
}

proof fn lemma_by_id(keys: Seq<KeyModel>, hay: Seq<char>, from: int)
    requires
        0 <= from,
    ensures
        by_id(keys, hay, from) matches Some(m) ==> from <= m < keys.len() && has_id(
            keys[m].ids,
            hay,
        ) && forall|k: int| from <= k < m ==> !has_id((#[trigger] keys[k]).ids, hay),
        by_id(keys, hay, from) is None ==> forall|k: int|
            from <= k < keys.len() ==> !has_id((#[trigger] keys[k]).ids, hay),
    decreases keys.len() - from,
{
    if from < keys.len() && !has_id(keys[from].ids, hay) {
        lemma_by_id(keys, hay, from + 1);
    }
}

/// Whether a name part of model `m` stands in the name.
pub open spec fn part_hit(keys: Seq<KeyModel>, hay: Seq<char>, m: int, k: int) -> bool {
    0 <= m < keys.len() && 0 <= k < keys[m].names.len() && has_part(hay, keys[m].names[k].0)
}

proof fn lemma_best_part(
    names: Seq<(Seq<char>, usize)>,
    hay: Seq<char>,
    m: int,
    best: Option<(int, usize)>,
)
    ensures
        ({
            let r = best_part(names, hay, m, best);
            &&& r is None <==> best is None && forall|k: int|
                0 <= k < names.len() ==> !has_part(hay, (#[trigger] names[k]).0)
            &&& r is Some ==> r == best || ((r->0).0 == m && exists|k: int|
                0 <= k < names.len() && has_part(hay, (#[trigger] names[k]).0) && names[k].1
                    == (r->0).1)
            &&& r is Some && best is Some ==> r == best || (r->0).1 > (best->0).1
            &&& forall|k: int|
                0 <= k < names.len() && has_part(hay, (#[trigger] names[k]).0) ==> r is Some
                    && (r->0).1 >= names[k].1
        }),
    decreases names.len(),
{
    if names.len() > 0 {
        let init = names.drop_last();
        lemma_best_part(init, hay, m, best);
        let b = best_part(init, hay, m, best);
        assert forall|k: int| 0 <= k < init.len() implies #[trigger] init[k] == names[k] by {}
        assert(names.last() == names[names.len() - 1]);
        if b is Some && b != best {
            let k = choose|k: int|
                0 <= k < init.len() && has_part(hay, (#[trigger] init[k]).0) && init[k].1 == (b->0).1;
            assert(names[k].1 == (b->0).1);
        }
        assert forall|k: int| 0 <= k < names.len() && has_part(hay, (#[trigger] names[k]).0) implies {
            let r = best_part(names, hay, m, best);
            r is Some && (r->0).1 >= names[k].1
        } by {
            if k < init.len() {
                assert(has_part(hay, init[k].0));
            }
        }
        if best_part(names, hay, m, best) is None {
            assert forall|k: int| 0 <= k < names.len() implies !has_part(
                hay,
                (#[trigger] names[k]).0,
            ) by {
                if k < init.len() {
                    assert(!has_part(hay, init[k].0));
                }
            }
        }
    }
}

proof fn lemma_by_name(keys: Seq<KeyModel>, hay: Seq<char>)
    ensures
        by_name(keys, hay) matches Some((m, w)) ==> 0 <= m < keys.len() && exists|k: int|
            #[trigger] part_hit(keys, hay, m, k) && keys[m].names[k].1 == w,
        forall|m: int, k: int| #[trigger]
            part_hit(keys, hay, m, k) ==> by_name(keys, hay) is Some && (by_name(keys, hay)->0).1
                >= keys[m].names[k].1,
        forall|m: int, k: int| #[trigger]
            part_hit(keys, hay, m, k) && m < (by_name(keys, hay)->0).0 ==> (by_name(
                keys,
                hay,
            )->0).1 > keys[m].names[k].1,
    decreases keys.len(),
{
    if keys.len() > 0 {
        let init = keys.drop_last();
        let last = keys.len() - 1;
        lemma_by_name(init, hay);
        let prior = by_name(init, hay);
        lemma_best_part(keys[last].names, hay, last, prior);
        assert(keys.last() == keys[last]);
        let r = by_name(keys, hay);
        if r is Some {
            if r == prior {
                let k = choose|k: int| #[trigger]
                    part_hit(init, hay, (r->0).0, k) && init[(r->0).0].names[k].1 == (r->0).1;
                assert(part_hit(keys, hay, (r->0).0, k));
            } else {
                let k = choose|k: int|
                    0 <= k < keys[last].names.len() && has_part(
                        hay,
                        (#[trigger] keys[last].names[k]).0,
                    ) && keys[last].names[k].1 == (r->0).1;
                assert(part_hit(keys, hay, last, k));
            }
        }
        assert forall|m: int, k: int| #[trigger] part_hit(keys, hay, m, k) implies r is Some
            && (r->0).1 >= keys[m].names[k].1 by {
            if m < last {
                assert(init[m] == keys[m]);
                assert(part_hit(init, hay, m, k));
            } else {
                assert(has_part(hay, keys[last].names[k].0));
            }
        }
        assert forall|m: int, k: int| #[trigger]
            part_hit(keys, hay, m, k) && m < (r->0).0 implies (r->0).1 > keys[m].names[k].1 by {
            assert(init[m] == keys[m]);
            assert(part_hit(init, hay, m, k));
        }
    }
}

/// What identification promises: a model with a product id in the name wins, the
/// first such one; else the model with the longest matching name part, the first one
/// among equals; a name that holds neither belongs to no model.
pub proof fn law_identification(keys: Seq<KeyModel>, hay: Seq<char>)
    ensures
        ({
            let ids = exists|m: int| 0 <= m < keys.len() && has_id((#[trigger] keys[m]).ids, hay);
            let parts = exists|m: int, k: int| #[trigger] part_hit(keys, hay, m, k);
            &&& recognised(keys, hay) is None <==> !ids && !parts
            &&& recognised(keys, hay) matches Some(m) ==> {
                &&& 0 <= m < keys.len()
                &&& ids ==> has_id(keys[m].ids, hay) && forall|m2: int|
                    0 <= m2 < m ==> !has_id((#[trigger] keys[m2]).ids, hay)
                &&& !ids ==> exists|k: int| #[trigger]
                    part_hit(keys, hay, m, k) && forall|m2: int, k2: int| #[trigger]
                        part_hit(keys, hay, m2, k2) ==> if m2 < m {
                            keys[m].names[k].1 > keys[m2].names[k2].1
                        } else {
                            keys[m].names[k].1 >= keys[m2].names[k2].1
                        }
            }
        }),
{
    lemma_by_id(keys, hay, 0);
    lemma_by_name(keys, hay);
}

/// A name has one of the ids exactly when it is something, an id and something more.
pub proof fn law_ids_stand_in_names(
    ids: Seq<Seq<char>>,
    i: int,
    before: Seq<char>,
    after: Seq<char>,
    hay: Seq<char>,
)
    requires
        0 <= i < ids.len(),
    ensures
        has_id(ids, before + ids[i] + after),
        has_id(ids, hay) ==> exists|k: int, a: Seq<char>, b: Seq<char>|
            #![trigger ids[k], a + b]
            0 <= k < ids.len() && hay == a + ids[k] + b,
{
    crate::text::laws::law_parts(before, ids[i], after, hay);
    if has_id(ids, hay) {
        let k = choose|k: int| 0 <= k < ids.len() && has_part(hay, #[trigger] ids[k]);
        crate::text::laws::law_parts(before, ids[k], after, hay);
        let (a, b) = choose|a: Seq<char>, b: Seq<char>| hay == #[trigger] (a + ids[k] + b);
        let witness = a + b;
        assert(0 <= k < ids.len() && hay == a + ids[k] + b);
    }
}

/// A name that holds a product id belongs to a model with that id, whatever name parts
/// it holds; one that holds no id but a name part belongs to some model.
pub proof fn law_names_that_are_recognised(
    keys: Seq<KeyModel>,
    m: int,
    i: int,
    before: Seq<char>,
    after: Seq<char>,
)
    requires
        0 <= m < keys.len(),
    ensures
        0 <= i < keys[m].ids.len() ==> {
            let found = recognised(keys, before + keys[m].ids[i] + after);
            found is Some && 0 <= found->0 <= m && has_id(
                keys[found->0].ids,
                before + keys[m].ids[i] + after,
            )
        },
        0 <= i < keys[m].names.len() ==> recognised(keys, before + keys[m].names[i].0 + after)
            is Some,
{
    if 0 <= i < keys[m].ids.len() {
        let hay = before + keys[m].ids[i] + after;
        crate::text::laws::law_parts(before, keys[m].ids[i], after, hay);
        assert(has_id(keys[m].ids, hay));
        law_identification(keys, hay);
    }
    if 0 <= i < keys[m].names.len() {
        let hay = before + keys[m].names[i].0 + after;
        crate::text::laws::law_parts(before, keys[m].names[i].0, after, hay);
        assert(part_hit(keys, hay, m, i));
        law_identification(keys, hay);
    }
}

/// The keys of a model are its own product ids and name parts in upper case, one for one,
/// each name part with its length in bytes.
pub proof fn law_keys_of_a_model(m: &Model, i: int)
    ensures
        keys_of(m).ids.len() == m.product_ids@.len() && ascii_keys_of(m).ids.len()
            == m.product_ids@.len(),
        keys_of(m).names.len() == m.name_matches@.len() && ascii_keys_of(m).names.len()
            == m.name_matches@.len(),
        0 <= i < m.product_ids@.len() ==> keys_of(m).ids[i] == unicode_upper(m.product_ids@[i]@)
            && ascii_keys_of(m).ids[i] == upper(m.product_ids@[i]@),
        0 <= i < m.name_matches@.len() ==> {
            &&& keys_of(m).names[i].0 == unicode_upper(m.name_matches@[i]@)
            &&& ascii_keys_of(m).names[i].0 == upper(m.name_matches@[i]@)
            &&& vstd::utf8::encode_utf8(m.name_matches@[i]@).len() <= usize::MAX ==> {
                &&& keys_of(m).names[i].1 == vstd::utf8::encode_utf8(m.name_matches@[i]@).len()
                &&& ascii_keys_of(m).names[i].1 == vstd::utf8::encode_utf8(
                    m.name_matches@[i]@,
                ).len()
            }
        },
{
}

/// Keys are taken one by one, in order, each with its own length.
pub proof fn law_keys_in_order(keys: Seq<ModelKeys>, m: int, i: int)
    requires
        0 <= m < keys.len(),
    ensures
        keys_view(keys).len() == keys.len(),
        keys_view(keys)[m].ids.len() == keys[m].ids@.len(),
        keys_view(keys)[m].names.len() == keys[m].names@.len(),
        0 <= i < keys[m].ids@.len() ==> keys_view(keys)[m].ids[i] == keys[m].ids@[i]@,
        0 <= i < keys[m].names@.len() ==> keys_view(keys)[m].names[i] == (
            keys[m].names@[i].0@,
            keys[m].names@[i].1,
        ),
{
}

} // verus!
