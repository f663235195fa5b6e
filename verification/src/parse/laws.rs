//! What holds of numbers and fields in texts.

use vstd::prelude::*;
use super::{
    digits_value, fields, signed_byte, signed_value, texts, unsigned_upto, unsigned_value,
};
use crate::text::laws::{all_digits, law_decimals_read_back, number};
use crate::text::{dec, joined};

verus! {

/// Digits, and at least one of them, are a number: the one they stand for. Nothing else
/// is.
pub proof fn law_digits_are_numbers(s: Seq<char>)
    ensures
        digits_value(s) is Some <==> s.len() > 0 && all_digits(s),
        digits_value(s) matches Some(v) ==> v == number(s),
    decreases s.len(),
{
    if s.len() > 0 {
        let init = s.drop_last();
        law_digits_are_numbers(init);
        if all_digits(s) {
            assert(forall|i: int| 0 <= i < init.len() ==> init[i] == s[i]);
            assert('0' <= s[s.len() - 1] <= '9');
            assert(all_digits(init));
        }
        if digits_value(s) is Some {
            assert forall|i: int| 0 <= i < s.len() implies '0' <= #[trigger] s[i] <= '9' by {
                if i < init.len() {
                    assert(init[i] == s[i]);
                }
            }
            if s.len() == 1 {
                assert(number(init) == 0);
            }
        }
    }
}

/// What a number writes, it reads back.
pub proof fn law_numbers_read_back(n: nat, max: u64)
    ensures
        unsigned_value(dec(n)) == Some(n),
        signed_value(dec(n)) == Some(n as int),
        n <= max ==> unsigned_upto(dec(n), max) == Some(n as u64),
        n > max ==> unsigned_upto(dec(n), max) is None,
        n <= 127 ==> signed_byte(dec(n)) == Some(n as i8),
        n > 127 ==> signed_byte(dec(n)) is None,
{
    law_decimals_read_back(n);
    law_digits_are_numbers(dec(n));
    assert('0' <= dec(n)[0] <= '9');
}

/// Signs: a `+` changes nothing, a `-` turns the number round where one is allowed and
/// refuses it where none is.
pub proof fn law_signed_numbers(s: Seq<char>, v: nat)
    requires
        digits_value(s) == Some(v),
    ensures
        unsigned_value(s) == Some(v),
        unsigned_value(seq!['+'] + s) == Some(v),
        unsigned_value(seq!['-'] + s) is None,
        signed_value(s) == Some(v as int),
        signed_value(seq!['+'] + s) == Some(v as int),
        signed_value(seq!['-'] + s) == Some(-(v as int)),
        v <= 128 ==> signed_byte(seq!['-'] + s) == Some((-(v as int)) as i8),
        v > 128 ==> signed_byte(seq!['-'] + s) is None,
{
    law_digits_are_numbers(s);
    assert('0' <= s[0] <= '9');
    assert((seq!['+'] + s).skip(1) =~= s);
    assert((seq!['-'] + s).skip(1) =~= s);
    law_digits_are_numbers(seq!['-'] + s);
    assert((seq!['-'] + s)[0] == '-');
}

/// Fields, joined by their separator, are the text again, and none of them holds it.
pub proof fn law_fields_make_the_text(s: Seq<char>, sep: char)
    ensures
        fields(s, sep).len() > 0,
        joined(fields(s, sep), seq![sep]) == s,
        forall|k: int|
            0 <= k < fields(s, sep).len() ==> !(#[trigger] fields(s, sep)[k]).contains(sep),
    decreases s.len(),
{
    if s.len() == 0 {
        assert(fields(s, sep) =~= seq![Seq::<char>::empty()]);
        assert(joined(fields(s, sep), seq![sep]) =~= s);
    } else {
        let init = s.drop_last();
        law_fields_make_the_text(init, sep);
        let before = fields(init, sep);
        let f = fields(s, sep);
        if s.last() == sep {
            assert(f.drop_last() =~= before);
            assert(joined(f, seq![sep]) =~= s);
        } else {
            assert(f.drop_last() =~= before.drop_last());
            assert(before =~= before.drop_last().push(before.last()));
            assert(joined(f, seq![sep]) =~= joined(before, seq![sep]).push(s.last()));
            assert(s =~= init.push(s.last()));
            assert(!f.last().contains(sep)) by {
                if f.last().contains(sep) {
                    let i = choose|i: int| 0 <= i < f.last().len() && f.last()[i] == sep;
                    if i < before.last().len() {
                        assert(before.last()[i] == sep);
                        assert(before.last().contains(sep));
                    }
                }
            }
            assert(before[before.len() - 1] == before.last());
        }
        assert forall|k: int| 0 <= k < f.len() implies !(#[trigger] f[k]).contains(sep) by {
            if k < f.len() - 1 {
                assert(f[k] == before[k]);
            }
        }
    }
}

/// Texts that do not hold a separator, joined by it, are the fields of what comes out.
pub proof fn law_joined_fields_read_back(list: Seq<Seq<char>>, sep: char)
    requires
        list.len() > 0,
        forall|k: int| 0 <= k < list.len() ==> !(#[trigger] list[k]).contains(sep),
    ensures
        fields(joined(list, seq![sep]), sep) == list,
    decreases list.len(),
{
    let last = list.last();
    assert(last == list[list.len() - 1]);
    if list.len() == 1 {
        lemma_fields_append(Seq::empty(), list[0], sep);
        assert(Seq::<char>::empty() + list[0] =~= list[0]);
        assert(fields(Seq::<char>::empty(), sep) =~= seq![Seq::<char>::empty()]);
        assert(fields(list[0], sep) =~= list);
    } else {
        let init = list.drop_last();
        assert forall|k: int| 0 <= k < init.len() implies !(#[trigger] init[k]).contains(sep) by {
            assert(init[k] == list[k]);
        }
        law_joined_fields_read_back(init, sep);
        let s = joined(init, seq![sep]);
        assert(s + seq![sep] =~= s.push(sep));
        assert(s.push(sep).drop_last() =~= s);
        lemma_fields_append(s.push(sep), last, sep);
        let f = fields(s.push(sep), sep);
        assert(f =~= init.push(Seq::empty()));
        assert(f.drop_last() =~= init);
        assert(Seq::<char>::empty() + last =~= last);
        assert(fields(joined(list, seq![sep]), sep) =~= list);
    }
}

proof fn lemma_fields_append(s: Seq<char>, t: Seq<char>, sep: char)
    requires
        !t.contains(sep),
    ensures
        fields(s, sep).len() > 0,
        fields(s + t, sep) == fields(s, sep).drop_last().push(fields(s, sep).last() + t),
    decreases t.len(),
{
    law_fields_make_the_text(s, sep);
    let f = fields(s, sep);
    if t.len() == 0 {
        assert(s + t =~= s);
        assert(f.last() + t =~= f.last());
        assert(f.drop_last().push(f.last()) =~= f);
    } else {
        let init = t.drop_last();
        assert(!init.contains(sep)) by {
            if init.contains(sep) {
                let i = choose|i: int| 0 <= i < init.len() && init[i] == sep;
                assert(t[i] == sep);
            }
        }
        assert(t[t.len() - 1] != sep);
        lemma_fields_append(s, init, sep);
        assert((s + t).drop_last() =~= s + init);
        let g = fields(s + init, sep);
        assert(g.drop_last() =~= f.drop_last());
        assert(g.last() == f.last() + init);
        assert((f.last() + init).push(t.last()) =~= f.last() + t);
    }
}

/// A number in decimal holds no separator that is not a digit.
pub proof fn law_decimals_are_one_field(n: nat, sep: char)
    requires
        !('0' <= sep <= '9'),
    ensures
        !dec(n).contains(sep),
{
    law_decimals_read_back(n);
    if dec(n).contains(sep) {
        let i = choose|i: int| 0 <= i < dec(n).len() && dec(n)[i] == sep;
        assert('0' <= dec(n)[i] <= '9');
    }
}

/// A list of texts is taken text by text, in order.
pub proof fn law_texts_in_order(v: Seq<Vec<char>>, i: int)
    requires
        0 <= i < v.len(),
    ensures
        texts(v).len() == v.len(),
        texts(v)[i] == v[i]@,
{
}

} // verus!
