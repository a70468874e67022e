//! The inline form loses nothing: the text determines the keys and, for each
//! key, the three coordinates.

use vstd::prelude::*;
use crate::decimal::{
    decimal_digits, is_digit, lemma_decimal_digits_are_digits, lemma_decimal_digits_injective,
};
use crate::inline::{inline_text, key_order, lemma_key_order_lists_keys, lines, points_wf};
use crate::point::{
    after_key, before_y, before_z, is_number_byte, line, line_end, PointView,
};

verus! {

/// Whether every byte of `s` meets `inside`.
pub open spec fn all_inside(s: Seq<u8>, inside: spec_fn(u8) -> bool) -> bool {
    forall|i: int| 0 <= i < s.len() ==> inside(#[trigger] s[i])
}

/// A run of bytes of one class, ended by a byte outside the class, can be
/// read off a text in one way only.
pub proof fn lemma_token_is_determined(
    a: Seq<u8>,
    after_a: Seq<u8>,
    b: Seq<u8>,
    after_b: Seq<u8>,
    inside: spec_fn(u8) -> bool,
)
    requires
        all_inside(a, inside),
        all_inside(b, inside),
        after_a.len() > 0 && !inside(after_a[0]),
        after_b.len() > 0 && !inside(after_b[0]),
        a + after_a == b + after_b,
    ensures
        a == b,
        after_a == after_b,
{
    let text = a + after_a;
    if a.len() < b.len() {
        assert(text[a.len() as int] == after_a[0]);
        assert((b + after_b)[a.len() as int] == b[a.len() as int]);
    }
    if b.len() < a.len() {
        assert((b + after_b)[b.len() as int] == after_b[0]);
        assert(text[b.len() as int] == a[b.len() as int]);
    }
    assert(a.len() == b.len());
    assert forall|i: int| 0 <= i < a.len() implies a[i] == b[i] by {
        assert(text[i] == a[i]);
        assert((b + after_b)[i] == b[i]);
    }
    assert(a =~= b);
    assert(text.len() == a.len() + after_a.len());
    assert((b + after_b).len() == b.len() + after_b.len());
    assert forall|i: int| 0 <= i < after_a.len() implies after_a[i] == after_b[i] by {
        assert(text[a.len() + i] == after_a[i]);
        assert((b + after_b)[b.len() + i] == after_b[i]);
    }
    assert(after_a =~= after_b);
}

/// What follows a fixed beginning is determined by the whole.
pub proof fn lemma_same_beginning(beginning: Seq<u8>, a: Seq<u8>, b: Seq<u8>)
    requires
        beginning + a == beginning + b,
    ensures
        a == b,
{
    assert((beginning + a).len() == beginning.len() + a.len());
    assert((beginning + b).len() == beginning.len() + b.len());
    assert forall|i: int| 0 <= i < a.len() implies a[i] == b[i] by {
        assert((beginning + a)[beginning.len() + i] == a[i]);
        assert((beginning + b)[beginning.len() + i] == b[i]);
    }
    assert(a =~= b);
}

/// A line followed by more text can be read in one way only: the key, the
/// three coordinates and the text that follows are determined.
pub proof fn lemma_line_is_determined(
    key_a: u32,
    a: PointView,
    after_a: Seq<u8>,
    key_b: u32,
    b: PointView,
    after_b: Seq<u8>,
)
    requires
        a.wf(),
        b.wf(),
        line(key_a, a) + after_a == line(key_b, b) + after_b,
    ensures
        key_a == key_b,
        a == b,
        after_a == after_b,
{
    let digit = |c: u8| is_digit(c);
    let number = |c: u8| is_number_byte(c);
    // What stands behind each field of the two lines.
    let a4 = line_end() + after_a;
    let b4 = line_end() + after_b;
    let a3 = before_z() + (a.z + a4);
    let b3 = before_z() + (b.z + b4);
    let a2 = before_y() + (a.y + a3);
    let b2 = before_y() + (b.y + b3);
    let a1 = after_key() + (a.x + a2);
    let b1 = after_key() + (b.x + b2);
    let da = decimal_digits(key_a as nat);
    let db = decimal_digits(key_b as nat);
    assert(line(key_a, a) + after_a =~= da + a1);
    assert(line(key_b, b) + after_b =~= db + b1);
    lemma_decimal_digits_are_digits(key_a as nat);
    lemma_decimal_digits_are_digits(key_b as nat);
    assert(all_inside(da, digit));
    assert(all_inside(db, digit));
    assert(a1[0] == after_key()[0]);
    assert(b1[0] == after_key()[0]);
    lemma_token_is_determined(da, a1, db, b1, digit);
    lemma_decimal_digits_injective(key_a as nat, key_b as nat);
    lemma_same_beginning(after_key(), a.x + a2, b.x + b2);
    assert(all_inside(a.x, number));
    assert(all_inside(b.x, number));
    assert(a2[0] == before_y()[0]);
    assert(b2[0] == before_y()[0]);
    lemma_token_is_determined(a.x, a2, b.x, b2, number);
    lemma_same_beginning(before_y(), a.y + a3, b.y + b3);
    assert(all_inside(a.y, number));
    assert(all_inside(b.y, number));
    assert(a3[0] == before_z()[0]);
    assert(b3[0] == before_z()[0]);
    lemma_token_is_determined(a.y, a3, b.y, b3, number);
    lemma_same_beginning(before_z(), a.z + a4, b.z + b4);
    assert(all_inside(a.z, number));
    assert(all_inside(b.z, number));
    assert(a4[0] == line_end()[0]);
    assert(b4[0] == line_end()[0]);
    lemma_token_is_determined(a.z, a4, b.z, b4, number);
    lemma_same_beginning(line_end(), after_a, after_b);
}

/// The lines of a list are the line of its first key and then the lines of
/// the others.
pub proof fn lemma_lines_first(keys: Seq<u32>, m: Map<u32, PointView>)
    requires
        keys.len() > 0,
    ensures
        lines(keys, m) == line(keys[0], m[keys[0]]) + lines(keys.drop_first(), m),
    decreases keys.len(),
{
    if keys.len() == 1 {
        assert(keys.drop_last() =~= Seq::<u32>::empty());
        assert(keys.drop_first() =~= Seq::<u32>::empty());
        assert(lines(keys, m) =~= line(keys[0], m[keys[0]]) + lines(keys.drop_first(), m));
    } else {
        lemma_lines_first(keys.drop_last(), m);
        assert(keys.drop_last().drop_first() =~= keys.drop_first().drop_last());
        assert(keys.drop_first().last() == keys.last());
        assert(lines(keys, m) =~= line(keys[0], m[keys[0]]) + lines(keys.drop_first(), m));
    }
}

/// The lines determine the list of keys and the point under each of them.
pub proof fn lemma_lines_are_determined(
    keys_a: Seq<u32>,
    a: Map<u32, PointView>,
    keys_b: Seq<u32>,
    b: Map<u32, PointView>,
)
    requires
        forall|i: int| 0 <= i < keys_a.len() ==> (#[trigger] a[keys_a[i]]).wf(),
        forall|i: int| 0 <= i < keys_b.len() ==> (#[trigger] b[keys_b[i]]).wf(),
        lines(keys_a, a) == lines(keys_b, b),
    ensures
        keys_a == keys_b,
        forall|i: int| 0 <= i < keys_a.len() ==> a[#[trigger] keys_a[i]] == b[keys_b[i]],
    decreases keys_a.len(),
{
    if keys_a.len() == 0 {
        if keys_b.len() > 0 {
            lemma_lines_first(keys_b, b);
            lemma_decimal_digits_are_digits(keys_b[0] as nat);
            assert(lines(keys_b, b).len() > 0);
        }
        assert(keys_a =~= keys_b);
    } else if keys_b.len() == 0 {
        lemma_lines_first(keys_a, a);
        lemma_decimal_digits_are_digits(keys_a[0] as nat);
        assert(lines(keys_a, a).len() > 0);
    } else {
        lemma_lines_first(keys_a, a);
        lemma_lines_first(keys_b, b);
        let rest_a = keys_a.drop_first();
        let rest_b = keys_b.drop_first();
        assert(a[keys_a[0]].wf());
        assert(b[keys_b[0]].wf());
        lemma_line_is_determined(
            keys_a[0],
            a[keys_a[0]],
            lines(rest_a, a),
            keys_b[0],
            b[keys_b[0]],
            lines(rest_b, b),
        );
        assert forall|i: int| 0 <= i < rest_a.len() implies (#[trigger] a[rest_a[i]]).wf() by {
            assert(a[keys_a[i + 1]].wf());
        }
        assert forall|i: int| 0 <= i < rest_b.len() implies (#[trigger] b[rest_b[i]]).wf() by {
            assert(b[keys_b[i + 1]].wf());
        }
        lemma_lines_are_determined(rest_a, a, rest_b, b);
        assert(keys_a =~= seq![keys_a[0]] + rest_a);
        assert(keys_b =~= seq![keys_b[0]] + rest_b);
        assert forall|i: int| 0 <= i < keys_a.len() implies a[#[trigger] keys_a[i]]
            == b[keys_b[i]] by {
            if i > 0 {
                assert(a[rest_a[i - 1]] == b[rest_b[i - 1]]);
            }
        }
    }
}

/// Two sets of well-formed points with the same inline form are the same
/// set: the inline form can be read back into the keys and, for each key,
/// the coordinates that it was written from.
pub proof fn lemma_inline_text_is_lossless(a: Map<u32, PointView>, b: Map<u32, PointView>)
    requires
        points_wf(a),
        points_wf(b),
        inline_text(a) == inline_text(b),
    ensures
        a == b,
{
    let keys_a = key_order(a);
    let keys_b = key_order(b);
    lemma_key_order_lists_keys(a);
    lemma_key_order_lists_keys(b);
    assert forall|i: int| 0 <= i < keys_a.len() implies (#[trigger] a[keys_a[i]]).wf() by {
        assert(keys_a.contains(keys_a[i]));
    }
    assert forall|i: int| 0 <= i < keys_b.len() implies (#[trigger] b[keys_b[i]]).wf() by {
        assert(keys_b.contains(keys_b[i]));
    }
    lemma_lines_are_determined(keys_a, a, keys_b, b);
    assert forall|k: u32| a.contains_key(k) implies #[trigger] b.contains_key(k) && a[k] == b[k] by {
        assert(keys_a.contains(k));
        let i = choose|i: int| 0 <= i < keys_a.len() && keys_a[i] == k;
        assert(a[keys_a[i]] == b[keys_b[i]]);
    }
    assert forall|k: u32| b.contains_key(k) implies #[trigger] a.contains_key(k) by {
        assert(keys_b.contains(k));
    }
    assert(a =~= b);
}

/// The points that a text in the inline form was written from.
pub open spec fn read_back(text: Seq<u8>) -> Map<u32, PointView> {
    choose|m: Map<u32, PointView>| points_wf(m) && inline_text(m) == text
}

/// To read the inline form of a set of well-formed points back gives that
/// set: the same keys and, under each key, the same three coordinates.
pub proof fn lemma_read_back_restores(m: Map<u32, PointView>)
    requires
        points_wf(m),
    ensures
        read_back(inline_text(m)) == m,
{
    lemma_inline_text_is_lossless(read_back(inline_text(m)), m);
}

} // verus!
