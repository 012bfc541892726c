//! Properties of the header store, stated over the models that the store's
//! contracts use.

use vstd::prelude::*;

use crate::headers::{
    content_length_key, count_key, field_line, field_lines, fields_error, fields_valid,
    header_block, host_key, key_of, lemma_lookup_prefix, lookup, values_utf8, FieldView,
};

verus! {

proof fn lemma_count_zero(fs: Seq<FieldView>, k: Seq<char>)
    requires
        forall|m: int| 0 <= m < fs.len() ==> key_of(#[trigger] fs[m].0) != k,
    ensures
        count_key(fs, k) == 0,
    decreases fs.len(),
{
    if fs.len() > 0 {
        assert(key_of(fs[fs.len() - 1].0) != k);
        lemma_count_zero(fs.drop_last(), k);
    }
}

/// A field keyed `k` at `i` counts once more than the fields keyed `k` before it.
proof fn lemma_count_ge(fs: Seq<FieldView>, i: int, k: Seq<char>)
    requires
        0 <= i < fs.len(),
        key_of(fs[i].0) == k,
    ensures
        count_key(fs, k) >= 1 + count_key(fs.take(i), k),
    decreases fs.len(),
{
    if i == fs.len() - 1 {
        assert(fs.drop_last() =~= fs.take(i));
    } else {
        assert(fs.drop_last().take(i) =~= fs.take(i));
        lemma_count_ge(fs.drop_last(), i, k);
    }
}

proof fn lemma_count_two(fs: Seq<FieldView>, i: int, j: int, k: Seq<char>)
    requires
        0 <= i < j < fs.len(),
        key_of(fs[i].0) == k,
        key_of(fs[j].0) == k,
    ensures
        count_key(fs, k) >= 2,
{
    lemma_count_ge(fs, j, k);
    lemma_count_ge(fs.take(j), i, k);
}

proof fn lemma_lookup_witness(fs: Seq<FieldView>, k: Seq<char>) -> (m: int)
    requires
        lookup(fs, k) is Some,
    ensures
        0 <= m < fs.len(),
        key_of(fs[m].0) == k,
        lookup(fs, k) == Some(fs[m].1),
    decreases fs.len(),
{
    if lookup(fs.drop_last(), k) is Some {
        lemma_lookup_witness(fs.drop_last(), k)
    } else {
        fs.len() - 1
    }
}

proof fn lemma_unique_keys_count(fs: Seq<FieldView>, k: Seq<char>)
    requires
        forall|i: int, j: int|
            0 <= i < j < fs.len() ==> key_of(#[trigger] fs[i].0) != key_of(#[trigger] fs[j].0),
    ensures
        count_key(fs, k) <= 1,
    decreases fs.len(),
{
    if fs.len() > 0 {
        let p = fs.drop_last();
        lemma_unique_keys_count(p, k);
        if key_of(fs.last().0) == k {
            assert forall|m: int| 0 <= m < p.len() implies key_of(#[trigger] p[m].0) != k by {
                assert(key_of(fs[m].0) != key_of(fs[fs.len() - 1].0));
            }
            lemma_count_zero(p, k);
        }
    }
}

/// The lines of a block are the fields' lines, one after another, in order.
proof fn lemma_lines_in_order(fs: Seq<FieldView>)
    ensures
        field_lines(fs) == fs.map_values(|f: FieldView| field_line(f)).flatten(),
    decreases fs.len(),
{
    if fs.len() > 0 {
        let p = fs.drop_last();
        lemma_lines_in_order(p);
        let lines = p.map_values(|f: FieldView| field_line(f));
        assert(fs.map_values(|f: FieldView| field_line(f)) =~= lines.push(field_line(fs.last())));
        lines.lemma_flatten_push(field_line(fs.last()));
    } else {
        assert(fs.map_values(|f: FieldView| field_line(f)) =~= Seq::<Seq<u8>>::empty());
    }
}

/// Round trip: a header list whose values are UTF-8 and whose names have
/// distinct keys is accepted as it stands, so the store built from it holds
/// exactly these fields, and their wire block is each field's line in the
/// order given, then the empty line: what serialization returns, byte for byte.
pub proof fn lemma_round_trip(fs: Seq<FieldView>)
    requires
        values_utf8(fs),
        forall|i: int, j: int|
            0 <= i < j < fs.len() ==> key_of(#[trigger] fs[i].0) != key_of(#[trigger] fs[j].0),
    ensures
        fields_error(fs) is None,
        header_block(fs) == fs.map_values(|f: FieldView| field_line(f)).flatten() + seq![13u8, 10u8],
{
    lemma_unique_keys_count(fs, host_key());
    lemma_unique_keys_count(fs, content_length_key());
    lemma_lines_in_order(fs);
}

/// Order preservation: one more field adds its line after all the lines
/// before it, whatever its name, so fields come out in insertion order,
/// duplicates included.
pub proof fn lemma_insert_order(fs: Seq<FieldView>, f: FieldView)
    ensures
        header_block(fs.push(f)) == field_lines(fs) + field_line(f) + seq![13u8, 10u8],
{
    assert(fs.push(f).drop_last() =~= fs);
}

/// Case-insensitive lookup: once a field is added under `name` to a store
/// without a field of its lowercase form, every name with the same lowercase
/// form finds its value.
pub proof fn lemma_lookup_case_insensitive(
    fs: Seq<FieldView>,
    name: Seq<char>,
    value: Seq<u8>,
    query: Seq<char>,
)
    requires
        lookup(fs, key_of(name)) is None,
        key_of(query) == key_of(name),
    ensures
        lookup(fs.push((name, value)), key_of(query)) == Some(value),
{
    assert(fs.push((name, value)).drop_last() =~= fs);
}

/// Lookup keeps the earliest field: fields added later under the same key
/// do not change what a lookup finds.
pub proof fn lemma_lookup_keeps_first(fs: Seq<FieldView>, f: FieldView, k: Seq<char>)
    requires
        lookup(fs, k) is Some,
    ensures
        lookup(fs.push(f), k) == lookup(fs, k),
{
    assert(fs.push(f).drop_last() =~= fs);
}

/// Duplicate rejection: two fields keyed `host`, or two keyed
/// `content-length`, make validation fail.
pub proof fn lemma_duplicate_rejected(fs: Seq<FieldView>, i: int, j: int)
    requires
        0 <= i < j < fs.len(),
        key_of(fs[i].0) == key_of(fs[j].0),
        key_of(fs[i].0) == host_key() || key_of(fs[i].0) == content_length_key(),
    ensures
        !fields_valid(fs),
{
    lemma_count_two(fs, i, j, key_of(fs[i].0));
}

/// Any other name may repeat: adding a field keyed neither `host` nor
/// `content-length` leaves validity as it was.
pub proof fn lemma_other_duplicates_accepted(fs: Seq<FieldView>, f: FieldView)
    requires
        key_of(f.0) != host_key(),
        key_of(f.0) != content_length_key(),
    ensures
        fields_valid(fs.push(f)) == fields_valid(fs),
{
    assert(fs.push(f).drop_last() =~= fs);
}

/// With exactly one `Content-Length` field, its value is the one read.
pub proof fn lemma_content_length_single(fs: Seq<FieldView>, i: int)
    requires
        0 <= i < fs.len(),
        key_of(fs[i].0) == content_length_key(),
        count_key(fs, content_length_key()) == 1,
    ensures
        lookup(fs, content_length_key()) == Some(fs[i].1),
{
    let k = content_length_key();
    assert(fs.take(i + 1)[i] == fs[i]);
    assert(fs.take(i + 1).drop_last() =~= fs.take(i));
    if lookup(fs.take(i), k) is Some {
        let m = lemma_lookup_witness(fs.take(i), k);
        assert(fs.take(i)[m] == fs[m]);
        lemma_count_two(fs, m, i, k);
    }
    lemma_lookup_prefix(fs, i + 1, k);
}

/// With no `Content-Length` field, nothing is read.
pub proof fn lemma_content_length_absent(fs: Seq<FieldView>)
    requires
        count_key(fs, content_length_key()) == 0,
    ensures
        lookup(fs, content_length_key()) is None,
{
    if lookup(fs, content_length_key()) is Some {
        let m = lemma_lookup_witness(fs, content_length_key());
        lemma_count_ge(fs, m, content_length_key());
    }
}

} // verus!
