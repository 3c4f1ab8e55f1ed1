//! The on-disk state document: a pretty-printed JSON rendering of
//! `UpdaterState` and its parser, with a proved round trip
//! (`lemma_parse_render_state`): loading a saved document gives the saved
//! state back, field for field.

use vstd::prelude::*;

use crate::cache::{
    deep_slots, spec_fresh_state, wf, Slot, SlotV, StateV, UpdaterState,
};
use crate::json::{
    match_lit, parse_jstring, parse_uint, spec_jstring, spec_match_lit, spec_parse_jstring,
    spec_parse_uint, lemma_parse_jstring_render, lemma_parse_uint_render, lemma_subrange_pointwise,
};
use crate::text::{
    append_str_chars, chars_to_string, is_digit_char, render_uint_into, spec_uint_chars,
    str_eq, str_to_chars, lemma_uint_chars_digits,
};
use crate::json::render_jstring_into;

verus! {

// ---------------------------------------------------------------------------
// Rendering
// ---------------------------------------------------------------------------
/// An optional number: `null`, or its digits.
pub open spec fn spec_opt_uint_chars(o: Option<usize>) -> Seq<char> {
    match o {
        None => "null"@,
        Some(n) => spec_uint_chars(n as nat),
    }
}

/// The elements of a number array, one per indented line, with the closing
/// bracket.
pub open spec fn spec_uint_items_chars(l: Seq<usize>) -> Seq<char>
    decreases l.len(),
{
    if l.len() == 0 {
        "\n  ]"@
    } else if l.len() == 1 {
        spec_uint_chars(l[0] as nat) + "\n  ]"@
    } else {
        spec_uint_chars(l[0] as nat) + (",\n    "@ + spec_uint_items_chars(l.skip(1)))
    }
}

/// A JSON array of numbers, pretty-printed.
pub open spec fn spec_uint_arr_chars(l: Seq<usize>) -> Seq<char> {
    if l.len() == 0 {
        "[]"@
    } else {
        "[\n    "@ + spec_uint_items_chars(l)
    }
}

/// One slot record, pretty-printed at its place in the slot array.
pub open spec fn spec_slot_chars(sl: SlotV) -> Seq<char> {
    "{\n      \"path\": "@ + (spec_jstring(sl.path) + (",\n      \"patch_number\": "@
        + (spec_uint_chars(sl.patch_number as nat) + "\n    }"@)))
}

/// The elements of the slot array, one per indented line, with the closing
/// bracket.
pub open spec fn spec_slot_items_chars(l: Seq<SlotV>) -> Seq<char>
    decreases l.len(),
{
    if l.len() == 0 {
        "\n  ]"@
    } else if l.len() == 1 {
        spec_slot_chars(l[0]) + "\n  ]"@
    } else {
        spec_slot_chars(l[0]) + (",\n    "@ + spec_slot_items_chars(l.skip(1)))
    }
}

/// The JSON array of slots, pretty-printed.
pub open spec fn spec_slots_arr_chars(l: Seq<SlotV>) -> Seq<char> {
    if l.len() == 0 {
        "[]"@
    } else {
        "[\n    "@ + spec_slot_items_chars(l)
    }
}

/// The document from the `slots` field on: the last field and the closing
/// brace.
pub open spec fn spec_doc_tail_slots(v: StateV) -> Seq<char> {
    ",\n  \"slots\": "@ + (spec_slots_arr_chars(v.slots) + "\n}"@)
}

/// The document from the `current_slot_index` field on.
pub open spec fn spec_doc_tail_current(v: StateV) -> Seq<char> {
    ",\n  \"current_slot_index\": "@ + (spec_opt_uint_chars(v.current_slot_index)
        + spec_doc_tail_slots(v))
}

/// The document from the `successful_patches` field on.
pub open spec fn spec_doc_tail_successful(v: StateV) -> Seq<char> {
    ",\n  \"successful_patches\": "@ + (spec_uint_arr_chars(v.successful_patches)
        + spec_doc_tail_current(v))
}

/// The document from the `failed_patches` field on.
pub open spec fn spec_doc_tail_failed(v: StateV) -> Seq<char> {
    ",\n  \"failed_patches\": "@ + (spec_uint_arr_chars(v.failed_patches)
        + spec_doc_tail_successful(v))
}

/// The document from the `latest_downloaded_patch` field on.
pub open spec fn spec_doc_tail_latest(v: StateV) -> Seq<char> {
    ",\n  \"latest_downloaded_patch\": "@ + (spec_opt_uint_chars(v.latest_downloaded_patch)
        + spec_doc_tail_failed(v))
}

/// The document from the `release_version` field on.
pub open spec fn spec_doc_tail_release(v: StateV) -> Seq<char> {
    ",\n  \"release_version\": "@ + (spec_jstring(v.release_version) + spec_doc_tail_latest(v))
}

/// The whole state document, pretty-printed, in the field order of the
/// struct.
pub open spec fn spec_render_state(v: StateV) -> Seq<char> {
    "{\n  \"cache_dir\": "@ + (spec_jstring(v.cache_dir) + spec_doc_tail_release(v))
}

// ---------------------------------------------------------------------------
// Parsing (specification)
// ---------------------------------------------------------------------------
/// `null` or a number.
pub open spec fn spec_parse_opt_uint(s: Seq<char>, i: int) -> Option<(Option<usize>, int)> {
    if spec_match_lit(s, i, "null"@) {
        Some((None, i + "null"@.len()))
    } else {
        match spec_parse_uint(s, i) {
            Some((n, j)) => Some((Some(n), j)),
            None => None,
        }
    }
}

/// The elements of a number array after the opening line, up to and
/// including the closing bracket.
pub open spec fn spec_parse_uint_items(s: Seq<char>, i: int) -> Option<(Seq<usize>, int)>
    decreases s.len() - i when 0 <= i <= s.len()
{
    match spec_parse_uint(s, i) {
        None => None,
        Some((n, j)) => if i < j && spec_match_lit(s, j, ",\n    "@) {
            match spec_parse_uint_items(s, j + ",\n    "@.len()) {
                Some((l, e)) => Some((seq![n] + l, e)),
                None => None,
            }
        } else if i < j && spec_match_lit(s, j, "\n  ]"@) {
            Some((seq![n], j + "\n  ]"@.len()))
        } else {
            None
        },
    }
}

/// A pretty-printed JSON array of numbers.
pub open spec fn spec_parse_uint_arr(s: Seq<char>, i: int) -> Option<(Seq<usize>, int)> {
    if spec_match_lit(s, i, "[]"@) {
        Some((Seq::empty(), i + "[]"@.len()))
    } else if spec_match_lit(s, i, "[\n    "@) {
        spec_parse_uint_items(s, i + "[\n    "@.len())
    } else {
        None
    }
}

/// One slot record.
pub open spec fn spec_parse_slot(s: Seq<char>, i: int) -> Option<(SlotV, int)> {
    if spec_match_lit(s, i, "{\n      \"path\": "@) {
        match spec_parse_jstring(s, i + "{\n      \"path\": "@.len()) {
            Some((p, j)) => if spec_match_lit(s, j, ",\n      \"patch_number\": "@) {
                match spec_parse_uint(s, j + ",\n      \"patch_number\": "@.len()) {
                    Some((n, k)) => if spec_match_lit(s, k, "\n    }"@) {
                        Some((SlotV { path: p, patch_number: n }, k + "\n    }"@.len()))
                    } else {
                        None
                    },
                    None => None,
                }
            } else {
                None
            },
            None => None,
        }
    } else {
        None
    }
}

/// The elements of the slot array after the opening line, up to and
/// including the closing bracket.
pub open spec fn spec_parse_slot_items(s: Seq<char>, i: int) -> Option<(Seq<SlotV>, int)>
    decreases s.len() - i when 0 <= i <= s.len()
{
    match spec_parse_slot(s, i) {
        None => None,
        Some((sl, j)) => if i < j && spec_match_lit(s, j, ",\n    "@) {
            match spec_parse_slot_items(s, j + ",\n    "@.len()) {
                Some((l, e)) => Some((seq![sl] + l, e)),
                None => None,
            }
        } else if i < j && spec_match_lit(s, j, "\n  ]"@) {
            Some((seq![sl], j + "\n  ]"@.len()))
        } else {
            None
        },
    }
}

/// The pretty-printed JSON array of slots.
pub open spec fn spec_parse_slots_arr(s: Seq<char>, i: int) -> Option<(Seq<SlotV>, int)> {
    if spec_match_lit(s, i, "[]"@) {
        Some((Seq::empty(), i + "[]"@.len()))
    } else if spec_match_lit(s, i, "[\n    "@) {
        spec_parse_slot_items(s, i + "[\n    "@.len())
    } else {
        None
    }
}

/// After the `slots` field: the closing brace must end the input.
pub open spec fn spec_ps_slots(
    s: Seq<char>,
    i: int,
    cache_dir: Seq<char>,
    release_version: Seq<char>,
    latest: Option<usize>,
    failed: Seq<usize>,
    successful: Seq<usize>,
    current: Option<usize>,
) -> Option<StateV> {
    if spec_match_lit(s, i, ",\n  \"slots\": "@) {
        match spec_parse_slots_arr(s, i + ",\n  \"slots\": "@.len()) {
            Some((slots, j)) => if spec_match_lit(s, j, "\n}"@) && j + "\n}"@.len() == s.len() {
                Some(
                    StateV {
                        cache_dir: cache_dir,
                        release_version: release_version,
                        latest_downloaded_patch: latest,
                        failed_patches: failed,
                        successful_patches: successful,
                        current_slot_index: current,
                        slots: slots,
                    },
                )
            } else {
                None
            },
            None => None,
        }
    } else {
        None
    }
}

/// The `current_slot_index` field, then the rest.
pub open spec fn spec_ps_current(
    s: Seq<char>,
    i: int,
    cache_dir: Seq<char>,
    release_version: Seq<char>,
    latest: Option<usize>,
    failed: Seq<usize>,
    successful: Seq<usize>,
) -> Option<StateV> {
    if spec_match_lit(s, i, ",\n  \"current_slot_index\": "@) {
        match spec_parse_opt_uint(s, i + ",\n  \"current_slot_index\": "@.len()) {
            Some((current, j)) => spec_ps_slots(
                s,
                j,
                cache_dir,
                release_version,
                latest,
                failed,
                successful,
                current,
            ),
            None => None,
        }
    } else {
        None
    }
}

/// The `successful_patches` field, then the rest.
pub open spec fn spec_ps_successful(
    s: Seq<char>,
    i: int,
    cache_dir: Seq<char>,
    release_version: Seq<char>,
    latest: Option<usize>,
    failed: Seq<usize>,
) -> Option<StateV> {
    if spec_match_lit(s, i, ",\n  \"successful_patches\": "@) {
        match spec_parse_uint_arr(s, i + ",\n  \"successful_patches\": "@.len()) {
            Some((successful, j)) => spec_ps_current(
                s,
                j,
                cache_dir,
                release_version,
                latest,
                failed,
                successful,
            ),
            None => None,
        }
    } else {
        None
    }
}

/// The `failed_patches` field, then the rest.
pub open spec fn spec_ps_failed(
    s: Seq<char>,
    i: int,
    cache_dir: Seq<char>,
    release_version: Seq<char>,
    latest: Option<usize>,
) -> Option<StateV> {
    if spec_match_lit(s, i, ",\n  \"failed_patches\": "@) {
        match spec_parse_uint_arr(s, i + ",\n  \"failed_patches\": "@.len()) {
            Some((failed, j)) => spec_ps_successful(s, j, cache_dir, release_version, latest, failed),
            None => None,
        }
    } else {
        None
    }
}

/// The `latest_downloaded_patch` field, then the rest.
pub open spec fn spec_ps_latest(
    s: Seq<char>,
    i: int,
    cache_dir: Seq<char>,
    release_version: Seq<char>,
) -> Option<StateV> {
    if spec_match_lit(s, i, ",\n  \"latest_downloaded_patch\": "@) {
        match spec_parse_opt_uint(s, i + ",\n  \"latest_downloaded_patch\": "@.len()) {
            Some((latest, j)) => spec_ps_failed(s, j, cache_dir, release_version, latest),
            None => None,
        }
    } else {
        None
    }
}

/// The `release_version` field, then the rest.
pub open spec fn spec_ps_release(s: Seq<char>, i: int, cache_dir: Seq<char>) -> Option<StateV> {
    if spec_match_lit(s, i, ",\n  \"release_version\": "@) {
        match spec_parse_jstring(s, i + ",\n  \"release_version\": "@.len()) {
            Some((release_version, j)) => spec_ps_latest(s, j, cache_dir, release_version),
            None => None,
        }
    } else {
        None
    }
}

/// The whole state document: the seven fields in order, then the closing
/// brace, which must end the input.
pub open spec fn spec_parse_state(s: Seq<char>) -> Option<StateV> {
    if spec_match_lit(s, 0, "{\n  \"cache_dir\": "@) {
        match spec_parse_jstring(s, "{\n  \"cache_dir\": "@.len() as int) {
            Some((cache_dir, j)) => spec_ps_release(s, j, cache_dir),
            None => None,
        }
    } else {
        None
    }
}

// ---------------------------------------------------------------------------
// Round trip: parsing a rendered document gives the document back
// ---------------------------------------------------------------------------
/// Splitting a known subrange: where `x + y` stands at `i`, `x` stands at
/// `i` and `y` right after it.
proof fn lemma_concat_sub(s: Seq<char>, i: int, x: Seq<char>, y: Seq<char>)
    requires
        0 <= i,
        i + x.len() + y.len() <= s.len(),
        s.subrange(i, i + x.len() + y.len()) == x + y,
    ensures
        s.subrange(i, i + x.len() as int) == x,
        s.subrange(i + x.len(), i + x.len() + y.len()) == y,
{
    let xy = x + y;
    lemma_subrange_pointwise(s, i, xy);
    assert(s.subrange(i, i + x.len() as int) =~= x) by {
        assert forall|t: int| 0 <= t < x.len() implies s.subrange(i, i + x.len() as int)[t] == x[t] by {
            assert(s[i + t] == xy[t]);
        }
    }
    assert(s.subrange(i + x.len(), i + x.len() + y.len()) =~= y) by {
        assert forall|t: int|
            0 <= t < y.len() implies s.subrange(i + x.len(), i + x.len() + y.len())[t] == y[t] by {
            assert(s[i + x.len() + t] == xy[x.len() + t]);
        }
    }
}

/// An optional number followed by a non-digit parses back to itself.
proof fn lemma_parse_opt_uint_render(s: Seq<char>, i: int, o: Option<usize>)
    requires
        0 <= i,
        i + spec_opt_uint_chars(o).len() < s.len(),
        s.subrange(i, i + spec_opt_uint_chars(o).len() as int) == spec_opt_uint_chars(o),
        !is_digit_char(s[i + spec_opt_uint_chars(o).len()]),
    ensures
        spec_parse_opt_uint(s, i) == Some((o, i + spec_opt_uint_chars(o).len())),
{
    reveal_strlit("null");
    match o {
        None => {
            assert(spec_match_lit(s, i, "null"@));
        },
        Some(n) => {
            let d = spec_uint_chars(n as nat);
            lemma_uint_chars_digits(n as nat);
            lemma_subrange_pointwise(s, i, d);
            assert(s[i] == d[0]);
            assert(!spec_match_lit(s, i, "null"@)) by {
                if spec_match_lit(s, i, "null"@) {
                    lemma_subrange_pointwise(s, i, "null"@);
                    assert(s[i] == 'n');
                }
            }
            lemma_parse_uint_render(s, i, n);
        },
    }
}

/// The elements of a rendered number array parse back to the list.
proof fn lemma_parse_uint_items_render(s: Seq<char>, i: int, l: Seq<usize>)
    requires
        l.len() >= 1,
        0 <= i,
        i + spec_uint_items_chars(l).len() <= s.len(),
        s.subrange(i, i + spec_uint_items_chars(l).len() as int) == spec_uint_items_chars(l),
    ensures
        spec_parse_uint_items(s, i) == Some((l, i + spec_uint_items_chars(l).len())),
    decreases l.len(),
{
    let sep = ",\n    "@;
    let term = "\n  ]"@;
    reveal_strlit(",\n    ");
    reveal_strlit("\n  ]");
    let d = spec_uint_chars(l[0] as nat);
    lemma_uint_chars_digits(l[0] as nat);
    if l.len() == 1 {
        lemma_concat_sub(s, i, d, term);
        lemma_subrange_pointwise(s, i + d.len(), term);
        let j = i + d.len() as int;
        assert(s[j] == '\n');
        lemma_parse_uint_render(s, i, l[0]);
        assert(!spec_match_lit(s, j, sep)) by {
            if spec_match_lit(s, j, sep) {
                lemma_subrange_pointwise(s, j, sep);
                assert(s[j] == ',');
            }
        }
        assert(spec_parse_uint_items(s, i) == Some((seq![l[0]], j + term.len())));
        assert(seq![l[0]] =~= l);
    } else {
        let tail = sep + spec_uint_items_chars(l.skip(1));
        lemma_concat_sub(s, i, d, tail);
        let j = i + d.len() as int;
        lemma_concat_sub(s, j, sep, spec_uint_items_chars(l.skip(1)));
        lemma_subrange_pointwise(s, j, sep);
        assert(s[j] == ',');
        lemma_parse_uint_render(s, i, l[0]);
        lemma_parse_uint_items_render(s, j + sep.len(), l.skip(1));
        assert(seq![l[0]] + l.skip(1) =~= l);
    }
}

/// A rendered number array parses back to the list.
proof fn lemma_parse_uint_arr_render(s: Seq<char>, i: int, l: Seq<usize>)
    requires
        0 <= i,
        i + spec_uint_arr_chars(l).len() <= s.len(),
        s.subrange(i, i + spec_uint_arr_chars(l).len() as int) == spec_uint_arr_chars(l),
    ensures
        spec_parse_uint_arr(s, i) == Some((l, i + spec_uint_arr_chars(l).len())),
{
    reveal_strlit("[]");
    reveal_strlit("[\n    ");
    if l.len() == 0 {
        assert(spec_match_lit(s, i, "[]"@));
        assert(spec_parse_uint_arr(s, i) == Some((Seq::<usize>::empty(), i + 2)));
        assert(Seq::<usize>::empty() =~= l);
    } else {
        let pre = "[\n    "@;
        let items = spec_uint_items_chars(l);
        lemma_concat_sub(s, i, pre, items);
        lemma_subrange_pointwise(s, i, pre);
        assert(s[i + 1] == '\n');
        assert(!spec_match_lit(s, i, "[]"@)) by {
            if spec_match_lit(s, i, "[]"@) {
                lemma_subrange_pointwise(s, i, "[]"@);
                assert(s[i + 1] == ']');
            }
        }
        assert(spec_match_lit(s, i, pre));
        lemma_parse_uint_items_render(s, i + pre.len(), l);
    }
}

/// A rendered slot record parses back to the slot.
proof fn lemma_parse_slot_render(s: Seq<char>, i: int, sl: SlotV)
    requires
        0 <= i,
        i + spec_slot_chars(sl).len() <= s.len(),
        s.subrange(i, i + spec_slot_chars(sl).len() as int) == spec_slot_chars(sl),
    ensures
        spec_parse_slot(s, i) == Some((sl, i + spec_slot_chars(sl).len())),
{
    let l1 = "{\n      \"path\": "@;
    let l2 = ",\n      \"patch_number\": "@;
    let term = "\n    }"@;
    reveal_strlit("\n    }");
    let js = spec_jstring(sl.path);
    let d = spec_uint_chars(sl.patch_number as nat);
    let r1 = js + (l2 + (d + term));
    let r2 = l2 + (d + term);
    let r3 = d + term;
    lemma_concat_sub(s, i, l1, r1);
    let p1 = i + l1.len() as int;
    lemma_concat_sub(s, p1, js, r2);
    let p2 = p1 + js.len() as int;
    lemma_concat_sub(s, p2, l2, r3);
    let p3 = p2 + l2.len() as int;
    lemma_concat_sub(s, p3, d, term);
    let p4 = p3 + d.len() as int;
    lemma_subrange_pointwise(s, p4, term);
    assert(s[p4] == '\n');
    assert(spec_match_lit(s, i, l1));
    lemma_parse_jstring_render(s, p1, sl.path);
    assert(spec_match_lit(s, p2, l2));
    lemma_parse_uint_render(s, p3, sl.patch_number);
    assert(spec_match_lit(s, p4, term));
    assert(spec_parse_slot(s, i) matches Some((sl2, e)) && sl2 =~= sl && e == p4 + term.len());
}

/// The elements of the rendered slot array parse back to the list.
proof fn lemma_parse_slot_items_render(s: Seq<char>, i: int, l: Seq<SlotV>)
    requires
        l.len() >= 1,
        0 <= i,
        i + spec_slot_items_chars(l).len() <= s.len(),
        s.subrange(i, i + spec_slot_items_chars(l).len() as int) == spec_slot_items_chars(l),
    ensures
        spec_parse_slot_items(s, i) == Some((l, i + spec_slot_items_chars(l).len())),
    decreases l.len(),
{
    let sep = ",\n    "@;
    let term = "\n  ]"@;
    reveal_strlit(",\n    ");
    reveal_strlit("\n  ]");
    let d = spec_slot_chars(l[0]);
    if l.len() == 1 {
        lemma_concat_sub(s, i, d, term);
        lemma_subrange_pointwise(s, i + d.len(), term);
        let j = i + d.len() as int;
        lemma_parse_slot_render(s, i, l[0]);
        assert(!spec_match_lit(s, j, sep)) by {
            if spec_match_lit(s, j, sep) {
                lemma_subrange_pointwise(s, j, sep);
                assert(s[j] == ',');
            }
        }
        assert(spec_match_lit(s, j, term));
        assert(spec_parse_slot_items(s, i) == Some((seq![l[0]], j + term.len())));
        assert(seq![l[0]] =~= l);
    } else {
        let tail = sep + spec_slot_items_chars(l.skip(1));
        lemma_concat_sub(s, i, d, tail);
        let j = i + d.len() as int;
        lemma_concat_sub(s, j, sep, spec_slot_items_chars(l.skip(1)));
        lemma_subrange_pointwise(s, j, sep);
        lemma_parse_slot_render(s, i, l[0]);
        assert(spec_match_lit(s, j, sep));
        lemma_parse_slot_items_render(s, j + sep.len(), l.skip(1));
        assert(seq![l[0]] + l.skip(1) =~= l);
    }
}

/// A rendered slot array parses back to the list.
proof fn lemma_parse_slots_arr_render(s: Seq<char>, i: int, l: Seq<SlotV>)
    requires
        0 <= i,
        i + spec_slots_arr_chars(l).len() <= s.len(),
        s.subrange(i, i + spec_slots_arr_chars(l).len() as int) == spec_slots_arr_chars(l),
    ensures
        spec_parse_slots_arr(s, i) == Some((l, i + spec_slots_arr_chars(l).len())),
{
    reveal_strlit("[]");
    reveal_strlit("[\n    ");
    if l.len() == 0 {
        assert(spec_match_lit(s, i, "[]"@));
        assert(spec_parse_slots_arr(s, i) == Some((Seq::<SlotV>::empty(), i + 2)));
        assert(Seq::<SlotV>::empty() =~= l);
    } else {
        let pre = "[\n    "@;
        let items = spec_slot_items_chars(l);
        lemma_concat_sub(s, i, pre, items);
        lemma_subrange_pointwise(s, i, pre);
        assert(s[i + 1] == '\n');
        assert(!spec_match_lit(s, i, "[]"@)) by {
            if spec_match_lit(s, i, "[]"@) {
                lemma_subrange_pointwise(s, i, "[]"@);
                assert(s[i + 1] == ']');
            }
        }
        assert(spec_match_lit(s, i, pre));
        lemma_parse_slot_items_render(s, i + pre.len(), l);
    }
}

/// Parsing the tail from the `slots` field gives the document's slots back.
proof fn lemma_ps_slots_at(s: Seq<char>, i: int, v: StateV)
    requires
        0 <= i,
        i + spec_doc_tail_slots(v).len() == s.len(),
        s.subrange(i, s.len() as int) == spec_doc_tail_slots(v),
    ensures
        spec_ps_slots(
            s,
            i,
            v.cache_dir,
            v.release_version,
            v.latest_downloaded_patch,
            v.failed_patches,
            v.successful_patches,
            v.current_slot_index,
        ) == Some(v),
{
    let l7 = ",\n  \"slots\": "@;
    let closer = "\n}"@;
    let sl = spec_slots_arr_chars(v.slots);
    lemma_concat_sub(s, i, l7, sl + closer);
    let p = i + l7.len() as int;
    lemma_concat_sub(s, p, sl, closer);
    let q = p + sl.len() as int;
    assert(spec_match_lit(s, q, closer));
    assert(spec_match_lit(s, i, l7));
    lemma_parse_slots_arr_render(s, p, v.slots);
    assert(spec_ps_slots(
        s,
        i,
        v.cache_dir,
        v.release_version,
        v.latest_downloaded_patch,
        v.failed_patches,
        v.successful_patches,
        v.current_slot_index,
    ) matches Some(v2) && v2 =~~= v);
}

/// Parsing the tail from the `current_slot_index` field on.
proof fn lemma_ps_current_at(s: Seq<char>, i: int, v: StateV)
    requires
        0 <= i,
        i + spec_doc_tail_current(v).len() == s.len(),
        s.subrange(i, s.len() as int) == spec_doc_tail_current(v),
    ensures
        spec_ps_current(
            s,
            i,
            v.cache_dir,
            v.release_version,
            v.latest_downloaded_patch,
            v.failed_patches,
            v.successful_patches,
        ) == Some(v),
{
    let l6 = ",\n  \"current_slot_index\": "@;
    let o2 = spec_opt_uint_chars(v.current_slot_index);
    lemma_concat_sub(s, i, l6, o2 + spec_doc_tail_slots(v));
    let p = i + l6.len() as int;
    lemma_concat_sub(s, p, o2, spec_doc_tail_slots(v));
    let q = p + o2.len() as int;
    assert(spec_match_lit(s, i, l6));
    reveal_strlit(",\n  \"slots\": ");
    lemma_subrange_pointwise(s, q, spec_doc_tail_slots(v));
    assert(s[q] == ',');
    lemma_parse_opt_uint_render(s, p, v.current_slot_index);
    lemma_ps_slots_at(s, q, v);
}

/// Parsing the tail from the `successful_patches` field on.
proof fn lemma_ps_successful_at(s: Seq<char>, i: int, v: StateV)
    requires
        0 <= i,
        i + spec_doc_tail_successful(v).len() == s.len(),
        s.subrange(i, s.len() as int) == spec_doc_tail_successful(v),
    ensures
        spec_ps_successful(
            s,
            i,
            v.cache_dir,
            v.release_version,
            v.latest_downloaded_patch,
            v.failed_patches,
        ) == Some(v),
{
    let l5 = ",\n  \"successful_patches\": "@;
    let a2 = spec_uint_arr_chars(v.successful_patches);
    lemma_concat_sub(s, i, l5, a2 + spec_doc_tail_current(v));
    let p = i + l5.len() as int;
    lemma_concat_sub(s, p, a2, spec_doc_tail_current(v));
    let q = p + a2.len() as int;
    assert(spec_match_lit(s, i, l5));
    lemma_parse_uint_arr_render(s, p, v.successful_patches);
    lemma_ps_current_at(s, q, v);
}

/// Parsing the tail from the `failed_patches` field on.
proof fn lemma_ps_failed_at(s: Seq<char>, i: int, v: StateV)
    requires
        0 <= i,
        i + spec_doc_tail_failed(v).len() == s.len(),
        s.subrange(i, s.len() as int) == spec_doc_tail_failed(v),
    ensures
        spec_ps_failed(s, i, v.cache_dir, v.release_version, v.latest_downloaded_patch) == Some(v),
{
    let l4 = ",\n  \"failed_patches\": "@;
    let a1 = spec_uint_arr_chars(v.failed_patches);
    lemma_concat_sub(s, i, l4, a1 + spec_doc_tail_successful(v));
    let p = i + l4.len() as int;
    lemma_concat_sub(s, p, a1, spec_doc_tail_successful(v));
    let q = p + a1.len() as int;
    assert(spec_match_lit(s, i, l4));
    lemma_parse_uint_arr_render(s, p, v.failed_patches);
    lemma_ps_successful_at(s, q, v);
}

/// Parsing the tail from the `latest_downloaded_patch` field on.
proof fn lemma_ps_latest_at(s: Seq<char>, i: int, v: StateV)
    requires
        0 <= i,
        i + spec_doc_tail_latest(v).len() == s.len(),
        s.subrange(i, s.len() as int) == spec_doc_tail_latest(v),
    ensures
        spec_ps_latest(s, i, v.cache_dir, v.release_version) == Some(v),
{
    let l3 = ",\n  \"latest_downloaded_patch\": "@;
    let o1 = spec_opt_uint_chars(v.latest_downloaded_patch);
    lemma_concat_sub(s, i, l3, o1 + spec_doc_tail_failed(v));
    let p = i + l3.len() as int;
    lemma_concat_sub(s, p, o1, spec_doc_tail_failed(v));
    let q = p + o1.len() as int;
    assert(spec_match_lit(s, i, l3));
    reveal_strlit(",\n  \"failed_patches\": ");
    lemma_subrange_pointwise(s, q, spec_doc_tail_failed(v));
    assert(s[q] == ',');
    lemma_parse_opt_uint_render(s, p, v.latest_downloaded_patch);
    lemma_ps_failed_at(s, q, v);
}

/// Parsing the tail from the `release_version` field on.
proof fn lemma_ps_release_at(s: Seq<char>, i: int, v: StateV)
    requires
        0 <= i,
        i + spec_doc_tail_release(v).len() == s.len(),
        s.subrange(i, s.len() as int) == spec_doc_tail_release(v),
    ensures
        spec_ps_release(s, i, v.cache_dir) == Some(v),
{
    let l2 = ",\n  \"release_version\": "@;
    let j2 = spec_jstring(v.release_version);
    lemma_concat_sub(s, i, l2, j2 + spec_doc_tail_latest(v));
    let p = i + l2.len() as int;
    lemma_concat_sub(s, p, j2, spec_doc_tail_latest(v));
    let q = p + j2.len() as int;
    assert(spec_match_lit(s, i, l2));
    lemma_parse_jstring_render(s, p, v.release_version);
    lemma_ps_latest_at(s, q, v);
}

/// The round trip of the state document: parsing the rendering of any state
/// gives that state back, field for field.  Saving and then loading the
/// document is the identity.
pub proof fn lemma_parse_render_state(v: StateV)
    ensures
        spec_parse_state(spec_render_state(v)) == Some(v),
{
    let s = spec_render_state(v);
    let l1 = "{\n  \"cache_dir\": "@;
    let j1 = spec_jstring(v.cache_dir);
    assert(s.subrange(0, s.len() as int) =~= s);
    lemma_concat_sub(s, 0, l1, j1 + spec_doc_tail_release(v));
    let p = l1.len() as int;
    lemma_concat_sub(s, p, j1, spec_doc_tail_release(v));
    let q = p + j1.len() as int;
    assert(spec_match_lit(s, 0, l1));
    lemma_parse_jstring_render(s, p, v.cache_dir);
    lemma_ps_release_at(s, q, v);
}

// ---------------------------------------------------------------------------
// Rendering (executable)
// ---------------------------------------------------------------------------
/// Append `null` or the digits of the number.
fn render_opt_uint_into(out: &mut Vec<char>, o: &Option<usize>)
    ensures
        final(out)@ == old(out)@ + spec_opt_uint_chars(*o),
{
    match o {
        None => {
            append_str_chars(out, "null");
        },
        Some(n) => {
            render_uint_into(out, *n);
        },
    }
}

/// Append the elements of the number array from `from` on, with the closing
/// bracket.
fn render_uint_items_into(out: &mut Vec<char>, l: &Vec<usize>, from: usize)
    requires
        from <= l@.len(),
    ensures
        final(out)@ == old(out)@ + spec_uint_items_chars(l@.skip(from as int)),
    decreases l@.len() - from,
{
    let ghost piece = spec_uint_items_chars(l@.skip(from as int));
    if from == l.len() {
        append_str_chars(out, "\n  ]");
        proof {
            assert(l@.skip(from as int).len() == 0);
            assert(out@ =~= old(out)@ + piece);
        }
    } else if from + 1 == l.len() {
        render_uint_into(out, l[from]);
        append_str_chars(out, "\n  ]");
        proof {
            assert(l@.skip(from as int).len() == 1);
            assert(l@.skip(from as int)[0] == l@[from as int]);
            assert(out@ =~= old(out)@ + piece);
        }
    } else {
        render_uint_into(out, l[from]);
        append_str_chars(out, ",\n    ");
        render_uint_items_into(out, l, from + 1);
        proof {
            assert(l@.skip(from as int).len() >= 2);
            assert(l@.skip(from as int)[0] == l@[from as int]);
            assert(l@.skip(from as int).skip(1) =~= l@.skip(from as int + 1));
            assert(out@ =~= old(out)@ + piece);
        }
    }
}

/// Append a JSON array of numbers.
fn render_uint_arr_into(out: &mut Vec<char>, l: &Vec<usize>)
    ensures
        final(out)@ == old(out)@ + spec_uint_arr_chars(l@),
{
    if l.len() == 0 {
        append_str_chars(out, "[]");
        proof {
            assert(out@ =~= old(out)@ + spec_uint_arr_chars(l@));
        }
    } else {
        append_str_chars(out, "[\n    ");
        render_uint_items_into(out, l, 0);
        proof {
            assert(l@.skip(0) =~= l@);
            assert(out@ =~= old(out)@ + spec_uint_arr_chars(l@));
        }
    }
}

/// Append one slot record.
fn render_slot_into(out: &mut Vec<char>, sl: &Slot)
    ensures
        final(out)@ == old(out)@ + spec_slot_chars(sl@),
{
    append_str_chars(out, "{\n      \"path\": ");
    render_jstring_into(out, sl.path.as_str());
    append_str_chars(out, ",\n      \"patch_number\": ");
    render_uint_into(out, sl.patch_number);
    append_str_chars(out, "\n    }");
    proof {
        assert(out@ =~= old(out)@ + spec_slot_chars(sl@));
    }
}

/// Append the elements of the slot array from `from` on, with the closing
/// bracket.
fn render_slot_items_into(out: &mut Vec<char>, l: &Vec<Slot>, from: usize)
    requires
        from <= l@.len(),
    ensures
        final(out)@ == old(out)@ + spec_slot_items_chars(deep_slots(l@).skip(from as int)),
    decreases l@.len() - from,
{
    let ghost piece = spec_slot_items_chars(deep_slots(l@).skip(from as int));
    if from == l.len() {
        append_str_chars(out, "\n  ]");
        proof {
            assert(deep_slots(l@).skip(from as int).len() == 0);
            assert(out@ =~= old(out)@ + piece);
        }
    } else if from + 1 == l.len() {
        render_slot_into(out, &l[from]);
        append_str_chars(out, "\n  ]");
        proof {
            assert(deep_slots(l@).skip(from as int).len() == 1);
            assert(deep_slots(l@).skip(from as int)[0] == l@[from as int]@);
            assert(out@ =~= old(out)@ + piece);
        }
    } else {
        render_slot_into(out, &l[from]);
        append_str_chars(out, ",\n    ");
        render_slot_items_into(out, l, from + 1);
        proof {
            assert(deep_slots(l@).skip(from as int).len() >= 2);
            assert(deep_slots(l@).skip(from as int)[0] == l@[from as int]@);
            assert(deep_slots(l@).skip(from as int).skip(1) =~= deep_slots(l@).skip(
                from as int + 1,
            ));
            assert(out@ =~= old(out)@ + piece);
        }
    }
}

/// Append the `slots` field and the closing brace.
fn render_tail_slots_into(out: &mut Vec<char>, slots: &Vec<Slot>, Ghost(v): Ghost<StateV>)
    requires
        v.slots == deep_slots(slots@),
    ensures
        final(out)@ == old(out)@ + spec_doc_tail_slots(v),
{
    append_str_chars(out, ",\n  \"slots\": ");
    if slots.len() == 0 {
        append_str_chars(out, "[]");
    } else {
        append_str_chars(out, "[\n    ");
        render_slot_items_into(out, slots, 0);
        proof {
            assert(deep_slots(slots@).skip(0) =~= v.slots);
        }
    }
    append_str_chars(out, "\n}");
    proof {
        assert(out@ =~= old(out)@ + spec_doc_tail_slots(v));
    }
}

/// Append the `current_slot_index` field and the rest.
fn render_tail_current_into(
    out: &mut Vec<char>,
    current: &Option<usize>,
    slots: &Vec<Slot>,
    Ghost(v): Ghost<StateV>,
)
    requires
        v.current_slot_index == *current,
        v.slots == deep_slots(slots@),
    ensures
        final(out)@ == old(out)@ + spec_doc_tail_current(v),
{
    append_str_chars(out, ",\n  \"current_slot_index\": ");
    render_opt_uint_into(out, current);
    render_tail_slots_into(out, slots, Ghost(v));
    proof {
        assert(out@ =~= old(out)@ + spec_doc_tail_current(v));
    }
}

/// Append the `successful_patches` field and the rest.
fn render_tail_successful_into(
    out: &mut Vec<char>,
    successful: &Vec<usize>,
    current: &Option<usize>,
    slots: &Vec<Slot>,
    Ghost(v): Ghost<StateV>,
)
    requires
        v.successful_patches == successful@,
        v.current_slot_index == *current,
        v.slots == deep_slots(slots@),
    ensures
        final(out)@ == old(out)@ + spec_doc_tail_successful(v),
{
    append_str_chars(out, ",\n  \"successful_patches\": ");
    render_uint_arr_into(out, successful);
    render_tail_current_into(out, current, slots, Ghost(v));
    proof {
        assert(out@ =~= old(out)@ + spec_doc_tail_successful(v));
    }
}

/// Append the `failed_patches` field and the rest.
fn render_tail_failed_into(
    out: &mut Vec<char>,
    failed: &Vec<usize>,
    successful: &Vec<usize>,
    current: &Option<usize>,
    slots: &Vec<Slot>,
    Ghost(v): Ghost<StateV>,
)
    requires
        v.failed_patches == failed@,
        v.successful_patches == successful@,
        v.current_slot_index == *current,
        v.slots == deep_slots(slots@),
    ensures
        final(out)@ == old(out)@ + spec_doc_tail_failed(v),
{
    append_str_chars(out, ",\n  \"failed_patches\": ");
    render_uint_arr_into(out, failed);
    render_tail_successful_into(out, successful, current, slots, Ghost(v));
    proof {
        assert(out@ =~= old(out)@ + spec_doc_tail_failed(v));
    }
}

impl UpdaterState {
    /// Render the state document: the text that belongs in `state.json`.
    /// Writing it to disk is the caller's business.
    pub fn save(&self) -> (r: String)
        ensures
            r@ == spec_render_state(self@),
    {
        let ghost v = self@;
        let mut out: Vec<char> = Vec::new();
        append_str_chars(&mut out, "{\n  \"cache_dir\": ");
        render_jstring_into(&mut out, self.cache_dir.as_str());
        append_str_chars(&mut out, ",\n  \"release_version\": ");
        render_jstring_into(&mut out, self.release_version.as_str());
        append_str_chars(&mut out, ",\n  \"latest_downloaded_patch\": ");
        render_opt_uint_into(&mut out, &self.latest_downloaded_patch);
        render_tail_failed_into(
            &mut out,
            &self.failed_patches,
            &self.successful_patches,
            &self.current_slot_index,
            &self.slots,
            Ghost(v),
        );
        proof {
            assert(out@ =~= spec_render_state(v));
        }
        chars_to_string(&out)
    }
}

// ---------------------------------------------------------------------------
// Parsing (executable)
// ---------------------------------------------------------------------------
/// Parse `null` or a number.
fn parse_opt_uint(v: &Vec<char>, i: usize) -> (r: Option<(Option<usize>, usize)>)
    requires
        i <= v@.len(),
    ensures
        match r {
            Some((o, j)) => spec_parse_opt_uint(v@, i as int) == Some((o, j as int)) && i <= j
                <= v@.len(),
            None => spec_parse_opt_uint(v@, i as int) is None,
        },
{
    let vlen = v.len();
    if match_lit(v, i, "null") {
        Some((None, i + "null".unicode_len()))
    } else {
        match parse_uint(v, i) {
            Some((n, j)) => Some((Some(n), j)),
            None => None,
        }
    }
}

/// Parse the elements of a number array, after the opening bracket.
fn parse_uint_items(v: &Vec<char>, i: usize) -> (r: Option<(Vec<usize>, usize)>)
    requires
        i <= v@.len(),
    ensures
        match r {
            Some((l, j)) => spec_parse_uint_items(v@, i as int) == Some((l@, j as int)) && i <= j
                <= v@.len(),
            None => spec_parse_uint_items(v@, i as int) is None,
        },
    decreases v@.len() - i,
{
    let vlen = v.len();
    match parse_uint(v, i) {
        None => None,
        Some((n, j)) => {
            if match_lit(v, j, ",\n    ") {
                match parse_uint_items(v, j + ",\n    ".unicode_len()) {
                    Some((l, e)) => {
                        let mut out: Vec<usize> = Vec::new();
                        out.push(n);
                        let mut rest = l;
                        out.append(&mut rest);
                        proof {
                            assert(out@ =~= seq![n] + l@);
                        }
                        Some((out, e))
                    },
                    None => None,
                }
            } else if match_lit(v, j, "\n  ]") {
                let mut out: Vec<usize> = Vec::new();
                out.push(n);
                proof {
                    assert(out@ =~= seq![n]);
                }
                Some((out, j + "\n  ]".unicode_len()))
            } else {
                None
            }
        },
    }
}

/// Parse a JSON array of numbers.
fn parse_uint_arr(v: &Vec<char>, i: usize) -> (r: Option<(Vec<usize>, usize)>)
    requires
        i <= v@.len(),
    ensures
        match r {
            Some((l, j)) => spec_parse_uint_arr(v@, i as int) == Some((l@, j as int)) && i <= j
                <= v@.len(),
            None => spec_parse_uint_arr(v@, i as int) is None,
        },
{
    let vlen = v.len();
    if match_lit(v, i, "[]") {
        let out: Vec<usize> = Vec::new();
        proof {
            assert(out@ =~= Seq::<usize>::empty());
        }
        Some((out, i + "[]".unicode_len()))
    } else if match_lit(v, i, "[\n    ") {
        parse_uint_items(v, i + "[\n    ".unicode_len())
    } else {
        None
    }
}

/// Parse one slot record.
fn parse_slot(v: &Vec<char>, i: usize) -> (r: Option<(Slot, usize)>)
    requires
        i <= v@.len(),
    ensures
        match r {
            Some((sl, j)) => spec_parse_slot(v@, i as int) == Some((sl@, j as int)) && i < j
                <= v@.len(),
            None => spec_parse_slot(v@, i as int) is None,
        },
{
    let vlen = v.len();
    if !match_lit(v, i, "{\n      \"path\": ") {
        return None;
    }
    let p1 = i + "{\n      \"path\": ".unicode_len();
    match parse_jstring(v, p1) {
        None => None,
        Some((path, j)) => {
            if !match_lit(v, j, ",\n      \"patch_number\": ") {
                return None;
            }
            let p2 = j + ",\n      \"patch_number\": ".unicode_len();
            match parse_uint(v, p2) {
                None => None,
                Some((n, k)) => {
                    if match_lit(v, k, "\n    }") {
                        let sl = Slot { path, patch_number: n };
                        let e = k + "\n    }".unicode_len();
                        proof {
                            assert(spec_parse_slot(v@, i as int) matches Some((slv, es)) && slv
                                =~= sl@ && es == e);
                        }
                        Some((sl, e))
                    } else {
                        None
                    }
                },
            }
        },
    }
}

/// Parse the elements of the slot array, after the opening bracket.
fn parse_slot_items(v: &Vec<char>, i: usize) -> (r: Option<(Vec<Slot>, usize)>)
    requires
        i <= v@.len(),
    ensures
        match r {
            Some((l, j)) => spec_parse_slot_items(v@, i as int) == Some((deep_slots(l@), j as int))
                && i <= j <= v@.len(),
            None => spec_parse_slot_items(v@, i as int) is None,
        },
    decreases v@.len() - i,
{
    let vlen = v.len();
    match parse_slot(v, i) {
        None => None,
        Some((sl, j)) => {
            if match_lit(v, j, ",\n    ") {
                match parse_slot_items(v, j + ",\n    ".unicode_len()) {
                    Some((l, e)) => {
                        let ghost slv = sl@;
                        let ghost lv = l@;
                        let mut out: Vec<Slot> = Vec::new();
                        out.push(sl);
                        let mut rest = l;
                        out.append(&mut rest);
                        proof {
                            assert(deep_slots(out@) =~= seq![slv] + deep_slots(lv));
                        }
                        Some((out, e))
                    },
                    None => None,
                }
            } else if match_lit(v, j, "\n  ]") {
                let ghost slv = sl@;
                let mut out: Vec<Slot> = Vec::new();
                out.push(sl);
                proof {
                    assert(deep_slots(out@) =~= seq![slv]);
                }
                Some((out, j + "\n  ]".unicode_len()))
            } else {
                None
            }
        },
    }
}

/// Parse the JSON array of slots.
fn parse_slots_arr(v: &Vec<char>, i: usize) -> (r: Option<(Vec<Slot>, usize)>)
    requires
        i <= v@.len(),
    ensures
        match r {
            Some((l, j)) => spec_parse_slots_arr(v@, i as int) == Some((deep_slots(l@), j as int))
                && i <= j <= v@.len(),
            None => spec_parse_slots_arr(v@, i as int) is None,
        },
{
    let vlen = v.len();
    if match_lit(v, i, "[]") {
        let out: Vec<Slot> = Vec::new();
        proof {
            assert(deep_slots(out@) =~= Seq::<SlotV>::empty());
        }
        Some((out, i + "[]".unicode_len()))
    } else if match_lit(v, i, "[\n    ") {
        parse_slot_items(v, i + "[\n    ".unicode_len())
    } else {
        None
    }
}

/// Parse a state document.  `None` means the text is not a document this
/// library wrote.
pub fn parse_state_doc(doc: &str) -> (r: Option<UpdaterState>)
    ensures
        match r {
            Some(st) => spec_parse_state(doc@) == Some(st@),
            None => spec_parse_state(doc@) is None,
        },
{
    let v = str_to_chars(doc);
    let ghost s = doc@;
    if !match_lit(&v, 0, "{\n  \"cache_dir\": ") {
        return None;
    }
    let p1 = "{\n  \"cache_dir\": ".unicode_len();
    let cache_dir = match parse_jstring(&v, p1) {
        None => {
            return None;
        },
        Some(x) => x,
    };
    let (cache_dir, i1) = cache_dir;
    if !match_lit(&v, i1, ",\n  \"release_version\": ") {
        return None;
    }
    let p2 = i1 + ",\n  \"release_version\": ".unicode_len();
    let (release_version, i2) = match parse_jstring(&v, p2) {
        None => {
            return None;
        },
        Some(x) => x,
    };
    if !match_lit(&v, i2, ",\n  \"latest_downloaded_patch\": ") {
        return None;
    }
    let p3 = i2 + ",\n  \"latest_downloaded_patch\": ".unicode_len();
    let (latest, i3) = match parse_opt_uint(&v, p3) {
        None => {
            return None;
        },
        Some(x) => x,
    };
    if !match_lit(&v, i3, ",\n  \"failed_patches\": ") {
        return None;
    }
    let p4 = i3 + ",\n  \"failed_patches\": ".unicode_len();
    let (failed, i4) = match parse_uint_arr(&v, p4) {
        None => {
            return None;
        },
        Some(x) => x,
    };
    if !match_lit(&v, i4, ",\n  \"successful_patches\": ") {
        return None;
    }
    let p5 = i4 + ",\n  \"successful_patches\": ".unicode_len();
    let (successful, i5) = match parse_uint_arr(&v, p5) {
        None => {
            return None;
        },
        Some(x) => x,
    };
    if !match_lit(&v, i5, ",\n  \"current_slot_index\": ") {
        return None;
    }
    let p6 = i5 + ",\n  \"current_slot_index\": ".unicode_len();
    let (current, i6) = match parse_opt_uint(&v, p6) {
        None => {
            return None;
        },
        Some(x) => x,
    };
    if !match_lit(&v, i6, ",\n  \"slots\": ") {
        return None;
    }
    let p7 = i6 + ",\n  \"slots\": ".unicode_len();
    let (slots, i7) = match parse_slots_arr(&v, p7) {
        None => {
            return None;
        },
        Some(x) => x,
    };
    if match_lit(&v, i7, "\n}") && i7 + "\n}".unicode_len() == v.len() {
        let st = UpdaterState {
            cache_dir,
            release_version,
            latest_downloaded_patch: latest,
            failed_patches: failed,
            successful_patches: successful,
            current_slot_index: current,
            slots,
        };
        proof {
            assert(spec_parse_state(s) matches Some(d) && d =~~= st@);
        }
        Some(st)
    } else {
        None
    }
}

/// Check the documented state invariants on a loaded value: at most two
/// slots, disjoint patch lists, and the floor covering the slot table.
fn check_wf(st: &UpdaterState) -> (b: bool)
    ensures
        b == wf(st@),
{
    if st.slots.len() > 2 {
        return false;
    }
    let mut i: usize = 0;
    while i < st.failed_patches.len()
        invariant
            i <= st.failed_patches@.len(),
            forall|k: int|
                0 <= k < i ==> !st.successful_patches@.contains(#[trigger] st.failed_patches@[k]),
        decreases st.failed_patches@.len() - i,
    {
        if contains_exec(&st.successful_patches, st.failed_patches[i]) {
            proof {
                assert(st@.failed_patches.contains(st.failed_patches@[i as int]));
                assert(!crate::cache::partition_ok(st@));
            }
            return false;
        }
        i = i + 1;
    }
    proof {
        assert forall|n: usize|
            !(st@.failed_patches.contains(n) && st@.successful_patches.contains(n)) by {
            if st@.failed_patches.contains(n) {
                let k = choose|k: int|
                    0 <= k < st@.failed_patches.len() && st@.failed_patches[k] == n;
                assert(!st@.successful_patches.contains(st@.failed_patches[k]));
            }
        }
    }
    let mut j: usize = 0;
    while j < st.slots.len()
        invariant
            j <= st.slots@.len(),
            forall|k: int|
                0 <= k < j && (#[trigger] st@.slots[k]).patch_number != 0 ==> (
                st@.latest_downloaded_patch matches Some(m) && st@.slots[k].patch_number <= m),
        decreases st.slots@.len() - j,
    {
        if st.slots[j].patch_number != 0 {
            match st.latest_downloaded_patch {
                None => {
                    proof {
                        assert(st@.slots[j as int].patch_number != 0);
                        assert(!crate::cache::floor_ok(st@));
                    }
                    return false;
                },
                Some(m) => {
                    if st.slots[j].patch_number > m {
                        proof {
                            assert(st@.slots[j as int].patch_number != 0);
                            assert(!crate::cache::floor_ok(st@));
                        }
                        return false;
                    }
                },
            }
        }
        j = j + 1;
    }
    true
}

/// Does the list hold the number `n`?
fn contains_exec(v: &Vec<usize>, n: usize) -> (b: bool)
    ensures
        b == v@.contains(n),
{
    let mut i: usize = 0;
    while i < v.len()
        invariant
            0 <= i <= v@.len(),
            forall|k: int| 0 <= k < i ==> v@[k] != n,
        decreases v@.len() - i,
    {
        if v[i] == n {
            return true;
        }
        i = i + 1;
    }
    false
}

impl UpdaterState {
    /// Load a state from the document text the caller read from
    /// `cache_dir/state.json` (`None` when the file was missing or
    /// unreadable).  A missing or malformed document, one whose invariants do
    /// not hold, or one written for another release version yields a fresh
    /// empty state scoped to the caller's `release_version`; loading never
    /// fails.
    pub fn load_or_new_on_error(cache_dir: &str, release_version: &str, contents: Option<&str>) -> (r:
        UpdaterState)
        ensures
            wf(r@),
            match contents {
                Some(doc) => {
                    if spec_parse_state(doc@) matches Some(d) && d.release_version
                        == release_version@ && wf(d) {
                        r@ == spec_parse_state(doc@)->0
                    } else {
                        r@ == spec_fresh_state(cache_dir@, release_version@)
                    }
                },
                None => r@ == spec_fresh_state(cache_dir@, release_version@),
            },
    {
        match contents {
            None => UpdaterState::new(cache_dir.to_owned(), release_version.to_owned()),
            Some(doc) => {
                match parse_state_doc(doc) {
                    None => UpdaterState::new(cache_dir.to_owned(), release_version.to_owned()),
                    Some(st) => {
                        if str_eq(st.release_version.as_str(), release_version) && check_wf(&st) {
                            st
                        } else {
                            UpdaterState::new(cache_dir.to_owned(), release_version.to_owned())
                        }
                    },
                }
            },
        }
    }
}

} // verus!
