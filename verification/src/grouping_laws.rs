//! What grouping keeps of light frames: sessions have distinct keys, every
//! light frame lands in the session under its own key, and a session holds no
//! light frame but those.
use vstd::prelude::*;
use crate::grouping::{
    BucketView, EntryView, FileKind, InputView, MetadataView, SessionKind, add_to_keyed,
    bucket_push, bucket_takes, calibration_entries, calibration_phase, file_kind_of,
    grouped_buckets, has_master, has_master_match, insert_calibration, key_position,
    lights_phase, master_fits, master_session_key, rounded_metadata, session_key,
    sessions_of_buckets,
};
use crate::files::FileView;
use crate::session::{SessionView, SlotView};

verus! {

broadcast use vstd::seq_lib::group_to_multiset_ensures;

/// An input that grouping files as a light frame.
pub open spec fn is_light_input(x: InputView) -> bool {
    x.metadata is Some && file_kind_of(x.file.file_type) == FileKind::Light
}

/// The key of the session a light input belongs to.
pub open spec fn light_key_of(x: InputView, t: i64, e: i64, g: i64) -> Seq<char> {
    session_key(SessionKind::Light, rounded_metadata(x.metadata->0, t, e, g))
}

/// No two sessions share a key.
pub open spec fn uuids_distinct(s: Seq<SessionView>) -> bool {
    forall|i: int, j: int| 0 <= i < j < s.len() ==> #[trigger] s[i].uuid != #[trigger] s[j].uuid
}

/// Every light frame of a session is a light input whose key is the session's.
pub open spec fn lights_traced(s: Seq<SessionView>, inputs: Seq<InputView>, t: i64, e: i64, g: i64) -> bool {
    forall|i: int, l: int|
        #![trigger s[i].lights[l]]
        0 <= i < s.len() && 0 <= l < s[i].lights.len() ==> exists|k: int|
            0 <= k < inputs.len() && is_light_input(#[trigger] inputs[k]) && inputs[k].file
                == s[i].lights[l] && light_key_of(inputs[k], t, e, g) == s[i].uuid
}

/// Every light input is among the light frames of the session under its key.
pub open spec fn lights_filed(s: Seq<SessionView>, inputs: Seq<InputView>, t: i64, e: i64, g: i64) -> bool {
    forall|k: int|
        0 <= k < inputs.len() && is_light_input(#[trigger] inputs[k]) ==> exists|i: int|
            0 <= i < s.len() && s[i].uuid == light_key_of(inputs[k], t, e, g) && (
            #[trigger] s[i].lights).contains(inputs[k].file)
}

spec fn keys_distinct(bs: Seq<BucketView>) -> bool {
    forall|i: int, j: int| 0 <= i < j < bs.len() ==> #[trigger] bs[i].key != #[trigger] bs[j].key
}

spec fn bucket_lights_traced(bs: Seq<BucketView>, inputs: Seq<InputView>, t: i64, e: i64, g: i64) -> bool {
    forall|i: int, l: int|
        #![trigger bs[i].lights[l]]
        0 <= i < bs.len() && 0 <= l < bs[i].lights.len() ==> exists|k: int|
            0 <= k < inputs.len() && is_light_input(#[trigger] inputs[k]) && inputs[k].file
                == bs[i].lights[l] && light_key_of(inputs[k], t, e, g) == bs[i].key
}

spec fn bucket_lights_filed(bs: Seq<BucketView>, inputs: Seq<InputView>, t: i64, e: i64, g: i64) -> bool {
    forall|k: int|
        0 <= k < inputs.len() && is_light_input(#[trigger] inputs[k]) ==> exists|i: int|
            0 <= i < bs.len() && bs[i].key == light_key_of(inputs[k], t, e, g) && (
            #[trigger] bs[i].lights).contains(inputs[k].file)
}

/// The sessions `r` keep the keys and light frames of `bs` in place, and the
/// sessions they add hold no light frames.
spec fn keeps_lights(bs: Seq<BucketView>, r: Seq<BucketView>) -> bool {
    &&& bs.len() <= r.len()
    &&& forall|j: int| 0 <= j < bs.len() ==> (#[trigger] r[j]).key == bs[j].key && r[j].lights == bs[j].lights
    &&& forall|j: int| bs.len() <= j < r.len() ==> (#[trigger] r[j]).lights.len() == 0
}

pub(crate) proof fn lemma_key_position_props(bs: Seq<BucketView>, key: Seq<char>)
    ensures
        -1 <= key_position(bs, key) < bs.len(),
        key_position(bs, key) >= 0 ==> bs[key_position(bs, key)].key == key,
        key_position(bs, key) == -1 ==> forall|j: int| 0 <= j < bs.len() ==> #[trigger] bs[j].key != key,
    decreases bs.len(),
{
    if bs.len() > 0 && bs[0].key != key {
        lemma_key_position_props(bs.drop_first(), key);
        if key_position(bs, key) == -1 {
            assert forall|j: int| 0 <= j < bs.len() implies #[trigger] bs[j].key != key by {
                if j > 0 {
                    assert(bs[j] == bs.drop_first()[j - 1]);
                }
            }
        }
    }
}

proof fn lemma_add_to_keyed_keeps(
    bs: Seq<BucketView>,
    key: Seq<char>,
    m: MetadataView,
    kind: SessionKind,
    is_master: bool,
    f: FileView,
)
    requires
        kind != SessionKind::Light,
    ensures
        keeps_lights(bs, add_to_keyed(bs, key, m, kind, is_master, f)),
        keys_distinct(bs) ==> keys_distinct(add_to_keyed(bs, key, m, kind, is_master, f)),
{
    lemma_key_position_props(bs, key);
    let r = add_to_keyed(bs, key, m, kind, is_master, f);
    if keys_distinct(bs) && key_position(bs, key) == -1 {
        assert forall|i: int, j: int| 0 <= i < j < r.len() implies #[trigger] r[i].key
            != #[trigger] r[j].key by {
            if j == bs.len() {
                assert(bs[i].key != key);
            }
        }
    }
}

proof fn lemma_insert_calibration_keeps(
    bs: Seq<BucketView>,
    kind: SessionKind,
    is_master: bool,
    m: MetadataView,
    f: FileView,
)
    requires
        kind != SessionKind::Light,
    ensures
        keeps_lights(bs, insert_calibration(bs, kind, is_master, m, f)),
        keys_distinct(bs) ==> keys_distinct(insert_calibration(bs, kind, is_master, m, f)),
{
    let r = insert_calibration(bs, kind, is_master, m, f);
    if !is_master && exists|j: int| 0 <= j < bs.len() && #[trigger] has_master_match(bs[j], kind, m) {
    } else if exists|j: int| 0 <= j < bs.len() && #[trigger] bucket_takes(bs[j], kind, is_master, m) {
    } else {
        let key = if is_master {
            master_session_key(kind, m)
        } else {
            session_key(kind, m)
        };
        lemma_add_to_keyed_keeps(bs, key, m, kind, is_master, f);
    }
}

proof fn lemma_keeps_lights_transitive(a: Seq<BucketView>, b: Seq<BucketView>, c: Seq<BucketView>)
    requires
        keeps_lights(a, b),
        keeps_lights(b, c),
    ensures
        keeps_lights(a, c),
{
    assert forall|j: int| a.len() <= j < c.len() implies (#[trigger] c[j]).lights.len() == 0 by {
        if j < b.len() {
            assert(b[j].lights.len() == 0);
        }
    }
}

proof fn lemma_calibration_phase_keeps(bs: Seq<BucketView>, entries: Seq<EntryView>, is_master: bool)
    requires
        forall|j: int| 0 <= j < entries.len() ==> (#[trigger] entries[j]).kind != SessionKind::Light,
    ensures
        keeps_lights(bs, calibration_phase(bs, entries, is_master)),
        keys_distinct(bs) ==> keys_distinct(calibration_phase(bs, entries, is_master)),
    decreases entries.len(),
{
    if entries.len() > 0 {
        let prev = calibration_phase(bs, entries.drop_last(), is_master);
        assert forall|j: int| 0 <= j < entries.drop_last().len() implies (
        #[trigger] entries.drop_last()[j]).kind != SessionKind::Light by {
            assert(entries.drop_last()[j] == entries[j]);
        }
        lemma_calibration_phase_keeps(bs, entries.drop_last(), is_master);
        let x = entries.last();
        lemma_insert_calibration_keeps(prev, x.kind, is_master, x.metadata, x.file);
        lemma_keeps_lights_transitive(
            bs,
            prev,
            insert_calibration(prev, x.kind, is_master, x.metadata, x.file),
        );
    }
}

proof fn lemma_entries_not_light(inputs: Seq<InputView>, masters: bool, t: i64, e: i64, g: i64)
    ensures
        forall|j: int|
            0 <= j < calibration_entries(inputs, masters, t, e, g).len() ==> (
            #[trigger] calibration_entries(inputs, masters, t, e, g)[j]).kind != SessionKind::Light,
    decreases inputs.len(),
{
    if inputs.len() > 0 {
        lemma_entries_not_light(inputs.drop_last(), masters, t, e, g);
    }
}

proof fn lemma_lights_phase(inputs: Seq<InputView>, t: i64, e: i64, g: i64)
    ensures
        keys_distinct(lights_phase(inputs, t, e, g)),
        bucket_lights_traced(lights_phase(inputs, t, e, g), inputs, t, e, g),
        bucket_lights_filed(lights_phase(inputs, t, e, g), inputs, t, e, g),
    decreases inputs.len(),
{
    if inputs.len() > 0 {
        let front = inputs.drop_last();
        lemma_lights_phase(front, t, e, g);
        let prev = lights_phase(front, t, e, g);
        let r = lights_phase(inputs, t, e, g);
        let x = inputs.last();
        let n = inputs.len() - 1;
        assert(inputs[n] == x);
        assert forall|k: int| 0 <= k < front.len() implies #[trigger] front[k] == inputs[k] by {}
        if is_light_input(x) {
            let m = rounded_metadata(x.metadata->0, t, e, g);
            let key = session_key(SessionKind::Light, m);
            assert(key == light_key_of(x, t, e, g));
            lemma_key_position_props(prev, key);
            let p = key_position(prev, key);
            // distinct keys
            assert forall|i: int, j: int| 0 <= i < j < r.len() implies #[trigger] r[i].key
                != #[trigger] r[j].key by {
                if j == prev.len() {
                    assert(prev[i].key != key);
                }
            }
            // traced
            assert forall|i: int, l: int|
            #![trigger r[i].lights[l]]
            0 <= i < r.len() && 0 <= l < r[i].lights.len() implies exists|
                k: int,
            |
                0 <= k < inputs.len() && is_light_input(#[trigger] inputs[k]) && inputs[k].file
                    == r[i].lights[l] && light_key_of(inputs[k], t, e, g) == r[i].key by {
                if (p >= 0 && i == p && l == prev[p].lights.len()) || (p < 0 && i == prev.len()) {
                    assert(inputs[n] == x);
                } else {
                    assert(r[i].lights[l] == prev[i].lights[l]);
                    let k = choose|k: int|
                        0 <= k < front.len() && is_light_input(#[trigger] front[k]) && front[k].file
                            == prev[i].lights[l] && light_key_of(front[k], t, e, g) == prev[i].key;
                    assert(inputs[k] == front[k]);
                }
            }
            // filed
            assert forall|k: int| 0 <= k < inputs.len() && is_light_input(#[trigger] inputs[k]) implies exists|
                i: int,
            |
                0 <= i < r.len() && r[i].key == light_key_of(inputs[k], t, e, g) && (
                #[trigger] r[i].lights).contains(inputs[k].file) by {
                if k == n {
                    let i = if p >= 0 { p } else { prev.len() as int };
                    assert(r[i].lights.last() == x.file);
                    assert(r[i].lights.contains(x.file));
                } else {
                    assert(front[k] == inputs[k]);
                    let i = choose|i: int|
                        0 <= i < prev.len() && prev[i].key == light_key_of(front[k], t, e, g) && (
                        #[trigger] prev[i].lights).contains(front[k].file);
                    let w = choose|w: int| 0 <= w < prev[i].lights.len() && prev[i].lights[w] == front[k].file;
                    assert(r[i].lights[w] == front[k].file);
                }
            }
        } else {
            assert(r == prev);
            assert forall|i: int, l: int|
            #![trigger r[i].lights[l]]
            0 <= i < r.len() && 0 <= l < r[i].lights.len() implies exists|
                k: int,
            |
                0 <= k < inputs.len() && is_light_input(#[trigger] inputs[k]) && inputs[k].file
                    == r[i].lights[l] && light_key_of(inputs[k], t, e, g) == r[i].key by {
                let k = choose|k: int|
                    0 <= k < front.len() && is_light_input(#[trigger] front[k]) && front[k].file
                        == prev[i].lights[l] && light_key_of(front[k], t, e, g) == prev[i].key;
                assert(inputs[k] == front[k]);
            }
            assert forall|k: int| 0 <= k < inputs.len() && is_light_input(#[trigger] inputs[k]) implies exists|
                i: int,
            |
                0 <= i < r.len() && r[i].key == light_key_of(inputs[k], t, e, g) && (
                #[trigger] r[i].lights).contains(inputs[k].file) by {
                assert(k != n);
                assert(front[k] == inputs[k]);
            }
        }
    }
}

/// Grouping gives every session its own key, files each light frame under the
/// key of its settings, and puts no other light frames into a session.
pub proof fn lemma_grouped_lights(inputs: Seq<InputView>, t: i64, e: i64, g: i64)
    ensures
        uuids_distinct(sessions_of_buckets(grouped_buckets(inputs, t, e, g))),
        lights_traced(sessions_of_buckets(grouped_buckets(inputs, t, e, g)), inputs, t, e, g),
        lights_filed(sessions_of_buckets(grouped_buckets(inputs, t, e, g)), inputs, t, e, g),
{
    let lights = lights_phase(inputs, t, e, g);
    let me = calibration_entries(inputs, true, t, e, g);
    let oe = calibration_entries(inputs, false, t, e, g);
    let with_masters = calibration_phase(lights, me, true);
    let all = calibration_phase(with_masters, oe, false);
    lemma_lights_phase(inputs, t, e, g);
    lemma_entries_not_light(inputs, true, t, e, g);
    lemma_entries_not_light(inputs, false, t, e, g);
    lemma_calibration_phase_keeps(lights, me, true);
    lemma_calibration_phase_keeps(with_masters, oe, false);
    lemma_keeps_lights_transitive(lights, with_masters, all);
    let s = sessions_of_buckets(all);
    assert(all == grouped_buckets(inputs, t, e, g));
    assert forall|i: int, j: int| 0 <= i < j < s.len() implies #[trigger] s[i].uuid != #[trigger] s[j].uuid by {
        assert(s[i].uuid == all[i].key);
        assert(s[j].uuid == all[j].key);
    }
    assert forall|i: int, l: int|
            #![trigger s[i].lights[l]]
            0 <= i < s.len() && 0 <= l < s[i].lights.len() implies exists|k: int|
        0 <= k < inputs.len() && is_light_input(#[trigger] inputs[k]) && inputs[k].file
            == s[i].lights[l] && light_key_of(inputs[k], t, e, g) == s[i].uuid by {
        assert(s[i].lights == all[i].lights);
        assert(s[i].uuid == all[i].key);
        if i >= lights.len() {
            assert(all[i].lights.len() == 0);
        } else {
            assert(all[i].lights == lights[i].lights);
            assert(all[i].key == lights[i].key);
            assert(lights[i].lights[l] == s[i].lights[l]);
        }
    }
    assert forall|k: int| 0 <= k < inputs.len() && is_light_input(#[trigger] inputs[k]) implies exists|i: int|
        0 <= i < s.len() && s[i].uuid == light_key_of(inputs[k], t, e, g) && (
        #[trigger] s[i].lights).contains(inputs[k].file) by {
        let i = choose|i: int|
            0 <= i < lights.len() && lights[i].key == light_key_of(inputs[k], t, e, g) && (
            #[trigger] lights[i].lights).contains(inputs[k].file);
        assert(s[i].lights == all[i].lights);
        assert(s[i].uuid == all[i].key);
    }
}

/// Sessions with equal multisets keep the properties above.
pub proof fn lemma_permuted_sessions(
    a: Seq<SessionView>,
    b: Seq<SessionView>,
    inputs: Seq<InputView>,
    t: i64,
    e: i64,
    g: i64,
)
    requires
        a.to_multiset() == b.to_multiset(),
        uuids_distinct(b),
        lights_traced(b, inputs, t, e, g),
        lights_filed(b, inputs, t, e, g),
    ensures
        uuids_distinct(a),
        lights_traced(a, inputs, t, e, g),
        lights_filed(a, inputs, t, e, g),
{
    assert(b.no_duplicates()) by {
        assert forall|i: int, j: int| 0 <= i < b.len() && 0 <= j < b.len() && i != j implies b[i]
            != b[j] by {
            if i < j {
                assert(b[i].uuid != b[j].uuid);
            } else {
                assert(b[j].uuid != b[i].uuid);
            }
        }
    }
    b.lemma_multiset_has_no_duplicates();
    a.lemma_multiset_has_no_duplicates_conv();
    assert forall|i: int| 0 <= i < a.len() implies exists|j: int| 0 <= j < b.len() && #[trigger] b[j] == #[trigger] a[i] by {
        assert(a.contains(a[i]));
        assert(a.to_multiset().count(a[i]) > 0);
        assert(b.to_multiset().count(a[i]) > 0);
        assert(b.contains(a[i]));
    }
    assert forall|i: int, j: int| 0 <= i < j < a.len() implies #[trigger] a[i].uuid != #[trigger] a[j].uuid by {
        let p = choose|p: int| 0 <= p < b.len() && #[trigger] b[p] == a[i];
        let q = choose|q: int| 0 <= q < b.len() && #[trigger] b[q] == a[j];
        assert(a[i] != a[j]);
        if p < q {
            assert(b[p].uuid != b[q].uuid);
        } else if q < p {
            assert(b[q].uuid != b[p].uuid);
        }
    }
    assert forall|i: int, l: int|
            #![trigger a[i].lights[l]]
            0 <= i < a.len() && 0 <= l < a[i].lights.len() implies exists|k: int|
        0 <= k < inputs.len() && is_light_input(#[trigger] inputs[k]) && inputs[k].file
            == a[i].lights[l] && light_key_of(inputs[k], t, e, g) == a[i].uuid by {
        let p = choose|p: int| 0 <= p < b.len() && #[trigger] b[p] == a[i];
        assert(b[p].lights[l] == a[i].lights[l]);
    }
    assert forall|k: int| 0 <= k < inputs.len() && is_light_input(#[trigger] inputs[k]) implies exists|i: int|
        0 <= i < a.len() && a[i].uuid == light_key_of(inputs[k], t, e, g) && (
        #[trigger] a[i].lights).contains(inputs[k].file) by {
        let p = choose|p: int|
            0 <= p < b.len() && b[p].uuid == light_key_of(inputs[k], t, e, g) && (
            #[trigger] b[p].lights).contains(inputs[k].file);
        assert(b.contains(b[p]));
        assert(b.to_multiset().count(b[p]) > 0);
        assert(a.to_multiset().count(b[p]) > 0);
        assert(a.contains(b[p]));
        let i = choose|i: int| 0 <= i < a.len() && a[i] == b[p];
        assert(a[i].lights == b[p].lights);
    }
}

// ---------------------------------------------------------------------
// Master frames take the place of ordinary frames
// ---------------------------------------------------------------------

/// The masters a session holds stay held.
spec fn masters_kept(a: BucketView, b: BucketView) -> bool {
    &&& a.master_dark is Some ==> b.master_dark is Some
    &&& a.master_flat is Some ==> b.master_flat is Some
    &&& a.master_bias is Some ==> b.master_bias is Some
}

/// The sessions `r` keep the settings and the masters of `bs` in place.
spec fn keeps_settings(bs: Seq<BucketView>, r: Seq<BucketView>) -> bool {
    &&& bs.len() <= r.len()
    &&& forall|j: int|
        0 <= j < bs.len() ==> (#[trigger] r[j]).match_data == bs[j].match_data && masters_kept(bs[j], r[j])
}

proof fn lemma_push_keeps_settings(b: BucketView, kind: SessionKind, is_master: bool, f: FileView)
    ensures
        bucket_push(b, kind, is_master, f).match_data == b.match_data,
        masters_kept(b, bucket_push(b, kind, is_master, f)),
        is_master && kind != SessionKind::Light ==> has_master(bucket_push(b, kind, is_master, f), kind),
{
}

proof fn lemma_insert_calibration_keeps_settings(
    bs: Seq<BucketView>,
    kind: SessionKind,
    is_master: bool,
    m: MetadataView,
    f: FileView,
)
    ensures
        keeps_settings(bs, insert_calibration(bs, kind, is_master, m, f)),
        is_master && kind != SessionKind::Light ==> forall|j: int|
            0 <= j < bs.len() && #[trigger] master_fits(kind, bs[j].match_data, m) ==> has_master(
                insert_calibration(bs, kind, is_master, m, f)[j],
                kind,
            ),
{
    let r = insert_calibration(bs, kind, is_master, m, f);
    if !is_master && exists|j: int| 0 <= j < bs.len() && #[trigger] has_master_match(bs[j], kind, m) {
    } else if exists|j: int| 0 <= j < bs.len() && #[trigger] bucket_takes(bs[j], kind, is_master, m) {
        assert forall|j: int| 0 <= j < bs.len() implies (#[trigger] r[j]).match_data == bs[j].match_data
            && masters_kept(bs[j], r[j]) by {
            lemma_push_keeps_settings(bs[j], kind, is_master, f);
        }
        if is_master && kind != SessionKind::Light {
            assert forall|j: int| 0 <= j < bs.len() && #[trigger] master_fits(kind, bs[j].match_data, m) implies has_master(
                r[j],
                kind,
            ) by {
                assert(bucket_takes(bs[j], kind, is_master, m));
                lemma_push_keeps_settings(bs[j], kind, is_master, f);
            }
        }
    } else {
        let key = if is_master {
            master_session_key(kind, m)
        } else {
            session_key(kind, m)
        };
        lemma_key_position_props(bs, key);
        let p = key_position(bs, key);
        if p >= 0 {
            lemma_push_keeps_settings(bs[p], kind, is_master, f);
        }
        assert forall|j: int| 0 <= j < bs.len() implies (#[trigger] r[j]).match_data == bs[j].match_data
            && masters_kept(bs[j], r[j]) by {
            if j == p {
                lemma_push_keeps_settings(bs[j], kind, is_master, f);
            }
        }
        if is_master && kind != SessionKind::Light {
            assert forall|j: int| 0 <= j < bs.len() && #[trigger] master_fits(kind, bs[j].match_data, m) implies has_master(
                r[j],
                kind,
            ) by {
                assert(bucket_takes(bs[j], kind, is_master, m));
            }
        }
    }
}

proof fn lemma_keeps_settings_transitive(a: Seq<BucketView>, b: Seq<BucketView>, c: Seq<BucketView>)
    requires
        keeps_settings(a, b),
        keeps_settings(b, c),
    ensures
        keeps_settings(a, c),
{
    assert forall|j: int| 0 <= j < a.len() implies (#[trigger] c[j]).match_data == a[j].match_data
        && masters_kept(a[j], c[j]) by {
        assert(b[j].match_data == a[j].match_data);
        assert(c[j].match_data == b[j].match_data);
    }
}

proof fn lemma_phase_keeps_settings(bs: Seq<BucketView>, entries: Seq<EntryView>, is_master: bool)
    ensures
        keeps_settings(bs, calibration_phase(bs, entries, is_master)),
    decreases entries.len(),
{
    if entries.len() == 0 {
        assert(calibration_phase(bs, entries, is_master) == bs);
    } else {
        let prev = calibration_phase(bs, entries.drop_last(), is_master);
        lemma_phase_keeps_settings(bs, entries.drop_last(), is_master);
        let x = entries.last();
        lemma_insert_calibration_keeps_settings(prev, x.kind, is_master, x.metadata, x.file);
        lemma_keeps_settings_transitive(bs, prev, insert_calibration(prev, x.kind, is_master, x.metadata, x.file));
    }
}

proof fn lemma_master_phase_gives_masters(bs: Seq<BucketView>, entries: Seq<EntryView>)
    requires
        forall|q: int| 0 <= q < entries.len() ==> (#[trigger] entries[q]).kind != SessionKind::Light,
    ensures
        forall|j: int, q: int|
            0 <= j < bs.len() && 0 <= q < entries.len() && master_fits(
                (#[trigger] entries[q]).kind,
                (#[trigger] bs[j]).match_data,
                entries[q].metadata,
            ) ==> has_master(calibration_phase(bs, entries, true)[j], entries[q].kind),
    decreases entries.len(),
{
    if entries.len() > 0 {
        let front = entries.drop_last();
        assert forall|q: int| 0 <= q < front.len() implies (#[trigger] front[q]).kind != SessionKind::Light by {
            assert(front[q] == entries[q]);
        }
        lemma_master_phase_gives_masters(bs, front);
        lemma_phase_keeps_settings(bs, front, true);
        let prev = calibration_phase(bs, front, true);
        let x = entries.last();
        let r = insert_calibration(prev, x.kind, true, x.metadata, x.file);
        assert(r == calibration_phase(bs, entries, true));
        lemma_insert_calibration_keeps_settings(prev, x.kind, true, x.metadata, x.file);
        assert forall|j: int, q: int|
            0 <= j < bs.len() && 0 <= q < entries.len() && master_fits(
                (#[trigger] entries[q]).kind,
                (#[trigger] bs[j]).match_data,
                entries[q].metadata,
            ) implies has_master(r[j], entries[q].kind) by {
            assert(prev[j].match_data == bs[j].match_data);
            if q == entries.len() - 1 {
                assert(entries[q] == x);
                assert(master_fits(x.kind, prev[j].match_data, x.metadata));
            } else {
                assert(entries[q] == front[q]);
                assert(has_master(prev[j], front[q].kind));
                assert(masters_kept(prev[j], r[j]));
            }
        }
    }
}

/// The calibration slot of a session for frames of `kind`.
pub open spec fn slot_for(s: SessionView, kind: SessionKind) -> SlotView {
    match kind {
        SessionKind::Dark => s.darks,
        SessionKind::Flat => s.flats,
        SessionKind::Bias => s.biases,
        SessionKind::Light => SlotView::Frames(s.lights),
    }
}

/// A session formed by light frames holds a master frame of a kind whenever
/// some master frame of that kind fits its settings; the ordinary frames of
/// that kind then play no part in it.
pub proof fn lemma_fitting_masters_are_used(inputs: Seq<InputView>, t: i64, e: i64, g: i64)
    ensures
        forall|i: int, q: int|
            0 <= i < lights_phase(inputs, t, e, g).len() && 0 <= q < calibration_entries(
                inputs,
                true,
                t,
                e,
                g,
            ).len() && master_fits(
                (#[trigger] calibration_entries(inputs, true, t, e, g)[q]).kind,
                (#[trigger] lights_phase(inputs, t, e, g)[i]).match_data,
                calibration_entries(inputs, true, t, e, g)[q].metadata,
            ) ==> slot_for(
                sessions_of_buckets(grouped_buckets(inputs, t, e, g))[i],
                calibration_entries(inputs, true, t, e, g)[q].kind,
            ) is Master,
{
    let lights = lights_phase(inputs, t, e, g);
    let me = calibration_entries(inputs, true, t, e, g);
    let oe = calibration_entries(inputs, false, t, e, g);
    let with_masters = calibration_phase(lights, me, true);
    let all = calibration_phase(with_masters, oe, false);
    assert(all == grouped_buckets(inputs, t, e, g));
    lemma_entries_not_light(inputs, true, t, e, g);
    lemma_master_phase_gives_masters(lights, me);
    lemma_phase_keeps_settings(lights, me, true);
    lemma_phase_keeps_settings(with_masters, oe, false);
    let s = sessions_of_buckets(all);
    assert forall|i: int, q: int|
        0 <= i < lights.len() && 0 <= q < me.len() && master_fits(
            (#[trigger] me[q]).kind,
            (#[trigger] lights[i]).match_data,
            me[q].metadata,
        ) implies slot_for(s[i], me[q].kind) is Master by {
        assert(has_master(with_masters[i], me[q].kind));
        assert(masters_kept(with_masters[i], all[i]));
        assert(s[i] == crate::grouping::session_of_bucket(all[i]));
    }
}

} // verus!
