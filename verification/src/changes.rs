//! Changing settings: everything is checked before anything is written, a
//! running buffer restarts once, and a change that the recorder cannot run with
//! is taken back.

use vstd::prelude::*;

use crate::capture::{is_codec, is_codec_name};
use crate::encoder_tables::strs;
use crate::encoder_options::has_text;
use crate::settings::{pair_error, proposed_or_stored, stored, validate_custom_pair, TextMap};
use crate::text::{decimal, decimal_of, same};

verus! {

broadcast use vstd::string::group_string_axioms;

/// Settings whose change restarts a running buffer.
pub const RESTART_KEYS: [&'static str; 19] = [
    "buffer_seconds",
    "mic_device",
    "desktop_device",
    "video_codec",
    "video_encoder",
    "gpu_index",
    "out_height",
    "fps",
    "monitor",
    "capture_window",
    "audio_single_track",
    "container",
    "video_mode",
    "custom_bitrate_kbps",
    "custom_fps",
    "custom_encoder_json",
    "custom_video_json",
    "gain_game",
    "gain_mic",
];

/// A change of the setting restarts a running buffer.
pub open spec fn restarts(key: Seq<char>) -> bool {
    strs(RESTART_KEYS@).contains(key)
}

/// Whether a change of the setting restarts a running buffer.
pub fn is_restart_key(key: &str) -> (r: bool)
    ensures
        r == restarts(key@),
{
    has_text(&RESTART_KEYS, key)
}

/// The setting holds a custom selection, which is checked before it is written.
pub open spec fn is_custom_key(key: Seq<char>) -> bool {
    key == "custom_encoder_json"@ || key == "custom_video_json"@
}

fn custom_key(key: &str) -> (r: bool)
    ensures
        r == is_custom_key(key@),
{
    same(key, "custom_encoder_json") || same(key, "custom_video_json")
}

/// One setting with its value.
#[derive(Debug, Clone)]
pub struct SettingPair {
    pub key: String,
    pub value: String,
}

/// What a list of settings holds.
pub open spec fn pair_texts(v: Seq<SettingPair>) -> Seq<(Seq<char>, Seq<char>)> {
    v.map_values(|p: SettingPair| (p.key@, p.value@))
}

/// The settings after the values are written in their order.
pub open spec fn written(
    settings: Map<Seq<char>, Seq<char>>,
    values: Seq<(Seq<char>, Seq<char>)>,
) -> Map<Seq<char>, Seq<char>>
    decreases values.len(),
{
    if values.len() == 0 {
        settings
    } else {
        written(settings, values.drop_last()).insert(values.last().0, values.last().1)
    }
}

/// What a change does: the values to write, whether a running buffer restarts,
/// and, where that restart fails, the values to write back and whether the
/// buffer is then started again.
pub struct ChangeModel {
    pub writes: Seq<(Seq<char>, Seq<char>)>,
    pub restart: bool,
    pub undo: Seq<(Seq<char>, Seq<char>)>,
    pub start_again: bool,
}

/// What a change does.
pub struct ChangePlan {
    pub writes: Vec<SettingPair>,
    pub restart: bool,
    pub undo: Vec<SettingPair>,
    pub start_again: bool,
}

impl View for ChangePlan {
    type V = ChangeModel;

    open spec fn view(&self) -> ChangeModel {
        ChangeModel {
            writes: pair_texts(self.writes@),
            restart: self.restart,
            undo: pair_texts(self.undo@),
            start_again: self.start_again,
        }
    }
}

/// What the outcome of planning a change stands for.
pub open spec fn change_outcome(r: Result<ChangePlan, String>) -> Result<ChangeModel, Seq<char>> {
    match r {
        Ok(c) => Ok(c@),
        Err(e) => Err(e@),
    }
}

/// The stored values of the keys, in the order of the keys. A key without a
/// stored value has none to write back.
pub open spec fn previous_values(
    settings: Map<Seq<char>, Seq<char>>,
    values: Seq<(Seq<char>, Seq<char>)>,
) -> Seq<(Seq<char>, Seq<char>)>
    decreases values.len(),
{
    if values.len() == 0 {
        Seq::empty()
    } else {
        let init = previous_values(settings, values.drop_last());
        let key = values.last().0;
        match stored(settings, key) {
            Some(v) => init.push((key, v)),
            None => init,
        }
    }
}

/// One of the values is of a kind that a predicate names.
pub open spec fn any_key(values: Seq<(Seq<char>, Seq<char>)>, p: spec_fn(Seq<char>) -> bool) -> bool {
    exists|i: int| 0 <= i < values.len() && p((#[trigger] values[i]).0)
}

/// What is wrong with the custom selections that the values would leave.
pub open spec fn values_error(
    settings: Map<Seq<char>, Seq<char>>,
    values: Seq<(Seq<char>, Seq<char>)>,
) -> Option<Seq<char>> {
    let proposed = written(Map::empty(), values);
    if any_key(values, |k: Seq<char>| is_custom_key(k)) {
        pair_error(
            proposed_or_stored(proposed, settings, "custom_encoder_json"@),
            proposed_or_stored(proposed, settings, "custom_video_json"@),
        )
    } else {
        None
    }
}

/// The change of one setting.
pub open spec fn setting_change(
    settings: Map<Seq<char>, Seq<char>>,
    key: Seq<char>,
    value: Seq<char>,
) -> Result<ChangeModel, Seq<char>> {
    let values = seq![(key, value)];
    match values_error(settings, values) {
        Some(e) => Err(e),
        None => Ok(
            ChangeModel {
                writes: values,
                restart: restarts(key),
                undo: previous_values(settings, values),
                start_again: stored(settings, key) is Some,
            },
        ),
    }
}

/// The change of several settings at once.
pub open spec fn settings_change(
    settings: Map<Seq<char>, Seq<char>>,
    values: Seq<(Seq<char>, Seq<char>)>,
) -> Result<ChangeModel, Seq<char>> {
    match values_error(settings, values) {
        Some(e) => Err(e),
        None => Ok(
            ChangeModel {
                writes: values,
                restart: any_key(values, |k: Seq<char>| restarts(k)),
                undo: previous_values(settings, values),
                start_again: true,
            },
        ),
    }
}

/// The values of a cell of the ladder. Picking one leaves custom mode.
pub open spec fn quality_values(codec: Seq<char>, height: nat, fps: nat) -> Seq<
    (Seq<char>, Seq<char>),
> {
    seq![
        ("video_codec"@, codec),
        ("out_height"@, decimal(height)),
        ("fps"@, decimal(fps)),
        ("video_mode"@, "ladder"@),
    ]
}

/// The change to a cell of the ladder. Height 0 is that of the source.
pub open spec fn quality_change(
    settings: Map<Seq<char>, Seq<char>>,
    heights: Seq<u32>,
    codec: Seq<char>,
    height: u32,
    fps: u32,
) -> Result<ChangeModel, Seq<char>> {
    if !is_codec(codec) {
        Err("unknown codec"@)
    } else if !crate::settings::is_custom_fps(fps as nat) {
        Err("fps must be one of 24/30/60/120/144"@)
    } else if height != 0 && !heights.contains(height) {
        Err("unknown height"@)
    } else {
        let values = quality_values(codec, height as nat, fps as nat);
        Ok(
            ChangeModel {
                writes: values,
                restart: true,
                undo: previous_values(settings, values),
                start_again: true,
            },
        )
    }
}

fn copy_pair(key: &str, value: &str) -> (r: SettingPair)
    ensures
        r.key@ == key@,
        r.value@ == value@,
{
    SettingPair { key: key.to_owned(), value: value.to_owned() }
}

fn proposed_map(values: &Vec<SettingPair>) -> (r: TextMap)
    ensures
        r@ == written(Map::empty(), pair_texts(values@)),
{
    let ghost all = pair_texts(values@);
    let mut map = TextMap::new();
    let mut i: usize = 0;
    proof {
        assert(all.take(0) =~= Seq::<(Seq<char>, Seq<char>)>::empty());
    }
    while i < values.len()
        invariant
            all == pair_texts(values@),
            i <= values@.len(),
            map@ == written(Map::empty(), all.take(i as int)),
        decreases values@.len() - i,
    {
        proof {
            assert(all.take(i + 1).drop_last() =~= all.take(i as int));
            assert(all.take(i + 1).last() == (values@[i as int].key@, values@[i as int].value@));
        }
        map.insert(values[i].key.clone(), values[i].value.clone());
        i = i + 1;
    }
    proof {
        assert(all.take(all.len() as int) =~= all);
    }
    map
}

fn undo_of(settings: &TextMap, values: &Vec<SettingPair>) -> (r: Vec<SettingPair>)
    ensures
        pair_texts(r@) == previous_values(settings@, pair_texts(values@)),
{
    let ghost all = pair_texts(values@);
    let mut out: Vec<SettingPair> = Vec::new();
    let mut i: usize = 0;
    proof {
        assert(all.take(0) =~= Seq::<(Seq<char>, Seq<char>)>::empty());
        assert(pair_texts(out@) =~= Seq::<(Seq<char>, Seq<char>)>::empty());
    }
    while i < values.len()
        invariant
            all == pair_texts(values@),
            i <= values@.len(),
            pair_texts(out@) == previous_values(settings@, all.take(i as int)),
        decreases values@.len() - i,
    {
        proof {
            assert(all.take(i + 1).drop_last() =~= all.take(i as int));
            assert(all.take(i + 1).last() == (values@[i as int].key@, values@[i as int].value@));
        }
        match settings.get(values[i].key.as_str()) {
            Some(v) => {
                let ghost before = out@;
                out.push(copy_pair(values[i].key.as_str(), v.as_str()));
                proof {
                    assert(pair_texts(out@) =~= pair_texts(before).push(
                        (values@[i as int].key@, v@),
                    ));
                }
            },
            None => {},
        }
        i = i + 1;
    }
    proof {
        assert(all.take(all.len() as int) =~= all);
    }
    out
}

fn check_values(settings: &TextMap, values: &Vec<SettingPair>) -> (r: Option<String>)
    ensures
        crate::text::opt_text(r) == values_error(settings@, pair_texts(values@)),
{
    let ghost all = pair_texts(values@);
    let mut i: usize = 0;
    let mut custom = false;
    while i < values.len()
        invariant
            all == pair_texts(values@),
            i <= values@.len(),
            custom == exists|k: int| 0 <= k < i && is_custom_key((#[trigger] all[k]).0),
        decreases values@.len() - i,
    {
        proof {
            assert(all[i as int].0 == values@[i as int].key@);
        }
        if custom_key(values[i].key.as_str()) {
            custom = true;
        }
        i = i + 1;
    }
    proof {
        let p = |k: Seq<char>| is_custom_key(k);
        if custom {
            let k = choose|k: int| 0 <= k < all.len() && is_custom_key((#[trigger] all[k]).0);
            assert(p(all[k].0));
        }
        assert(custom == any_key(all, p));
    }
    if !custom {
        return None;
    }
    let proposed = proposed_map(values);
    match validate_custom_pair(&proposed, settings) {
        Ok(_) => None,
        Err(e) => Some(e),
    }
}

/// Plans the change of one setting.
pub fn set_setting(settings: &TextMap, key: &str, value: &str) -> (r: Result<ChangePlan, String>)
    ensures
        change_outcome(r) == setting_change(settings@, key@, value@),
{
    let values = vec![copy_pair(key, value)];
    proof {
        assert(pair_texts(values@) =~= seq![(key@, value@)]);
    }
    match check_values(settings, &values) {
        Some(e) => Err(e),
        None => {
            let undo = undo_of(settings, &values);
            let start_again = settings.get(key).is_some();
            Ok(ChangePlan { writes: values, restart: is_restart_key(key), undo, start_again })
        },
    }
}

/// Plans the change of several settings at once.
pub fn set_settings(settings: &TextMap, values: Vec<SettingPair>) -> (r: Result<ChangePlan, String>)
    ensures
        change_outcome(r) == settings_change(settings@, pair_texts(values@)),
{
    match check_values(settings, &values) {
        Some(e) => Err(e),
        None => {
            let undo = undo_of(settings, &values);
            let restart = any_restart(&values);
            Ok(ChangePlan { writes: values, restart, undo, start_again: true })
        },
    }
}

fn any_restart(values: &Vec<SettingPair>) -> (r: bool)
    ensures
        r == any_key(pair_texts(values@), |k: Seq<char>| restarts(k)),
{
    let ghost all = pair_texts(values@);
    let ghost p = |k: Seq<char>| restarts(k);
    let mut i: usize = 0;
    while i < values.len()
        invariant
            all == pair_texts(values@),
            p == (|k: Seq<char>| restarts(k)),
            i <= values@.len(),
            forall|k: int| 0 <= k < i ==> !restarts((#[trigger] all[k]).0),
        decreases values@.len() - i,
    {
        proof {
            assert(all[i as int].0 == values@[i as int].key@);
        }
        if is_restart_key(values[i].key.as_str()) {
            proof {
                assert(p(all[i as int].0));
            }
            return true;
        }
        i = i + 1;
    }
    false
}

/// Plans the change to a cell of the ladder, whose heights are given.
pub fn set_video_quality(
    settings: &TextMap,
    heights: &[u32],
    codec: &str,
    height: u32,
    fps: u32,
) -> (r: Result<ChangePlan, String>)
    ensures
        change_outcome(r) == quality_change(settings@, heights@, codec@, height, fps),
{
    if !is_codec_name(codec) {
        return Err("unknown codec".to_owned());
    }
    if !(fps == 24 || fps == 30 || fps == 60 || fps == 120 || fps == 144) {
        return Err("fps must be one of 24/30/60/120/144".to_owned());
    }
    if height != 0 && !has_height(heights, height) {
        return Err("unknown height".to_owned());
    }
    let h = decimal_of(height as u64);
    let f = decimal_of(fps as u64);
    let values = vec![
        copy_pair("video_codec", codec),
        copy_pair("out_height", h.as_str()),
        copy_pair("fps", f.as_str()),
        copy_pair("video_mode", "ladder"),
    ];
    proof {
        assert(pair_texts(values@) =~= quality_values(codec@, height as nat, fps as nat));
    }
    let undo = undo_of(settings, &values);
    Ok(ChangePlan { writes: values, restart: true, undo, start_again: true })
}

fn has_height(heights: &[u32], height: u32) -> (r: bool)
    ensures
        r == heights@.contains(height),
{
    let mut i: usize = 0;
    while i < heights.len()
        invariant
            i <= heights@.len(),
            forall|k: int| 0 <= k < i ==> heights@[k] != height,
        decreases heights@.len() - i,
    {
        if heights[i] == height {
            return true;
        }
        i = i + 1;
    }
    false
}

// ---------------------------------------------------------------------------
// Laws
// ---------------------------------------------------------------------------
proof fn lemma_written_other(
    settings: Map<Seq<char>, Seq<char>>,
    values: Seq<(Seq<char>, Seq<char>)>,
    key: Seq<char>,
)
    requires
        forall|i: int| 0 <= i < values.len() ==> (#[trigger] values[i]).0 != key,
    ensures
        stored(written(settings, values), key) == stored(settings, key),
    decreases values.len(),
{
    if values.len() > 0 {
        let init = values.drop_last();
        assert forall|i: int| 0 <= i < init.len() implies (#[trigger] init[i]).0 != key by {
            assert(init[i] == values[i]);
        }
        lemma_written_other(settings, init, key);
        assert(values[values.len() - 1].0 != key);
    }
}

proof fn lemma_written_constant(
    settings: Map<Seq<char>, Seq<char>>,
    values: Seq<(Seq<char>, Seq<char>)>,
    key: Seq<char>,
    value: Seq<char>,
)
    requires
        exists|i: int| 0 <= i < values.len() && (#[trigger] values[i]).0 == key,
        forall|i: int|
            0 <= i < values.len() && (#[trigger] values[i]).0 == key ==> values[i].1 == value,
    ensures
        stored(written(settings, values), key) == Some(value),
    decreases values.len(),
{
    let init = values.drop_last();
    if values.last().0 != key {
        let i = choose|i: int| 0 <= i < values.len() && (#[trigger] values[i]).0 == key;
        assert(init[i].0 == key);
        assert forall|i: int| 0 <= i < init.len() && (#[trigger] init[i]).0 == key implies init[i].1
            == value by {
            assert(init[i] == values[i]);
        }
        lemma_written_constant(settings, init, key, value);
    } else {
        assert(values[values.len() - 1].1 == value);
    }
}

proof fn lemma_previous(
    settings: Map<Seq<char>, Seq<char>>,
    values: Seq<(Seq<char>, Seq<char>)>,
    key: Seq<char>,
)
    ensures
        forall|i: int|
            0 <= i < previous_values(settings, values).len() && (#[trigger] previous_values(
                settings,
                values,
            )[i]).0 == key ==> stored(settings, key) == Some(previous_values(settings, values)[i].1),
        stored(settings, key) is Some && (exists|i: int|
            0 <= i < values.len() && (#[trigger] values[i]).0 == key) ==> exists|i: int|
            0 <= i < previous_values(settings, values).len() && (#[trigger] previous_values(
                settings,
                values,
            )[i]).0 == key,
    decreases values.len(),
{
    if values.len() > 0 {
        let init = values.drop_last();
        lemma_previous(settings, init, key);
        let p = previous_values(settings, values);
        let q = previous_values(settings, init);
        assert forall|i: int| 0 <= i < p.len() && (#[trigger] p[i]).0 == key implies stored(
            settings,
            key,
        ) == Some(p[i].1) by {
            if i < q.len() {
                assert(q[i] == p[i]);
            }
        }
        if stored(settings, key) is Some && exists|i: int|
            0 <= i < values.len() && (#[trigger] values[i]).0 == key {
            let i = choose|i: int| 0 <= i < values.len() && (#[trigger] values[i]).0 == key;
            if i == values.len() - 1 {
                assert(p[p.len() - 1].0 == key);
            } else {
                assert(init[i].0 == key);
                let j = choose|j: int| 0 <= j < q.len() && (#[trigger] q[j]).0 == key;
                assert(p[j] == q[j]);
            }
        }
    }
}

/// Taking a change back restores every setting that was stored before it,
/// whatever the change has written.
pub proof fn law_undo_restores_what_was_stored(
    settings: Map<Seq<char>, Seq<char>>,
    values: Seq<(Seq<char>, Seq<char>)>,
    key: Seq<char>,
)
    requires
        stored(settings, key) is Some,
    ensures
        stored(
            written(written(settings, values), previous_values(settings, values)),
            key,
        ) == stored(settings, key),
{
    let undo = previous_values(settings, values);
    let after = written(settings, values);
    lemma_previous(settings, values, key);
    if exists|i: int| 0 <= i < undo.len() && (#[trigger] undo[i]).0 == key {
        lemma_written_constant(after, undo, key, settings[key]);
    } else {
        assert forall|i: int| 0 <= i < values.len() implies (#[trigger] values[i]).0 != key by {}
        lemma_written_other(after, undo, key);
        lemma_written_other(settings, values, key);
    }
}

/// A change leaves every setting alone that it does not name, also when it is taken back.
pub proof fn law_change_keeps_other_settings(
    settings: Map<Seq<char>, Seq<char>>,
    values: Seq<(Seq<char>, Seq<char>)>,
    key: Seq<char>,
)
    requires
        forall|i: int| 0 <= i < values.len() ==> (#[trigger] values[i]).0 != key,
    ensures
        stored(written(settings, values), key) == stored(settings, key),
        stored(
            written(written(settings, values), previous_values(settings, values)),
            key,
        ) == stored(settings, key),
{
    lemma_written_other(settings, values, key);
    lemma_previous_keys(settings, values, key);
    lemma_written_other(written(settings, values), previous_values(settings, values), key);
}

proof fn lemma_previous_keys(
    settings: Map<Seq<char>, Seq<char>>,
    values: Seq<(Seq<char>, Seq<char>)>,
    key: Seq<char>,
)
    requires
        forall|i: int| 0 <= i < values.len() ==> (#[trigger] values[i]).0 != key,
    ensures
        forall|i: int|
            0 <= i < previous_values(settings, values).len() ==> (#[trigger] previous_values(
                settings,
                values,
            )[i]).0 != key,
    decreases values.len(),
{
    if values.len() > 0 {
        let init = values.drop_last();
        assert forall|i: int| 0 <= i < init.len() implies (#[trigger] init[i]).0 != key by {
            assert(init[i] == values[i]);
        }
        assert(values[values.len() - 1].0 != key);
        lemma_previous_keys(settings, init, key);
        let p = previous_values(settings, values);
        let q = previous_values(settings, init);
        assert forall|i: int| 0 <= i < p.len() implies (#[trigger] p[i]).0 != key by {
            if i < q.len() {
                assert(q[i] == p[i]);
            }
        }
    }
}

/// Picking a cell of the ladder leaves custom mode, and the codec, height and
/// frame rate that are then stored are the picked ones.
pub proof fn law_quality_leaves_custom_mode(
    settings: Map<Seq<char>, Seq<char>>,
    heights: Seq<u32>,
    codec: Seq<char>,
    height: u32,
    fps: u32,
)
    ensures
        quality_change(settings, heights, codec, height, fps) matches Ok(c) ==> {
            let after = written(settings, c.writes);
            &&& stored(after, "video_mode"@) == Some("ladder"@)
            &&& stored(after, "fps"@) == Some(decimal(fps as nat))
            &&& stored(after, "out_height"@) == Some(decimal(height as nat))
            &&& stored(after, "video_codec"@) == Some(codec)
        },
{
    if quality_change(settings, heights, codec, height, fps) is Ok {
        let w = quality_values(codec, height as nat, fps as nat);
        reveal_strlit("video_mode");
        reveal_strlit("fps");
        reveal_strlit("out_height");
        reveal_strlit("video_codec");
        assert("video_mode"@.len() == 10 && "fps"@.len() == 3 && "out_height"@.len() == 10
            && "video_codec"@.len() == 11);
        assert("video_mode"@[0] == 'v' && "out_height"@[0] == 'o');
        lemma_written_constant(settings, w, w[0].0, w[0].1);
        lemma_written_constant(settings, w, w[1].0, w[1].1);
        lemma_written_constant(settings, w, w[2].0, w[2].1);
        lemma_written_constant(settings, w, w[3].0, w[3].1);
    }
}

} // verus!
