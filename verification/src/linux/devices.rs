//! Capture devices as PulseAudio lists them (`pactl -f json`). Outputs carry
//! game and desktop sound, inputs are microphones.

use vstd::prelude::*;

use crate::api::{device_models, AudioDevice, DeviceModel};
use crate::encoder_options::opt_str;
use crate::encoder_tables::strs;
use crate::json::{Json, JsonModel, JsonRead};
use crate::profile::device_id;
use crate::records::{
    array_items, field_models, read_record, record_fields, split_array, text_at, text_field,
};
use crate::text::{ascii_lower, ascii_lowered, same, texts};

verus! {

broadcast use vstd::string::group_string_axioms;

// ---------------------------------------------------------------------------
// Listing
// ---------------------------------------------------------------------------
/// One listed sink or source.
pub struct ListedModel {
    pub name: Seq<char>,
    pub description: Seq<char>,
    /// A source that taps a sink: desktop sound, no microphone.
    pub monitor: bool,
}

/// One listed sink or source.
pub struct Listed {
    pub name: String,
    pub description: String,
    pub monitor: bool,
}

impl View for Listed {
    type V = ListedModel;

    open spec fn view(&self) -> ListedModel {
        ListedModel {
            name: self.name@,
            description: self.description@,
            monitor: self.monitor,
        }
    }
}

/// What a list of sinks or sources stands for.
pub open spec fn listed_models(v: Seq<Listed>) -> Seq<ListedModel> {
    v.map_values(|l: Listed| l@)
}

pub const SINK_FIELDS: [&'static str; 2] = ["name", "description"];

pub const SOURCE_FIELDS: [&'static str; 3] = ["name", "description", "monitor_of_sink"];

/// The fields that the entries of a listing have.
pub open spec fn entry_fields(sources: bool) -> Seq<Seq<char>> {
    if sources {
        strs(SOURCE_FIELDS@)
    } else {
        strs(SINK_FIELDS@)
    }
}

/// The sink or source that the fields of an entry describe: it has a name and,
/// where given, a description. Only sources tell whether they tap a sink: where
/// that field holds anything.
pub open spec fn listed_entry(fields: Seq<Option<JsonRead>>) -> Option<ListedModel> {
    let name = text_field(fields[0]);
    let description = if fields[1] is None {
        Some(Seq::empty())
    } else {
        text_field(fields[1])
    };
    let tap = if fields.len() > 2 {
        fields[2]
    } else {
        None
    };
    if name is Some && description is Some && !(tap matches Some(JsonRead::Failure(_))) {
        Some(
            ListedModel {
                name: name->0,
                description: description->0,
                monitor: tap is Some && tap->0 != JsonRead::Document(JsonModel::Null),
            },
        )
    } else {
        None
    }
}

/// The sinks or sources of a listing: all of its entries, or none where one of
/// them describes nothing.
pub open spec fn listed_all(entries: Seq<Seq<char>>, sources: bool) -> Option<Seq<ListedModel>>
    decreases entries.len(),
{
    if entries.len() == 0 {
        Some(Seq::empty())
    } else {
        let last = match record_fields(entries.last(), entry_fields(sources), 2) {
            Some(fields) => listed_entry(fields),
            None => None,
        };
        match (listed_all(entries.drop_last(), sources), last) {
            (Some(init), Some(last)) => Some(init.push(last)),
            _ => None,
        }
    }
}

/// The sinks or sources that the text of a listing holds. A text that is no
/// such listing holds none.
pub open spec fn listing(text: Seq<char>, sources: bool) -> Seq<ListedModel> {
    match array_items(text) {
        Some(entries) => match listed_all(entries, sources) {
            Some(all) => all,
            None => Seq::empty(),
        },
        None => Seq::empty(),
    }
}

/// Sink or source that the fields of an entry describe.
pub fn read_listed(fields: &Vec<Option<Result<Json, String>>>) -> (r: Option<Listed>)
    requires
        fields@.len() >= 2,
    ensures
        match r {
            Some(l) => listed_entry(field_models(fields@)) == Some(l@),
            None => listed_entry(field_models(fields@)) is None,
        },
{
    let name = match text_at(fields, 0) {
        Some(s) => s,
        None => {
            return None;
        },
    };
    let description = if fields[1].is_none() {
        String::new()
    } else {
        match text_at(fields, 1) {
            Some(s) => s,
            None => {
                return None;
            },
        }
    };
    let mut monitor = false;
    if fields.len() > 2 {
        match &fields[2] {
            Some(Ok(v)) => {
                proof {
                    crate::json::lemma_json_view(*v);
                }
                monitor = match v {
                    Json::Null => false,
                    _ => true,
                };
            },
            Some(Err(_)) => {
                return None;
            },
            None => {},
        }
    }
    let l = Listed { name, description, monitor };
    proof {
        assert(field_models(fields@)[1] is None ==> l@.description =~= Seq::<char>::empty());
    }
    Some(l)
}

fn read_entry(text: &str, sources: bool) -> (r: Option<Listed>)
    ensures
        match r {
            Some(l) => record_fields(text@, entry_fields(sources), 2) matches Some(fields)
                && listed_entry(fields) == Some(l@),
            None => record_fields(text@, entry_fields(sources), 2) matches Some(fields)
                ==> listed_entry(fields) is None,
        },
{
    let fields = if sources {
        read_record(text, &SOURCE_FIELDS, 2)
    } else {
        read_record(text, &SINK_FIELDS, 2)
    };
    match fields {
        Some(fields) => {
            proof {
                assert(field_models(fields@).len() == fields@.len());
            }
            read_listed(&fields)
        },
        None => None,
    }
}

/// Sinks or sources that the text of a listing holds.
pub fn read_listing(text: &str, sources: bool) -> (r: Vec<Listed>)
    ensures
        listed_models(r@) == listing(text@, sources),
{
    let mut out: Vec<Listed> = Vec::new();
    proof {
        assert(listed_models(out@) =~= Seq::<ListedModel>::empty());
    }
    let items = match split_array(text) {
        Some(items) => items,
        None => {
            return out;
        },
    };
    let ghost all = texts(items@);
    let mut i: usize = 0;
    proof {
        assert(all.take(0) =~= Seq::<Seq<char>>::empty());
    }
    while i < items.len()
        invariant
            all == texts(items@),
            array_items(text@) == Some(all),
            i <= items@.len(),
            listed_all(all.take(i as int), sources) == Some(listed_models(out@)),
        decreases items@.len() - i,
    {
        proof {
            assert(all.take(i + 1).drop_last() =~= all.take(i as int));
            assert(all.take(i + 1).last() == items@[i as int]@);
        }
        match read_entry(items[i].as_str(), sources) {
            Some(l) => {
                let ghost before = out@;
                out.push(l);
                proof {
                    assert(listed_models(out@) =~= listed_models(before).push(l@));
                }
            },
            None => {
                let none: Vec<Listed> = Vec::new();
                proof {
                    assert(listed_models(none@) =~= Seq::<ListedModel>::empty());
                    lemma_listed_stops(all, i + 1, sources);
                }
                return none;
            },
        }
        i = i + 1;
    }
    proof {
        assert(all.take(all.len() as int) =~= all);
    }
    out
}

proof fn lemma_listed_stops(all: Seq<Seq<char>>, n: int, sources: bool)
    requires
        0 <= n <= all.len(),
        listed_all(all.take(n), sources) is None,
    ensures
        listed_all(all, sources) is None,
    decreases all.len() - n,
{
    if n == all.len() {
        assert(all.take(n) =~= all);
    } else {
        assert(all.take(n + 1).drop_last() =~= all.take(n));
        lemma_listed_stops(all, n + 1, sources);
    }
}

/// A device that the sink or source is.
pub open spec fn listed_device(l: ListedModel, kind: Seq<char>) -> DeviceModel {
    DeviceModel { id: l.name, description: l.description, kind }
}

/// A list of devices has one with the id and kind.
pub open spec fn knows(devices: Seq<DeviceModel>, id: Seq<char>, kind: Seq<char>) -> bool {
    exists|i: int|
        0 <= i < devices.len() && (#[trigger] devices[i]).id == id && devices[i].kind == kind
}

/// A device more, where none has its id and kind already.
pub open spec fn with_device(devices: Seq<DeviceModel>, d: DeviceModel) -> Seq<DeviceModel> {
    if knows(devices, d.id, d.kind) {
        devices
    } else {
        devices.push(d)
    }
}

/// The devices with those of a listing added, without the taps of sinks.
pub open spec fn with_listed(
    devices: Seq<DeviceModel>,
    listed: Seq<ListedModel>,
    kind: Seq<char>,
) -> Seq<DeviceModel>
    decreases listed.len(),
{
    if listed.len() == 0 {
        devices
    } else {
        let init = with_listed(devices, listed.drop_last(), kind);
        if listed.last().monitor {
            init
        } else {
            with_device(init, listed_device(listed.last(), kind))
        }
    }
}

/// The device that follows the system's default, under the name of that default.
pub open spec fn default_device(id: Seq<char>, name: Option<Seq<char>>, kind: Seq<char>) -> DeviceModel {
    DeviceModel {
        id,
        description: match name {
            Some(n) => n,
            None => Seq::empty(),
        },
        kind,
    }
}

/// The devices to choose from: the two defaults first, then the sinks, then the
/// sources that are microphones, each id once per kind.
pub open spec fn device_list(
    sinks: Seq<ListedModel>,
    sources: Seq<ListedModel>,
    default_sink: Option<Seq<char>>,
    default_source: Option<Seq<char>>,
) -> Seq<DeviceModel> {
    let defaults = with_device(
        seq![default_device("default_output"@, default_sink, "desktop"@)],
        default_device("default_input"@, default_source, "mic"@),
    );
    with_listed(with_listed(defaults, sinks, "desktop"@), sources, "mic"@)
}

fn push_device(devices: &mut Vec<AudioDevice>, d: AudioDevice)
    ensures
        device_models(final(devices)@) == with_device(device_models(old(devices)@), d@),
{
    let ghost before = device_models(devices@);
    let mut i: usize = 0;
    while i < devices.len()
        invariant
            before == device_models(devices@),
            i <= devices@.len(),
            forall|k: int|
                0 <= k < i ==> !((#[trigger] before[k]).id == d@.id && before[k].kind == d@.kind),
        decreases devices@.len() - i,
    {
        proof {
            assert(before[i as int] == devices@[i as int]@);
        }
        if same(devices[i].id.as_str(), d.id.as_str()) && same(
            devices[i].kind.as_str(),
            d.kind.as_str(),
        ) {
            return;
        }
        i = i + 1;
    }
    proof {
        assert(!knows(before, d@.id, d@.kind));
    }
    devices.push(d);
    proof {
        assert(device_models(devices@) =~= before.push(d@));
    }
}

fn push_listed(devices: &mut Vec<AudioDevice>, listed: &Vec<Listed>, kind: &str)
    ensures
        device_models(final(devices)@) == with_listed(
            device_models(old(devices)@),
            listed_models(listed@),
            kind@,
        ),
{
    let ghost start = device_models(devices@);
    let ghost all = listed_models(listed@);
    let mut i: usize = 0;
    proof {
        assert(all.take(0) =~= Seq::<ListedModel>::empty());
    }
    while i < listed.len()
        invariant
            all == listed_models(listed@),
            i <= listed@.len(),
            device_models(devices@) == with_listed(start, all.take(i as int), kind@),
        decreases listed@.len() - i,
    {
        let l = &listed[i];
        proof {
            assert(all.take(i + 1).drop_last() =~= all.take(i as int));
            assert(all.take(i + 1).last() == l@);
        }
        if !l.monitor {
            push_device(
                devices,
                AudioDevice {
                    id: l.name.clone(),
                    description: l.description.clone(),
                    kind: kind.to_owned(),
                },
            );
        }
        i = i + 1;
    }
    proof {
        assert(all.take(all.len() as int) =~= all);
    }
}

fn text_or(name: Option<&str>) -> (r: String)
    ensures
        r@ == (match opt_str(name) {
            Some(n) => n,
            None => Seq::empty(),
        }),
{
    match name {
        Some(n) => n.to_owned(),
        None => String::new(),
    }
}

/// The devices to choose from, given the sinks and sources.
pub fn assemble_devices(
    sinks: &Vec<Listed>,
    sources: &Vec<Listed>,
    default_sink: Option<&str>,
    default_source: Option<&str>,
) -> (r: Vec<AudioDevice>)
    ensures
        device_models(r@) == device_list(
            listed_models(sinks@),
            listed_models(sources@),
            opt_str(default_sink),
            opt_str(default_source),
        ),
{
    let mut devices = vec![
        AudioDevice {
            id: "default_output".to_owned(),
            description: text_or(default_sink),
            kind: "desktop".to_owned(),
        },
    ];
    proof {
        assert(device_models(devices@) =~= seq![
            default_device("default_output"@, opt_str(default_sink), "desktop"@),
        ]);
    }
    push_device(
        &mut devices,
        AudioDevice {
            id: "default_input".to_owned(),
            description: text_or(default_source),
            kind: "mic".to_owned(),
        },
    );
    push_listed(&mut devices, sinks, "desktop");
    push_listed(&mut devices, sources, "mic");
    devices
}

/// Devices out of the two listings and the names of the defaults. A text that
/// is no listing adds none.
pub fn parse_devices(
    sinks: &str,
    sources: &str,
    default_sink: Option<&str>,
    default_source: Option<&str>,
) -> (r: Vec<AudioDevice>)
    ensures
        device_models(r@) == device_list(
            listing(sinks@, false),
            listing(sources@, true),
            opt_str(default_sink),
            opt_str(default_source),
        ),
{
    let sink_list = read_listing(sinks, false);
    let source_list = read_listing(sources, true);
    assemble_devices(&sink_list, &source_list, default_sink, default_source)
}

/// A listing without a device besides the two defaults is an error.
pub fn require_devices(devices: Vec<AudioDevice>) -> (r: Result<Vec<AudioDevice>, String>)
    ensures
        match r {
            Ok(v) => devices@.len() > 2 && v@ == devices@,
            Err(e) => devices@.len() <= 2 && e@ == "no PulseAudio/PipeWire devices found"@,
        },
{
    if devices.len() <= 2 {
        Err("no PulseAudio/PipeWire devices found".to_owned())
    } else {
        Ok(devices)
    }
}

// ---------------------------------------------------------------------------
// Resolving a stored device
// ---------------------------------------------------------------------------
/// The first device of the kind with the id.
pub open spec fn device_by_id(devices: Seq<DeviceModel>, id: Seq<char>, kind: Seq<char>) -> Option<
    Seq<char>,
>
    decreases devices.len(),
{
    if devices.len() == 0 {
        None
    } else if devices[0].id == id && devices[0].kind == kind {
        Some(devices[0].id)
    } else {
        device_by_id(devices.drop_first(), id, kind)
    }
}

/// The id of the first device of the kind with the description, up to the case of ASCII letters.
pub open spec fn device_by_description(
    devices: Seq<DeviceModel>,
    description: Seq<char>,
    kind: Seq<char>,
) -> Option<Seq<char>>
    decreases devices.len(),
{
    if devices.len() == 0 {
        None
    } else if devices[0].kind == kind && ascii_lower(devices[0].description) == ascii_lower(
        description,
    ) {
        Some(devices[0].id)
    } else {
        device_by_description(devices.drop_first(), description, kind)
    }
}

/// The device id that OBS takes for a stored one: the name of a default is
/// `default`, an id or a description that is listed gives the id, and anything
/// else is `default`. With nothing listed to check it against, the stored id
/// is kept.
pub open spec fn matched_device(stored: Seq<char>, devices: Seq<DeviceModel>, render: bool) -> Seq<
    char,
> {
    let id = device_id(stored, render);
    let kind = if render {
        "desktop"@
    } else {
        "mic"@
    };
    if id == "default"@ || devices.len() == 0 {
        id
    } else {
        match device_by_id(devices, id, kind) {
            Some(d) => d,
            None => match device_by_description(devices, id, kind) {
                Some(d) => d,
                None => "default"@,
            },
        }
    }
}

fn find_by_id(devices: &[AudioDevice], id: &str, kind: &str) -> (r: Option<String>)
    ensures
        crate::text::opt_text(r) == device_by_id(device_models(devices@), id@, kind@),
{
    let ghost all = device_models(devices@);
    let mut i: usize = 0;
    proof {
        assert(all.skip(0) =~= all);
    }
    while i < devices.len()
        invariant
            all == device_models(devices@),
            i <= devices@.len(),
            device_by_id(all, id@, kind@) == device_by_id(all.skip(i as int), id@, kind@),
        decreases devices@.len() - i,
    {
        let d = &devices[i];
        proof {
            assert(all.skip(i as int)[0] == d@);
            assert(all.skip(i as int).drop_first() =~= all.skip(i + 1));
        }
        if same(d.id.as_str(), id) && same(d.kind.as_str(), kind) {
            return Some(d.id.clone());
        }
        i = i + 1;
    }
    None
}

fn find_by_description(devices: &[AudioDevice], description: &str, kind: &str) -> (r: Option<String>)
    ensures
        crate::text::opt_text(r) == device_by_description(
            device_models(devices@),
            description@,
            kind@,
        ),
{
    let ghost all = device_models(devices@);
    let wanted = ascii_lowered(description);
    let mut i: usize = 0;
    proof {
        assert(all.skip(0) =~= all);
    }
    while i < devices.len()
        invariant
            all == device_models(devices@),
            wanted@ == ascii_lower(description@),
            i <= devices@.len(),
            device_by_description(all, description@, kind@) == device_by_description(
                all.skip(i as int),
                description@,
                kind@,
            ),
        decreases devices@.len() - i,
    {
        let d = &devices[i];
        proof {
            assert(all.skip(i as int)[0] == d@);
            assert(all.skip(i as int).drop_first() =~= all.skip(i + 1));
        }
        let shown = ascii_lowered(d.description.as_str());
        if same(d.kind.as_str(), kind) && same(shown.as_str(), wanted.as_str()) {
            return Some(d.id.clone());
        }
        i = i + 1;
    }
    None
}

/// Device id that OBS takes for a stored one, given the listed devices.
pub fn match_device_id(stored: &str, devices: &[AudioDevice], render: bool) -> (r: String)
    ensures
        r@ == matched_device(stored@, device_models(devices@), render),
{
    let id = crate::profile::normalize_device_id(stored, render);
    if same(id.as_str(), "default") || devices.len() == 0 {
        return id;
    }
    let kind = if render {
        "desktop"
    } else {
        "mic"
    };
    match find_by_id(devices, id.as_str(), kind) {
        Some(d) => d,
        None => match find_by_description(devices, id.as_str(), kind) {
            Some(d) => d,
            None => "default".to_owned(),
        },
    }
}

/// Device id for a stored one, where the listing itself may have failed.
pub fn resolve_obs_device_id(
    stored: &str,
    devices: &Result<Vec<AudioDevice>, String>,
    render: bool,
) -> (r: String)
    ensures
        r@ == match *devices {
            Ok(list) => matched_device(stored@, device_models(list@), render),
            Err(_) => "default"@,
        },
{
    match devices {
        Ok(list) => match_device_id(stored, list.as_slice(), render),
        Err(_) => "default".to_owned(),
    }
}

// ---------------------------------------------------------------------------
// Laws
// ---------------------------------------------------------------------------
proof fn lemma_by_id(devices: Seq<DeviceModel>, id: Seq<char>, kind: Seq<char>)
    ensures
        device_by_id(devices, id, kind) matches Some(d) ==> d == id && knows(devices, d, kind),
        device_by_id(devices, id, kind) is None ==> !knows(devices, id, kind),
    decreases devices.len(),
{
    if devices.len() > 0 {
        let rest = devices.drop_first();
        lemma_by_id(rest, id, kind);
        if devices[0].id == id && devices[0].kind == kind {
            assert(knows(devices, id, kind));
        } else {
            if knows(rest, id, kind) {
                let i = choose|i: int|
                    0 <= i < rest.len() && (#[trigger] rest[i]).id == id && rest[i].kind == kind;
                assert(devices[i + 1] == rest[i]);
            }
            if knows(devices, id, kind) {
                let i = choose|i: int|
                    0 <= i < devices.len() && (#[trigger] devices[i]).id == id && devices[i].kind
                        == kind;
                assert(rest[i - 1] == devices[i]);
            }
        }
    }
}

proof fn lemma_by_description(devices: Seq<DeviceModel>, text: Seq<char>, kind: Seq<char>)
    ensures
        device_by_description(devices, text, kind) matches Some(d) ==> knows(devices, d, kind),
    decreases devices.len(),
{
    if devices.len() > 0 {
        let rest = devices.drop_first();
        lemma_by_description(rest, text, kind);
        if devices[0].kind == kind && ascii_lower(devices[0].description) == ascii_lower(text) {
            assert(knows(devices, devices[0].id, kind));
        } else if device_by_description(rest, text, kind) is Some {
            let d = device_by_description(rest, text, kind)->0;
            let i = choose|i: int|
                0 <= i < rest.len() && (#[trigger] rest[i]).id == d && rest[i].kind == kind;
            assert(devices[i + 1] == rest[i]);
        }
    }
}

/// Where devices are listed, a stored one resolves to `default` or to a listed
/// device of its own kind.
pub proof fn law_resolved_device_is_listed(stored: Seq<char>, devices: Seq<DeviceModel>, render: bool)
    requires
        devices.len() > 0,
    ensures
        ({
            let d = matched_device(stored, devices, render);
            d == "default"@ || knows(
                devices,
                d,
                if render {
                    "desktop"@
                } else {
                    "mic"@
                },
            )
        }),
{
    let id = device_id(stored, render);
    let kind = if render {
        "desktop"@
    } else {
        "mic"@
    };
    lemma_by_id(devices, id, kind);
    lemma_by_description(devices, id, kind);
}

proof fn lemma_with_listed(devices: Seq<DeviceModel>, listed: Seq<ListedModel>, kind: Seq<char>)
    requires
        devices.len() >= 1,
    ensures
        with_listed(devices, listed, kind).len() >= devices.len(),
        forall|i: int|
            0 <= i < devices.len() ==> with_listed(devices, listed, kind)[i] == #[trigger] devices[i],
        no_device_twice(devices) ==> no_device_twice(with_listed(devices, listed, kind)),
    decreases listed.len(),
{
    if listed.len() > 0 {
        lemma_with_listed(devices, listed.drop_last(), kind);
        let init = with_listed(devices, listed.drop_last(), kind);
        let d = listed_device(listed.last(), kind);
        lemma_with_device(init, d);
    }
}

/// No two devices share id and kind.
pub open spec fn no_device_twice(devices: Seq<DeviceModel>) -> bool {
    forall|i: int, j: int|
        0 <= i < devices.len() && 0 <= j < devices.len() && i != j ==> !((#[trigger] devices[i]).id == (
        #[trigger] devices[j]).id && devices[i].kind == devices[j].kind)
}

proof fn lemma_with_device(devices: Seq<DeviceModel>, d: DeviceModel)
    ensures
        no_device_twice(devices) ==> no_device_twice(with_device(devices, d)),
{
    if no_device_twice(devices) && !knows(devices, d.id, d.kind) {
        let out = devices.push(d);
        assert forall|i: int, j: int|
            0 <= i < out.len() && 0 <= j < out.len() && i != j implies !((#[trigger] out[i]).id == (
        #[trigger] out[j]).id && out[i].kind == out[j].kind) by {
            if i < devices.len() && j < devices.len() {
                assert(out[i] == devices[i] && out[j] == devices[j]);
            } else if i < devices.len() {
                assert(out[i] == devices[i]);
            } else {
                assert(out[j] == devices[j]);
            }
        }
    }
}

/// The two defaults always come first, and no device is offered twice.
pub proof fn law_defaults_come_first(
    sinks: Seq<ListedModel>,
    sources: Seq<ListedModel>,
    default_sink: Option<Seq<char>>,
    default_source: Option<Seq<char>>,
)
    ensures
        ({
            let all = device_list(sinks, sources, default_sink, default_source);
            &&& all.len() >= 2
            &&& all[0] == default_device("default_output"@, default_sink, "desktop"@)
            &&& all[1] == default_device("default_input"@, default_source, "mic"@)
            &&& no_device_twice(all)
        }),
{
    reveal_strlit("desktop");
    reveal_strlit("mic");
    let first = seq![default_device("default_output"@, default_sink, "desktop"@)];
    let second = default_device("default_input"@, default_source, "mic"@);
    assert("desktop"@.len() == 7 && "mic"@.len() == 3);
    assert(!knows(first, second.id, second.kind));
    let defaults = with_device(first, second);
    assert(defaults =~= first.push(second));
    assert(no_device_twice(first));
    lemma_with_device(first, second);
    lemma_with_listed(defaults, sinks, "desktop"@);
    let both = with_listed(defaults, sinks, "desktop"@);
    lemma_with_listed(both, sources, "mic"@);
    let all = with_listed(both, sources, "mic"@);
    assert(both[0] == defaults[0] && both[1] == defaults[1]);
    assert(all[0] == both[0] && all[1] == both[1]);
}

} // verus!
