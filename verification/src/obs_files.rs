//! The files that one start writes below the root of the private configuration.

use vstd::prelude::*;

use crate::json::{
    entries_writable, entry_of, entry_value, json_entries, json_items, json_parse, json_pretty,
    parse_json, plain, Json, JsonModel, JsonRead,
};
use crate::encoder_options::opt_str;
use crate::engine_laws::{law_collection_is_plain, law_restore_token_reads_back};
use crate::paths::{join, join_path};
use crate::profile::{ObsProfile, ProfileModel};
use crate::render::{
    basic_ini, collection_entries, collection_text, global_ini, object_of, render_basic_ini, render_collection,
    render_global_ini, render_record_encoder_json, render_user_ini, render_websocket_config,
    user_ini, websocket_entries, SourceUuids, UuidsModel, FORBIDDEN_SOURCE_ID,
};
use crate::text::{contains, opt_text, same, texts};

verus! {

broadcast use vstd::string::group_string_axioms;

// ---------------------------------------------------------------------------
// Names of a collection's parts
// ---------------------------------------------------------------------------
/// A lower case hexadecimal digit.
pub open spec fn is_hex(c: char) -> bool {
    '0' <= c <= '9' || 'a' <= c <= 'f'
}

/// The hyphenated text of a random UUID: 36 characters, hyphens after 8, 4, 4
/// and 4 digits, version 4.
pub open spec fn is_uuid_text(s: Seq<char>) -> bool {
    &&& s.len() == 36
    &&& forall|i: int|
        0 <= i < 36 ==> if i == 8 || i == 13 || i == 18 || i == 23 {
            #[trigger] s[i] == '-'
        } else {
            is_hex(s[i])
        }
    &&& s[14] == '4'
}

/// The text of a random UUID without hyphens: 32 hexadecimal digits.
pub open spec fn is_simple_uuid_text(s: Seq<char>) -> bool {
    &&& s.len() == 32
    &&& forall|i: int| 0 <= i < 32 ==> is_hex(#[trigger] s[i])
}

/// `uuid::Uuid::new_v4` as text: random, so only its shape is stated.
#[verifier::external_body]
fn new_uuid() -> (r: String)
    ensures
        is_uuid_text(r@),
{
    uuid::Uuid::new_v4().to_string()
}

/// `uuid::Uuid::new_v4` as text without hyphens: random, so only its shape is stated.
#[verifier::external_body]
pub(crate) fn new_simple_uuid() -> (r: String)
    ensures
        is_simple_uuid_text(r@),
{
    uuid::Uuid::new_v4().simple().to_string()
}

impl SourceUuids {
    /// Fresh names.
    pub fn generate() -> (r: Self)
        ensures
            is_uuid_text(r.scene@),
            is_uuid_text(r.video@),
            is_uuid_text(r.game_audio@),
            is_uuid_text(r.mic_audio@),
    {
        SourceUuids {
            scene: new_uuid(),
            video: new_uuid(),
            game_audio: new_uuid(),
            mic_audio: new_uuid(),
        }
    }
}

// ---------------------------------------------------------------------------
// Restore token
// ---------------------------------------------------------------------------
/// The token that one source keeps, when it is a screen capture that has one.
pub open spec fn source_token(source: JsonModel) -> Option<Seq<char>> {
    let id = match source.get("id"@) {
        Some(v) => v.as_str(),
        None => None,
    };
    if id == Some("pipewire-desktop-capture-source"@) || id == Some(
        "pipewire-screen-capture-source"@,
    ) {
        match source.get("settings"@) {
            Some(settings) => match settings.get("RestoreToken"@) {
                Some(t) => t.as_str(),
                None => None,
            },
            None => None,
        }
    } else {
        None
    }
}

/// The token of the first source that keeps one.
pub open spec fn first_token(sources: Seq<JsonModel>) -> Option<Seq<char>>
    decreases sources.len(),
{
    if sources.len() == 0 {
        None
    } else {
        match source_token(sources[0]) {
            Some(t) => Some(t),
            None => first_token(sources.drop_first()),
        }
    }
}

/// The portal token that a scene collection keeps.
pub open spec fn restore_token_of(doc: JsonModel) -> Option<Seq<char>> {
    let sources = match doc.get("sources"@) {
        Some(v) => v.as_array(),
        None => None,
    };
    match sources {
        Some(items) => match first_token(items) {
            Some(t) => if t.len() > 0 {
                Some(t)
            } else {
                None
            },
            None => None,
        },
        None => None,
    }
}

/// The portal token that the text of a scene collection keeps.
pub open spec fn restore_token_read(read: JsonRead) -> Option<Seq<char>> {
    match read {
        JsonRead::Document(doc) => restore_token_of(doc),
        JsonRead::Failure(_) => None,
    }
}

fn token_of_source(source: &Json) -> (r: Option<String>)
    ensures
        opt_text(r) == source_token(source@),
{
    let id = match source.get("id") {
        Some(v) => v.as_str(),
        None => None,
    };
    match id {
        Some(s) => {
            if !(same(s, "pipewire-desktop-capture-source") || same(
                s,
                "pipewire-screen-capture-source",
            )) {
                return None;
            }
        },
        None => {
            return None;
        },
    }
    match source.get("settings") {
        Some(settings) => match settings.get("RestoreToken") {
            Some(t) => match t.as_str() {
                Some(s) => Some(s.to_owned()),
                None => None,
            },
            None => None,
        },
        None => None,
    }
}

/// The portal token that a scene collection keeps.
pub fn restore_token_in(doc: &Json) -> (r: Option<String>)
    ensures
        opt_text(r) == restore_token_of(doc@),
{
    let sources = match doc.get("sources") {
        Some(v) => v.as_array(),
        None => None,
    };
    let items = match sources {
        Some(items) => items,
        None => {
            return None;
        },
    };
    let ghost all = json_items(items@);
    let mut i: usize = 0;
    proof {
        assert(all.skip(0) =~= all);
    }
    while i < items.len()
        invariant
            all == json_items(items@),
            i <= items@.len(),
            restore_token_of(doc@) == (match first_token(all) {
                Some(t) => if t.len() > 0 {
                    Some(t)
                } else {
                    None
                },
                None => None,
            }),
            first_token(all) == first_token(all.skip(i as int)),
        decreases items@.len() - i,
    {
        proof {
            assert(all.skip(i as int)[0] == items@[i as int]@);
            assert(all.skip(i as int).drop_first() =~= all.skip(i + 1));
        }
        match token_of_source(&items[i]) {
            Some(t) => {
                if t.as_str().is_empty() {
                    return None;
                }
                return Some(t);
            },
            None => {},
        }
        i = i + 1;
    }
    None
}

/// The portal token that OBS saved in the text of our scene collection.
pub fn existing_restore_token(text: &str) -> (r: Option<String>)
    ensures
        opt_text(r) == restore_token_read(json_parse(text@)),
{
    match parse_json(text) {
        Ok(doc) => restore_token_in(&doc),
        Err(_) => None,
    }
}

/// The token in the settings of a running capture source, where there is one.
pub open spec fn live_token_of(settings: JsonModel) -> Option<Seq<char>> {
    let token = match settings.get("RestoreToken"@) {
        Some(v) => v.as_str(),
        None => None,
    };
    match token {
        Some(t) => if t.len() > 0 {
            Some(t)
        } else {
            None
        },
        None => None,
    }
}

/// The token in the text of the settings of a running capture source.
pub open spec fn live_token_read(read: JsonRead) -> Option<Seq<char>> {
    match read {
        JsonRead::Document(settings) => live_token_of(settings),
        JsonRead::Failure(_) => None,
    }
}

/// Token in the settings of a running capture source.
pub fn token_in_settings(settings: &Json) -> (r: Option<String>)
    ensures
        opt_text(r) == live_token_of(settings@),
{
    match settings.get("RestoreToken") {
        Some(v) => match v.as_str() {
            Some(s) => {
                if s.is_empty() {
                    None
                } else {
                    Some(s.to_owned())
                }
            },
            None => None,
        },
        None => None,
    }
}

/// Token in the text of the settings of a running capture source.
pub fn live_restore_token(settings: &str) -> (r: Option<String>)
    ensures
        opt_text(r) == live_token_read(json_parse(settings@)),
{
    match parse_json(settings) {
        Ok(doc) => token_in_settings(&doc),
        Err(_) => None,
    }
}

/// The capture source of a profile already has a token.
pub open spec fn has_token(p: ProfileModel) -> bool {
    match entry_of(p.video_settings, "RestoreToken"@) {
        Some(v) => match v.as_str() {
            Some(s) => s.len() > 0,
            None => false,
        },
        None => false,
    }
}

/// A profile with the token that an earlier start has left, where it has none
/// of its own.
pub open spec fn profile_with_token(p: ProfileModel, kept: Option<Seq<char>>) -> ProfileModel {
    if !has_token(p) && kept is Some {
        ProfileModel {
            video_settings: p.video_settings.push(("RestoreToken"@, JsonModel::Str(kept->0))),
            ..p
        }
    } else {
        p
    }
}

/// The profile whose scene is written: where it has no token, the one that
/// the previous scene collection keeps is taken over.
pub open spec fn seeded_profile(p: ProfileModel, previous: Option<Seq<char>>) -> ProfileModel {
    profile_with_token(
        p,
        match previous {
            Some(text) => restore_token_read(json_parse(text)),
            None => None,
        },
    )
}

/// Gives a profile the token that an earlier start has left.
pub fn keep_token(p: &ObsProfile, kept: Option<String>) -> (r: ObsProfile)
    requires
        entries_writable(p.video_settings@),
    ensures
        r@ == profile_with_token(p@, opt_text(kept)),
        entries_writable(r.video_settings@),
{
    let mut out = p.copy();
    let present = match entry_value(&p.video_settings, "RestoreToken") {
        Some(v) => match v.as_str() {
            Some(s) => !s.is_empty(),
            None => false,
        },
        None => false,
    };
    if present {
        return out;
    }
    match kept {
        Some(token) => {
            let ghost before = out.video_settings@;
            out.video_settings.push(("RestoreToken".to_owned(), Json::Str(token)));
            proof {
                assert(json_entries(out.video_settings@) =~= json_entries(before).push(
                    ("RestoreToken"@, JsonModel::Str(token@)),
                ));
            }
            out
        },
        None => out,
    }
}

/// The profile whose scene is written.
pub fn seed_token(p: &ObsProfile, previous: Option<&str>) -> (r: ObsProfile)
    requires
        entries_writable(p.video_settings@),
    ensures
        r@ == seeded_profile(p@, opt_str(previous)),
        entries_writable(r.video_settings@),
{
    let kept: Option<String> = match previous {
        Some(text) => existing_restore_token(text),
        None => None,
    };
    keep_token(p, kept)
}

// ---------------------------------------------------------------------------
// Files
// ---------------------------------------------------------------------------
/// Directories to make and files to write for one start, in order.
pub struct ObsFiles {
    pub profile_dir: String,
    pub dirs: Vec<String>,
    /// Path and text of each file.
    pub files: Vec<(String, String)>,
}

/// What the contents of a list of files are.
pub open spec fn file_texts(files: Seq<(String, String)>) -> Seq<(Seq<char>, Seq<char>)> {
    files.map_values(|f: (String, String)| (f.0@, f.1@))
}

/// The directory of our OBS configuration below its root.
pub open spec fn conf_dir(root: Seq<char>) -> Seq<char> {
    join_path(root, "obs-studio"@)
}

/// The directory of the generated profile.
pub open spec fn profile_dir(root: Seq<char>) -> Seq<char> {
    join_path(join_path(join_path(conf_dir(root), "basic"@), "profiles"@), "MoonClip"@)
}

/// The directory of the scene collections.
pub open spec fn scenes_dir(root: Seq<char>) -> Seq<char> {
    join_path(join_path(conf_dir(root), "basic"@), "scenes"@)
}

/// The directory of the websocket's configuration.
pub open spec fn websocket_dir(root: Seq<char>) -> Seq<char> {
    join_path(join_path(conf_dir(root), "plugin_config"@), "obs-websocket"@)
}

/// The file of the generated scene collection.
pub open spec fn collection_path(root: Seq<char>) -> Seq<char> {
    join_path(scenes_dir(root), "MoonClip.json"@)
}

/// File of the generated scene collection, to be read before a start.
pub fn collection_file(root: &str) -> (r: String)
    ensures
        r@ == collection_path(root@),
{
    let conf = join(root, "obs-studio");
    let basic = join(conf.as_str(), "basic");
    let scenes = join(basic.as_str(), "scenes");
    join(scenes.as_str(), "MoonClip.json")
}

/// The directories that one start makes.
pub open spec fn start_dirs(root: Seq<char>, output_dir: Seq<char>) -> Seq<Seq<char>> {
    seq![profile_dir(root), scenes_dir(root), websocket_dir(root), output_dir]
}

/// The texts of the files that one start writes.
pub struct StartTexts {
    pub basic_ini: Seq<char>,
    pub encoder_json: Seq<char>,
    pub collection: Seq<char>,
    pub global_ini: Seq<char>,
    pub user_ini: Seq<char>,
    pub websocket: Seq<char>,
}

/// The texts of the files that one start writes.
pub open spec fn start_texts(
    p: ProfileModel,
    tray: bool,
    previous: Option<Seq<char>>,
    uuids: UuidsModel,
) -> StartTexts {
    StartTexts {
        basic_ini: basic_ini(p),
        encoder_json: json_pretty(object_of(p.encoder_settings)),
        collection: collection_text(seeded_profile(p, previous), uuids),
        global_ini: global_ini(),
        user_ini: user_ini(tray),
        websocket: json_pretty(object_of(websocket_entries(p.websocket_port, p.websocket_password))),
    }
}

/// The files that one start writes.
pub open spec fn start_files(root: Seq<char>, files: StartTexts) -> Seq<(Seq<char>, Seq<char>)> {
    seq![
        (join_path(profile_dir(root), "basic.ini"@), files.basic_ini),
        (join_path(profile_dir(root), "recordEncoder.json"@), files.encoder_json),
        (collection_path(root), files.collection),
        (join_path(conf_dir(root), "global.ini"@), files.global_ini),
        (join_path(conf_dir(root), "user.ini"@), files.user_ini),
        (join_path(websocket_dir(root), "config.json"@), files.websocket),
    ]
}

fn conf_of(root: &str) -> (r: String)
    ensures
        r@ == conf_dir(root@),
{
    join(root, "obs-studio")
}

fn profile_dir_of(root: &str) -> (r: String)
    ensures
        r@ == profile_dir(root@),
{
    let conf = conf_of(root);
    let basic = join(conf.as_str(), "basic");
    let profiles = join(basic.as_str(), "profiles");
    join(profiles.as_str(), "MoonClip")
}

fn scenes_dir_of(root: &str) -> (r: String)
    ensures
        r@ == scenes_dir(root@),
{
    let conf = conf_of(root);
    let basic = join(conf.as_str(), "basic");
    join(basic.as_str(), "scenes")
}

fn websocket_dir_of(root: &str) -> (r: String)
    ensures
        r@ == websocket_dir(root@),
{
    let conf = conf_of(root);
    let plugins = join(conf.as_str(), "plugin_config");
    join(plugins.as_str(), "obs-websocket")
}

/// The texts of the files that one start writes.
pub struct RenderedFiles {
    pub basic_ini: String,
    pub encoder_json: String,
    pub collection: String,
    pub global_ini: String,
    pub user_ini: String,
    pub websocket: String,
}

impl View for RenderedFiles {
    type V = StartTexts;

    open spec fn view(&self) -> StartTexts {
        StartTexts {
            basic_ini: self.basic_ini@,
            encoder_json: self.encoder_json@,
            collection: self.collection@,
            global_ini: self.global_ini@,
            user_ini: self.user_ini@,
            websocket: self.websocket@,
        }
    }
}

/// The token of the capture source of a profile, where it has one.
pub open spec fn own_token(p: ProfileModel) -> Option<Seq<char>> {
    match entry_of(p.video_settings, "RestoreToken"@) {
        Some(v) => match v.as_str() {
            Some(s) => if s.len() > 0 {
                Some(s)
            } else {
                None
            },
            None => None,
        },
        None => None,
    }
}

/// What the next start finds in the text of a scene collection is the token of
/// the profile that it was written for: of a screen capture whose settings are
/// plain and name no forbidden source.
pub open spec fn token_reads_back(p: ProfileModel, u: UuidsModel, text: Seq<char>) -> bool {
    (p.video_source_id == "pipewire-desktop-capture-source"@ || p.video_source_id
        == "pipewire-screen-capture-source"@) && own_token(p) is Some && plain(
        object_of(p.video_settings),
        40,
    ) && !contains(json_pretty(object_of(collection_entries(p, u))), FORBIDDEN_SOURCE_ID@)
        ==> restore_token_read(json_parse(text)) == own_token(p)
}

/// Texts of the files that one start writes. `previous` is the text of the
/// scene collection that is there before.
pub fn render_files(
    p: &ObsProfile,
    tray: bool,
    previous: Option<&str>,
    uuids: &SourceUuids,
) -> (r: RenderedFiles)
    requires
        entries_writable(p.video_settings@),
        entries_writable(p.encoder_settings@),
    ensures
        r@ == start_texts(p@, tray, opt_str(previous), uuids@),
        token_reads_back(seeded_profile(p@, opt_str(previous)), uuids@, r@.collection),
{
    let seeded = seed_token(p, previous);
    let collection = render_collection(&seeded, uuids);
    proof {
        if !token_reads_back(seeded@, uuids@, collection@) {
            law_collection_is_plain(seeded@, uuids@);
            law_restore_token_reads_back(seeded@, uuids@, own_token(seeded@)->0);
        }
    }
    RenderedFiles {
        basic_ini: render_basic_ini(p),
        encoder_json: render_record_encoder_json(p),
        collection,
        global_ini: render_global_ini(),
        user_ini: render_user_ini(tray),
        websocket: render_websocket_config(p.websocket_port, p.websocket_password.as_str()),
    }
}

/// Where the files of one start go.
pub fn place_files(root: &str, output_dir: &str, files: RenderedFiles) -> (r: ObsFiles)
    ensures
        r.profile_dir@ == profile_dir(root@),
        texts(r.dirs@) == start_dirs(root@, output_dir@),
        file_texts(r.files@) == start_files(root@, files@),
        r.files@[2].0@ == collection_path(root@),
        r.files@[2].1@ == files@.collection,
{
    let conf = conf_of(root);
    let profile = profile_dir_of(root);
    let scenes = scenes_dir_of(root);
    let websocket = websocket_dir_of(root);
    let ghost model = files@;
    let list = vec![
        (join(profile.as_str(), "basic.ini"), files.basic_ini),
        (join(profile.as_str(), "recordEncoder.json"), files.encoder_json),
        (collection_file(root), files.collection),
        (join(conf.as_str(), "global.ini"), files.global_ini),
        (join(conf.as_str(), "user.ini"), files.user_ini),
        (join(websocket.as_str(), "config.json"), files.websocket),
    ];
    proof {
        assert(file_texts(list@) =~= start_files(root@, model));
    }
    let dirs = vec![profile.clone(), scenes, websocket, output_dir.to_owned()];
    proof {
        assert(texts(dirs@) =~= start_dirs(root@, output_dir@));
    }
    ObsFiles { profile_dir: profile, dirs, files: list }
}

/// Everything that one start writes. The next start finds the token of this one
/// in the scene collection.
pub fn plan_obs_config(
    root: &str,
    p: &ObsProfile,
    tray: bool,
    previous: Option<&str>,
    uuids: &SourceUuids,
) -> (r: ObsFiles)
    requires
        entries_writable(p.video_settings@),
        entries_writable(p.encoder_settings@),
    ensures
        r.profile_dir@ == profile_dir(root@),
        texts(r.dirs@) == start_dirs(root@, p@.output_dir),
        file_texts(r.files@) == start_files(
            root@,
            start_texts(p@, tray, opt_str(previous), uuids@),
        ),
        r.files@[2].0@ == collection_path(root@),
        token_reads_back(seeded_profile(p@, opt_str(previous)), uuids@, r.files@[2].1@),
{
    place_files(root, p.output_dir.as_str(), render_files(p, tray, previous, uuids))
}

} // verus!
