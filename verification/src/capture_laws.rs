//! What holds from the settings to the profile.

use vstd::prelude::*;

use crate::api::CustomVideoModel;
use crate::capture::{
    choice_error, chosen_codec, config_of, custom_choice, is_codec, is_preference, override_encoder,
    override_video, plan_of, stored_choice, stored_payload, CaptureEnv, CustomChoice,
    OverridesModel,
};
use crate::encoder_custom::{custom_video_of, custom_video_read, video_doc};
use crate::encoder_laws::{law_catalog_ids_resolve, law_custom_video_check_is_idempotent};
use crate::encoder_options::{encoder_family, find_entry, known_encoder, linux_catalog, EntryModel};
use crate::json::{json_parse, JsonModel, JsonRead};
use crate::linux::engine::{ladder_encoder, law_ladder_encoder_is_in_the_catalog, platform_answers};
use crate::linux::video::Monitor;
use crate::profile::{checked_settings, checked_video, encoder_pick, profile_of, EncoderPick};
use crate::settings::{custom_rate, is_custom_fps, setting};
use crate::text::trim;

verus! {

broadcast use vstd::string::group_string_axioms;

/// Whatever is stored, a plan has one of the three codecs and one of the two
/// encoder preferences.
pub proof fn law_plan_has_a_codec(
    settings: Map<Seq<char>, Seq<char>>,
    o: OverridesModel,
    monitor: Option<&Monitor>,
)
    ensures
        plan_of(settings, o, monitor) matches Ok(p) ==> is_codec(p.codec) && is_preference(
            p.encoder,
        ) && (p.out_height == 0 || p.out_height < p.base_height),
{
    if plan_of(settings, o, monitor) is Ok {
        lemma_known_codec(settings, o);
    }
}

proof fn lemma_found_in(catalog: Seq<EntryModel>, id: Seq<char>)
    ensures
        find_entry(catalog, id) matches Some(e) ==> e.id == id && exists|i: int|
            0 <= i < catalog.len() && #[trigger] catalog[i] == e,
        find_entry(catalog, id) is None ==> forall|i: int|
            0 <= i < catalog.len() ==> (#[trigger] catalog[i]).id != id,
    decreases catalog.len(),
{
    if catalog.len() > 0 {
        let rest = catalog.drop_first();
        lemma_found_in(rest, id);
        if catalog[0].id == id {
            assert(catalog[0] == catalog[0]);
        } else {
            if find_entry(rest, id) is Some {
                let e = find_entry(rest, id)->0;
                let i = choose|i: int| 0 <= i < rest.len() && #[trigger] rest[i] == e;
                assert(catalog[i + 1] == e);
            } else {
                assert forall|i: int| 0 <= i < catalog.len() implies (#[trigger] catalog[i]).id
                    != id by {
                    if i > 0 {
                        assert(rest[i - 1] == catalog[i]);
                    }
                }
            }
        }
    }
}

proof fn lemma_entry_codec(id: Seq<char>)
    ensures
        known_encoder(id) matches Some(e) ==> is_codec(e.codec) && e.id == id,
{
    let all = crate::encoder_options::windows_catalog() + linux_catalog();
    lemma_found_in(all, id);
    if known_encoder(id) is Some {
        let e = known_encoder(id)->0;
        let i = choose|i: int| 0 <= i < all.len() && #[trigger] all[i] == e;
        if i < 10 {
            assert(all[i] == crate::encoder_options::windows_catalog()[i]);
        } else {
            assert(all[i] == linux_catalog()[i - 10]);
        }
    }
}

/// The custom selections that are stored.
spec fn read_choice(settings: Map<Seq<char>, Seq<char>>, o: OverridesModel) -> Result<
    CustomChoice,
    Seq<char>,
> {
    stored_choice(
        settings,
        stored_payload(settings, "custom_encoder_json"@),
        stored_payload(settings, "custom_video_json"@),
        chosen_codec(settings, o),
    )
}

proof fn lemma_known_codec(settings: Map<Seq<char>, Seq<char>>, o: OverridesModel)
    ensures
        custom_choice(settings, o) matches Ok(c) ==> is_codec(c.codec),
{
    if custom_choice(settings, o) is Ok {
        let a = read_choice(settings, o)->Ok_0;
        if a.encoder is Some {
            lemma_entry_codec(a.encoder->0.encoder);
        }
        if o.custom_encoder is Some {
            lemma_entry_codec(o.custom_encoder->0.encoder);
        }
    }
}

/// Custom mode never captures with a frame rate or bitrate outside its ranges:
/// what cannot be used leaves the ladder's.
pub proof fn law_custom_rate_stays_in_range(
    mode: Seq<char>,
    custom_fps: Seq<char>,
    custom_kbps: Seq<char>,
    ladder_fps: nat,
    ladder_kbps: nat,
)
    ensures
        ({
            let r = custom_rate(mode, custom_fps, custom_kbps, ladder_fps as int, ladder_kbps as int);
            &&& r.fps == ladder_fps || is_custom_fps(r.fps as nat)
            &&& r.bitrate_kbps == ladder_kbps || 3_000 <= r.bitrate_kbps <= 100_000
            &&& trim(mode) != "custom"@ ==> r.fps == ladder_fps && r.bitrate_kbps == ladder_kbps
            &&& r.refused_fps ==> r.fps == ladder_fps
        }),
{
}

/// The video settings of a choice were checked for the choice's own encoder,
/// unless the overrides replace the encoder alone.
proof fn lemma_video_checked(settings: Map<Seq<char>, Seq<char>>, o: OverridesModel)
    requires
        custom_choice(settings, o) is Ok,
        o.custom_encoder is None || o.custom_video is Some,
        custom_choice(settings, o)->Ok_0.encoder is Some,
        custom_choice(settings, o)->Ok_0.video is Some,
    ensures
        ({
            let c = custom_choice(settings, o)->Ok_0;
            let e = known_encoder(c.encoder->0.encoder)->0;
            &&& known_encoder(c.encoder->0.encoder) is Some
            &&& exists|doc: JsonModel|
                custom_video_of(e.family, e.codec, doc) == Ok::<CustomVideoModel, Seq<char>>(
                    c.video->0,
                )
        }),
{
    let a = read_choice(settings, o)->Ok_0;
    let b = override_encoder(a, o)->Ok_0;
    let c = override_video(b, o)->Ok_0;
    if o.custom_video is Some {
        let e = known_encoder(c.encoder->0.encoder)->0;
        assert(known_encoder(c.encoder->0.encoder) is Some);
        assert(custom_video_of(e.family, e.codec, video_doc(o.custom_video->0)) == Ok::<
            CustomVideoModel,
            Seq<char>,
        >(c.video->0));
    } else {
        let raw = json_parse(setting(settings, "custom_video_json"@, ""@));
        let e = known_encoder(a.encoder->0.encoder)->0;
        assert(custom_video_read(e.family, e.codec, raw) is Ok);
        match raw {
            JsonRead::Document(doc) => {
                assert(custom_video_of(e.family, e.codec, doc) == Ok::<CustomVideoModel, Seq<char>>(
                    c.video->0,
                ));
            },
            JsonRead::Failure(_) => {},
        }
    }
}

/// A start with a custom encoder of this platform that gets past its plan gets
/// its profile: nothing is refused later that was not refused before. Replacing
/// the encoder alone is left out, since the stored video settings were checked
/// for another encoder then.
pub proof fn law_planned_custom_start_gets_its_profile(
    settings: Map<Seq<char>, Seq<char>>,
    o: OverridesModel,
    monitor: Option<&Monitor>,
    ladder_kbps: nat,
    env: CaptureEnv,
)
    requires
        plan_of(settings, o, monitor) is Ok,
        plan_of(settings, o, monitor)->Ok_0.custom_encoder is Some,
        o.custom_encoder is None || o.custom_video is Some,
        find_entry(
            linux_catalog(),
            plan_of(settings, o, monitor)->Ok_0.custom_encoder->0.encoder,
        ) is Some,
    ensures
        ({
            let cfg = config_of(
                plan_of(settings, o, monitor)->Ok_0,
                settings,
                o,
                ladder_kbps,
                env,
            );
            profile_of(cfg, platform_answers(cfg)) is Ok
        }),
{
    let plan = plan_of(settings, o, monitor)->Ok_0;
    let cfg = config_of(plan, settings, o, ladder_kbps, env);
    let c = custom_choice(settings, o)->Ok_0;
    let id = plan.custom_encoder->0.encoder;
    law_catalog_ids_resolve();
    lemma_found_in(linux_catalog(), id);
    let entry = find_entry(linux_catalog(), id)->0;
    let i = choose|i: int| 0 <= i < linux_catalog().len() && #[trigger] linux_catalog()[i] == entry;
    assert(known_encoder(linux_catalog()[i].id) == Some(linux_catalog()[i]));
    assert(known_encoder(id) == Some(entry));
    let pick = EncoderPick { id: entry.id, codec: entry.codec };
    assert(encoder_pick(cfg, platform_answers(cfg)) == Ok::<EncoderPick, Seq<char>>(pick));
    assert(encoder_family(pick.id) == Some(entry.family));
    match plan.custom_video {
        Some(v) => {
            lemma_video_checked(settings, o);
            let doc = choose|doc: JsonModel|
                custom_video_of(entry.family, entry.codec, doc) == Ok::<
                    CustomVideoModel,
                    Seq<char>,
                >(v);
            law_custom_video_check_is_idempotent(entry.family, entry.codec, doc);
            assert(checked_video(cfg, entry.family, entry.codec) == Ok::<
                Option<CustomVideoModel>,
                Seq<char>,
            >(Some(v)));
        },
        None => {},
    }
    assert(choice_error(c) is None);
    assert(checked_settings(cfg, entry.family, pick, plan.custom_video) is Ok);
}

/// A start of the ladder gets its profile on every machine that the platform
/// has an encoder for: with the software encoder always, and with the GPU of
/// any of the three vendors.
pub proof fn law_ladder_start_gets_its_profile(
    settings: Map<Seq<char>, Seq<char>>,
    o: OverridesModel,
    monitor: Option<&Monitor>,
    ladder_kbps: nat,
    env: CaptureEnv,
)
    requires
        plan_of(settings, o, monitor) is Ok,
        plan_of(settings, o, monitor)->Ok_0.custom_encoder is None,
        plan_of(settings, o, monitor)->Ok_0.custom_video is None,
        plan_of(settings, o, monitor)->Ok_0.encoder == "cpu"@ || env.vendor@ == "nvidia"@
            || env.vendor@ == "intel"@ || env.vendor@ == "amd"@,
    ensures
        ({
            let cfg = config_of(
                plan_of(settings, o, monitor)->Ok_0,
                settings,
                o,
                ladder_kbps,
                env,
            );
            profile_of(cfg, platform_answers(cfg)) is Ok
        }),
{
    let plan = plan_of(settings, o, monitor)->Ok_0;
    let cfg = config_of(plan, settings, o, ladder_kbps, env);
    law_plan_has_a_codec(settings, o, monitor);
    law_ladder_encoder_is_in_the_catalog(cfg.vendor, cfg.codec, cfg.encoder);
    law_catalog_ids_resolve();
    let id = ladder_encoder(cfg.vendor, cfg.codec, cfg.encoder)->0;
    let i = choose|i: int|
        0 <= i < linux_catalog().len() && (#[trigger] linux_catalog()[i]).id == id && (cfg.encoder
            != "cpu"@ ==> linux_catalog()[i].codec == cfg.codec);
    assert(known_encoder(linux_catalog()[i].id) == Some(linux_catalog()[i]));
}

} // verus!
