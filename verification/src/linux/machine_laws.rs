//! What is read of the machine, and how the programs on it are called.

use vstd::prelude::*;
use vstd::utf8::{encode_utf8, is_ascii_chars, is_ascii_chars_encode_utf8};

use crate::api::DeviceModel;
use crate::clip_laws::gives;
use crate::detect::parsers::zero_split;
use crate::detect::types::{CandidateModel, WindowInfo};
use crate::json::{text_before, JsonModel, JsonRead};
use crate::linux::binary::{ffmpeg_of, first_ffmpeg, kms_sibling_of, sidecar_text};
use crate::linux::devices::{device_list, knows, listed_entry, with_listed, ListedModel};
use crate::linux::engine::{
    clips_dir_below, conceal_file_name, conceal_plugin_name, conceal_script_text, config_root_below,
    icons_dir_below, is_kde, is_orphan, launch_args, launch_env, retry_after, start_dir,
    stat_parent, ProcessInfo,
};
use crate::linux::gsr::{
    is_fresh, recorder_command, scale_box, track_args, FileStamp, RecorderRequest,
};
use crate::linux::obs::{
    fingerprint_text, in_system_path, portable_args, runtime_root_below, stage_of, system_prefixes,
    StageModel,
};
use crate::linux::scan::{
    arguments, candidate_of, candidates_of, class_of, heroic_places, holds_gpu, manifest_dirs_of,
    prism_places, steam_places, window_name_of, window_of, RawProcess,
};
use crate::linux::video::{
    card_vendor, is_boot_card, is_card_name, machine_vendor, vendor_codecs, vendor_slug, CardInfo,
};
use crate::paths::{base_name, below, join_path, named_parts, parent_path, path_key};
use crate::text::{
    ascii_upper, contains, decimal, is_digit, joined, lemma_decimal_digits, lemma_decimal_injective,
    lemma_parse_decimal, lossy_text, lowercase, split, texts, trim, words,
};
use crate::text_laws::{lacks, law_first_piece, law_joined_pieces_are_found, law_last_place};

verus! {

broadcast use vstd::string::group_string_axioms;

// ---------------------------------------------------------------------------
// Recorder
// ---------------------------------------------------------------------------
/// The recorder is told what to record, how fast, as what, for how long and at
/// which bitrate, and where clips go. It records the mix, the desktop and the
/// microphone, in this order.
pub proof fn law_recorder_records_what_is_asked_for(q: RecorderRequest)
    ensures
        ({
            let args = recorder_command(q);
            &&& gives(
                args,
                "-w"@,
                if trim(q.source@).len() == 0 {
                    "screen"@
                } else {
                    trim(q.source@)
                },
            )
            &&& gives(args, "-f"@, decimal(q.fps as nat))
            &&& gives(args, "-k"@, q.codec@)
            &&& gives(args, "-c"@, "mp4"@)
            &&& gives(args, "-r"@, decimal(q.duration_seconds as nat))
            &&& gives(args, "-q"@, decimal(q.bitrate_kbps as nat))
            &&& gives(args, "-bm"@, "cbr"@)
            &&& gives(args, "-keyint"@, "2"@)
            &&& args.len() >= 12
            &&& args[args.len() - 12] == "-a"@ && args[args.len() - 11] == q.desktop_device@ + "|"@
                + q.mic_device@
            &&& args[args.len() - 10] == "-a"@ && args[args.len() - 9] == q.desktop_device@
            &&& args[args.len() - 8] == "-a"@ && args[args.len() - 7] == q.mic_device@
            &&& gives(args, "-o"@, q.output_dir@)
            &&& args.last() == q.output_dir@
            &&& q.video_opts matches Some(o) ==> gives(args, "-ffmpeg-video-opts"@, o@)
            &&& scale_box(q.out_height as int) matches Some(s) ==> gives(args, "-s"@, s)
        }),
{
    let args = recorder_command(q);
    let n: int = if scale_box(q.out_height as int) is Some {
        12
    } else {
        10
    };
    let m: int = if q.video_opts is Some {
        n + 10
    } else {
        n + 8
    };
    assert(args.len() == m + 12);
    assert(args[0] == "-w"@ && args[2] == "-f"@ && args[3] == decimal(q.fps as nat));
    assert(args[4] == "-k"@ && args[5] == q.codec@ && args[6] == "-c"@ && args[7] == "mp4"@);
    assert(args[8] == "-r"@ && args[9] == decimal(q.duration_seconds as nat));
    assert(args[n] == "-bm"@ && args[n + 1] == "cbr"@);
    assert(args[n + 2] == "-q"@ && args[n + 3] == decimal(q.bitrate_kbps as nat));
    assert(args[n + 6] == "-keyint"@ && args[n + 7] == "2"@);
    assert(args[m] == "-a"@ && args[m + 10] == "-o"@ && args[m + 11] == q.output_dir@);
    if scale_box(q.out_height as int) is Some {
        assert(args[10] == "-s"@ && args[11] == scale_box(q.out_height as int)->0);
    }
    if q.video_opts is Some {
        assert(args[n + 8] == "-ffmpeg-video-opts"@ && args[n + 9] == q.video_opts->0@);
    }
}

/// A picture is scaled to one of four heights, with sides of 16 to 9.
pub proof fn law_scaled_pictures_are_wide(height: nat)
    ensures
        scale_box(height as int) is Some <==> height == 360 || height == 720 || height == 1080
            || height == 1440,
        scale_box(height as int) matches Some(s) ==> s == decimal(height * 16 / 9) + "x"@ + decimal(
            height,
        ),
{
    reveal_strlit("640x360");
    reveal_strlit("1280x720");
    reveal_strlit("1920x1080");
    reveal_strlit("2560x1440");
    reveal_strlit("x");
    reveal_with_fuel(decimal, 5);
    if height == 360 {
        assert("640x360"@ =~= decimal(640) + "x"@ + decimal(360));
    } else if height == 720 {
        assert("1280x720"@ =~= decimal(1280) + "x"@ + decimal(720));
    } else if height == 1080 {
        assert("1920x1080"@ =~= decimal(1920) + "x"@ + decimal(1080));
    } else if height == 1440 {
        assert("2560x1440"@ =~= decimal(2560) + "x"@ + decimal(1440));
    }
}

/// A clip of the recorder is an mp4 file that was written since the save.
pub proof fn law_fresh_clips(f: FileStamp, since_ms: i64)
    ensures
        is_fresh(f, since_ms) <==> f.is_file && f.extension is Some && f.extension->0@ == "mp4"@
            && f.modified_ms is Some && f.modified_ms->0 >= since_ms,
{
}

// ---------------------------------------------------------------------------
// Launching OBS
// ---------------------------------------------------------------------------
/// OBS is launched with the given profile and collection, beside others, and
/// without asking about its last end or for updates. It goes to the tray where
/// there is one.
pub proof fn law_launch_arguments(profile: Seq<char>, collection: Seq<char>, tray: bool)
    ensures
        ({
            let args = launch_args(profile, collection, tray);
            &&& gives(args, "--profile"@, profile)
            &&& gives(args, "--collection"@, collection)
            &&& args.contains("--multi"@)
            &&& args.contains("--disable-shutdown-check"@)
            &&& args.contains("--disable-updater"@)
            &&& args.contains("--only-bundled-plugins"@)
            &&& tray ==> args.contains("--minimize-to-tray"@)
            &&& args.len() == if tray {
                9nat
            } else {
                8nat
            }
        }),
        ({
            let args = portable_args(profile, collection);
            &&& gives(args, "--profile"@, profile)
            &&& gives(args, "--collection"@, collection)
            &&& args.contains("--multi"@)
            &&& args.contains("--minimize-to-tray"@)
            &&& args.contains("--disable-shutdown-check"@)
            &&& args.contains("--disable-updater"@)
            &&& args.contains("--only-bundled-plugins"@)
        }),
{
    let a = launch_args(profile, collection, tray);
    assert(a[0] == "--profile"@ && a[1] == profile && a[2] == "--collection"@ && a[3]
        == collection);
    assert(a[4] == "--multi"@ && a[5] == "--disable-shutdown-check"@ && a[6]
        == "--disable-updater"@ && a[7] == "--only-bundled-plugins"@);
    if tray {
        assert(a[8] == "--minimize-to-tray"@);
    }
    let b = portable_args(profile, collection);
    assert(b[0] == "--profile"@ && b[1] == profile && b[2] == "--collection"@ && b[3]
        == collection);
    assert(b[4] == "--multi"@ && b[5] == "--minimize-to-tray"@ && b[6]
        == "--disable-shutdown-check"@ && b[7] == "--disable-updater"@ && b[8]
        == "--only-bundled-plugins"@);
}

/// A binary of the system stands below one of six directories.
pub proof fn law_system_paths(bin: Seq<char>)
    ensures
        in_system_path(bin) <==> "/usr/"@.is_prefix_of(bin) || "/opt/"@.is_prefix_of(bin)
            || "/snap/"@.is_prefix_of(bin) || "/var/lib/flatpak/"@.is_prefix_of(bin)
            || "/app/"@.is_prefix_of(bin) || "/nix/store/"@.is_prefix_of(bin),
{
    let all = system_prefixes();
    assert(all[0] == "/usr/"@ && all[1] == "/opt/"@ && all[2] == "/snap/"@ && all[3]
        == "/var/lib/flatpak/"@ && all[4] == "/app/"@ && all[5] == "/nix/store/"@);
}

/// A leftover is another process than this one, of the given binary, whose
/// parent is gone.
pub proof fn law_leftovers(
    processes: Seq<ProcessInfo>,
    p: ProcessInfo,
    own_pid: u32,
    binary: Seq<char>,
)
    ensures
        is_orphan(processes, p, own_pid, binary) <==> p.pid != own_pid && p.parent != 0 && (forall|
            i: int,
        | 0 <= i < processes.len() ==> (#[trigger] processes[i]).pid != p.parent) && path_key(p.exe@)
            == path_key(binary),
{
}

/// The parent of a process is the second word behind the last bracket of its
/// line, whatever its name holds.
pub proof fn law_parent_is_read(name: Seq<char>, rest: Seq<char>, n: nat)
    requires
        lacks(rest, ')'),
        n <= 0xffff_ffff,
        words(rest).len() > 1,
        words(rest)[1] == decimal(n),
    ensures
        stat_parent(name + ")"@ + rest) == n,
{
    reveal_strlit(")");
    assert(")"@ =~= seq![')']);
    law_last_place(name, ')', rest);
    let s = name + ")"@ + rest;
    assert(s.skip(name.len() as int + 1) =~= rest);
    lemma_parse_decimal(n, u32::MAX as nat);
}

/// The desktop is KDE where it says so, in any case, or its session does.
pub proof fn law_desktop_is_kde(current: Seq<char>, session: Option<Seq<char>>)
    ensures
        is_kde(Some(current), session) <==> contains(ascii_upper(current), "KDE"@) || session
            == Some("true"@),
        is_kde(None, session) <==> session == Some("true"@),
{
}

// ---------------------------------------------------------------------------
// Processes
// ---------------------------------------------------------------------------
/// No byte of a piece is zero.
pub open spec fn lacks_zero(b: Seq<u8>) -> bool {
    forall|i: int| 0 <= i < b.len() ==> #[trigger] b[i] != 0
}

proof fn lemma_zero_whole(b: Seq<u8>)
    requires
        lacks_zero(b),
    ensures
        zero_split(b) == seq![b],
    decreases b.len(),
{
    if b.len() == 0 {
        assert(b =~= Seq::<u8>::empty());
        assert(zero_split(b) =~= seq![b]);
    } else {
        let init = b.drop_last();
        assert forall|i: int| 0 <= i < init.len() implies #[trigger] init[i] != 0 by {
            assert(init[i] == b[i]);
        }
        lemma_zero_whole(init);
        assert(b[b.len() - 1] != 0);
        assert(init.push(b.last()) =~= b);
        assert(zero_split(b) =~= seq![b]);
    }
}

proof fn lemma_zero_first(a: Seq<u8>, b: Seq<u8>)
    requires
        lacks_zero(a),
    ensures
        zero_split(a + seq![0u8] + b) == seq![a] + zero_split(b),
        zero_split(b).len() > 0,
    decreases b.len(),
{
    let s = a + seq![0u8] + b;
    lemma_zero_whole(a);
    if b.len() == 0 {
        assert(s.drop_last() =~= a);
        assert(s.last() == 0);
        assert(zero_split(s) =~= seq![a] + zero_split(b));
    } else {
        let init = b.drop_last();
        lemma_zero_first(a, init);
        assert(s.drop_last() =~= a + seq![0u8] + init);
        assert(s.last() == b.last());
        let rest = zero_split(init);
        let all = seq![a] + rest;
        assert(all.last() == rest.last());
        assert(all.drop_last() =~= seq![a] + rest.drop_last());
        assert(zero_split(s) =~= seq![a] + zero_split(b));
    }
}

proof fn lemma_arguments_first(first: Seq<u8>, rest: Seq<Seq<u8>>)
    requires
        first.len() > 0,
    ensures
        arguments(seq![first] + rest) == seq![lossy_text(first)] + arguments(rest),
    decreases rest.len(),
{
    let all = seq![first] + rest;
    if rest.len() == 0 {
        let none = Seq::<Seq<u8>>::empty();
        assert(all.drop_last() =~= none);
        assert(arguments(none) =~= Seq::<Seq<char>>::empty());
        assert(all.last() == first);
        assert(arguments(all) =~= seq![lossy_text(first)] + arguments(rest));
    } else {
        lemma_arguments_first(first, rest.drop_last());
        assert(all.drop_last() =~= seq![first] + rest.drop_last());
        assert(all.last() == rest.last());
        assert(arguments(all) =~= seq![lossy_text(first)] + arguments(rest));
    }
}

/// The arguments of a process stand between zeros, one after the other.
pub proof fn law_arguments_stand_between_zeros(first: Seq<u8>, rest: Seq<u8>)
    requires
        first.len() > 0,
        lacks_zero(first),
    ensures
        arguments(zero_split(first + seq![0u8] + rest)) == seq![lossy_text(first)] + arguments(
            zero_split(rest),
        ),
        arguments(zero_split(first)) == seq![lossy_text(first)],
{
    lemma_zero_first(first, rest);
    lemma_zero_whole(first);
    lemma_arguments_first(first, zero_split(rest));
    lemma_arguments_first(first, Seq::empty());
    assert(seq![first] + Seq::<Seq<u8>>::empty() =~= seq![first]);
    assert(arguments(seq![first]) =~= seq![lossy_text(first)]);
}

/// A file of a GPU.
pub open spec fn names_gpu(path: Seq<char>) -> bool {
    "/dev/dri/renderD"@.is_prefix_of(path) || "/dev/nvidia"@.is_prefix_of(path)
}

/// A process that is looked at keeps its number, name, arguments and window. Its
/// binary is the one that can be read, else its first argument; it uses the GPU
/// where it holds a file of one open.
pub proof fn law_scanned_process_is_the_one_that_runs(p: RawProcess)
    ensures
        candidate_of(p) matches Some(c) ==> {
            &&& c.pid == p.pid
            &&& p.comm is Some && c.comm == trim(p.comm->0@)
            &&& c.cmdline == arguments(zero_split(p.cmdline@))
            &&& p.exe matches Some(e) ==> c.exe == e@
            &&& p.exe is None ==> c.exe == c.cmdline[0]
            &&& c.uses_gpu <==> exists|i: int|
                0 <= i < p.open_files@.len() && names_gpu((#[trigger] p.open_files@[i])@)
            &&& p.window matches Some(w) ==> c.window == Some(w@)
            &&& p.window is None ==> c.window is None
            &&& p.environ is None ==> c.steam_app_id is None
            &&& p.cgroup is None ==> c.flatpak_id is None
            &&& p.stat is None ==> c.ppid == 0
        },
        p.comm is None ==> candidate_of(p) is None,
{
    if candidate_of(p) is Some {
        let files = texts(p.open_files@);
        if holds_gpu(files) {
            let i = choose|i: int|
                0 <= i < files.len() && crate::linux::scan::is_gpu_file(#[trigger] files[i]);
            assert(names_gpu(p.open_files@[i]@));
        }
        if exists|i: int| 0 <= i < p.open_files@.len() && names_gpu((#[trigger] p.open_files@[i])@) {
            let i = choose|i: int|
                0 <= i < p.open_files@.len() && names_gpu((#[trigger] p.open_files@[i])@);
            assert(crate::linux::scan::is_gpu_file(files[i]));
        }
    }
}

/// Every process that may count is among those that are found, and no other.
pub proof fn law_scan_finds_every_candidate(all: Seq<RawProcess>)
    ensures
        forall|c: CandidateModel| #[trigger]
            candidates_of(all).contains(c) <==> exists|i: int|
                0 <= i < all.len() && candidate_of(#[trigger] all[i]) == Some(c),
    decreases all.len(),
{
    if all.len() > 0 {
        let init = all.drop_last();
        law_scan_finds_every_candidate(init);
        let before = candidates_of(init);
        let found = candidates_of(all);
        let last = all.len() - 1;
        assert(all[last] == all.last());
        assert forall|c: CandidateModel| #[trigger] found.contains(c) <==> exists|i: int|
            0 <= i < all.len() && candidate_of(#[trigger] all[i]) == Some(c) by {
            if found.contains(c) {
                let k = choose|k: int| 0 <= k < found.len() && found[k] == c;
                if k < before.len() {
                    assert(before[k] == c);
                    assert(before.contains(c));
                    let i = choose|i: int|
                        0 <= i < init.len() && candidate_of(#[trigger] init[i]) == Some(c);
                    assert(all[i] == init[i]);
                } else {
                    assert(candidate_of(all[last]) == Some(c));
                }
            }
            if exists|i: int| 0 <= i < all.len() && candidate_of(#[trigger] all[i]) == Some(c) {
                let i = choose|i: int|
                    0 <= i < all.len() && candidate_of(#[trigger] all[i]) == Some(c);
                if i < last {
                    assert(init[i] == all[i]);
                    assert(before.contains(c));
                    let k = choose|k: int| 0 <= k < before.len() && before[k] == c;
                    assert(found[k] == c);
                } else {
                    assert(found[found.len() - 1] == c);
                }
            }
        }
    }
}

/// The window of a process is the first that it owns; process zero owns none.
pub proof fn law_window_of_a_process(windows: Seq<WindowInfo>, pid: u32)
    ensures
        match window_of(windows, pid) {
            Some(w) => pid != 0 && exists|i: int|
                0 <= i < windows.len() && (#[trigger] windows[i])@ == w && windows[i].wm_pid == pid
                    && forall|j: int| 0 <= j < i ==> (#[trigger] windows[j]).wm_pid != pid,
            None => pid == 0 || forall|j: int|
                0 <= j < windows.len() ==> (#[trigger] windows[j]).wm_pid != pid,
        },
    decreases windows.len(),
{
    if windows.len() > 0 && pid != 0 {
        let rest = windows.drop_first();
        law_window_of_a_process(rest, pid);
        if windows[0].wm_pid == pid {
            assert(windows[0]@ == windows[0]@);
        } else {
            match window_of(rest, pid) {
                Some(w) => {
                    let i = choose|i: int|
                        0 <= i < rest.len() && (#[trigger] rest[i])@ == w && rest[i].wm_pid == pid
                            && forall|j: int| 0 <= j < i ==> (#[trigger] rest[j]).wm_pid != pid;
                    assert(windows[i + 1]@ == w);
                    assert forall|j: int| 0 <= j < i + 1 implies (#[trigger] windows[j]).wm_pid
                        != pid by {
                        if j > 0 {
                            assert(rest[j - 1] == windows[j]);
                        }
                    }
                },
                None => {
                    assert forall|j: int| 0 <= j < windows.len() implies (
                    #[trigger] windows[j]).wm_pid != pid by {
                        if j > 0 {
                            assert(rest[j - 1] == windows[j]);
                        }
                    }
                },
            }
        }
    }
}

/// The name of a window is the one in UTF-8, unless that is blank.
pub proof fn law_name_of_a_window(utf8: Seq<u8>, plain: Option<Seq<u8>>)
    ensures
        trim(lossy_text(utf8)).len() > 0 ==> window_name_of(Some(utf8), plain) == lossy_text(utf8),
        trim(lossy_text(utf8)).len() == 0 ==> window_name_of(Some(utf8), plain) == window_name_of(
            None,
            plain,
        ),
        plain matches Some(b) ==> window_name_of(None, plain) == lossy_text(b),
{
}

// ---------------------------------------------------------------------------
// Graphics
// ---------------------------------------------------------------------------
/// The vendors by their numbers.
pub proof fn law_vendors(id: Seq<char>)
    ensures
        vendor_slug(id) == "nvidia"@ <==> id == "0x10de"@ || id == "10de"@,
        vendor_slug(id) == "amd"@ <==> id == "0x1002"@ || id == "1002"@ || id == "0x1022"@ || id
            == "1022"@,
        vendor_slug(id) == "intel"@ <==> id == "0x8086"@ || id == "8086"@,
{
    reveal_strlit("nvidia");
    reveal_strlit("amd");
    reveal_strlit("intel");
    reveal_strlit("unknown");
    assert("nvidia"@.len() == 6 && "amd"@.len() == 3 && "intel"@.len() == 5 && "unknown"@.len()
        == 7);
    reveal_strlit("0x10de");
    reveal_strlit("10de");
    reveal_strlit("0x1002");
    reveal_strlit("1002");
    reveal_strlit("0x1022");
    reveal_strlit("1022");
    reveal_strlit("0x8086");
    reveal_strlit("8086");
    assert("0x10de"@.len() == 6 && "0x1002"@.len() == 6 && "0x1022"@.len() == 6 && "0x8086"@.len()
        == 6 && "10de"@.len() == 4 && "1002"@.len() == 4 && "1022"@.len() == 4 && "8086"@.len()
        == 4);
    assert("0x10de"@[4] == 'd' && "0x1002"@[4] == '0' && "0x1022"@[4] == '2' && "0x8086"@[4] == '8');
    assert("10de"@[2] == 'd' && "1002"@[2] == '0' && "1022"@[2] == '2' && "8086"@[2] == '8');
}

/// A card of a vendor that is known.
pub open spec fn is_known_card(card: CardInfo) -> bool {
    card_vendor(card) is Some
}

/// The machine's vendor is that of the first card that the machine boots with,
/// else that of the first known card, else unknown.
pub proof fn law_vendor_of_the_machine(cards: Seq<CardInfo>, i: int)
    requires
        0 <= i < cards.len(),
        is_known_card(cards[i]),
    ensures
        is_boot_card(cards[i]) && (forall|j: int|
            0 <= j < i ==> !(is_known_card(#[trigger] cards[j]) && is_boot_card(cards[j])))
            ==> Some(machine_vendor(cards, None)) == card_vendor(cards[i]),
        (forall|j: int|
            0 <= j < cards.len() ==> !(is_known_card(#[trigger] cards[j]) && is_boot_card(
                cards[j],
            ))) && (forall|j: int| 0 <= j < i ==> !is_known_card(#[trigger] cards[j])) ==> Some(
            machine_vendor(cards, None),
        ) == card_vendor(cards[i]),
{
    if is_boot_card(cards[i]) && (forall|j: int|
        0 <= j < i ==> !(is_known_card(#[trigger] cards[j]) && is_boot_card(cards[j]))) {
        lemma_boot_vendor(cards, None, i);
    }
    if (forall|j: int|
        0 <= j < cards.len() ==> !(is_known_card(#[trigger] cards[j]) && is_boot_card(cards[j])))
        && (forall|j: int| 0 <= j < i ==> !is_known_card(#[trigger] cards[j])) {
        lemma_first_vendor(cards, i);
    }
}

proof fn lemma_boot_vendor(cards: Seq<CardInfo>, fallback: Option<Seq<char>>, i: int)
    requires
        0 <= i < cards.len(),
        is_known_card(cards[i]),
        is_boot_card(cards[i]),
        forall|j: int|
            0 <= j < i ==> !(is_known_card(#[trigger] cards[j]) && is_boot_card(cards[j])),
    ensures
        Some(machine_vendor(cards, fallback)) == card_vendor(cards[i]),
    decreases cards.len(),
{
    if i > 0 {
        let rest = cards.drop_first();
        assert(!(is_known_card(cards[0]) && is_boot_card(cards[0])));
        assert(rest[i - 1] == cards[i]);
        assert forall|j: int| 0 <= j < i - 1 implies !(is_known_card(#[trigger] rest[j])
            && is_boot_card(rest[j])) by {
            assert(rest[j] == cards[j + 1]);
        }
        lemma_boot_vendor(rest, fallback, i - 1);
        if card_vendor(cards[0]) is Some {
            lemma_boot_vendor(rest, card_vendor(cards[0]), i - 1);
        }
    }
}

proof fn lemma_kept_vendor(cards: Seq<CardInfo>, v: Seq<char>)
    requires
        forall|j: int|
            0 <= j < cards.len() ==> !(is_known_card(#[trigger] cards[j]) && is_boot_card(cards[j])),
    ensures
        machine_vendor(cards, Some(v)) == v,
    decreases cards.len(),
{
    if cards.len() > 0 {
        let rest = cards.drop_first();
        assert forall|j: int| 0 <= j < rest.len() implies !(is_known_card(#[trigger] rest[j])
            && is_boot_card(rest[j])) by {
            assert(rest[j] == cards[j + 1]);
        }
        assert(!(is_known_card(cards[0]) && is_boot_card(cards[0])));
        lemma_kept_vendor(rest, v);
    }
}

proof fn lemma_first_vendor(cards: Seq<CardInfo>, i: int)
    requires
        0 <= i < cards.len(),
        is_known_card(cards[i]),
        forall|j: int|
            0 <= j < cards.len() ==> !(is_known_card(#[trigger] cards[j]) && is_boot_card(cards[j])),
        forall|j: int| 0 <= j < i ==> !is_known_card(#[trigger] cards[j]),
    ensures
        Some(machine_vendor(cards, None)) == card_vendor(cards[i]),
    decreases cards.len(),
{
    let rest = cards.drop_first();
    assert forall|j: int| 0 <= j < rest.len() implies !(is_known_card(#[trigger] rest[j])
        && is_boot_card(rest[j])) by {
        assert(rest[j] == cards[j + 1]);
    }
    if i == 0 {
        assert(!(is_known_card(cards[0]) && is_boot_card(cards[0])));
        lemma_kept_vendor(rest, card_vendor(cards[0])->0);
    } else {
        assert(!is_known_card(cards[0]));
        assert(rest[i - 1] == cards[i]);
        assert forall|j: int| 0 <= j < i - 1 implies !is_known_card(#[trigger] rest[j]) by {
            assert(rest[j] == cards[j + 1]);
        }
        lemma_first_vendor(rest, i - 1);
    }
}

/// A card is a numbered directory, and has the vendor whose number it gives.
pub proof fn law_cards(card: CardInfo, n: nat)
    ensures
        is_card_name("card"@ + decimal(n)),
        card_vendor(card) matches Some(v) ==> is_card_name(card.name@) && card.vendor is Some && v
            == vendor_slug(lowercase(trim(card.vendor->0@))) && v != "unknown"@,
        is_boot_card(card) <==> card.boot_vga is Some && trim(card.boot_vga->0@) == "1"@,
{
    reveal_strlit("card");
    lemma_decimal_digits(n);
    let s = "card"@ + decimal(n);
    assert(s.skip(4) =~= decimal(n));
}

/// Every machine offers h264 on its GPU and on the processor; hevc needs a GPU
/// of a known vendor, and av1 one of NVIDIA.
pub proof fn law_codecs_of_a_vendor(vendor: Seq<char>)
    ensures
        ({
            let codecs = vendor_codecs(vendor);
            &&& codecs.contains("h264"@)
            &&& codecs.contains("x264"@)
            &&& codecs.contains("hevc"@) <==> vendor == "nvidia"@ || vendor == "amd"@ || vendor
                == "intel"@
            &&& codecs.contains("av1"@) <==> vendor == "nvidia"@
        }),
{
    reveal_strlit("h264");
    reveal_strlit("x264");
    reveal_strlit("hevc");
    reveal_strlit("av1");
    reveal_strlit("nvidia");
    reveal_strlit("amd");
    reveal_strlit("intel");
    assert("h264"@[0] == 'h' && "x264"@[0] == 'x' && "hevc"@[1] == 'e' && "h264"@[1] == '2'
        && "x264"@[1] == '2' && "av1"@.len() == 3);
    assert("nvidia"@.len() == 6 && "amd"@.len() == 3 && "intel"@.len() == 5);
    let codecs = vendor_codecs(vendor);
    if vendor == "nvidia"@ {
        assert(codecs[0] == "h264"@ && codecs[1] == "hevc"@ && codecs[2] == "av1"@ && codecs[3]
            == "x264"@);
    } else if vendor == "amd"@ || vendor == "intel"@ {
        assert(codecs[0] == "h264"@ && codecs[1] == "hevc"@ && codecs[2] == "x264"@);
    } else {
        assert(codecs[0] == "h264"@ && codecs[1] == "x264"@);
    }
}

// ---------------------------------------------------------------------------
// Devices
// ---------------------------------------------------------------------------
proof fn lemma_with_listed(devices: Seq<DeviceModel>, listed: Seq<ListedModel>, kind: Seq<char>)
    ensures
        ({
            let all = with_listed(devices, listed, kind);
            &&& all.len() >= devices.len()
            &&& forall|k: int| 0 <= k < devices.len() ==> all[k] == #[trigger] devices[k]
            &&& forall|i: int|
                0 <= i < listed.len() && !(#[trigger] listed[i]).monitor ==> knows(
                    all,
                    listed[i].name,
                    kind,
                )
            &&& forall|k: int|
                devices.len() <= k < all.len() ==> (#[trigger] all[k]).kind == kind && exists|i: int|
                    0 <= i < listed.len() && !(#[trigger] listed[i]).monitor && listed[i].name
                        == all[k].id && listed[i].description == all[k].description
        }),
    decreases listed.len(),
{
    if listed.len() > 0 {
        let init = listed.drop_last();
        lemma_with_listed(devices, init, kind);
        let before = with_listed(devices, init, kind);
        let all = with_listed(devices, listed, kind);
        let last = listed.len() - 1;
        assert(listed[last] == listed.last());
        assert(forall|k: int| 0 <= k < before.len() ==> all[k] == #[trigger] before[k]);
        assert forall|i: int| 0 <= i < listed.len() && !(#[trigger] listed[i]).monitor implies knows(
            all,
            listed[i].name,
            kind,
        ) by {
            if i < last {
                assert(init[i] == listed[i]);
                assert(knows(before, listed[i].name, kind));
                let k = choose|k: int|
                    0 <= k < before.len() && (#[trigger] before[k]).id == listed[i].name
                        && before[k].kind == kind;
                assert(all[k].id == listed[i].name && all[k].kind == kind);
            } else if knows(before, listed[i].name, kind) {
                let k = choose|k: int|
                    0 <= k < before.len() && (#[trigger] before[k]).id == listed[i].name
                        && before[k].kind == kind;
                assert(all[k].id == listed[i].name && all[k].kind == kind);
            } else {
                assert(all[all.len() - 1].id == listed[i].name);
            }
        }
        assert forall|k: int| devices.len() <= k < all.len() implies (#[trigger] all[k]).kind == kind
            && exists|i: int|
            0 <= i < listed.len() && !(#[trigger] listed[i]).monitor && listed[i].name == all[k].id
                && listed[i].description == all[k].description by {
            if k < before.len() {
                assert(all[k] == before[k]);
                let i = choose|i: int|
                    0 <= i < init.len() && !(#[trigger] init[i]).monitor && init[i].name
                        == before[k].id && init[i].description == before[k].description;
                assert(listed[i] == init[i]);
            } else {
                assert(listed[last].name == all[k].id);
            }
        }
    }
}

/// Every sink is offered to record the desktop from and every source to speak
/// into; a source that only taps a sink is no microphone.
pub proof fn law_listed_devices_are_offered(
    sinks: Seq<ListedModel>,
    sources: Seq<ListedModel>,
    default_sink: Option<Seq<char>>,
    default_source: Option<Seq<char>>,
)
    ensures
        ({
            let all = device_list(sinks, sources, default_sink, default_source);
            &&& forall|i: int|
                0 <= i < sinks.len() && !(#[trigger] sinks[i]).monitor ==> knows(
                    all,
                    sinks[i].name,
                    "desktop"@,
                )
            &&& forall|i: int|
                0 <= i < sources.len() && !(#[trigger] sources[i]).monitor ==> knows(
                    all,
                    sources[i].name,
                    "mic"@,
                )
            &&& forall|k: int|
                2 <= k < all.len() ==> {
                    let d = #[trigger] all[k];
                    ||| d.kind == "desktop"@ && exists|i: int|
                        0 <= i < sinks.len() && !(#[trigger] sinks[i]).monitor && sinks[i].name
                            == d.id && sinks[i].description == d.description
                    ||| d.kind == "mic"@ && exists|i: int|
                        0 <= i < sources.len() && !(#[trigger] sources[i]).monitor
                            && sources[i].name == d.id && sources[i].description == d.description
                }
        }),
{
    crate::linux::devices::law_defaults_come_first(
        Seq::empty(),
        Seq::empty(),
        default_sink,
        default_source,
    );
    let none = Seq::<ListedModel>::empty();
    let defaults = device_list(none, none, default_sink, default_source);
    let some = with_listed(defaults, sinks, "desktop"@);
    let all = with_listed(some, sources, "mic"@);
    lemma_with_listed(defaults, sinks, "desktop"@);
    lemma_with_listed(some, sources, "mic"@);
    assert(all == device_list(sinks, sources, default_sink, default_source));
    assert(defaults.len() == 2) by {
        reveal_strlit("desktop");
        reveal_strlit("mic");
        assert("desktop"@.len() == 7 && "mic"@.len() == 3);
    }
    assert forall|i: int| 0 <= i < sinks.len() && !(#[trigger] sinks[i]).monitor implies knows(
        all,
        sinks[i].name,
        "desktop"@,
    ) by {
        let k = choose|k: int|
            0 <= k < some.len() && (#[trigger] some[k]).id == sinks[i].name && some[k].kind
                == "desktop"@;
        assert(all[k] == some[k]);
    }
    assert forall|k: int| 2 <= k < all.len() implies {
        let d = #[trigger] all[k];
        ||| d.kind == "desktop"@ && exists|i: int|
            0 <= i < sinks.len() && !(#[trigger] sinks[i]).monitor && sinks[i].name == d.id
                && sinks[i].description == d.description
        ||| d.kind == "mic"@ && exists|i: int|
            0 <= i < sources.len() && !(#[trigger] sources[i]).monitor && sources[i].name == d.id
                && sources[i].description == d.description
    } by {
        if k < some.len() {
            assert(all[k] == some[k]);
        }
    }
}

// ---------------------------------------------------------------------------
// Paths
// ---------------------------------------------------------------------------
/// A part of a path that names something.
pub open spec fn names_part(p: Seq<char>) -> bool {
    p.len() > 0 && lacks(p, '/') && p != "."@
}

proof fn lemma_named_parts(parts: Seq<Seq<char>>)
    requires
        forall|i: int| 0 <= i < parts.len() ==> names_part(#[trigger] parts[i]),
    ensures
        named_parts(parts) == parts,
        named_parts(seq![Seq::<char>::empty()] + parts) == parts,
    decreases parts.len(),
{
    let with = seq![Seq::<char>::empty()] + parts;
    if parts.len() > 0 {
        let init = parts.drop_last();
        assert forall|i: int| 0 <= i < init.len() implies names_part(#[trigger] init[i]) by {
            assert(init[i] == parts[i]);
        }
        lemma_named_parts(init);
        assert(names_part(parts[parts.len() - 1]));
        assert(with.drop_last() =~= seq![Seq::<char>::empty()] + init);
        assert(with.last() == parts.last());
        assert(init.push(parts.last()) =~= parts);
    } else {
        let none = Seq::<Seq<char>>::empty();
        assert(with.drop_last() =~= none);
        assert(named_parts(none) =~= none);
        assert(with.last() == Seq::<char>::empty());
        assert(named_parts(with) =~= parts);
        assert(named_parts(parts) =~= parts);
    }
}

/// What stands above the last part of an absolute path is its parent, and the
/// last part is its name.
pub proof fn law_parent_of_a_path(parts: Seq<Seq<char>>)
    requires
        parts.len() > 0,
        forall|i: int| 0 <= i < parts.len() ==> names_part(#[trigger] parts[i]),
    ensures
        parent_path("/"@ + joined(parts, "/"@)) == Some("/"@ + joined(parts.drop_last(), "/"@)),
{
    reveal_strlit("/");
    reveal_strlit(".");
    assert("/"@ =~= seq!['/']);
    let tail = joined(parts, "/"@);
    let s = "/"@ + tail;
    assert forall|i: int| 0 <= i < parts.len() implies lacks(#[trigger] parts[i], '/') by {
        assert(names_part(parts[i]));
    }
    law_joined_pieces_are_found(parts, '/');
    let none = Seq::<char>::empty();
    law_first_piece(none, '/', tail);
    assert(none + seq!['/'] + tail =~= s);
    assert(split(s, '/') == seq![none] + parts);
    lemma_named_parts(parts);
    assert(split(s, '/')[0] == none);
    assert("."@.len() == 1);
}

/// The name of a file is what follows the last separator of its path.
pub proof fn law_name_of_a_path(dir: Seq<char>, name: Seq<char>)
    requires
        lacks(name, '/'),
    ensures
        base_name(dir + "/"@ + name) == name,
        base_name(name) == name,
{
    reveal_strlit("/");
    assert("/"@ =~= seq!['/']);
    law_last_place(dir, '/', name);
    assert((dir + "/"@ + name).skip(dir.len() as int + 1) =~= name);
}

// ---------------------------------------------------------------------------
// FFmpeg
// ---------------------------------------------------------------------------
/// Of the files of FFmpeg the first by name is taken.
pub proof fn law_first_ffmpeg_is_taken(names: Seq<Seq<char>>)
    ensures
        match first_ffmpeg(names) {
            Some(n) => names.contains(n) && "ffmpeg"@.is_prefix_of(n) && forall|i: int|
                0 <= i < names.len() && "ffmpeg"@.is_prefix_of(#[trigger] names[i])
                    ==> !text_before(names[i], n),
            None => forall|i: int|
                0 <= i < names.len() ==> !"ffmpeg"@.is_prefix_of(#[trigger] names[i]),
        },
    decreases names.len(),
{
    if names.len() > 0 {
        let init = names.drop_last();
        law_first_ffmpeg_is_taken(init);
        let last = names.len() - 1;
        assert(names[last] == names.last());
        match first_ffmpeg(names) {
            Some(n) => {
                if first_ffmpeg(init) == Some(n) && n != names.last() {
                    let k = choose|k: int| 0 <= k < init.len() && init[k] == n;
                    assert(names[k] == n);
                } else {
                    assert(names.contains(names[last]));
                    if names.last() != n {
                        let k = choose|k: int| 0 <= k < init.len() && init[k] == n;
                        assert(names[k] == n);
                    }
                }
                assert forall|i: int| 0 <= i < names.len() && "ffmpeg"@.is_prefix_of(
                    #[trigger] names[i],
                ) implies !text_before(names[i], n) by {
                    if i < last {
                        assert(init[i] == names[i]);
                        let b = first_ffmpeg(init)->0;
                        crate::detect::game_laws::lemma_before_is_an_order(names[i], n, b);
                        crate::detect::game_laws::lemma_before_is_an_order(n, b, names[i]);
                    } else {
                        crate::detect::game_laws::lemma_before_is_an_order(n, n, n);
                    }
                }
            },
            None => {
                assert forall|i: int| 0 <= i < names.len() implies !"ffmpeg"@.is_prefix_of(
                    #[trigger] names[i],
                ) by {
                    if i < last {
                        assert(init[i] == names[i]);
                    }
                }
            },
        }
    }
}

/// The ffmpeg that is named goes first, then the bundled one, then the first of
/// the older directory, then that of the system.
pub proof fn law_ffmpeg_is_chosen(
    env: Option<Seq<char>>,
    bundled: Option<Seq<char>>,
    dir: Seq<char>,
    names: Seq<Seq<char>>,
)
    ensures
        env matches Some(p) ==> ffmpeg_of(env, bundled, dir, names) == p,
        env is None && bundled is Some ==> ffmpeg_of(env, bundled, dir, names) == bundled->0,
        env is None && bundled is None && names.len() == 0 ==> ffmpeg_of(env, bundled, dir, names)
            == "ffmpeg"@,
        env is None && bundled is None && first_ffmpeg(names) is Some ==> ffmpeg_of(
            env,
            bundled,
            dir,
            names,
        ) == join_path(dir, first_ffmpeg(names)->0),
{
}

/// The bundled ffmpeg is named after the machine that it was built for.
pub proof fn law_bundled_ffmpeg_is_named_after_its_machine(triple: Seq<char>, extension: Seq<char>)
    ensures
        extension.len() == 0 ==> sidecar_text(triple, extension) == "ffmpeg-"@ + triple,
        extension.len() > 0 ==> sidecar_text(triple, extension) == "ffmpeg-"@ + triple + "."@
            + extension,
{
}

/// The helper of the recorder stands beside it.
pub proof fn law_helper_stands_beside_the_recorder(parts: Seq<Seq<char>>)
    requires
        parts.len() > 1,
        forall|i: int| 0 <= i < parts.len() ==> names_part(#[trigger] parts[i]),
        parts.last() != ".."@,
    ensures
        kms_sibling_of("/"@ + joined(parts, "/"@)) == "/"@ + joined(
            parts.drop_last().push("gsr-kms-server"@),
            "/"@,
        ),
{
    reveal_strlit("/");
    reveal_strlit("gsr-kms-server");
    assert("/"@ =~= seq!['/']);
    law_parent_of_a_path(parts);
    let tail = joined(parts, "/"@);
    let s = "/"@ + tail;
    assert forall|i: int| 0 <= i < parts.len() implies lacks(#[trigger] parts[i], '/') by {
        assert(names_part(parts[i]));
    }
    law_joined_pieces_are_found(parts, '/');
    let none = Seq::<char>::empty();
    law_first_piece(none, '/', tail);
    assert(none + seq!['/'] + tail =~= s);
    lemma_named_parts(parts);
    assert(path_key(s).parts == parts);
    let above = joined(parts.drop_last(), "/"@);
    let helper = "gsr-kms-server"@;
    assert(helper[0] == 'g' && helper.len() > 0);
    let all = parts.drop_last().push(helper);
    assert(all.drop_last() =~= parts.drop_last());
    assert(joined(all, "/"@) == above + "/"@ + helper);
    lemma_joined_end(parts.drop_last());
    assert(("/"@ + above).last() == above.last());
    assert("/"@ + above + "/"@ + helper =~= "/"@ + (above + "/"@ + helper));
}

proof fn lemma_joined_end(parts: Seq<Seq<char>>)
    requires
        parts.len() > 0,
        forall|i: int| 0 <= i < parts.len() ==> names_part(#[trigger] parts[i]),
    ensures
        joined(parts, "/"@).len() > 0,
        joined(parts, "/"@).last() != '/',
{
    let last = parts[parts.len() - 1];
    assert(names_part(last));
    assert(last[last.len() - 1] != '/');
    assert(joined(parts, "/"@).last() == last.last());
}

/// OBS keeps its configuration where it is told to, and not with that of the user.
pub proof fn law_obs_has_its_own_configuration(config_root: Seq<u8>)
    ensures
        launch_env(config_root).contains(("XDG_CONFIG_HOME"@, lossy_text(config_root))),
        launch_env(config_root).contains(("QT_NO_XDG_DESKTOP_PORTAL"@, "1"@)),
        launch_env(config_root).len() == 2,
{
    let e = launch_env(config_root);
    assert(e[0] == ("XDG_CONFIG_HOME"@, lossy_text(config_root)));
    assert(e[1] == ("QT_NO_XDG_DESKTOP_PORTAL"@, "1"@));
}

/// OBS is started in the directory of its binary.
pub proof fn law_obs_starts_beside_its_binary(parts: Seq<Seq<char>>)
    requires
        parts.len() > 0,
        forall|i: int| 0 <= i < parts.len() ==> names_part(#[trigger] parts[i]),
    ensures
        start_dir("/"@ + joined(parts, "/"@)) == "/"@ + joined(parts.drop_last(), "/"@),
{
    law_parent_of_a_path(parts);
}

/// The script that conceals a process names it, so that those of two processes
/// are never taken for each other.
pub proof fn law_concealing_scripts_are_told_apart(a: nat, b: nat)
    ensures
        "moonclip-kwin-conceal-"@.is_prefix_of(conceal_file_name(a)),
        ".js"@.is_suffix_of(conceal_file_name(a)),
        conceal_file_name(a) == conceal_file_name(b) ==> a == b,
        conceal_plugin_name(a) == conceal_plugin_name(b) ==> a == b,
        ("var targetPid = "@ + decimal(a)).is_prefix_of(conceal_script_text(a)),
{
    let f = "moonclip-kwin-conceal-"@;
    let g = "moonclip-conceal-"@;
    if conceal_file_name(a) == conceal_file_name(b) {
        let x = conceal_file_name(a);
        assert(x.len() == f.len() + decimal(a).len() + ".js"@.len());
        assert(x.len() == f.len() + decimal(b).len() + ".js"@.len());
        assert(x.subrange(f.len() as int, (f.len() + decimal(a).len()) as int) =~= decimal(a));
        assert(x.subrange(f.len() as int, (f.len() + decimal(b).len()) as int) =~= decimal(b));
        lemma_decimal_injective(a, b);
    }
    if conceal_plugin_name(a) == conceal_plugin_name(b) {
        assert(conceal_plugin_name(a).skip(g.len() as int) =~= decimal(a));
        assert(conceal_plugin_name(b).skip(g.len() as int) =~= decimal(b));
        lemma_decimal_injective(a, b);
    }
}

/// A copy of OBS is known by the path, the size and the time of what it was made
/// from: another size or time gives another mark.
pub proof fn law_copies_are_told_apart(path: Seq<char>, a: nat, b: nat, s: nat, t: nat)
    ensures
        fingerprint_text(path, a, s) == fingerprint_text(path, b, t) <==> a == b && s == t,
{
    if fingerprint_text(path, a, s) == fingerprint_text(path, b, t) {
        lemma_mark_parts(path, a, s);
        lemma_mark_parts(path, b, t);
        let x = fingerprint_text(path, a, s).skip(path.len() as int + 1);
        assert(split(x, '\n') == seq![decimal(a), decimal(s), Seq::<char>::empty()]);
        assert(split(x, '\n') == seq![decimal(b), decimal(t), Seq::<char>::empty()]);
        assert(split(x, '\n')[0] == decimal(a) && split(x, '\n')[0] == decimal(b));
        assert(split(x, '\n')[1] == decimal(s) && split(x, '\n')[1] == decimal(t));
        lemma_decimal_injective(a, b);
        lemma_decimal_injective(s, t);
    }
}

proof fn lemma_mark_parts(path: Seq<char>, a: nat, s: nat)
    ensures
        split(fingerprint_text(path, a, s).skip(path.len() as int + 1), '\n') == seq![
            decimal(a),
            decimal(s),
            Seq::<char>::empty(),
        ],
{
    reveal_strlit("\n");
    assert("\n"@ =~= seq!['\n']);
    let x = decimal(a);
    let y = decimal(s);
    let none = Seq::<char>::empty();
    lemma_decimal_digits(a);
    lemma_decimal_digits(s);
    assert forall|i: int| 0 <= i < x.len() implies #[trigger] x[i] != '\n' by {
        assert(is_digit(x[i]));
    }
    assert forall|i: int| 0 <= i < y.len() implies #[trigger] y[i] != '\n' by {
        assert(is_digit(y[i]));
    }
    let rest = y + seq!['\n'] + none;
    law_first_piece(x, '\n', rest);
    law_first_piece(y, '\n', none);
    crate::text_laws::lemma_split_whole(none, '\n');
    let whole = fingerprint_text(path, a, s);
    assert(whole.skip(path.len() as int + 1) =~= x + seq!['\n'] + rest);
    assert(seq![x] + (seq![y] + seq![none]) =~= seq![x, y, none]);
}

/// The tracks of the recorder are the mix, the desktop and the microphone.
pub proof fn law_recorder_tracks(desktop: Seq<char>, mic: Seq<char>)
    ensures
        track_args(desktop, mic).len() == 3,
        track_args(desktop, mic)[0] == desktop + "|"@ + mic,
        track_args(desktop, mic)[1] == desktop,
        track_args(desktop, mic)[2] == mic,
{
}

/// The class of a window is the second of its two names.
pub proof fn law_class_of_a_window(instance: Seq<u8>, class: Seq<u8>)
    requires
        instance.len() > 0,
        class.len() > 0,
        lacks_zero(instance),
        lacks_zero(class),
    ensures
        class_of(instance + seq![0u8] + (class + seq![0u8] + Seq::<u8>::empty())) == lossy_text(
            class,
        ),
{
    let none = Seq::<u8>::empty();
    law_arguments_stand_between_zeros(instance, class + seq![0u8] + none);
    law_arguments_stand_between_zeros(class, none);
}

/// A device that is listed has the name and the description that are given; a
/// source that tells what it taps is a monitor.
pub proof fn law_listed_device(
    name: Seq<char>,
    description: Seq<char>,
    tap: Option<JsonRead>,
)
    requires
        !(tap matches Some(JsonRead::Failure(_))),
    ensures
        ({
            let fields = seq![
                Some(JsonRead::Document(JsonModel::Str(name))),
                Some(JsonRead::Document(JsonModel::Str(description))),
                tap,
            ];
            listed_entry(fields) == Some(
                ListedModel {
                    name,
                    description,
                    monitor: tap is Some && tap != Some(JsonRead::Document(JsonModel::Null)),
                },
            )
        }),
{
}

// ---------------------------------------------------------------------------
// Places
// ---------------------------------------------------------------------------
proof fn lemma_joins(a: Seq<char>, b: Seq<char>)
    requires
        a.len() > 0,
        a.last() != '/',
        b.len() > 0,
        b[0] != '/',
    ensures
        join_path(a, b) == a + "/"@ + b,
{
}

/// Where the launchers of a user keep their games, below the user's home.
pub proof fn law_launchers_stand_below_the_home(home: Seq<char>)
    requires
        home.len() > 0,
        home.last() != '/',
    ensures
        steam_places(home).contains(home + "/"@ + ".steam/steam"@),
        steam_places(home).contains(home + "/"@ + ".local/share/Steam"@),
        steam_places(home).contains(home + "/"@ + ".steam/root"@),
        heroic_places(home).contains(home + "/"@ + ".config/heroic/GamesConfig"@),
        prism_places(home).contains(home + "/"@ + ".local/share/PrismLauncher/instances"@),
        steam_places(home).len() == 3,
        heroic_places(home).len() == 2,
        prism_places(home).len() == 2,
{
    reveal_strlit(".steam/steam");
    reveal_strlit(".local/share/Steam");
    reveal_strlit(".steam/root");
    reveal_strlit(".config/heroic/GamesConfig");
    reveal_strlit(".local/share/PrismLauncher/instances");
    assert(".steam/steam"@[0] == '.' && ".local/share/Steam"@[0] == '.' && ".steam/root"@[0] == '.'
        && ".config/heroic/GamesConfig"@[0] == '.' && ".local/share/PrismLauncher/instances"@[0]
        == '.');
    lemma_joins(home, ".steam/steam"@);
    lemma_joins(home, ".local/share/Steam"@);
    lemma_joins(home, ".steam/root"@);
    lemma_joins(home, ".config/heroic/GamesConfig"@);
    lemma_joins(home, ".local/share/PrismLauncher/instances"@);
    let s = steam_places(home);
    assert(s[0] == home + "/"@ + ".steam/steam"@ && s[1] == home + "/"@ + ".local/share/Steam"@
        && s[2] == home + "/"@ + ".steam/root"@);
    assert(heroic_places(home)[0] == home + "/"@ + ".config/heroic/GamesConfig"@);
    assert(prism_places(home)[0] == home + "/"@ + ".local/share/PrismLauncher/instances"@);
}

/// The manifests of a library stand in one directory of it.
pub proof fn law_manifests_stand_in_their_library(libraries: Seq<Seq<char>>, i: int)
    requires
        0 <= i < libraries.len(),
        libraries[i].len() > 0,
        libraries[i].last() != '/',
    ensures
        manifest_dirs_of(libraries).len() == libraries.len(),
        manifest_dirs_of(libraries)[i] == libraries[i] + "/"@ + "steamapps"@,
{
    reveal_strlit("steamapps");
    assert("steamapps"@[0] == 's');
    lemma_joins(libraries[i], "steamapps"@);
}

/// The configuration of OBS and the icons of games stand below the data of the
/// user, each in a directory of its own.
pub proof fn law_own_files_stand_below_the_data(data: Seq<u8>)
    requires
        data.len() > 0,
        data.last() != 47,
    ensures
        ({
            let own = data.push(47) + encode_utf8("MoonClip"@);
            &&& config_root_below(data) == own.push(47) + encode_utf8("obs"@).push(47)
                + encode_utf8("config"@)
            &&& icons_dir_below(data) == own.push(47) + encode_utf8("icons"@)
            &&& runtime_root_below(data) == own.push(47) + encode_utf8("obs"@)
            &&& clips_dir_below(Some(data)) == own
            &&& clips_dir_below(None) == encode_utf8("MoonClip"@)
        }),
{
    reveal_strlit("MoonClip");
    reveal_strlit("obs");
    reveal_strlit("config");
    reveal_strlit("icons");
    assert("MoonClip"@[0] == 'M' && "MoonClip"@[1] == 'o' && "MoonClip"@[2] == 'o' && "MoonClip"@[3]
        == 'n' && "MoonClip"@[4] == 'C' && "MoonClip"@[5] == 'l' && "MoonClip"@[6] == 'i'
        && "MoonClip"@[7] == 'p');
    assert("obs"@[0] == 'o' && "obs"@[1] == 'b' && "obs"@[2] == 's');
    assert("config"@[0] == 'c' && "config"@[1] == 'o' && "config"@[2] == 'n' && "config"@[3] == 'f'
        && "config"@[4] == 'i' && "config"@[5] == 'g');
    assert("icons"@[0] == 'i' && "icons"@[1] == 'c' && "icons"@[2] == 'o' && "icons"@[3] == 'n'
        && "icons"@[4] == 's');
    lemma_ascii_name("MoonClip"@);
    lemma_ascii_name("obs"@);
    lemma_ascii_name("config"@);
    lemma_ascii_name("icons"@);
    let m = encode_utf8("MoonClip"@);
    let o = encode_utf8("obs"@);
    let own = data.push(47) + m;
    assert(own.last() == m.last());
    let run = own.push(47) + o;
    assert(run.last() == o.last());
    assert(run.push(47) + encode_utf8("config"@) =~= own.push(47) + o.push(47) + encode_utf8(
        "config"@,
    ));
}

proof fn lemma_ascii_name(s: Seq<char>)
    requires
        s.len() > 0,
        forall|i: int| 0 <= i < s.len() ==> 'A' <= #[trigger] s[i] <= 'z',
    ensures
        encode_utf8(s).len() == s.len(),
        encode_utf8(s)[0] != 47,
        encode_utf8(s).last() != 47,
{
    assert(is_ascii_chars(s)) by {
        assert forall|i: int| 0 <= i < s.len() implies '\0' <= #[trigger] s[i] <= '\u{7f}' by {
            assert('A' <= s[i] <= 'z');
        }
    }
    is_ascii_chars_encode_utf8(s);
    assert(s[0] as u8 == encode_utf8(s)[0]);
    let n = s.len() - 1;
    assert(s[n] as u8 == encode_utf8(s)[n]);
}

/// A copy of OBS is used where it is there and was made from what is installed;
/// otherwise the install that the binary stands in is copied.
pub proof fn law_copy_is_used_where_it_is_current(
    root: Seq<u8>,
    parts: Seq<Seq<char>>,
    exists_now: bool,
    marker: Option<Seq<char>>,
    fingerprint: Seq<char>,
)
    requires
        parts.len() > 1,
        forall|i: int| 0 <= i < parts.len() ==> names_part(#[trigger] parts[i]),
    ensures
        ({
            let bin = "/"@ + joined(parts, "/"@);
            let step = stage_of(root, bin, exists_now, marker, fingerprint);
            let current = exists_now && marker == Some(fingerprint);
            &&& current ==> step == Ok::<StageModel, Seq<char>>(
                StageModel::Ready(below(below(root, "bin"@), "obs"@)),
            )
            &&& !current ==> step == Ok::<StageModel, Seq<char>>(
                StageModel::Copy("/"@ + joined(parts.drop_last().drop_last(), "/"@)),
            )
        }),
{
    law_parent_of_a_path(parts);
    let init = parts.drop_last();
    assert forall|i: int| 0 <= i < init.len() implies names_part(#[trigger] init[i]) by {
        assert(init[i] == parts[i]);
    }
    law_parent_of_a_path(init);
}

/// Five attempts are made to hide the window, with pauses that grow by a fifth
/// of a second.
pub proof fn law_attempts_to_hide(failed: nat)
    ensures
        retry_after(failed).1 <==> failed < 5,
        retry_after(0).0 == 0,
        retry_after((failed + 1) as nat).0 == retry_after(failed).0 + 200,
{
}

} // verus!
