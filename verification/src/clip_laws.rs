//! What holds of the names, lengths and previews of clips.

use vstd::prelude::*;

use crate::clips::{
    after_first, clip_source, duration_field, duration_line, duration_parts, file_extension,
    file_stem, gone_clips, indexed_length, length_is_off, numbered_name, preview_command,
    preview_map, thumb_name_of, thumbnail_command, DurationModel, IndexedClip,
};
use crate::text::{
    contains, decimal, is_digit, is_white_space, lemma_decimal_digits, lemma_parse_decimal,
    occurs_at, split, trim_start,
};
use crate::text_laws::{
    is_blank, lacks, law_first_piece, law_last_place, lemma_split_whole, lemma_trim_around,
};

verus! {

broadcast use vstd::string::group_string_axioms;

// ---------------------------------------------------------------------------
// Names
// ---------------------------------------------------------------------------
/// The stem of a file's name is what stands before its last dot, and its
/// extension what follows it; a name without a dot is all stem.
pub proof fn law_stem_and_extension(stem: Seq<char>, extension: Seq<char>)
    requires
        lacks(extension, '.'),
    ensures
        stem.len() > 0 ==> file_stem(stem + "."@ + extension) == stem && file_extension(
            stem + "."@ + extension,
        ) == Some(extension),
        file_stem(extension) == extension,
        file_extension(extension) is None,
{
    reveal_strlit(".");
    assert("."@ =~= seq!['.']);
    law_last_place(stem, '.', extension);
    let name = stem + "."@ + extension;
    if stem.len() > 0 {
        assert(name.take(stem.len() as int) =~= stem);
        assert(name.skip(stem.len() as int + 1) =~= extension);
    }
}

/// A numbered name has the number behind the stem, and keeps the extension; one
/// without gets that of a clip.
pub proof fn law_numbered_names_keep_stem_and_extension(
    stem: Seq<char>,
    extension: Seq<char>,
    n: nat,
)
    requires
        lacks(extension, '.'),
        stem.len() > 0,
    ensures
        numbered_name(stem + "."@ + extension, n) == stem + "_"@ + decimal(n) + "."@ + extension,
        numbered_name(extension, n) == extension + "_"@ + decimal(n) + "."@ + "mp4"@,
{
    law_stem_and_extension(stem, extension);
}

/// The preview of a clip is named after its stem, so that the previews of clips
/// of different stems differ.
pub proof fn law_previews_are_named_after_the_stem(
    a: Seq<char>,
    b: Seq<char>,
    extension: Seq<char>,
)
    requires
        lacks(extension, '.'),
        a.len() > 0,
        b.len() > 0,
    ensures
        thumb_name_of(a + "."@ + extension) == "thumb_"@ + a + ".jpg"@,
        thumb_name_of(a + "."@ + extension) == thumb_name_of(b + "."@ + extension) <==> a == b,
{
    law_stem_and_extension(a, extension);
    law_stem_and_extension(b, extension);
    let x = "thumb_"@ + a + ".jpg"@;
    let y = "thumb_"@ + b + ".jpg"@;
    if x == y {
        assert(x.len() == "thumb_"@.len() + a.len() + ".jpg"@.len());
        assert(y.len() == "thumb_"@.len() + b.len() + ".jpg"@.len());
        let n = "thumb_"@.len() as int;
        assert(x.subrange(n, n + a.len()) =~= a);
        assert(y.subrange(n, n + b.len()) =~= b);
    }
}

/// A name without dots in a row that starts with no separator stands in the
/// clips directory under its own name; any other is refused.
pub proof fn law_clips_stand_in_their_directory(dir: Seq<char>, name: Seq<char>)
    ensures
        clip_source(dir, name) is Ok <==> !contains(name, ".."@) && !(name.len() > 0 && (name[0]
            == '/' || name[0] == '\\')),
        clip_source(dir, name) matches Ok(p) ==> p == dir + name || p == dir + "/"@ + name,
        clip_source(dir, name) matches Ok(p) ==> (dir.len() > 0 && dir.last() != '/' ==> p == dir
            + "/"@ + name),
{
}

// ---------------------------------------------------------------------------
// Lengths
// ---------------------------------------------------------------------------
/// A time is hours, minutes and seconds between colons.
pub proof fn law_time_is_read(hours: nat, minutes: nat, seconds: Seq<char>)
    requires
        hours <= i64::MAX,
        minutes <= i64::MAX,
        lacks(seconds, ':'),
    ensures
        duration_parts(decimal(hours) + ":"@ + decimal(minutes) + ":"@ + seconds) == Some(
            DurationModel { hours: hours as int, minutes: minutes as int, seconds },
        ),
{
    reveal_strlit(":");
    assert(":"@ =~= seq![':']);
    lemma_decimal_digits(hours);
    lemma_decimal_digits(minutes);
    let h = decimal(hours);
    let m = decimal(minutes);
    assert forall|i: int| 0 <= i < h.len() implies #[trigger] h[i] != ':' by {
        assert(is_digit(h[i]));
    }
    assert forall|i: int| 0 <= i < m.len() implies #[trigger] m[i] != ':' by {
        assert(is_digit(m[i]));
    }
    assert(is_digit(h[0]) && is_digit(m[0]));
    let rest = m + ":"@ + seconds;
    assert(h + ":"@ + m + ":"@ + seconds =~= h + seq![':'] + rest);
    law_first_piece(h, ':', rest);
    law_first_piece(m, ':', seconds);
    lemma_split_whole(seconds, ':');
    let parts = split(h + ":"@ + m + ":"@ + seconds, ':');
    assert(parts =~= seq![h, m, seconds]);
    lemma_parse_decimal(hours, i64::MAX as nat);
    lemma_parse_decimal(minutes, i64::MAX as nat);
}

proof fn lemma_place(head: Seq<char>, blank: Seq<char>, rest: Seq<char>)
    requires
        is_blank(blank),
        head == blank + "Duration:"@ + rest,
    ensures
        after_first(head, "Duration:"@, blank.len() as int),
        forall|i: int| after_first(head, "Duration:"@, i) ==> i == blank.len(),
{
    reveal_strlit("Duration:");
    let d = "Duration:"@;
    let n = blank.len() as int;
    assert(d.len() == 9 && d[0] == 'D');
    assert(head.subrange(n, n + 9) =~= d);
    assert forall|j: int| 0 <= j < n implies !#[trigger] occurs_at(head, d, j) by {
        if occurs_at(head, d, j) {
            assert(head.subrange(j, j + 9)[0] == d[0]);
            assert(head[j] == blank[j]);
            assert(is_white_space(blank[j]));
        }
    }
    assert forall|i: int| after_first(head, d, i) implies i == n by {
        if i < n {
            assert(!occurs_at(head, d, i));
        } else if i > n {
            assert(!occurs_at(head, d, n));
        }
    }
}

/// The time of a report is what stands between its mark and the next comma,
/// without the white space around it.
pub proof fn law_duration_is_found_in_its_line(
    blank: Seq<char>,
    around: Seq<char>,
    time: Seq<char>,
    rest: Seq<char>,
)
    requires
        is_blank(blank),
        is_blank(around),
        lacks(blank, ','),
        lacks(around, ','),
        lacks(time, ','),
        lacks(time, 'D'),
        time.len() > 0,
        !is_white_space(time[0]),
        !is_white_space(time.last()),
    ensures
        duration_field(blank + "Duration:"@ + around + time + ","@ + rest) == time,
{
    reveal_strlit("Duration:");
    reveal_strlit(",");
    assert(","@ =~= seq![',']);
    let d = "Duration:"@;
    assert(d.len() == 9 && d[0] == 'D');
    assert(lacks(d, ',')) by {
        assert(d[0] == 'D' && d[1] == 'u' && d[2] == 'r' && d[3] == 'a' && d[4] == 't' && d[5] == 'i'
            && d[6] == 'o' && d[7] == 'n' && d[8] == ':');
    }
    let head = blank + d + around + time;
    assert forall|i: int| 0 <= i < head.len() implies #[trigger] head[i] != ',' by {
        let n = blank.len() as int;
        if i < n {
            assert(head[i] == blank[i]);
        } else if i < n + 9 {
            assert(head[i] == d[i - n]);
        } else if i < n + 9 + around.len() {
            assert(head[i] == around[i - n - 9]);
        } else {
            assert(head[i] == time[i - n - 9 - around.len()]);
        }
    }
    let line = blank + d + around + time + ","@ + rest;
    assert(line =~= head + seq![','] + rest);
    law_first_piece(head, ',', rest);
    assert(split(line, ',')[0] == head);
    let tail = around + time;
    assert(head =~= blank + d + tail);
    lemma_place(head, blank, tail);
    let start = choose|i: int| after_first(head, d, i);
    assert(after_first(head, d, blank.len() as int));
    assert(start == blank.len());
    assert(head.skip(start + 9) =~= tail);
    assert(!contains(tail, d)) by {
        assert forall|i: int| !#[trigger] occurs_at(tail, d, i) by {
            if occurs_at(tail, d, i) {
                assert(tail.subrange(i, i + 9)[0] == d[0]);
                assert(tail[i] == 'D');
                if i < around.len() {
                    assert(is_white_space(around[i]));
                } else {
                    assert(time[i - around.len()] == 'D');
                }
            }
        }
    }
    lemma_trim_around(around, time, Seq::empty());
    assert(around + time + Seq::<char>::empty() =~= tail);
}

/// The line of a report that counts is the first that starts with the mark.
pub proof fn law_first_duration_line_counts(all: Seq<Seq<char>>)
    ensures
        match duration_line(all) {
            Some(l) => exists|i: int|
                0 <= i < all.len() && #[trigger] all[i] == l && "Duration:"@.is_prefix_of(
                    trim_start(l),
                ) && forall|j: int|
                    0 <= j < i ==> !"Duration:"@.is_prefix_of(trim_start(#[trigger] all[j])),
            None => forall|j: int|
                0 <= j < all.len() ==> !"Duration:"@.is_prefix_of(trim_start(#[trigger] all[j])),
        },
    decreases all.len(),
{
    if all.len() > 0 {
        let rest = all.drop_first();
        law_first_duration_line_counts(rest);
        if "Duration:"@.is_prefix_of(trim_start(all[0])) {
            assert(all[0] == all[0]);
        } else {
            match duration_line(rest) {
                Some(l) => {
                    let i = choose|i: int|
                        0 <= i < rest.len() && #[trigger] rest[i] == l && "Duration:"@.is_prefix_of(
                            trim_start(l),
                        ) && forall|j: int|
                            0 <= j < i ==> !"Duration:"@.is_prefix_of(
                                trim_start(#[trigger] rest[j]),
                            );
                    assert(all[i + 1] == l);
                    assert forall|j: int| 0 <= j < i + 1 implies !"Duration:"@.is_prefix_of(
                        trim_start(#[trigger] all[j]),
                    ) by {
                        if j > 0 {
                            assert(rest[j - 1] == all[j]);
                        }
                    }
                },
                None => {
                    assert forall|j: int| 0 <= j < all.len() implies !"Duration:"@.is_prefix_of(
                        trim_start(#[trigger] all[j]),
                    ) by {
                        if j > 0 {
                            assert(rest[j - 1] == all[j]);
                        }
                    }
                },
            }
        }
    }
}

/// A clip that was measured has that length, and one that was not the length of
/// the buffer.
pub proof fn law_indexed_length(measured_ms: i64, settings: Map<Seq<char>, Seq<char>>, n: nat)
    requires
        5 <= n <= i64::MAX,
    ensures
        indexed_length(Some(measured_ms), settings) == measured_ms,
        settings.contains_key("buffer_seconds"@) && settings["buffer_seconds"@] == decimal(n)
            ==> indexed_length(None, settings) == 1000 * n,
        !settings.contains_key("buffer_seconds"@) ==> indexed_length(None, settings) == 30_000,
{
    lemma_parse_decimal(n, i64::MAX as nat);
    lemma_decimal_digits(n);
    assert(is_digit(decimal(n)[0]));
}

/// A length is off where the two differ by more than a second and a half,
/// whichever is greater.
pub proof fn law_length_is_off(a: int, b: int)
    ensures
        length_is_off(a, b) == length_is_off(b, a),
        a <= b ==> (length_is_off(a, b) <==> b > a + 1500),
{
}

// ---------------------------------------------------------------------------
// The index
// ---------------------------------------------------------------------------
/// A clip leaves the index exactly where its file is gone.
pub proof fn law_gone_clips_leave_the_index(rows: Seq<IndexedClip>)
    ensures
        forall|id: Seq<char>| #[trigger]
            gone_clips(rows).contains(id) <==> exists|i: int|
                0 <= i < rows.len() && (#[trigger] rows[i]).id@ == id && !rows[i].on_disk,
    decreases rows.len(),
{
    if rows.len() > 0 {
        let init = rows.drop_last();
        law_gone_clips_leave_the_index(init);
        let before = gone_clips(init);
        let all = gone_clips(rows);
        let last = rows.len() - 1;
        assert(rows[last] == rows.last());
        assert forall|id: Seq<char>| #[trigger] all.contains(id) <==> exists|i: int|
            0 <= i < rows.len() && (#[trigger] rows[i]).id@ == id && !rows[i].on_disk by {
            if all.contains(id) {
                let k = choose|k: int| 0 <= k < all.len() && all[k] == id;
                if k < before.len() {
                    assert(before[k] == id);
                    assert(before.contains(id));
                    let i = choose|i: int|
                        0 <= i < init.len() && (#[trigger] init[i]).id@ == id && !init[i].on_disk;
                    assert(rows[i] == init[i]);
                } else {
                    assert(rows[last].id@ == id);
                }
            }
            if exists|i: int| 0 <= i < rows.len() && (#[trigger] rows[i]).id@ == id
                && !rows[i].on_disk {
                let i = choose|i: int|
                    0 <= i < rows.len() && (#[trigger] rows[i]).id@ == id && !rows[i].on_disk;
                if i < last {
                    assert(init[i] == rows[i]);
                    assert(before.contains(id));
                    let k = choose|k: int| 0 <= k < before.len() && before[k] == id;
                    assert(all[k] == id);
                } else {
                    assert(all[all.len() - 1] == id);
                }
            }
        }
    }
}

// ---------------------------------------------------------------------------
// Previews
// ---------------------------------------------------------------------------
/// An option of a command, followed by its value.
pub open spec fn gives(args: Seq<Seq<char>>, option: Seq<char>, value: Seq<char>) -> bool {
    exists|i: int| 0 <= i < args.len() - 1 && #[trigger] args[i] == option && args[i + 1] == value
}

/// A preview is one picture of the clip, at the given time, written to the given
/// file; what is heard of a clip is the given track of it.
pub proof fn law_preview_commands(
    seek: Seq<char>,
    input: Seq<char>,
    map: Seq<char>,
    output: Seq<char>,
)
    ensures
        ({
            let a = thumbnail_command(seek, input, output);
            &&& gives(a, "-ss"@, seek)
            &&& gives(a, "-i"@, input)
            &&& gives(a, "-vframes"@, "1"@)
            &&& a.last() == output
            &&& a.contains("-y"@)
        }),
        ({
            let b = preview_command(input, map, output);
            &&& gives(b, "-i"@, input)
            &&& gives(b, "-map"@, map)
            &&& gives(b, "-c:a"@, "aac"@)
            &&& b.last() == output
            &&& b.contains("-y"@)
        }),
{
    let a = thumbnail_command(seek, input, output);
    assert(a[4] == "-ss"@ && a[5] == seek && a[6] == "-i"@ && a[7] == input && a[8] == "-vframes"@
        && a[9] == "1"@ && a[0] == "-y"@);
    let b = preview_command(input, map, output);
    assert(b[4] == "-i"@ && b[5] == input && b[6] == "-map"@ && b[7] == map && b[8] == "-c:a"@
        && b[9] == "aac"@ && b[0] == "-y"@);
}

/// A clip has three tracks to be heard: each is taken by its number, and there
/// is no other.
pub proof fn law_preview_tracks(track: nat)
    ensures
        preview_map(track) is Ok <==> track == 1 || track == 2 || track == 3,
        preview_map(track) matches Ok(m) ==> m == "0:"@ + decimal(track),
{
}

} // verus!
