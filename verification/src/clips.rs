//! Saved clips: their names, their previews and their lengths.

use vstd::prelude::*;
use vstd::string::StrSliceExecFns;

use crate::paths::{join, join_path};
use crate::settings::{buffer_length, buffer_seconds, TextMap};
use crate::text::{
    cat, cat3, cat5, chars_of, contains, decimal, decimal_of, has, last_index, lemma_pieces_occur,
    lines, lines_of, opt_text, parse_i64, parse_signed, rfind_char, same, split, split_on,
    starts_with, text_of, texts, trim, trim_start, trimmed, white_space,
};

verus! {

broadcast use vstd::string::group_string_axioms;

// ---------------------------------------------------------------------------
// File names
// ---------------------------------------------------------------------------
/// The name of a file without its extension: what precedes the last dot,
/// unless that dot starts the name.
pub open spec fn file_stem(name: Seq<char>) -> Seq<char> {
    match last_index(name, '.') {
        Some(i) => if i == 0 {
            name
        } else {
            name.take(i)
        },
        None => name,
    }
}

/// The extension of a file name: what follows the last dot, unless that dot starts the name.
pub open spec fn file_extension(name: Seq<char>) -> Option<Seq<char>> {
    match last_index(name, '.') {
        Some(i) => if i == 0 {
            None
        } else {
            Some(name.skip(i + 1))
        },
        None => None,
    }
}

/// Name of a file without its extension.
pub fn stem_of(name: &str) -> (r: String)
    ensures
        r@ == file_stem(name@),
{
    let cs = chars_of(name);
    match rfind_char(cs.as_slice(), '.') {
        Some(i) => {
            if i == 0 {
                name.to_owned()
            } else {
                proof {
                    assert(cs@.subrange(0, i as int) =~= cs@.take(i as int));
                }
                text_of(cs.as_slice(), 0, i)
            }
        },
        None => name.to_owned(),
    }
}

/// Extension of a file name.
pub fn extension_of(name: &str) -> (r: Option<String>)
    ensures
        opt_text(r) == file_extension(name@),
{
    let cs = chars_of(name);
    let n: usize = cs.len();
    match rfind_char(cs.as_slice(), '.') {
        Some(i) => {
            if i == 0 {
                None
            } else {
                proof {
                    assert(cs@.subrange(i + 1, n as int) =~= cs@.skip(i + 1));
                }
                Some(text_of(cs.as_slice(), i + 1, n))
            }
        },
        None => None,
    }
}

/// The extension that a renamed clip keeps.
pub open spec fn kept_extension(name: Seq<char>) -> Seq<char> {
    match file_extension(name) {
        Some(e) => e,
        None => "mp4"@,
    }
}

/// The `n`th name to try for a clip whose own name is taken.
pub open spec fn numbered_name(name: Seq<char>, n: nat) -> Seq<char> {
    file_stem(name) + "_"@ + decimal(n) + "."@ + kept_extension(name)
}

/// The name is in the list.
pub open spec fn is_listed(names: Seq<String>, name: Seq<char>) -> bool {
    texts(names).contains(name)
}

fn listed(names: &Vec<String>, name: &str) -> (r: bool)
    ensures
        r == is_listed(names@, name@),
{
    let ghost all = texts(names@);
    let mut i: usize = 0;
    while i < names.len()
        invariant
            all == texts(names@),
            i <= names@.len(),
            forall|k: int| 0 <= k < i ==> all[k] != name@,
        decreases names@.len() - i,
    {
        proof {
            assert(all[i as int] == names@[i as int]@);
        }
        if same(names[i].as_str(), name) {
            return true;
        }
        i = i + 1;
    }
    false
}

/// What is to be done with the name of a saved clip.
pub enum NameStep {
    /// The name can stay.
    Keep,
    /// Try this name: it is free unless a file of that name exists on disk.
    Try { n: u32, name: String },
    Fail(String),
}

/// The numbers from `n` up to 999 whose names are all taken.
pub open spec fn taken_up_to(name: Seq<char>, taken: Seq<String>, from: nat, to: nat) -> bool {
    forall|k: nat| from <= k < to ==> is_listed(taken, #[trigger] numbered_name(name, k))
}

/// The next name to try for a clip, from number `n` on. `taken` are the names of
/// the clips that are indexed. A name that exists on disk is answered by asking
/// from the number after it.
pub fn next_free_name(name: &str, taken: &Vec<String>, n: u32) -> (r: NameStep)
    requires
        n >= 2,
    ensures
        match r {
            NameStep::Keep => false,
            NameStep::Try { n: k, name: cand } => {
                &&& n <= k <= 999
                &&& cand@ == numbered_name(name@, k as nat)
                &&& !is_listed(taken@, cand@)
                &&& taken_up_to(name@, taken@, n as nat, k as nat)
            },
            NameStep::Fail(e) => {
                &&& e@ == "cannot find a free clip name"@
                &&& taken_up_to(name@, taken@, n as nat, 1000)
            },
        },
{
    let stem = stem_of(name);
    let ext: String = match extension_of(name) {
        Some(e) => e,
        None => "mp4".to_owned(),
    };
    let mut k: u32 = n;
    while k <= 999
        invariant
            stem@ == file_stem(name@),
            ext@ == kept_extension(name@),
            n <= k,
            k <= 1000 || k == n,
            taken_up_to(name@, taken@, n as nat, k as nat),
        decreases 1000 - k,
    {
        let num = decimal_of(k as u64);
        let cand = cat5(stem.as_str(), "_", num.as_str(), ".", ext.as_str());
        if !listed(taken, cand.as_str()) {
            return NameStep::Try { n: k, name: cand };
        }
        k = k + 1;
    }
    NameStep::Fail("cannot find a free clip name".to_owned())
}

/// What is to be done with the name of a clip that was just saved: it stays
/// unless an indexed clip has it, and then the first free number is tried.
pub fn clip_name_step(name: &str, taken: &Vec<String>) -> (r: NameStep)
    ensures
        match r {
            NameStep::Keep => !is_listed(taken@, name@),
            NameStep::Try { n: k, name: cand } => {
                &&& is_listed(taken@, name@)
                &&& 2 <= k <= 999
                &&& cand@ == numbered_name(name@, k as nat)
                &&& !is_listed(taken@, cand@)
                &&& taken_up_to(name@, taken@, 2, k as nat)
            },
            NameStep::Fail(e) => {
                &&& is_listed(taken@, name@)
                &&& e@ == "cannot find a free clip name"@
                &&& taken_up_to(name@, taken@, 2, 1000)
            },
        },
{
    if !listed(taken, name) {
        NameStep::Keep
    } else {
        next_free_name(name, taken, 2)
    }
}

/// The names tried for a clip are all different.
pub proof fn law_numbered_names_differ(name: Seq<char>, a: nat, b: nat)
    requires
        numbered_name(name, a) == numbered_name(name, b),
    ensures
        a == b,
{
    let stem = file_stem(name);
    let ext = kept_extension(name);
    let head = stem + "_"@;
    let tail = "."@ + ext;
    let x = numbered_name(name, a);
    let y = numbered_name(name, b);
    assert(x =~= head + decimal(a) + tail);
    assert(y =~= head + decimal(b) + tail);
    assert(x.len() == head.len() + decimal(a).len() + tail.len());
    assert(y.len() == head.len() + decimal(b).len() + tail.len());
    assert(decimal(a) =~= x.subrange(head.len() as int, (head.len() + decimal(a).len()) as int));
    assert(decimal(b) =~= y.subrange(head.len() as int, (head.len() + decimal(b).len()) as int));
    crate::text::lemma_decimal_injective(a, b);
}

/// The name of a clip's preview picture.
pub open spec fn thumb_name_of(name: Seq<char>) -> Seq<char> {
    "thumb_"@ + file_stem(name) + ".jpg"@
}

/// Name of a clip's preview picture.
pub fn thumb_name(name: &str) -> (r: String)
    ensures
        r@ == thumb_name_of(name@),
{
    let stem = stem_of(name);
    cat3("thumb_", stem.as_str(), ".jpg")
}

/// A name that could lead out of the clips directory.
pub open spec fn leads_out(name: Seq<char>) -> bool {
    contains(name, ".."@) || (name.len() > 0 && (name[0] == '/' || name[0] == '\\'))
}

/// Where a clip of a name stands. A name that leads out of the directory has no place.
pub open spec fn clip_source(clips_dir: Seq<char>, name: Seq<char>) -> Result<
    Seq<char>,
    Seq<char>,
> {
    if leads_out(name) {
        Err("invalid file name"@)
    } else {
        Ok(join_path(clips_dir, name))
    }
}

/// Path of a clip, for a name that cannot lead out of the clips directory.
pub fn resolve_clip_src(clips_dir: &str, file_name: &str) -> (r: Result<String, String>)
    ensures
        clip_source(clips_dir@, file_name@) == match r {
            Ok(p) => Ok::<Seq<char>, Seq<char>>(p@),
            Err(e) => Err(e@),
        },
{
    let n = file_name.unicode_len();
    let rooted = n > 0 && (file_name.get_char(0) == '/' || file_name.get_char(0) == '\\');
    if has(file_name, "..") || rooted {
        Err("invalid file name".to_owned())
    } else {
        Ok(join(clips_dir, file_name))
    }
}

/// A path that is resolved stands below the clips directory: it is that
/// directory with parts behind it, none of which leads up again.
pub proof fn law_resolved_clip_stays_inside(clips_dir: Seq<char>, name: Seq<char>)
    requires
        !leads_out(name),
    ensures
        join_path(clips_dir, name) == clips_dir + name || join_path(clips_dir, name) == clips_dir
            + "/"@ + name,
        forall|k: int|
            0 <= k < split(name, '/').len() ==> #[trigger] split(name, '/')[k] != ".."@,
{
    lemma_pieces_occur(name, '/');
}

// ---------------------------------------------------------------------------
// Lengths
// ---------------------------------------------------------------------------
/// The hours, minutes and seconds that a report of ffmpeg states, the seconds
/// as they are written.
pub struct DurationModel {
    pub hours: int,
    pub minutes: int,
    pub seconds: Seq<char>,
}

/// The hours, minutes and seconds that a report of ffmpeg states.
pub struct DurationText {
    pub hours: i64,
    pub minutes: i64,
    pub seconds: String,
}

/// The line that states a duration.
pub open spec fn is_duration_line(line: Seq<char>) -> bool {
    "Duration:"@.is_prefix_of(trim_start(line))
}

/// The first line that states a duration.
pub open spec fn duration_line(all: Seq<Seq<char>>) -> Option<Seq<char>>
    decreases all.len(),
{
    if all.len() == 0 {
        None
    } else if is_duration_line(all[0]) {
        Some(all[0])
    } else {
        duration_line(all.drop_first())
    }
}

/// The position behind the first `needle` in `s`.
pub open spec fn after_first(s: Seq<char>, needle: Seq<char>, i: int) -> bool {
    crate::text::occurs_at(s, needle, i) && forall|j: int|
        0 <= j < i ==> !#[trigger] crate::text::occurs_at(s, needle, j)
}

/// The time of a line that states a duration: what stands between the label
/// and the first comma, without white space around it. The label ends it too.
pub open spec fn duration_field(line: Seq<char>) -> Seq<char> {
    let head = split(line, ',')[0];
    let start = choose|i: int| after_first(head, "Duration:"@, i);
    let rest = head.skip(start + 9);
    if contains(rest, "Duration:"@) {
        let stop = choose|i: int| after_first(rest, "Duration:"@, i);
        trim(rest.take(stop))
    } else {
        trim(rest)
    }
}

/// The parts of a time, by its colons.
pub open spec fn duration_parts(time: Seq<char>) -> Option<DurationModel> {
    let parts = split(time, ':');
    if parts.len() < 3 {
        None
    } else {
        match (parse_signed(parts[0]), parse_signed(parts[1])) {
            (Some(hours), Some(minutes)) => Some(
                DurationModel { hours, minutes, seconds: parts[2] },
            ),
            _ => None,
        }
    }
}

/// Parts of a time, by its colons.
pub fn split_duration(time: &str) -> (r: Option<DurationText>)
    ensures
        match r {
            Some(d) => duration_parts(time@) == Some(
                DurationModel {
                    hours: d.hours as int,
                    minutes: d.minutes as int,
                    seconds: d.seconds@,
                },
            ),
            None => duration_parts(time@) is None,
        },
{
    let parts = split_on(time, ':');
    proof {
        assert(texts(parts@).len() == parts@.len());
    }
    if parts.len() < 3 {
        return None;
    }
    proof {
        assert(texts(parts@)[0] == parts@[0]@);
        assert(texts(parts@)[1] == parts@[1]@);
        assert(texts(parts@)[2] == parts@[2]@);
    }
    let hours: i64 = match parse_i64(parts[0].as_str()) {
        Some(h) => h,
        None => {
            return None;
        },
    };
    let minutes: i64 = match parse_i64(parts[1].as_str()) {
        Some(m) => m,
        None => {
            return None;
        },
    };
    Some(DurationText { hours, minutes, seconds: parts[2].clone() })
}

fn find_from(s: &[char], needle: &[char]) -> (r: Option<usize>)
    ensures
        match r {
            Some(i) => after_first(s@, needle@, i as int),
            None => !contains(s@, needle@),
        },
{
    if needle.len() > s.len() {
        proof {
            assert forall|i: int| !#[trigger] crate::text::occurs_at(s@, needle@, i) by {}
        }
        return None;
    }
    let last: usize = s.len() - needle.len();
    let mut i: usize = 0;
    loop
        invariant
            last == s@.len() - needle@.len(),
            i <= last,
            forall|k: int| 0 <= k < i ==> !#[trigger] crate::text::occurs_at(s@, needle@, k),
        decreases last - i,
    {
        if crate::text::chars_at(s, needle, i) {
            return Some(i);
        }
        if i == last {
            proof {
                assert forall|k: int| !#[trigger] crate::text::occurs_at(s@, needle@, k) by {}
            }
            return None;
        }
        i = i + 1;
    }
}

proof fn lemma_after_first_unique(s: Seq<char>, needle: Seq<char>, i: int)
    requires
        after_first(s, needle, i),
    ensures
        (choose|k: int| after_first(s, needle, k)) == i,
{
    let k = choose|k: int| after_first(s, needle, k);
    if k < i {
        assert(!crate::text::occurs_at(s, needle, k));
    } else if i < k {
        assert(!crate::text::occurs_at(s, needle, i));
    }
}

proof fn lemma_trim_start_suffix(s: Seq<char>)
    ensures
        exists|k: int| 0 <= k <= s.len() && trim_start(s) == #[trigger] s.skip(k) && forall|j: int|
            0 <= j < k ==> crate::text::is_white_space(#[trigger] s[j]),
    decreases s.len(),
{
    if s.len() > 0 && crate::text::is_white_space(s[0]) {
        lemma_trim_start_suffix(s.drop_first());
        let k = choose|k: int|
            0 <= k <= s.drop_first().len() && trim_start(s.drop_first())
                == #[trigger] s.drop_first().skip(k) && forall|j: int|
                0 <= j < k ==> crate::text::is_white_space(#[trigger] s.drop_first()[j]);
        assert(s.skip(k + 1) =~= s.drop_first().skip(k));
        assert forall|j: int| 0 <= j < k + 1 implies crate::text::is_white_space(#[trigger] s[j]) by {
            if j > 0 {
                assert(s.drop_first()[j - 1] == s[j]);
            }
        }
    } else {
        assert(s.skip(0) =~= s);
    }
}

fn starts_duration(line: &str) -> (r: bool)
    ensures
        r == is_duration_line(line@),
{
    let cs = chars_of(line);
    let mut i: usize = 0;
    proof {
        assert(cs@.skip(0) =~= cs@);
    }
    while i < cs.len() && white_space(cs[i])
        invariant
            i <= cs@.len(),
            trim_start(cs@) == trim_start(cs@.skip(i as int)),
        decreases cs@.len() - i,
    {
        proof {
            assert(cs@.skip(i as int).drop_first() =~= cs@.skip(i + 1));
        }
        i = i + 1;
    }
    let n: usize = cs.len();
    let rest = text_of(cs.as_slice(), i, n);
    proof {
        assert(cs@.subrange(i as int, n as int) =~= cs@.skip(i as int));
    }
    starts_with(rest.as_str(), "Duration:")
}

proof fn lemma_split_whole(s: Seq<char>, sep: char)
    requires
        forall|k: int| 0 <= k < s.len() ==> s[k] != sep,
    ensures
        split(s, sep) == seq![s],
    decreases s.len(),
{
    if s.len() > 0 {
        lemma_split_whole(s.drop_last(), sep);
        let rest = split(s.drop_last(), sep);
        assert(rest.drop_last().push(rest.last().push(s.last())) =~= seq![s]) by {
            assert(s.drop_last().push(s.last()) =~= s);
        }
    } else {
        assert(s =~= Seq::<char>::empty());
    }
}

proof fn lemma_split_first(s: Seq<char>, sep: char, n: int)
    requires
        0 <= n <= s.len(),
        forall|k: int| 0 <= k < n ==> s[k] != sep,
    ensures
        split(s, sep).len() >= 1,
        split(s, sep)[0].len() >= n,
        split(s, sep)[0].take(n) == s.take(n),
    decreases s.len(),
{
    if n == s.len() {
        lemma_split_whole(s, sep);
    } else {
        let init = s.drop_last();
        lemma_split_first(init, sep, n);
        crate::text::lemma_split_nonempty(init, sep);
        let rest = split(init, sep);
        assert(init.take(n) =~= s.take(n));
        if s.last() != sep {
            let out = rest.drop_last().push(rest.last().push(s.last()));
            if rest.len() == 1 {
                assert(out[0] =~= rest[0].push(s.last()));
                assert(out[0].take(n) =~= rest[0].take(n));
            } else {
                assert(out[0] == rest[0]);
            }
        } else {
            assert(rest.push(Seq::empty())[0] == rest[0]);
        }
    }
}

proof fn lemma_label_before_comma(line: Seq<char>)
    requires
        is_duration_line(line),
    ensures
        contains(split(line, ',')[0], "Duration:"@),
{
    reveal_strlit("Duration:");
    let label = "Duration:"@;
    assert(label.len() == 9);
    assert(label[0] == 'D' && label[1] == 'u' && label[2] == 'r' && label[3] == 'a' && label[4]
        == 't' && label[5] == 'i' && label[6] == 'o' && label[7] == 'n' && label[8] == ':');
    lemma_trim_start_suffix(line);
    let k = choose|k: int|
        0 <= k <= line.len() && trim_start(line) == #[trigger] line.skip(k) && forall|j: int|
            0 <= j < k ==> crate::text::is_white_space(#[trigger] line[j]);
    let n = k + 9;
    assert forall|j: int| 0 <= j < n implies line[j] != ',' by {
        if j >= k {
            assert(line.skip(k)[j - k] == line[j]);
            assert(label[j - k] == line.skip(k)[j - k]);
            assert(j - k == 0 || j - k == 1 || j - k == 2 || j - k == 3 || j - k == 4 || j - k == 5
                || j - k == 6 || j - k == 7 || j - k == 8);
        }
    }
    lemma_split_first(line, ',', n);
    let head = split(line, ',')[0];
    assert(head.subrange(k, k + 9) =~= label) by {
        assert forall|j: int| 0 <= j < 9 implies head.subrange(k, k + 9)[j] == label[j] by {
            assert(head.take(n)[k + j] == head[k + j]);
            assert(line.take(n)[k + j] == line[k + j]);
            assert(line.skip(k)[j] == line[k + j]);
        }
    }
    assert(crate::text::occurs_at(head, label, k));
}

/// What a report of ffmpeg states of the duration: the time on the first line
/// that states one.
pub fn find_duration(report: &str) -> (r: Option<String>)
    ensures
        match r {
            Some(t) => duration_line(lines(report@)) is Some && t@ == duration_field(
                duration_line(lines(report@))->0,
            ),
            None => duration_line(lines(report@)) is None,
        },
{
    let all = lines_of(report);
    let ghost model = texts(all@);
    let mut i: usize = 0;
    proof {
        assert(model.skip(0) =~= model);
    }
    while i < all.len()
        invariant
            model == texts(all@),
            model == lines(report@),
            i <= all@.len(),
            duration_line(model) == duration_line(model.skip(i as int)),
        decreases all@.len() - i,
    {
        let line = &all[i];
        proof {
            assert(model.skip(i as int)[0] == line@);
            assert(model.skip(i as int).drop_first() =~= model.skip(i + 1));
        }
        if starts_duration(line.as_str()) {
            let pieces = split_on(line.as_str(), ',');
            proof {
                crate::text::lemma_split_nonempty(line@, ',');
                assert(texts(pieces@).len() == pieces@.len());
                assert(texts(pieces@)[0] == pieces@[0]@);
                reveal_strlit("Duration:");
                assert("Duration:"@.len() == 9);
                lemma_label_before_comma(line@);
            }
            let head = chars_of(pieces[0].as_str());
            let label = chars_of("Duration:");
            let n: usize = head.len();
            match find_from(head.as_slice(), label.as_slice()) {
                None => {
                    return None;
                },
                Some(at) => {
                    proof {
                        lemma_after_first_unique(head@, "Duration:"@, at as int);
                        assert(contains(head@, "Duration:"@));
                    }
                    let rest = text_of(head.as_slice(), at + 9, n);
                    proof {
                        assert(head@.subrange(at + 9, n as int) =~= head@.skip(at + 9));
                    }
                    let tail = chars_of(rest.as_str());
                    match find_from(tail.as_slice(), label.as_slice()) {
                        None => {
                            return Some(trimmed(rest.as_str()));
                        },
                        Some(stop) => {
                            proof {
                                lemma_after_first_unique(tail@, "Duration:"@, stop as int);
                                assert(contains(tail@, "Duration:"@));
                                assert(tail@.subrange(0, stop as int) =~= tail@.take(stop as int));
                            }
                            let upto = text_of(tail.as_slice(), 0, stop);
                            return Some(trimmed(upto.as_str()));
                        },
                    }
                },
            }
        }
        i = i + 1;
    }
    None
}

/// The length that is indexed: the measured one, or else that of the buffer.
pub open spec fn indexed_length(measured_ms: Option<i64>, settings: Map<Seq<char>, Seq<char>>) -> int {
    match measured_ms {
        Some(ms) => ms as int,
        None => buffer_length(settings) * 1000,
    }
}

/// Length in milliseconds that is indexed for a clip.
pub fn clip_length(measured_ms: Option<i64>, settings: &TextMap) -> (r: i64)
    requires
        measured_ms is None ==> buffer_length(settings@) * 1000 <= i64::MAX,
    ensures
        r == indexed_length(measured_ms, settings@),
{
    match measured_ms {
        Some(ms) => ms,
        None => buffer_seconds(settings) * 1000,
    }
}

/// A preview that failed one second into the clip is tried again near its head,
/// where the clip is shorter than a second and a half.
pub fn retry_thumbnail(length_ms: i64) -> (r: bool)
    ensures
        r == (length_ms < 1500),
{
    length_ms < 1500
}

/// An indexed length is wrong where it is off by more than a second and a half.
pub open spec fn length_is_off(measured_ms: int, indexed_ms: int) -> bool {
    measured_ms - indexed_ms > 1500 || indexed_ms - measured_ms > 1500
}

/// An indexed length is wrong where it is off by more than a second and a half.
pub fn is_length_wrong(measured_ms: i64, indexed_ms: i64) -> (r: bool)
    ensures
        r == length_is_off(measured_ms as int, indexed_ms as int),
{
    let d: i128 = measured_ms as i128 - indexed_ms as i128;
    d > 1500 || d < -1500
}

/// The audio track of a clip to preview, as it is picked from the file.
pub open spec fn preview_map(track: nat) -> Result<Seq<char>, Seq<char>> {
    if 1 <= track <= 3 {
        Ok("0:"@ + decimal(track))
    } else {
        Err("track must be 1 (mix), 2 (game) or 3 (mic)"@)
    }
}

/// The audio track of a clip to preview: 1 is the mix, 2 the game, 3 the microphone.
pub fn check_preview_track(track: u32) -> (r: Result<String, String>)
    ensures
        preview_map(track as nat) == match r {
            Ok(map) => Ok::<Seq<char>, Seq<char>>(map@),
            Err(e) => Err(e@),
        },
{
    if track < 1 || track > 3 {
        return Err("track must be 1 (mix), 2 (game) or 3 (mic)".to_owned());
    }
    let n = decimal_of(track as u64);
    Ok(cat("0:", n.as_str()))
}

// ---------------------------------------------------------------------------
// The index
// ---------------------------------------------------------------------------
/// One indexed clip, with whether its file is on disk.
pub struct IndexedClip {
    pub id: String,
    pub file_name: String,
    pub on_disk: bool,
}

/// The clips whose files are gone, in their order.
pub open spec fn gone_clips(rows: Seq<IndexedClip>) -> Seq<Seq<char>>
    decreases rows.len(),
{
    if rows.len() == 0 {
        Seq::empty()
    } else {
        let init = gone_clips(rows.drop_last());
        if rows.last().on_disk {
            init
        } else {
            init.push(rows.last().id@)
        }
    }
}

/// The clips that leave the index because their files are gone.
pub fn purge_missing_clips(rows: &Vec<IndexedClip>) -> (r: Vec<String>)
    ensures
        texts(r@) == gone_clips(rows@),
{
    let mut out: Vec<String> = Vec::new();
    let mut i: usize = 0;
    proof {
        assert(rows@.take(0) =~= Seq::empty());
        assert(texts(out@) =~= gone_clips(rows@.take(0)));
    }
    while i < rows.len()
        invariant
            i <= rows@.len(),
            texts(out@) == gone_clips(rows@.take(i as int)),
        decreases rows@.len() - i,
    {
        let ghost before = texts(out@);
        proof {
            assert(rows@.take(i + 1).drop_last() =~= rows@.take(i as int));
            assert(rows@.take(i + 1).last() == rows@[i as int]);
        }
        if !rows[i].on_disk {
            out.push(rows[i].id.clone());
            proof {
                assert(texts(out@) =~= before.push(rows@[i as int].id@));
            }
        }
        i = i + 1;
    }
    proof {
        assert(rows@.take(i as int) =~= rows@);
    }
    out
}

/// The place of a clip in the index.
pub fn find_clip(rows: &Vec<IndexedClip>, id: &str) -> (r: Result<usize, String>)
    ensures
        match r {
            Ok(i) => {
                &&& i < rows@.len()
                &&& rows@[i as int].id@ == id@
                &&& forall|k: int| 0 <= k < i ==> (#[trigger] rows@[k]).id@ != id@
            },
            Err(e) => {
                &&& e@ == "clip not found"@
                &&& forall|k: int| 0 <= k < rows@.len() ==> (#[trigger] rows@[k]).id@ != id@
            },
        },
{
    let mut i: usize = 0;
    while i < rows.len()
        invariant
            i <= rows@.len(),
            forall|k: int| 0 <= k < i ==> (#[trigger] rows@[k]).id@ != id@,
        decreases rows@.len() - i,
    {
        if same(rows[i].id.as_str(), id) {
            return Ok(i);
        }
        i = i + 1;
    }
    Err("clip not found".to_owned())
}

/// A clip can be opened while its file is on disk.
pub fn check_on_disk(clip: &IndexedClip) -> (r: Result<(), String>)
    ensures
        match r {
            Ok(_) => clip.on_disk,
            Err(e) => !clip.on_disk && e@ == "file gone from disk: "@ + clip.file_name@,
        },
{
    if clip.on_disk {
        Ok(())
    } else {
        Err(cat("file gone from disk: ", clip.file_name.as_str()))
    }
}

/// The arguments with which ffmpeg writes one picture of a clip, taken `seek`
/// seconds into it. What is captured has the limited range of video, which its
/// JPEG encoder takes only where it is told to be lenient.
pub open spec fn thumbnail_command(seek: Seq<char>, input: Seq<char>, output: Seq<char>) -> Seq<
    Seq<char>,
> {
    seq![
        "-y"@,
        "-hide_banner"@,
        "-loglevel"@,
        "error"@,
        "-ss"@,
        seek,
        "-i"@,
        input,
        "-vframes"@,
        "1"@,
        "-q:v"@,
        "2"@,
        "-strict"@,
        "unofficial"@,
        output,
    ]
}

/// Arguments with which ffmpeg writes one picture of a clip.
pub fn thumbnail_args(seek: &str, input: &str, output: &str) -> (r: Vec<String>)
    ensures
        texts(r@) == thumbnail_command(seek@, input@, output@),
{
    let r = vec![
        "-y".to_owned(),
        "-hide_banner".to_owned(),
        "-loglevel".to_owned(),
        "error".to_owned(),
        "-ss".to_owned(),
        seek.to_owned(),
        "-i".to_owned(),
        input.to_owned(),
        "-vframes".to_owned(),
        "1".to_owned(),
        "-q:v".to_owned(),
        "2".to_owned(),
        "-strict".to_owned(),
        "unofficial".to_owned(),
        output.to_owned(),
    ];
    proof {
        assert(texts(r@) =~= thumbnail_command(seek@, input@, output@));
    }
    r
}

/// The arguments with which ffmpeg extracts one audio track of a clip.
pub open spec fn preview_command(input: Seq<char>, map: Seq<char>, output: Seq<char>) -> Seq<
    Seq<char>,
> {
    seq![
        "-y"@,
        "-hide_banner"@,
        "-loglevel"@,
        "error"@,
        "-i"@,
        input,
        "-map"@,
        map,
        "-c:a"@,
        "aac"@,
        output,
    ]
}

/// Arguments with which ffmpeg extracts one audio track of a clip.
pub fn preview_args(input: &str, map: &str, output: &str) -> (r: Vec<String>)
    ensures
        texts(r@) == preview_command(input@, map@, output@),
{
    let r = vec![
        "-y".to_owned(),
        "-hide_banner".to_owned(),
        "-loglevel".to_owned(),
        "error".to_owned(),
        "-i".to_owned(),
        input.to_owned(),
        "-map".to_owned(),
        map.to_owned(),
        "-c:a".to_owned(),
        "aac".to_owned(),
        output.to_owned(),
    ];
    proof {
        assert(texts(r@) =~= preview_command(input@, map@, output@));
    }
    r
}

} // verus!
