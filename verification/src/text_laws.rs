//! What holds of the pieces that texts are cut into.

use vstd::prelude::*;

use crate::paths::path_key;
use crate::text::{
    decimal, is_digit, is_white_space, joined, last_index, lemma_decimal_digits,
    lemma_parse_decimal, lines, parse_unsigned, split, trim, trim_end, trim_start, without_cr,
    word_split, words,
};

verus! {

broadcast use vstd::string::group_string_axioms;

/// No character of a text is the given one.
pub open spec fn lacks(s: Seq<char>, c: char) -> bool {
    forall|i: int| 0 <= i < s.len() ==> #[trigger] s[i] != c
}

/// All characters of a text are white space.
pub open spec fn is_blank(s: Seq<char>) -> bool {
    forall|i: int| 0 <= i < s.len() ==> is_white_space(#[trigger] s[i])
}

// ---------------------------------------------------------------------------
// Pieces
// ---------------------------------------------------------------------------
/// A text without the separator is one piece.
pub proof fn lemma_split_whole(s: Seq<char>, sep: char)
    requires
        lacks(s, sep),
    ensures
        split(s, sep) == seq![s],
    decreases s.len(),
{
    if s.len() == 0 {
        assert(s =~= Seq::<char>::empty());
        assert(split(s, sep) =~= seq![s]);
    } else {
        let init = s.drop_last();
        assert forall|i: int| 0 <= i < init.len() implies #[trigger] init[i] != sep by {
            assert(init[i] == s[i]);
        }
        lemma_split_whole(init, sep);
        assert(s[s.len() - 1] != sep);
        assert(init.push(s.last()) =~= s);
        assert(split(s, sep) =~= seq![s]);
    }
}

/// What stands before the first separator is the first piece, and what follows
/// is cut by itself.
pub proof fn law_first_piece(a: Seq<char>, sep: char, b: Seq<char>)
    requires
        lacks(a, sep),
    ensures
        split(a + seq![sep] + b, sep) == seq![a] + split(b, sep),
    decreases b.len(),
{
    let s = a + seq![sep] + b;
    lemma_split_whole(a, sep);
    if b.len() == 0 {
        assert(s.drop_last() =~= a);
        assert(s.last() == sep);
        assert(split(s, sep) =~= seq![a] + split(b, sep));
    } else {
        let init = b.drop_last();
        law_first_piece(a, sep, init);
        assert(s.drop_last() =~= a + seq![sep] + init);
        assert(s.last() == b.last());
        crate::text::lemma_split_nonempty(init, sep);
        let rest = split(init, sep);
        let all = seq![a] + rest;
        assert(all.last() == rest.last());
        assert(all.drop_last() =~= seq![a] + rest.drop_last());
        assert(split(s, sep) =~= seq![a] + split(b, sep));
    }
}

/// What follows the last separator is the last piece, and what stands before it
/// is cut by itself.
pub proof fn law_last_piece(a: Seq<char>, sep: char, b: Seq<char>)
    requires
        lacks(b, sep),
    ensures
        split(a + seq![sep] + b, sep) == split(a, sep).push(b),
    decreases b.len(),
{
    let s = a + seq![sep] + b;
    if b.len() == 0 {
        assert(s.drop_last() =~= a);
        assert(s.last() == sep);
        assert(b =~= Seq::<char>::empty());
        assert(split(s, sep) =~= split(a, sep).push(b));
    } else {
        let init = b.drop_last();
        assert forall|i: int| 0 <= i < init.len() implies #[trigger] init[i] != sep by {
            assert(init[i] == b[i]);
        }
        law_last_piece(a, sep, init);
        assert(s.drop_last() =~= a + seq![sep] + init);
        assert(s.last() == b[b.len() - 1]);
        assert(init.push(b.last()) =~= b);
        assert(split(s, sep) =~= split(a, sep).push(b));
    }
}

/// Pieces that were joined are found again.
pub proof fn law_joined_pieces_are_found(parts: Seq<Seq<char>>, sep: char)
    requires
        parts.len() > 0,
        forall|i: int| 0 <= i < parts.len() ==> lacks(#[trigger] parts[i], sep),
    ensures
        split(joined(parts, seq![sep]), sep) == parts,
    decreases parts.len(),
{
    if parts.len() == 1 {
        assert(lacks(parts[0], sep));
        lemma_split_whole(parts[0], sep);
        assert(parts =~= seq![parts[0]]);
    } else {
        let init = parts.drop_last();
        assert forall|i: int| 0 <= i < init.len() implies lacks(#[trigger] init[i], sep) by {
            assert(init[i] == parts[i]);
        }
        law_joined_pieces_are_found(init, sep);
        assert(lacks(parts[parts.len() - 1], sep));
        law_last_piece(joined(init, seq![sep]), sep, parts.last());
        assert(init.push(parts.last()) =~= parts);
    }
}

/// The pieces of a text have no separator, and joined with it they are the text.
pub proof fn law_pieces_make_the_text(s: Seq<char>, sep: char)
    ensures
        joined(split(s, sep), seq![sep]) == s,
        forall|i: int| 0 <= i < split(s, sep).len() ==> lacks(#[trigger] split(s, sep)[i], sep),
    decreases s.len(),
{
    let all = split(s, sep);
    if s.len() == 0 {
        assert(all.len() == 1);
        assert(joined(all, seq![sep]) =~= s);
    } else {
        let init = s.drop_last();
        law_pieces_make_the_text(init, sep);
        crate::text::lemma_split_nonempty(init, sep);
        let rest = split(init, sep);
        if s.last() == sep {
            assert(all.drop_last() =~= rest);
            assert(joined(all, seq![sep]) =~= init + seq![sep] + Seq::<char>::empty());
            assert(joined(all, seq![sep]) =~= s);
            assert forall|i: int| 0 <= i < all.len() implies lacks(#[trigger] all[i], sep) by {
                if i < rest.len() {
                    assert(all[i] == rest[i]);
                }
            }
        } else {
            let open = rest.last();
            assert(lacks(rest[rest.len() - 1], sep));
            assert(all.last() == open.push(s.last()));
            assert(all.drop_last() =~= rest.drop_last());
            if rest.len() == 1 {
                assert(joined(all, seq![sep]) == all[0]);
                assert(init == open);
            } else {
                assert(joined(all, seq![sep]) == joined(rest.drop_last(), seq![sep]) + seq![sep]
                    + open.push(s.last()));
                assert(init == joined(rest.drop_last(), seq![sep]) + seq![sep] + open);
            }
            assert(joined(all, seq![sep]) =~= init.push(s.last()));
            assert(init.push(s.last()) =~= s);
            assert forall|i: int| 0 <= i < all.len() implies lacks(#[trigger] all[i], sep) by {
                if i < rest.len() - 1 {
                    assert(all[i] == rest[i]);
                } else {
                    let piece = all[i];
                    assert forall|k: int| 0 <= k < piece.len() implies #[trigger] piece[k] != sep by {
                        if k < open.len() {
                            assert(piece[k] == open[k]);
                        }
                    }
                }
            }
        }
    }
}

// ---------------------------------------------------------------------------
// White space
// ---------------------------------------------------------------------------
proof fn lemma_trim_start_parts(s: Seq<char>)
    ensures
        trim_start(s).len() <= s.len(),
        s.skip(s.len() - trim_start(s).len()) == trim_start(s),
        is_blank(s.take(s.len() - trim_start(s).len())),
        trim_start(s).len() > 0 ==> !is_white_space(trim_start(s)[0]),
    decreases s.len(),
{
    if s.len() > 0 && is_white_space(s[0]) {
        let rest = s.drop_first();
        lemma_trim_start_parts(rest);
        let n = s.len() - trim_start(s).len();
        assert(s.skip(n) =~= rest.skip(n - 1));
        assert forall|i: int| 0 <= i < n implies is_white_space(#[trigger] s.take(n)[i]) by {
            if i > 0 {
                assert(rest.take(n - 1)[i - 1] == s[i]);
                assert(is_white_space(rest.take(n - 1)[i - 1]));
            }
        }
    } else {
        assert(s.skip(0) =~= s);
    }
}

proof fn lemma_trim_end_parts(s: Seq<char>)
    ensures
        trim_end(s).len() <= s.len(),
        s.take(trim_end(s).len() as int) == trim_end(s),
        is_blank(s.skip(trim_end(s).len() as int)),
        trim_end(s).len() > 0 ==> !is_white_space(trim_end(s).last()),
    decreases s.len(),
{
    if s.len() > 0 && is_white_space(s.last()) {
        let init = s.drop_last();
        lemma_trim_end_parts(init);
        let n = trim_end(s).len() as int;
        assert(s.take(n) =~= init.take(n));
        assert forall|i: int| 0 <= i < s.len() - n implies is_white_space(
            #[trigger] s.skip(n)[i],
        ) by {
            if i < init.len() - n {
                assert(init.skip(n)[i] == s[n + i]);
                assert(is_white_space(init.skip(n)[i]));
            }
        }
    } else {
        assert(s.take(s.len() as int) =~= s);
    }
}

/// Trimming takes white space from both ends and nothing else: what is left
/// starts and ends with something else, or is empty.
pub proof fn law_trimming_takes_white_space(s: Seq<char>)
    ensures
        exists|a: Seq<char>, b: Seq<char>|
            is_blank(a) && is_blank(b) && #[trigger] (a + trim(s) + b) == s,
        trim(s).len() > 0 ==> !is_white_space(trim(s)[0]) && !is_white_space(trim(s).last()),
{
    lemma_trim_start_parts(s);
    let t = trim_start(s);
    lemma_trim_end_parts(t);
    crate::text::lemma_trim_end_fixed(t);
    let a = s.take(s.len() - t.len());
    let b = t.skip(trim(s).len() as int);
    assert(a + trim(s) + b =~= s) by {
        assert(trim(s) + b =~= t);
        assert(a + t =~= s);
        assert(a + trim(s) + b =~= a + (trim(s) + b));
    }
    assert(is_blank(a) && is_blank(b) && (a + trim(s) + b) == s);
}

/// White space around a text does not survive trimming.
pub proof fn lemma_trim_around(a: Seq<char>, s: Seq<char>, b: Seq<char>)
    requires
        is_blank(a),
        is_blank(b),
        s.len() > 0,
        !is_white_space(s[0]),
        !is_white_space(s.last()),
    ensures
        trim(a + s + b) == s,
{
    lemma_drop_blank_start(a, s + b);
    assert(a + s + b =~= a + (s + b));
    assert((s + b)[0] == s[0]);
    lemma_drop_blank_end(s, b);
}

proof fn lemma_drop_blank_start(a: Seq<char>, t: Seq<char>)
    requires
        is_blank(a),
        t.len() > 0,
        !is_white_space(t[0]),
    ensures
        trim_start(a + t) == t,
    decreases a.len(),
{
    if a.len() == 0 {
        assert(a + t =~= t);
    } else {
        let rest = a.drop_first();
        assert forall|i: int| 0 <= i < rest.len() implies is_white_space(#[trigger] rest[i]) by {
            assert(rest[i] == a[i + 1]);
        }
        lemma_drop_blank_start(rest, t);
        assert((a + t)[0] == a[0]);
        assert((a + t).drop_first() =~= rest + t);
    }
}

proof fn lemma_drop_blank_end(s: Seq<char>, b: Seq<char>)
    requires
        is_blank(b),
        s.len() > 0,
        !is_white_space(s.last()),
    ensures
        trim_end(s + b) == s,
    decreases b.len(),
{
    if b.len() == 0 {
        assert(s + b =~= s);
    } else {
        let init = b.drop_last();
        assert forall|i: int| 0 <= i < init.len() implies is_white_space(#[trigger] init[i]) by {
            assert(init[i] == b[i]);
        }
        lemma_drop_blank_end(s, init);
        assert((s + b).last() == b[b.len() - 1]);
        assert((s + b).drop_last() =~= s + init);
    }
}

/// A text without white space.
pub open spec fn is_solid(w: Seq<char>) -> bool {
    forall|k: int| 0 <= k < w.len() ==> !is_white_space(#[trigger] w[k])
}

/// Words are not empty and hold no white space.
pub proof fn law_words_hold_no_white_space(s: Seq<char>)
    ensures
        forall|i: int|
            0 <= i < words(s).len() ==> (#[trigger] words(s)[i]).len() > 0 && is_solid(words(s)[i]),
{
    lemma_word_split(s);
    let (done, open) = word_split(s);
    assert forall|i: int| 0 <= i < words(s).len() implies (#[trigger] words(s)[i]).len() > 0
        && is_solid(words(s)[i]) by {
        if i < done.len() {
            assert(words(s)[i] == done[i]);
        }
    }
}

proof fn lemma_word_split(s: Seq<char>)
    ensures
        forall|i: int|
            0 <= i < word_split(s).0.len() ==> (#[trigger] word_split(s).0[i]).len() > 0 && is_solid(
                word_split(s).0[i],
            ),
        is_solid(word_split(s).1),
    decreases s.len(),
{
    if s.len() > 0 {
        lemma_word_split(s.drop_last());
        let (done, open) = word_split(s.drop_last());
        let (all, last) = word_split(s);
        assert forall|k: int| 0 <= k < last.len() implies !is_white_space(#[trigger] last[k]) by {
            if k < open.len() {
                assert(!is_white_space(open[k]));
            }
        }
        assert forall|i: int| 0 <= i < all.len() implies (#[trigger] all[i]).len() > 0 && is_solid(
            all[i],
        ) by {
            if i < done.len() {
                assert(all[i] == done[i]);
            }
        }
    }
}

/// A word, white space and the rest: the word is the first of the words, and
/// those of the rest follow.
pub proof fn law_first_word(w: Seq<char>, c: char, rest: Seq<char>)
    requires
        w.len() > 0,
        is_solid(w),
        is_white_space(c),
    ensures
        words(w + seq![c] + rest) == seq![w] + words(rest),
        words(w) == seq![w],
{
    lemma_one_word(w);
    lemma_words_after(w, c, rest);
    let (done, open) = word_split(rest);
    let (all, last) = word_split(w + seq![c] + rest);
    assert(words(w + seq![c] + rest) =~= seq![w] + words(rest));
    assert(words(w) =~= seq![w]);
}

proof fn lemma_one_word(w: Seq<char>)
    requires
        is_solid(w),
    ensures
        word_split(w) == (Seq::<Seq<char>>::empty(), w),
    decreases w.len(),
{
    if w.len() > 0 {
        let init = w.drop_last();
        assert forall|k: int| 0 <= k < init.len() implies !is_white_space(#[trigger] init[k]) by {
            assert(init[k] == w[k]);
        }
        lemma_one_word(init);
        assert(!is_white_space(w[w.len() - 1]));
        assert(init.push(w.last()) =~= w);
    } else {
        assert(w =~= Seq::<char>::empty());
    }
}

proof fn lemma_words_after(w: Seq<char>, c: char, rest: Seq<char>)
    requires
        w.len() > 0,
        is_solid(w),
        is_white_space(c),
    ensures
        word_split(w + seq![c] + rest).0 == seq![w] + word_split(rest).0,
        word_split(w + seq![c] + rest).1 == word_split(rest).1,
    decreases rest.len(),
{
    let s = w + seq![c] + rest;
    lemma_one_word(w);
    if rest.len() == 0 {
        assert(s.drop_last() =~= w);
        assert(s.last() == c);
        assert(word_split(s).0 =~= seq![w] + word_split(rest).0);
    } else {
        let init = rest.drop_last();
        lemma_words_after(w, c, init);
        assert(s.drop_last() =~= w + seq![c] + init);
        assert(s.last() == rest.last());
        assert(word_split(s).0 =~= seq![w] + word_split(rest).0);
    }
}

// ---------------------------------------------------------------------------
// Lines
// ---------------------------------------------------------------------------
/// The first line ends at the first line break, and loses a carriage return
/// before it; the other lines are those of the rest.
pub proof fn law_first_line(a: Seq<char>, rest: Seq<char>)
    requires
        lacks(a, '\n'),
    ensures
        lines(a + seq!['\n'] + rest) == seq![
            if a.len() > 0 && a.last() == '\r' {
                a.drop_last()
            } else {
                a
            },
        ] + lines(rest),
        a.len() > 0 ==> lines(a) == seq![a],
        lines(Seq::empty()).len() == 0,
{
    law_first_piece(a, '\n', rest);
    lemma_split_whole(a, '\n');
    lemma_split_whole(Seq::empty(), '\n');
    crate::text::lemma_split_nonempty(rest, '\n');
    let pieces = split(a + seq!['\n'] + rest, '\n');
    let tail = split(rest, '\n');
    assert(pieces.last() == tail.last());
    assert(pieces.drop_last() =~= seq![a] + tail.drop_last());
    assert(lines(a + seq!['\n'] + rest) =~= seq![without_cr(a)] + lines(rest));
    if a.len() > 0 {
        assert(lines(a) =~= seq![a]);
    }
}

// ---------------------------------------------------------------------------
// Last place
// ---------------------------------------------------------------------------
/// The last place of a character is the one that it has no other behind.
pub proof fn law_last_place(a: Seq<char>, c: char, b: Seq<char>)
    requires
        lacks(b, c),
    ensures
        last_index(a + seq![c] + b, c) == Some(a.len() as int),
        last_index(b, c) is None,
    decreases b.len(),
{
    let s = a + seq![c] + b;
    if b.len() == 0 {
        assert(s.last() == c);
    } else {
        let init = b.drop_last();
        assert forall|i: int| 0 <= i < init.len() implies #[trigger] init[i] != c by {
            assert(init[i] == b[i]);
        }
        law_last_place(a, c, init);
        assert(s.last() == b[b.len() - 1]);
        assert(s.drop_last() =~= a + seq![c] + init);
    }
}

// ---------------------------------------------------------------------------
// Numbers
// ---------------------------------------------------------------------------
/// A number is read where it is written in digits, with or without a plus, and
/// is not too great; a text with anything else in it is none.
pub proof fn law_numbers_are_read(n: nat, max: nat, s: Seq<char>)
    ensures
        parse_unsigned(decimal(n), max) == if n <= max {
            Some(n)
        } else {
            None
        },
        parse_unsigned("+"@ + decimal(n), max) == parse_unsigned(decimal(n), max),
        parse_unsigned(Seq::empty(), max) is None,
        (exists|i: int| 0 < i < s.len() && !('0' <= #[trigger] s[i] <= '9')) ==> parse_unsigned(
            s,
            max,
        ) is None,
        s.len() > 0 && !('0' <= s[0] <= '9') && s[0] != '+' ==> parse_unsigned(s, max) is None,
{
    reveal_strlit("+");
    lemma_decimal_digits(n);
    assert(is_digit(decimal(n)[0]));
    if n <= max {
        lemma_parse_decimal(n, max);
    }
    let p = "+"@ + decimal(n);
    assert(p[0] == '+');
    assert(p.drop_first() =~= decimal(n));
    if exists|i: int| 0 < i < s.len() && !('0' <= #[trigger] s[i] <= '9') {
        let i = choose|i: int| 0 < i < s.len() && !('0' <= #[trigger] s[i] <= '9');
        let rest = s.drop_first();
        assert(rest[i - 1] == s[i]);
        assert(!is_digit(s[i]) && !is_digit(rest[i - 1]));
    }
    if s.len() > 0 && !('0' <= s[0] <= '9') && s[0] != '+' {
        assert(!is_digit(s[0]));
    }
}

/// A separator at the end of a path does not count.
pub proof fn law_last_separator_does_not_count(s: Seq<char>)
    requires
        s.len() > 0,
    ensures
        path_key(s + "/"@) == path_key(s),
{
    reveal_strlit("/");
    assert("/"@ =~= seq!['/']);
    let none = Seq::<char>::empty();
    law_last_piece(s, '/', none);
    assert(s + seq!['/'] + none =~= s + "/"@);
    crate::text::lemma_split_nonempty(s, '/');
    let pieces = split(s, '/');
    assert(pieces.push(none).drop_last() =~= pieces);
    assert(pieces.push(none)[0] == pieces[0]);
    assert((s + "/"@)[0] == s[0]);
}

} // verus!
