//! Paths as text and as bytes, by the rules of Unix.

use vstd::prelude::*;
use vstd::slice::slice_to_vec;
use vstd::string::StrSliceExecFns;
use vstd::utf8::encode_utf8;

use crate::text::{
    cat, cat3, chars_of, join_first, joined, last_index, opt_text, rfind_char, same, split, split_on,
    text_of, texts,
};

verus! {

broadcast use vstd::string::group_string_axioms;

/// `b` below `a`: an absolute `b` stands alone, and one separator stands
/// between them otherwise.
pub open spec fn join_path(a: Seq<char>, b: Seq<char>) -> Seq<char> {
    if b.len() > 0 && b[0] == '/' {
        b
    } else if a.len() == 0 || a.last() == '/' {
        a + b
    } else {
        a + "/"@ + b
    }
}

/// `b` below `a`.
pub fn join(a: &str, b: &str) -> (r: String)
    ensures
        r@ == join_path(a@, b@),
{
    let n = b.unicode_len();
    if n > 0 && b.get_char(0) == '/' {
        return b.to_owned();
    }
    let m = a.unicode_len();
    if m == 0 || a.get_char(m - 1) == '/' {
        cat(a, b)
    } else {
        cat3(a, "/", b)
    }
}

/// The parts of a path that name something: what stands between separators,
/// without empty parts and without `.` parts.
pub open spec fn named_parts(pieces: Seq<Seq<char>>) -> Seq<Seq<char>>
    decreases pieces.len(),
{
    if pieces.len() == 0 {
        Seq::empty()
    } else {
        let init = named_parts(pieces.drop_last());
        let p = pieces.last();
        if p.len() == 0 || p == "."@ {
            init
        } else {
            init.push(p)
        }
    }
}

/// What makes two paths the same: whether it starts at the root, whether it
/// starts at `.`, and its parts.
pub struct PathKey {
    pub absolute: bool,
    pub from_here: bool,
    pub parts: Seq<Seq<char>>,
}

/// The identity of a path.
pub open spec fn path_key(s: Seq<char>) -> PathKey {
    PathKey {
        absolute: s.len() > 0 && s[0] == '/',
        from_here: split(s, '/')[0] == "."@,
        parts: named_parts(split(s, '/')),
    }
}

fn parts_of(pieces: &Vec<String>) -> (r: Vec<String>)
    ensures
        texts(r@) == named_parts(texts(pieces@)),
{
    let ghost all = texts(pieces@);
    let mut out: Vec<String> = Vec::new();
    let mut i: usize = 0;
    proof {
        assert(all.take(0) =~= Seq::<Seq<char>>::empty());
        assert(texts(out@) =~= Seq::<Seq<char>>::empty());
    }
    while i < pieces.len()
        invariant
            all == texts(pieces@),
            i <= pieces@.len(),
            texts(out@) == named_parts(all.take(i as int)),
        decreases pieces@.len() - i,
    {
        let p = &pieces[i];
        proof {
            assert(all.take(i + 1).drop_last() =~= all.take(i as int));
            assert(all.take(i + 1).last() == p@);
        }
        if !(p.as_str().is_empty() || same(p.as_str(), ".")) {
            let ghost before = out@;
            out.push(p.clone());
            proof {
                assert(texts(out@) =~= texts(before).push(p@));
            }
        }
        i = i + 1;
    }
    proof {
        assert(all.take(all.len() as int) =~= all);
    }
    out
}

fn same_texts(a: &Vec<String>, b: &Vec<String>) -> (r: bool)
    ensures
        r == (texts(a@) == texts(b@)),
{
    if a.len() != b.len() {
        proof {
            assert(texts(a@).len() != texts(b@).len());
        }
        return false;
    }
    let mut i: usize = 0;
    while i < a.len()
        invariant
            a@.len() == b@.len(),
            i <= a@.len(),
            forall|k: int| 0 <= k < i ==> a@[k]@ == b@[k]@,
        decreases a@.len() - i,
    {
        if !same(a[i].as_str(), b[i].as_str()) {
            proof {
                assert(texts(a@)[i as int] != texts(b@)[i as int]);
            }
            return false;
        }
        i = i + 1;
    }
    proof {
        assert(texts(a@) =~= texts(b@));
    }
    true
}

/// Two texts name the same path.
pub fn same_path(a: &str, b: &str) -> (r: bool)
    ensures
        r == (path_key(a@) == path_key(b@)),
{
    let pa = split_on(a, '/');
    let pb = split_on(b, '/');
    proof {
        crate::text::lemma_split_nonempty(a@, '/');
        crate::text::lemma_split_nonempty(b@, '/');
        assert(texts(pa@).len() == pa@.len());
        assert(texts(pb@).len() == pb@.len());
        assert(texts(pa@)[0] == pa@[0]@);
        assert(texts(pb@)[0] == pb@[0]@);
    }
    let abs_a = a.unicode_len() > 0 && a.get_char(0) == '/';
    let abs_b = b.unicode_len() > 0 && b.get_char(0) == '/';
    let here_a = same(pa[0].as_str(), ".");
    let here_b = same(pb[0].as_str(), ".");
    let qa = parts_of(&pa);
    let qb = parts_of(&pb);
    abs_a == abs_b && here_a == here_b && same_texts(&qa, &qb)
}

/// What follows the last separator.
pub open spec fn base_name(path: Seq<char>) -> Seq<char> {
    match last_index(path, '/') {
        Some(i) => path.skip(i + 1),
        None => path,
    }
}

/// What follows the last separator.
pub fn basename_of(path: &str) -> (r: String)
    ensures
        r@ == base_name(path@),
{
    let cs = chars_of(path);
    let n: usize = cs.len();
    match rfind_char(cs.as_slice(), '/') {
        Some(i) => {
            proof {
                assert(cs@.subrange(i + 1, cs@.len() as int) =~= cs@.skip(i + 1));
            }
            text_of(cs.as_slice(), i + 1, n)
        },
        None => path.to_owned(),
    }
}

/// The steps of a path: its parts, after `.` where it starts there.
pub open spec fn path_steps(s: Seq<char>) -> Seq<Seq<char>> {
    let k = path_key(s);
    if k.from_here {
        seq!["."@] + k.parts
    } else {
        k.parts
    }
}

/// The directory of a path: all steps but the last. `None` where there is no step.
pub open spec fn parent_path(s: Seq<char>) -> Option<Seq<char>> {
    let steps = path_steps(s);
    if steps.len() == 0 {
        None
    } else {
        let above = joined(steps.drop_last(), "/"@);
        if path_key(s).absolute {
            Some("/"@ + above)
        } else {
            Some(above)
        }
    }
}

/// The directory of a path.
pub fn parent(path: &str) -> (r: Option<String>)
    ensures
        opt_text(r) == parent_path(path@),
{
    let pieces = split_on(path, '/');
    proof {
        crate::text::lemma_split_nonempty(path@, '/');
        assert(texts(pieces@).len() == pieces@.len());
        assert(texts(pieces@)[0] == pieces@[0]@);
    }
    let absolute = path.unicode_len() > 0 && path.get_char(0) == '/';
    let here = same(pieces[0].as_str(), ".");
    let parts = parts_of(&pieces);
    let mut steps: Vec<String> = Vec::new();
    if here {
        steps.push(".".to_owned());
    }
    let mut i: usize = 0;
    let ghost lead = texts(steps@);
    proof {
        assert(lead =~= (if here {
            seq!["."@]
        } else {
            Seq::<Seq<char>>::empty()
        }));
        assert(lead + texts(parts@).take(0) =~= lead);
    }
    while i < parts.len()
        invariant
            i <= parts@.len(),
            texts(steps@) == lead + texts(parts@).take(i as int),
        decreases parts@.len() - i,
    {
        let ghost before = steps@;
        steps.push(parts[i].clone());
        proof {
            assert(texts(steps@) =~= texts(before).push(parts@[i as int]@));
            assert(texts(parts@).take(i + 1) =~= texts(parts@).take(i as int).push(
                parts@[i as int]@,
            ));
        }
        i = i + 1;
    }
    proof {
        assert(texts(parts@).take(parts@.len() as int) =~= texts(parts@));
        assert(texts(steps@) =~= path_steps(path@));
        assert(texts(steps@).len() == steps@.len());
    }
    if steps.len() == 0 {
        return None;
    }
    let above = join_first(&steps, steps.len() - 1, "/");
    proof {
        assert(texts(steps@).take(steps@.len() - 1) =~= path_steps(path@).drop_last());
    }
    if absolute {
        Some(cat("/", above.as_str()))
    } else {
        Some(above)
    }
}

/// A path ends in the name of a file or directory: in a part other than `..`.
pub open spec fn ends_in_name(s: Seq<char>) -> bool {
    let parts = path_key(s).parts;
    parts.len() > 0 && parts.last() != ".."@
}

/// A path with another name at its end: in place of its own, or after the path
/// where it ends in none.
pub open spec fn renamed_path(s: Seq<char>, name: Seq<char>) -> Seq<char> {
    if ends_in_name(s) {
        join_path(parent_path(s)->0, name)
    } else {
        join_path(s, name)
    }
}

/// Path with another name at its end.
pub fn with_name(path: &str, name: &str) -> (r: String)
    ensures
        r@ == renamed_path(path@, name@),
{
    let pieces = split_on(path, '/');
    let parts = parts_of(&pieces);
    let n: usize = parts.len();
    proof {
        assert(texts(parts@).len() == parts@.len());
        if n > 0 {
            assert(texts(parts@).last() == parts@[n - 1]@);
        }
    }
    if n > 0 && !same(parts[n - 1].as_str(), "..") {
        match parent(path) {
            Some(d) => join(d.as_str(), name),
            None => join(path, name),
        }
    } else {
        join(path, name)
    }
}

// ---------------------------------------------------------------------------
// Paths as bytes
// ---------------------------------------------------------------------------
/// `b` below `a`, where paths are bytes: they need not be text.
pub open spec fn join_bytes(a: Seq<u8>, b: Seq<u8>) -> Seq<u8> {
    if b.len() > 0 && b[0] == 47 {
        b
    } else if a.len() == 0 || a.last() == 47 {
        a + b
    } else {
        a.push(47) + b
    }
}

/// The path `name` below the path `dir`.
pub open spec fn below(dir: Seq<u8>, name: Seq<char>) -> Seq<u8> {
    join_bytes(dir, encode_utf8(name))
}

/// The bytes of a text.
pub fn bytes_of(s: &str) -> (r: Vec<u8>)
    ensures
        r@ == encode_utf8(s@),
{
    slice_to_vec(s.as_bytes())
}

/// Path `name` below the path `dir`.
pub fn join_below(dir: &[u8], name: &str) -> (r: Vec<u8>)
    ensures
        r@ == below(dir@, name@),
{
    let b = name.as_bytes();
    if b.len() > 0 && b[0] == 47 {
        return slice_to_vec(b);
    }
    let mut r: Vec<u8> = slice_to_vec(dir);
    let n: usize = dir.len();
    if !(n == 0 || dir[n - 1] == 47) {
        r.push(47);
    }
    let ghost head = r@;
    let mut i: usize = 0;
    proof {
        assert(head + b@.take(0) =~= head);
    }
    while i < b.len()
        invariant
            b@ == encode_utf8(name@),
            i <= b@.len(),
            r@ == head + b@.take(i as int),
        decreases b@.len() - i,
    {
        r.push(b[i]);
        proof {
            assert(b@.take(i + 1) =~= b@.take(i as int).push(b@[i as int]));
            assert(r@ =~= head + b@.take(i + 1));
        }
        i = i + 1;
    }
    proof {
        assert(b@.take(b@.len() as int) =~= b@);
    }
    r
}

} // verus!
