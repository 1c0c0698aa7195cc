//! Pictures: the tray icon, and the cache of game icons, in which any picture
//! becomes a PNG under the name of its content's hash.

use std::collections::hash_map::DefaultHasher;
use std::hash::Hasher;

use vstd::prelude::*;

use crate::paths::{join, join_path};
use crate::text::cat;

verus! {

broadcast use vstd::string::group_string_axioms;

/// A picture with four bytes per pixel: red, green, blue and alpha.
pub struct Picture {
    pub width: u32,
    pub height: u32,
    pub pixels: Vec<u8>,
}

/// What a picture stands for.
pub struct PictureModel {
    pub width: nat,
    pub height: nat,
    pub pixels: Seq<u8>,
}

impl View for Picture {
    type V = PictureModel;

    open spec fn view(&self) -> PictureModel {
        PictureModel {
            width: self.width as nat,
            height: self.height as nat,
            pixels: self.pixels@,
        }
    }
}

/// The picture that `image::load_from_memory` and `DynamicImage::to_rgba8` read
/// out of bytes, where they are a picture.
pub uninterp spec fn picture_of(bytes: Seq<u8>) -> Option<PictureModel>;

/// The PNG file that `DynamicImage::write_to` makes of the picture that
/// `image::load_from_memory` reads out of bytes, where both succeed.
pub uninterp spec fn png_of(bytes: Seq<u8>) -> Option<Seq<u8>>;

/// `image::load_from_memory`, then `DynamicImage::to_rgba8`: the picture, or
/// none where the bytes are no picture.
#[verifier::external_body]
fn decode_picture(bytes: &[u8]) -> (r: Option<Picture>)
    ensures
        match r {
            Some(p) => picture_of(bytes@) == Some(p@),
            None => picture_of(bytes@) is None,
        },
{
    let rgba = image::load_from_memory(bytes).ok()?.to_rgba8();
    let (width, height) = (rgba.width(), rgba.height());
    Some(Picture { width, height, pixels: rgba.into_raw() })
}

/// `image::load_from_memory`, then `DynamicImage::write_to` as PNG: the file,
/// or none where the bytes are no picture or it cannot be written as one.
#[verifier::external_body]
fn encode_png(bytes: &[u8]) -> (r: Option<Vec<u8>>)
    ensures
        match r {
            Some(p) => png_of(bytes@) == Some(p@),
            None => png_of(bytes@) is None,
        },
{
    let mut out = std::io::Cursor::new(Vec::new());
    let picture = image::load_from_memory(bytes).ok()?;
    picture.write_to(&mut out, image::ImageFormat::Png).ok()?;
    Some(out.into_inner())
}

/// The tray icon out of its file.
pub fn load_tray_icon(bytes: &[u8]) -> (r: Option<Picture>)
    ensures
        match r {
            Some(p) => picture_of(bytes@) == Some(p@),
            None => picture_of(bytes@) is None,
        },
{
    decode_picture(bytes)
}

/// A hexadecimal digit in lower case.
pub open spec fn hex_digit(d: nat) -> char {
    if d < 10 {
        (48 + d) as u8 as char
    } else {
        (87 + d) as u8 as char
    }
}

/// The lowest `digits` hexadecimal digits of `n`, the highest first.
pub open spec fn hex_text(n: nat, digits: nat) -> Seq<char>
    decreases digits,
{
    if digits == 0 {
        Seq::empty()
    } else {
        hex_text(n / 16, (digits - 1) as nat).push(hex_digit(n % 16))
    }
}

fn hex_of(n: u64, digits: u32) -> (r: String)
    ensures
        r@ == hex_text(n as nat, digits as nat),
    decreases digits,
{
    if digits == 0 {
        let r = String::new();
        proof {
            assert(r@ =~= Seq::<char>::empty());
        }
        return r;
    }
    let mut r = hex_of(n / 16, digits - 1);
    let d: u8 = (n % 16) as u8;
    let c: char = if d < 10 {
        (48 + d) as char
    } else {
        (87 + d) as char
    };
    r.push(c);
    r
}

/// The path of a cached icon: the sixteen hexadecimal digits of its hash.
pub open spec fn cached_path(icons_dir: Seq<char>, hash: nat) -> Seq<char> {
    join_path(icons_dir, hex_text(hash, 16) + ".png"@)
}

/// Path of a cached icon.
pub fn icon_path(icons_dir: &str, hash: u64) -> (r: String)
    ensures
        r@ == cached_path(icons_dir@, hash as nat),
{
    let h = hex_of(hash, 16);
    let name = cat(h.as_str(), ".png");
    join(icons_dir, name.as_str())
}

/// `Hash::hash` of `[u8]` into a `DefaultHasher`. What it writes into the hasher
/// depends on the machine's byte order and integer size, so nothing is stated
/// of it.
#[verifier::external_body]
fn feed(bytes: &[u8], hasher: &mut DefaultHasher) {
    std::hash::Hash::hash(bytes, hasher)
}

/// Where an icon is cached.
pub struct IconPlace {
    /// The hash of the picture's file.
    pub hash: u64,
    pub path: String,
}

/// Where the icon with this content is cached: under the hash of the content.
pub fn icon_place(bytes: &[u8], icons_dir: &str) -> (r: IconPlace)
    ensures
        r.path@ == cached_path(icons_dir@, r.hash as nat),
{
    let mut hasher = DefaultHasher::new();
    feed(bytes, &mut hasher);
    let hash: u64 = DefaultHasher::finish(&hasher);
    IconPlace { hash, path: icon_path(icons_dir, hash) }
}

/// A cached icon: its path, and its file where that is still to be written.
pub struct CachedIcon {
    pub path: String,
    pub png: Option<Vec<u8>>,
}

/// What is to be cached, once it is known whether the bytes are a picture and
/// what PNG they make: nothing for what is no picture, nothing more than the
/// path where the file is there, and the PNG otherwise.
pub fn plan_icon(
    is_picture: bool,
    png: Option<Vec<u8>>,
    hash: u64,
    icons_dir: &str,
    present: bool,
) -> (r: Option<CachedIcon>)
    ensures
        r is Some <==> is_picture && (present || png is Some),
        r matches Some(c) ==> c.path@ == cached_path(icons_dir@, hash as nat),
        r matches Some(c) ==> c.png == if present {
            None
        } else {
            png
        },
{
    if !is_picture || (!present && png.is_none()) {
        return None;
    }
    let file: Option<Vec<u8>> = if present {
        None
    } else {
        png
    };
    Some(CachedIcon { path: icon_path(icons_dir, hash), png: file })
}

/// What optional bytes hold.
pub open spec fn opt_file(b: Option<Vec<u8>>) -> Option<Seq<u8>> {
    match b {
        Some(b) => Some(b@),
        None => None,
    }
}

/// What is to be cached of a picture's file, whose content has the given hash.
/// `present` tells whether the cache has it already.
pub fn cache_icon(bytes: &[u8], hash: u64, icons_dir: &str, present: bool) -> (r: Option<CachedIcon>)
    ensures
        r is Some <==> picture_of(bytes@) is Some && (present || png_of(bytes@) is Some),
        r matches Some(c) ==> c.path@ == cached_path(icons_dir@, hash as nat),
        r matches Some(c) ==> opt_file(c.png) == if present {
            None
        } else {
            png_of(bytes@)
        },
{
    let is_picture = decode_picture(bytes).is_some();
    let png: Option<Vec<u8>> = if present {
        None
    } else {
        encode_png(bytes)
    };
    plan_icon(is_picture, png, hash, icons_dir, present)
}

proof fn lemma_hex_injective(a: nat, b: nat, digits: nat)
    requires
        hex_text(a, digits) == hex_text(b, digits),
        a < pow16(digits),
        b < pow16(digits),
    ensures
        a == b,
    decreases digits,
{
    if digits > 0 {
        let x = hex_text(a, digits);
        let y = hex_text(b, digits);
        assert(x.drop_last() =~= hex_text(a / 16, (digits - 1) as nat));
        assert(y.drop_last() =~= hex_text(b / 16, (digits - 1) as nat));
        assert(x.last() == hex_digit(a % 16));
        assert(y.last() == hex_digit(b % 16));
        assert(a % 16 == b % 16);
        assert(pow16(digits) == 16 * pow16((digits - 1) as nat));
        lemma_hex_injective(a / 16, b / 16, (digits - 1) as nat);
    }
}

/// Sixteen to the power of `n`.
pub open spec fn pow16(n: nat) -> nat
    decreases n,
{
    if n == 0 {
        1
    } else {
        16 * pow16((n - 1) as nat)
    }
}

/// Icons with different hashes are kept in different files.
pub proof fn law_cached_icons_differ(icons_dir: Seq<char>, a: u64, b: u64)
    requires
        cached_path(icons_dir, a as nat) == cached_path(icons_dir, b as nat),
    ensures
        a == b,
{
    lemma_hex_length(a as nat, 16);
    lemma_hex_length(b as nat, 16);
    let x = hex_text(a as nat, 16);
    let y = hex_text(b as nat, 16);
    lemma_hex_start(a as nat, 16);
    lemma_hex_start(b as nat, 16);
    let head = if icons_dir.len() == 0 || icons_dir.last() == '/' {
        icons_dir
    } else {
        icons_dir + "/"@
    };
    let p = cached_path(icons_dir, a as nat);
    let q = cached_path(icons_dir, b as nat);
    assert(p =~= head + (x + ".png"@));
    assert(q =~= head + (y + ".png"@));
    assert(x =~= p.subrange(head.len() as int, head.len() as int + 16));
    assert(y =~= q.subrange(head.len() as int, head.len() as int + 16));
    assert(pow16(16) == 0x1_0000_0000_0000_0000nat) by {
        reveal_with_fuel(pow16, 17);
    }
    lemma_hex_injective(a as nat, b as nat, 16);
}

proof fn lemma_hex_length(n: nat, digits: nat)
    ensures
        hex_text(n, digits).len() == digits,
    decreases digits,
{
    if digits > 0 {
        lemma_hex_length(n / 16, (digits - 1) as nat);
    }
}

proof fn lemma_hex_start(n: nat, digits: nat)
    requires
        digits > 0,
    ensures
        hex_text(n, digits).len() > 0,
        hex_text(n, digits)[0] != '/',
    decreases digits,
{
    lemma_hex_length(n, digits);
    if digits > 1 {
        lemma_hex_start(n / 16, (digits - 1) as nat);
        assert(hex_text(n, digits)[0] == hex_text(n / 16, (digits - 1) as nat)[0]);
    } else {
        assert(hex_text(n / 16, 0).len() == 0);
        assert(hex_text(n, digits)[0] == hex_digit(n % 16));
    }
}

} // verus!
