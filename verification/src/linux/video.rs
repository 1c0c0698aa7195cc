//! The GPU and what it can encode.

use vstd::prelude::*;

use crate::encoder_options::opt_str;
use crate::linux::engine::ladder_encoder;
use crate::text::{all_digits, chars_of, lowercase, same, starts_with, texts, trim, trimmed};

verus! {

broadcast use vstd::string::group_string_axioms;

/// The vendor of a PCI vendor id that is trimmed and in lower case.
pub open spec fn vendor_slug(id: Seq<char>) -> Seq<char> {
    if id == "0x10de"@ || id == "10de"@ {
        "nvidia"@
    } else if id == "0x1002"@ || id == "1002"@ || id == "0x1022"@ || id == "1022"@ {
        "amd"@
    } else if id == "0x8086"@ || id == "8086"@ {
        "intel"@
    } else {
        "unknown"@
    }
}

/// The vendor of a PCI vendor id that is trimmed and in lower case.
pub fn vendor_of_slug(id: &str) -> (r: &'static str)
    ensures
        r@ == vendor_slug(id@),
{
    if same(id, "0x10de") || same(id, "10de") {
        "nvidia"
    } else if same(id, "0x1002") || same(id, "1002") || same(id, "0x1022") || same(id, "1022") {
        "amd"
    } else if same(id, "0x8086") || same(id, "8086") {
        "intel"
    } else {
        "unknown"
    }
}

/// The vendor of a PCI vendor id as the system writes it.
pub fn vendor_from_id(id: &str) -> (r: &'static str)
    ensures
        r@ == vendor_slug(lowercase(trim(id@))),
{
    let t = trimmed(id);
    let low = t.as_str().to_lowercase();
    vendor_of_slug(low.as_str())
}

/// One entry of the system's list of graphics devices, with what its two files hold.
pub struct CardInfo {
    pub name: String,
    pub vendor: Option<String>,
    pub boot_vga: Option<String>,
}

/// The name of a graphics card: `card` and a number.
pub open spec fn is_card_name(name: Seq<char>) -> bool {
    "card"@.is_prefix_of(name) && all_digits(name.skip(4))
}

/// The vendor of a card, where it is a card of a known vendor.
pub open spec fn card_vendor(card: CardInfo) -> Option<Seq<char>> {
    if is_card_name(card.name@) && card.vendor is Some {
        let slug = vendor_slug(lowercase(trim(card.vendor->0@)));
        if slug == "unknown"@ {
            None
        } else {
            Some(slug)
        }
    } else {
        None
    }
}

/// The card is the one that the machine boots with.
pub open spec fn is_boot_card(card: CardInfo) -> bool {
    card.boot_vga is Some && trim(card.boot_vga->0@) == "1"@
}

/// The vendor of the machine's graphics: that of the first known card that it
/// boots with, or else of the first known card.
pub open spec fn machine_vendor(cards: Seq<CardInfo>, fallback: Option<Seq<char>>) -> Seq<char>
    decreases cards.len(),
{
    if cards.len() == 0 {
        match fallback {
            Some(v) => v,
            None => "unknown"@,
        }
    } else {
        match card_vendor(cards[0]) {
            Some(v) => if is_boot_card(cards[0]) {
                v
            } else if fallback is Some {
                machine_vendor(cards.drop_first(), fallback)
            } else {
                machine_vendor(cards.drop_first(), Some(v))
            },
            None => machine_vendor(cards.drop_first(), fallback),
        }
    }
}

fn card_name(name: &str) -> (r: bool)
    ensures
        r == is_card_name(name@),
{
    if !starts_with(name, "card") {
        return false;
    }
    let cs = chars_of(name);
    proof {
        reveal_strlit("card");
        assert("card"@.len() == 4);
    }
    let mut i: usize = 4;
    while i < cs.len()
        invariant
            cs@ == name@,
            4 <= i <= cs@.len(),
            forall|k: int| 4 <= k < i ==> crate::text::is_digit(#[trigger] cs@[k]),
        decreases cs@.len() - i,
    {
        let c = cs[i];
        if c < '0' || '9' < c {
            proof {
                assert(name@.skip(4)[i - 4] == c);
            }
            return false;
        }
        i = i + 1;
    }
    proof {
        assert forall|k: int| 0 <= k < name@.skip(4).len() implies crate::text::is_digit(
            #[trigger] name@.skip(4)[k],
        ) by {
            assert(name@.skip(4)[k] == cs@[k + 4]);
        }
    }
    true
}

/// Vendor of the machine's graphics. The card that it boots with goes first on
/// machines with two.
pub fn pick_vendor(cards: &Vec<CardInfo>) -> (r: &'static str)
    ensures
        r@ == machine_vendor(cards@, None),
{
    let mut fallback: Option<&'static str> = None;
    let mut i: usize = 0;
    proof {
        assert(cards@.skip(0) =~= cards@);
    }
    while i < cards.len()
        invariant
            i <= cards@.len(),
            machine_vendor(cards@, None) == machine_vendor(
                cards@.skip(i as int),
                opt_str(fallback),
            ),
        decreases cards@.len() - i,
    {
        let card = &cards[i];
        proof {
            assert(cards@.skip(i as int)[0] == *card);
            assert(cards@.skip(i as int).drop_first() =~= cards@.skip(i + 1));
        }
        if card_name(card.name.as_str()) {
            match &card.vendor {
                Some(id) => {
                    let slug = vendor_from_id(id.as_str());
                    if !same(slug, "unknown") {
                        let boot = match &card.boot_vga {
                            Some(b) => {
                                let t = trimmed(b.as_str());
                                same(t.as_str(), "1")
                            },
                            None => false,
                        };
                        if boot {
                            return slug;
                        }
                        if fallback.is_none() {
                            fallback = Some(slug);
                        }
                    }
                },
                None => {},
            }
        }
        i = i + 1;
    }
    match fallback {
        Some(v) => v,
        None => "unknown",
    }
}

/// One monitor to capture.
#[derive(Debug, Clone)]
pub struct Monitor {
    pub name: String,
    pub alt_id: String,
    pub label: String,
    pub width: u32,
    pub height: u32,
    pub primary: bool,
}

/// The portal's own dialog picks the screen, so no monitor is listed.
pub fn list_monitors() -> (r: Vec<Monitor>)
    ensures
        r@.len() == 0,
{
    Vec::new()
}

/// The portal's own dialog picks the screen, so no stored monitor resolves.
pub fn resolve_monitor<'a>(_monitors: &'a [Monitor], _stored: &str) -> (r: Option<&'a Monitor>)
    ensures
        r is None,
{
    None
}

/// The codecs that are offered for a vendor. The software encoder always is.
pub open spec fn vendor_codecs(vendor: Seq<char>) -> Seq<Seq<char>> {
    if vendor == "nvidia"@ {
        seq!["h264"@, "hevc"@, "av1"@, "x264"@]
    } else if vendor == "amd"@ || vendor == "intel"@ {
        seq!["h264"@, "hevc"@, "x264"@]
    } else {
        seq!["h264"@, "x264"@]
    }
}

/// Codecs that are offered for a vendor.
pub fn offered_codecs(vendor: &str) -> (r: Vec<String>)
    ensures
        texts(r@) == vendor_codecs(vendor@),
{
    let r = if same(vendor, "nvidia") {
        vec!["h264".to_owned(), "hevc".to_owned(), "av1".to_owned(), "x264".to_owned()]
    } else if same(vendor, "amd") || same(vendor, "intel") {
        vec!["h264".to_owned(), "hevc".to_owned(), "x264".to_owned()]
    } else {
        vec!["h264".to_owned(), "x264".to_owned()]
    };
    proof {
        assert(texts(r@) =~= vendor_codecs(vendor@));
    }
    r
}

/// Every codec that is offered on the hardware of a known vendor can be
/// encoded: the ladder has a hardware encoder for it, and the software encoder
/// for `x264`.
pub proof fn law_offered_codecs_can_be_encoded(vendor: Seq<char>, i: int)
    requires
        vendor == "nvidia"@ || vendor == "amd"@ || vendor == "intel"@,
        0 <= i < vendor_codecs(vendor).len(),
    ensures
        ladder_encoder(
            vendor,
            vendor_codecs(vendor)[i],
            if vendor_codecs(vendor)[i] == "x264"@ {
                "cpu"@
            } else {
                "gpu"@
            },
        ) is Some,
{
}

} // verus!
