use vstd::prelude::*;
use vstd::string::StrSliceExecFns;
use crate::error::Error;

verus! {

/// `n` occurs in `h` as a contiguous run.
pub open spec fn contains_seq(h: Seq<char>, n: Seq<char>) -> bool {
    exists|i: int| 0 <= i && i + n.len() <= h.len() && #[trigger] h.subrange(i, i + n.len()) == n
}

/// `a` if it names something, else `b`.
pub open spec fn first_known(a: Option<Seq<char>>, b: Option<Seq<char>>) -> Option<Seq<char>> {
    if a is Some {
        a
    } else {
        b
    }
}

pub open spec fn text_view(r: Option<&str>) -> Option<Seq<char>> {
    match r {
        Some(s) => Some(s@),
        None => None,
    }
}

/// The characters of `s`.
pub fn chars_of(s: &str) -> (r: Vec<char>)
    ensures
        r@ == s@,
{
    let n = s.unicode_len();
    let mut r: Vec<char> = Vec::new();
    let mut i: usize = 0;
    while i < n
        invariant
            n == s@.len(),
            i <= n,
            r@ == s@.subrange(0, i as int),
        decreases n - i,
    {
        r.push(s.get_char(i));
        i += 1;
    }
    assert(r@ =~= s@);
    r
}

fn matches_at(h: &Vec<char>, n: &Vec<char>, at: usize) -> (r: bool)
    requires
        at + n@.len() <= h@.len(),
    ensures
        r == (h@.subrange(at as int, at + n@.len()) == n@),
{
    let hl = h.len();
    let mut j: usize = 0;
    while j < n.len()
        invariant
            at + n@.len() <= h@.len(),
            hl == h@.len(),
            j <= n@.len(),
            forall|k: int| 0 <= k < j ==> h@[at + k] == n@[k],
        decreases n@.len() - j,
    {
        if h[at + j] != n[j] {
            assert(h@.subrange(at as int, at + n@.len())[j as int] != n@[j as int]);
            return false;
        }
        j += 1;
    }
    assert(h@.subrange(at as int, at + n@.len()) =~= n@);
    true
}

/// Whether the text `needle` occurs in the characters `h`.
pub fn contains_text(h: &Vec<char>, needle: &str) -> (r: bool)
    ensures
        r == contains_seq(h@, needle@),
{
    let n = chars_of(needle);
    if n.len() > h.len() {
        return false;
    }
    let last = h.len() - n.len();
    let mut i: usize = 0;
    loop
        invariant
            last == h@.len() - n@.len(),
            n@ == needle@,
            i <= last,
            forall|k: int| 0 <= k < i ==> #[trigger] h@.subrange(k, k + n@.len()) != n@,
        decreases last - i,
    {
        if matches_at(h, &n, i) {
            return true;
        }
        if i == last {
            return false;
        }
        i += 1;
    }
}

/// Whether the characters `a` are exactly the text `b`.
pub fn text_equals(a: &Vec<char>, b: &str) -> (r: bool)
    ensures
        r == (a@ == b@),
{
    let bc = chars_of(b);
    if a.len() != bc.len() {
        return false;
    }
    let r = matches_at(a, &bc, 0);
    assert(a@.subrange(0, a@.len() as int) =~= a@);
    r
}

/// The board partner a subsystem vendor text names, by its place in the
/// table: the first partner, in table order, whose name the text contains.
pub open spec fn amd_partner(vendor: Seq<char>) -> Option<int> {
    if contains_seq(vendor, "Sapphire"@) {
        Some(0)
    } else if contains_seq(vendor, "ASUSTeK"@) || contains_seq(vendor, "ASUS"@) {
        Some(1)
    } else if contains_seq(vendor, "Micro-Star"@) || contains_seq(vendor, "MSI"@) {
        Some(2)
    } else if contains_seq(vendor, "Gigabyte"@) {
        Some(3)
    } else if contains_seq(vendor, "XFX"@) || contains_seq(vendor, "Pine Technology"@) {
        Some(4)
    } else if contains_seq(vendor, "PowerColor"@) || contains_seq(vendor, "TUL Corporation"@) {
        Some(5)
    } else {
        None
    }
}

/// The model a PCI device id names, by its place in the table.
pub open spec fn amd_model(device_id: Seq<char>) -> Option<int> {
    if device_id == "73df"@ {
        Some(0)
    } else if device_id == "73ef"@ {
        Some(1)
    } else if device_id == "73ff"@ {
        Some(2)
    } else if device_id == "7340"@ {
        Some(3)
    } else if device_id == "744c"@ {
        Some(4)
    } else if device_id == "747e"@ {
        Some(5)
    } else if device_id == "7480"@ {
        Some(6)
    } else {
        None
    }
}

/// The retail name of model `model` from partner `partner`.
pub open spec fn amd_board_name(partner: int, model: int) -> Seq<char> {
    if partner == 0 && model == 0 {
        "Sapphire RX 6700 XT Nitro"@
    } else if partner == 0 && model == 1 {
        "Sapphire RX 6650 XT Nitro"@
    } else if partner == 0 && model == 2 {
        "Sapphire RX 6600 XT Nitro"@
    } else if partner == 0 && model == 3 {
        "Sapphire NITRO+ Radeon RX 7900 XTX Vapor-X"@
    } else if partner == 0 && model == 4 {
        "Sapphire NITRO+ Radeon RX 7900 XT"@
    } else if partner == 0 && model == 5 {
        "Sapphire NITRO+ Radeon RX 7800 XT"@
    } else if partner == 0 && model == 6 {
        "Sapphire NITRO+ Radeon RX 7700 XT"@
    } else if partner == 1 && model == 0 {
        "ASUS ROG Strix RX 6700 XT OC"@
    } else if partner == 1 && model == 1 {
        "ASUS TUF Gaming RX 6650 XT OC"@
    } else if partner == 1 && model == 2 {
        "ASUS ROG Strix RX 6600 XT OC"@
    } else if partner == 1 && model == 3 {
        "ASUS ROG Strix RX 7900 XTX OC"@
    } else if partner == 1 && model == 4 {
        "ASUS TUF Gaming RX 7900 XT OC"@
    } else if partner == 1 && model == 5 {
        "ASUS TUF Gaming RX 7800 XT OC"@
    } else if partner == 1 && model == 6 {
        "ASUS Dual RX 7700 XT OC"@
    } else if partner == 2 && model == 0 {
        "MSI Radeon RX 6700 XT Gaming X"@
    } else if partner == 2 && model == 1 {
        "MSI Radeon RX 6650 XT Mech 2X OC"@
    } else if partner == 2 && model == 2 {
        "MSI Radeon RX 6600 XT Gaming X"@
    } else if partner == 2 && model == 3 {
        "MSI Radeon RX 7900 XTX Gaming Trio"@
    } else if partner == 2 && model == 4 {
        "MSI Radeon RX 7900 XT Gaming Trio"@
    } else if partner == 2 && model == 5 {
        "MSI Radeon RX 7800 XT Gaming Trio"@
    } else if partner == 2 && model == 6 {
        "MSI Radeon RX 7700 XT Gaming X"@
    } else if partner == 3 && model == 0 {
        "Gigabyte Radeon RX 6700 XT Gaming OC"@
    } else if partner == 3 && model == 1 {
        "Gigabyte Radeon RX 6650 XT Eagle"@
    } else if partner == 3 && model == 2 {
        "Gigabyte Radeon RX 6600 XT Gaming OC Pro"@
    } else if partner == 3 && model == 3 {
        "Gigabyte Radeon RX 7900 XTX Gaming OC"@
    } else if partner == 3 && model == 4 {
        "Gigabyte Radeon RX 7900 XT Gaming OC"@
    } else if partner == 3 && model == 5 {
        "Gigabyte Radeon RX 7800 XT Gaming OC"@
    } else if partner == 3 && model == 6 {
        "Gigabyte Radeon RX 7700 XT Gaming OC"@
    } else if partner == 4 && model == 0 {
        "XFX Speedster MERC 319 RX 6700 XT"@
    } else if partner == 4 && model == 1 {
        "XFX Speedster SWFT 210 RX 6650 XT"@
    } else if partner == 4 && model == 2 {
        "XFX Speedster QICK 308 RX 6600 XT"@
    } else if partner == 4 && model == 3 {
        "XFX Speedster MERC 310 RX 7900 XTX"@
    } else if partner == 4 && model == 4 {
        "XFX Speedster MERC 310 RX 7900 XT"@
    } else if partner == 4 && model == 5 {
        "XFX Speedster MERC 319 RX 7800 XT"@
    } else if partner == 4 && model == 6 {
        "XFX Speedster QICK 319 RX 7700 XT"@
    } else if partner == 5 && model == 0 {
        "PowerColor Red Devil RX 6700 XT"@
    } else if partner == 5 && model == 1 {
        "PowerColor Fighter RX 6650 XT"@
    } else if partner == 5 && model == 2 {
        "PowerColor Red Devil RX 6600 XT"@
    } else if partner == 5 && model == 3 {
        "PowerColor Red Devil RX 7900 XTX"@
    } else if partner == 5 && model == 4 {
        "PowerColor Red Devil RX 7900 XT"@
    } else if partner == 5 && model == 5 {
        "PowerColor Hellhound RX 7800 XT"@
    } else {
        "PowerColor Hellhound RX 7700 XT"@
    }
}

/// The retail name of an AMD board, from its PCI device id and its
/// subsystem vendor: a known model under a known board partner.
pub open spec fn amd_known_name(device_id: Seq<char>, vendor: Seq<char>) -> Option<Seq<char>> {
    match (amd_model(device_id), amd_partner(vendor)) {
        (Some(m), Some(p)) => Some(amd_board_name(p, m)),
        _ => None,
    }
}

/// The retail name of an NVIDIA board, from the driver's device name: the
/// first rule that matches, RTX 40 series rules first.
pub open spec fn nvidia_known_name(name: Seq<char>) -> Option<Seq<char>> {
    first_known(nvidia_rtx40_name(name), nvidia_rtx30_name(name))
}

/// The RTX 40 series rules.
pub open spec fn nvidia_rtx40_name(name: Seq<char>) -> Option<Seq<char>> {
    if contains_seq(name, "4090"@) {
        if contains_seq(name, "ASUS"@) {
            if (contains_seq(name, "ROG"@)) || (contains_seq(name, "Strix"@)) {
                Some("ASUS ROG Strix RTX 4090 OC"@)
            } else if contains_seq(name, "TUF"@) {
                Some("ASUS TUF Gaming RTX 4090 OC"@)
            } else {
                None
            }
        } else if contains_seq(name, "MSI"@) {
            if contains_seq(name, "SUPRIM"@) {
                Some("MSI GeForce RTX 4090 Suprim X"@)
            } else if contains_seq(name, "Gaming X"@) {
                Some("MSI GeForce RTX 4090 Gaming X Trio"@)
            } else {
                None
            }
        } else if contains_seq(name, "Gigabyte"@) {
            if contains_seq(name, "AORUS"@) {
                Some("Gigabyte AORUS RTX 4090 Master"@)
            } else if contains_seq(name, "Gaming"@) {
                Some("Gigabyte GeForce RTX 4090 Gaming OC"@)
            } else {
                None
            }
        } else if contains_seq(name, "EVGA"@) {
            Some("EVGA GeForce RTX 4090 FTW3 Ultra"@)
        } else if contains_seq(name, "Zotac"@) {
            Some("Zotac GeForce RTX 4090 AMP Extreme"@)
        } else if contains_seq(name, "PNY"@) {
            Some("PNY GeForce RTX 4090 XLR8 Uprising"@)
        } else {
            None
        }
    } else if contains_seq(name, "4080"@) {
        if contains_seq(name, "ASUS"@) {
            if contains_seq(name, "TUF"@) {
                Some("ASUS TUF Gaming RTX 4080 OC"@)
            } else if contains_seq(name, "ROG"@) {
                Some("ASUS ROG Strix RTX 4080 OC"@)
            } else {
                None
            }
        } else if contains_seq(name, "MSI"@) {
            if contains_seq(name, "SUPRIM"@) {
                Some("MSI GeForce RTX 4080 Suprim X"@)
            } else {
                Some("MSI GeForce RTX 4080 Gaming X Trio"@)
            }
        } else if contains_seq(name, "Gigabyte"@) {
            if contains_seq(name, "AORUS"@) {
                Some("Gigabyte AORUS RTX 4080 Master"@)
            } else {
                Some("Gigabyte GeForce RTX 4080 Gaming OC"@)
            }
        } else {
            None
        }
    } else if contains_seq(name, "4070 Ti"@) {
        if contains_seq(name, "Gigabyte"@) {
            Some("Gigabyte GeForce RTX 4070 Ti Gaming OC"@)
        } else if contains_seq(name, "MSI"@) {
            Some("MSI GeForce RTX 4070 Ti Gaming X Trio"@)
        } else if contains_seq(name, "ASUS"@) {
            Some("ASUS TUF Gaming RTX 4070 Ti OC"@)
        } else {
            None
        }
    } else if contains_seq(name, "4070"@) {
        if contains_seq(name, "ASUS"@) {
            if contains_seq(name, "Dual"@) {
                Some("ASUS Dual RTX 4070 OC"@)
            } else {
                Some("ASUS TUF Gaming RTX 4070"@)
            }
        } else if contains_seq(name, "MSI"@) {
            Some("MSI GeForce RTX 4070 Gaming X Trio"@)
        } else if contains_seq(name, "Gigabyte"@) {
            Some("Gigabyte GeForce RTX 4070 Windforce OC"@)
        } else {
            None
        }
    } else {
        None
    }
}

/// The RTX 30 series rules.
pub open spec fn nvidia_rtx30_name(name: Seq<char>) -> Option<Seq<char>> {
    if contains_seq(name, "3090 Ti"@) {
        if contains_seq(name, "ASUS"@) {
            Some("ASUS ROG Strix RTX 3090 Ti OC"@)
        } else if contains_seq(name, "MSI"@) {
            if contains_seq(name, "SUPRIM"@) {
                Some("MSI GeForce RTX 3090 Ti Suprim X"@)
            } else {
                Some("MSI GeForce RTX 3090 Ti Gaming X Trio"@)
            }
        } else if contains_seq(name, "Gigabyte"@) {
            Some("Gigabyte AORUS RTX 3090 Ti Xtreme"@)
        } else {
            None
        }
    } else if contains_seq(name, "3090"@) {
        if contains_seq(name, "Gigabyte"@) {
            Some("Gigabyte GeForce RTX 3090 Gaming OC"@)
        } else if contains_seq(name, "ASUS"@) {
            Some("ASUS ROG Strix RTX 3090 OC"@)
        } else if contains_seq(name, "MSI"@) {
            Some("MSI GeForce RTX 3090 Gaming X Trio"@)
        } else if contains_seq(name, "EVGA"@) {
            Some("EVGA GeForce RTX 3090 FTW3 Ultra"@)
        } else {
            None
        }
    } else if contains_seq(name, "3080 Ti"@) {
        if contains_seq(name, "ASUS"@) {
            if contains_seq(name, "TUF"@) {
                Some("ASUS TUF Gaming RTX 3080 Ti OC"@)
            } else {
                Some("ASUS ROG Strix RTX 3080 Ti OC"@)
            }
        } else if contains_seq(name, "MSI"@) {
            Some("MSI GeForce RTX 3080 Ti Gaming X Trio"@)
        } else if contains_seq(name, "Gigabyte"@) {
            Some("Gigabyte GeForce RTX 3080 Ti Vision OC"@)
        } else {
            None
        }
    } else if contains_seq(name, "3080"@) {
        if contains_seq(name, "MSI"@) {
            Some("MSI GeForce RTX 3080 Gaming X Trio"@)
        } else if contains_seq(name, "ASUS"@) {
            if contains_seq(name, "TUF"@) {
                Some("ASUS TUF Gaming RTX 3080 OC"@)
            } else {
                Some("ASUS ROG Strix RTX 3080 OC"@)
            }
        } else if contains_seq(name, "EVGA"@) {
            Some("EVGA GeForce RTX 3080 FTW3 Ultra"@)
        } else if contains_seq(name, "Gigabyte"@) {
            Some("Gigabyte GeForce RTX 3080 Gaming OC"@)
        } else {
            None
        }
    } else if contains_seq(name, "3070 Ti"@) {
        if contains_seq(name, "Gigabyte"@) {
            Some("Gigabyte GeForce RTX 3070 Ti Eagle OC"@)
        } else if contains_seq(name, "ASUS"@) {
            Some("ASUS TUF Gaming RTX 3070 Ti OC"@)
        } else if contains_seq(name, "MSI"@) {
            Some("MSI GeForce RTX 3070 Ti Gaming X Trio"@)
        } else {
            None
        }
    } else if contains_seq(name, "3070"@) {
        if contains_seq(name, "ASUS"@) {
            if contains_seq(name, "Dual"@) {
                Some("ASUS Dual RTX 3070 OC"@)
            } else {
                Some("ASUS TUF Gaming RTX 3070 OC"@)
            }
        } else if contains_seq(name, "MSI"@) {
            Some("MSI GeForce RTX 3070 Gaming X Trio"@)
        } else if contains_seq(name, "Gigabyte"@) {
            Some("Gigabyte GeForce RTX 3070 Vision OC"@)
        } else {
            None
        }
    } else if contains_seq(name, "3060 Ti"@) {
        if contains_seq(name, "MSI"@) {
            Some("MSI GeForce RTX 3060 Ti Gaming X"@)
        } else if contains_seq(name, "ASUS"@) {
            Some("ASUS Dual RTX 3060 Ti OC"@)
        } else if contains_seq(name, "Gigabyte"@) {
            Some("Gigabyte GeForce RTX 3060 Ti Gaming OC Pro"@)
        } else {
            None
        }
    } else if contains_seq(name, "3060"@) {
        if contains_seq(name, "Gigabyte"@) {
            Some("Gigabyte GeForce RTX 3060 Gaming OC"@)
        } else if contains_seq(name, "ASUS"@) {
            Some("ASUS TUF Gaming RTX 3060 OC"@)
        } else if contains_seq(name, "MSI"@) {
            Some("MSI GeForce RTX 3060 Ventus 2X OC"@)
        } else {
            None
        }
    } else {
        None
    }
}


fn amd_table(device_chars: &Vec<char>, vendor_chars: &Vec<char>) -> (r: Option<&'static str>)
    ensures
        text_view(r) == amd_known_name(device_chars@, vendor_chars@),
{
    if contains_text(vendor_chars, "Sapphire") {
        if text_equals(device_chars, "73df") {
            return Some("Sapphire RX 6700 XT Nitro");
        }
        if text_equals(device_chars, "73ef") {
            return Some("Sapphire RX 6650 XT Nitro");
        }
        if text_equals(device_chars, "73ff") {
            return Some("Sapphire RX 6600 XT Nitro");
        }
        if text_equals(device_chars, "7340") {
            return Some("Sapphire NITRO+ Radeon RX 7900 XTX Vapor-X");
        }
        if text_equals(device_chars, "744c") {
            return Some("Sapphire NITRO+ Radeon RX 7900 XT");
        }
        if text_equals(device_chars, "747e") {
            return Some("Sapphire NITRO+ Radeon RX 7800 XT");
        }
        if text_equals(device_chars, "7480") {
            return Some("Sapphire NITRO+ Radeon RX 7700 XT");
        }
    }
    if (contains_text(vendor_chars, "ASUSTeK")) || (contains_text(vendor_chars, "ASUS")) {
        if text_equals(device_chars, "73df") {
            return Some("ASUS ROG Strix RX 6700 XT OC");
        }
        if text_equals(device_chars, "73ef") {
            return Some("ASUS TUF Gaming RX 6650 XT OC");
        }
        if text_equals(device_chars, "73ff") {
            return Some("ASUS ROG Strix RX 6600 XT OC");
        }
        if text_equals(device_chars, "7340") {
            return Some("ASUS ROG Strix RX 7900 XTX OC");
        }
        if text_equals(device_chars, "744c") {
            return Some("ASUS TUF Gaming RX 7900 XT OC");
        }
        if text_equals(device_chars, "747e") {
            return Some("ASUS TUF Gaming RX 7800 XT OC");
        }
        if text_equals(device_chars, "7480") {
            return Some("ASUS Dual RX 7700 XT OC");
        }
    }
    if (contains_text(vendor_chars, "Micro-Star")) || (contains_text(vendor_chars, "MSI")) {
        if text_equals(device_chars, "73df") {
            return Some("MSI Radeon RX 6700 XT Gaming X");
        }
        if text_equals(device_chars, "73ef") {
            return Some("MSI Radeon RX 6650 XT Mech 2X OC");
        }
        if text_equals(device_chars, "73ff") {
            return Some("MSI Radeon RX 6600 XT Gaming X");
        }
        if text_equals(device_chars, "7340") {
            return Some("MSI Radeon RX 7900 XTX Gaming Trio");
        }
        if text_equals(device_chars, "744c") {
            return Some("MSI Radeon RX 7900 XT Gaming Trio");
        }
        if text_equals(device_chars, "747e") {
            return Some("MSI Radeon RX 7800 XT Gaming Trio");
        }
        if text_equals(device_chars, "7480") {
            return Some("MSI Radeon RX 7700 XT Gaming X");
        }
    }
    if contains_text(vendor_chars, "Gigabyte") {
        if text_equals(device_chars, "73df") {
            return Some("Gigabyte Radeon RX 6700 XT Gaming OC");
        }
        if text_equals(device_chars, "73ef") {
            return Some("Gigabyte Radeon RX 6650 XT Eagle");
        }
        if text_equals(device_chars, "73ff") {
            return Some("Gigabyte Radeon RX 6600 XT Gaming OC Pro");
        }
        if text_equals(device_chars, "7340") {
            return Some("Gigabyte Radeon RX 7900 XTX Gaming OC");
        }
        if text_equals(device_chars, "744c") {
            return Some("Gigabyte Radeon RX 7900 XT Gaming OC");
        }
        if text_equals(device_chars, "747e") {
            return Some("Gigabyte Radeon RX 7800 XT Gaming OC");
        }
        if text_equals(device_chars, "7480") {
            return Some("Gigabyte Radeon RX 7700 XT Gaming OC");
        }
    }
    if (contains_text(vendor_chars, "XFX")) || (contains_text(vendor_chars, "Pine Technology")) {
        if text_equals(device_chars, "73df") {
            return Some("XFX Speedster MERC 319 RX 6700 XT");
        }
        if text_equals(device_chars, "73ef") {
            return Some("XFX Speedster SWFT 210 RX 6650 XT");
        }
        if text_equals(device_chars, "73ff") {
            return Some("XFX Speedster QICK 308 RX 6600 XT");
        }
        if text_equals(device_chars, "7340") {
            return Some("XFX Speedster MERC 310 RX 7900 XTX");
        }
        if text_equals(device_chars, "744c") {
            return Some("XFX Speedster MERC 310 RX 7900 XT");
        }
        if text_equals(device_chars, "747e") {
            return Some("XFX Speedster MERC 319 RX 7800 XT");
        }
        if text_equals(device_chars, "7480") {
            return Some("XFX Speedster QICK 319 RX 7700 XT");
        }
    }
    if (contains_text(vendor_chars, "PowerColor")) || (contains_text(vendor_chars, "TUL Corporation")) {
        if text_equals(device_chars, "73df") {
            return Some("PowerColor Red Devil RX 6700 XT");
        }
        if text_equals(device_chars, "73ef") {
            return Some("PowerColor Fighter RX 6650 XT");
        }
        if text_equals(device_chars, "73ff") {
            return Some("PowerColor Red Devil RX 6600 XT");
        }
        if text_equals(device_chars, "7340") {
            return Some("PowerColor Red Devil RX 7900 XTX");
        }
        if text_equals(device_chars, "744c") {
            return Some("PowerColor Red Devil RX 7900 XT");
        }
        if text_equals(device_chars, "747e") {
            return Some("PowerColor Hellhound RX 7800 XT");
        }
        if text_equals(device_chars, "7480") {
            return Some("PowerColor Hellhound RX 7700 XT");
        }
    }
    None
}

fn nvidia_table(name_chars: &Vec<char>) -> (r: Option<&'static str>)
    ensures
        text_view(r) == nvidia_known_name(name_chars@),
{
    if contains_text(name_chars, "4090") {
        if contains_text(name_chars, "ASUS") {
            if (contains_text(name_chars, "ROG")) || (contains_text(name_chars, "Strix")) {
                return Some("ASUS ROG Strix RTX 4090 OC");
            } else if contains_text(name_chars, "TUF") {
                return Some("ASUS TUF Gaming RTX 4090 OC");
            }
        } else if contains_text(name_chars, "MSI") {
            if contains_text(name_chars, "SUPRIM") {
                return Some("MSI GeForce RTX 4090 Suprim X");
            } else if contains_text(name_chars, "Gaming X") {
                return Some("MSI GeForce RTX 4090 Gaming X Trio");
            }
        } else if contains_text(name_chars, "Gigabyte") {
            if contains_text(name_chars, "AORUS") {
                return Some("Gigabyte AORUS RTX 4090 Master");
            } else if contains_text(name_chars, "Gaming") {
                return Some("Gigabyte GeForce RTX 4090 Gaming OC");
            }
        } else if contains_text(name_chars, "EVGA") {
            return Some("EVGA GeForce RTX 4090 FTW3 Ultra");
        } else if contains_text(name_chars, "Zotac") {
            return Some("Zotac GeForce RTX 4090 AMP Extreme");
        } else if contains_text(name_chars, "PNY") {
            return Some("PNY GeForce RTX 4090 XLR8 Uprising");
        }
    } else if contains_text(name_chars, "4080") {
        if contains_text(name_chars, "ASUS") {
            if contains_text(name_chars, "TUF") {
                return Some("ASUS TUF Gaming RTX 4080 OC");
            } else if contains_text(name_chars, "ROG") {
                return Some("ASUS ROG Strix RTX 4080 OC");
            }
        } else if contains_text(name_chars, "MSI") {
            if contains_text(name_chars, "SUPRIM") {
                return Some("MSI GeForce RTX 4080 Suprim X");
            } else {
                return Some("MSI GeForce RTX 4080 Gaming X Trio");
            }
        } else if contains_text(name_chars, "Gigabyte") {
            if contains_text(name_chars, "AORUS") {
                return Some("Gigabyte AORUS RTX 4080 Master");
            } else {
                return Some("Gigabyte GeForce RTX 4080 Gaming OC");
            }
        }
    } else if contains_text(name_chars, "4070 Ti") {
        if contains_text(name_chars, "Gigabyte") {
            return Some("Gigabyte GeForce RTX 4070 Ti Gaming OC");
        } else if contains_text(name_chars, "MSI") {
            return Some("MSI GeForce RTX 4070 Ti Gaming X Trio");
        } else if contains_text(name_chars, "ASUS") {
            return Some("ASUS TUF Gaming RTX 4070 Ti OC");
        }
    } else if contains_text(name_chars, "4070") {
        if contains_text(name_chars, "ASUS") {
            if contains_text(name_chars, "Dual") {
                return Some("ASUS Dual RTX 4070 OC");
            } else {
                return Some("ASUS TUF Gaming RTX 4070");
            }
        } else if contains_text(name_chars, "MSI") {
            return Some("MSI GeForce RTX 4070 Gaming X Trio");
        } else if contains_text(name_chars, "Gigabyte") {
            return Some("Gigabyte GeForce RTX 4070 Windforce OC");
        }
    }
    if contains_text(name_chars, "3090 Ti") {
        if contains_text(name_chars, "ASUS") {
            return Some("ASUS ROG Strix RTX 3090 Ti OC");
        } else if contains_text(name_chars, "MSI") {
            if contains_text(name_chars, "SUPRIM") {
                return Some("MSI GeForce RTX 3090 Ti Suprim X");
            } else {
                return Some("MSI GeForce RTX 3090 Ti Gaming X Trio");
            }
        } else if contains_text(name_chars, "Gigabyte") {
            return Some("Gigabyte AORUS RTX 3090 Ti Xtreme");
        }
    } else if contains_text(name_chars, "3090") {
        if contains_text(name_chars, "Gigabyte") {
            return Some("Gigabyte GeForce RTX 3090 Gaming OC");
        } else if contains_text(name_chars, "ASUS") {
            return Some("ASUS ROG Strix RTX 3090 OC");
        } else if contains_text(name_chars, "MSI") {
            return Some("MSI GeForce RTX 3090 Gaming X Trio");
        } else if contains_text(name_chars, "EVGA") {
            return Some("EVGA GeForce RTX 3090 FTW3 Ultra");
        }
    } else if contains_text(name_chars, "3080 Ti") {
        if contains_text(name_chars, "ASUS") {
            if contains_text(name_chars, "TUF") {
                return Some("ASUS TUF Gaming RTX 3080 Ti OC");
            } else {
                return Some("ASUS ROG Strix RTX 3080 Ti OC");
            }
        } else if contains_text(name_chars, "MSI") {
            return Some("MSI GeForce RTX 3080 Ti Gaming X Trio");
        } else if contains_text(name_chars, "Gigabyte") {
            return Some("Gigabyte GeForce RTX 3080 Ti Vision OC");
        }
    } else if contains_text(name_chars, "3080") {
        if contains_text(name_chars, "MSI") {
            return Some("MSI GeForce RTX 3080 Gaming X Trio");
        } else if contains_text(name_chars, "ASUS") {
            if contains_text(name_chars, "TUF") {
                return Some("ASUS TUF Gaming RTX 3080 OC");
            } else {
                return Some("ASUS ROG Strix RTX 3080 OC");
            }
        } else if contains_text(name_chars, "EVGA") {
            return Some("EVGA GeForce RTX 3080 FTW3 Ultra");
        } else if contains_text(name_chars, "Gigabyte") {
            return Some("Gigabyte GeForce RTX 3080 Gaming OC");
        }
    } else if contains_text(name_chars, "3070 Ti") {
        if contains_text(name_chars, "Gigabyte") {
            return Some("Gigabyte GeForce RTX 3070 Ti Eagle OC");
        } else if contains_text(name_chars, "ASUS") {
            return Some("ASUS TUF Gaming RTX 3070 Ti OC");
        } else if contains_text(name_chars, "MSI") {
            return Some("MSI GeForce RTX 3070 Ti Gaming X Trio");
        }
    } else if contains_text(name_chars, "3070") {
        if contains_text(name_chars, "ASUS") {
            if contains_text(name_chars, "Dual") {
                return Some("ASUS Dual RTX 3070 OC");
            } else {
                return Some("ASUS TUF Gaming RTX 3070 OC");
            }
        } else if contains_text(name_chars, "MSI") {
            return Some("MSI GeForce RTX 3070 Gaming X Trio");
        } else if contains_text(name_chars, "Gigabyte") {
            return Some("Gigabyte GeForce RTX 3070 Vision OC");
        }
    } else if contains_text(name_chars, "3060 Ti") {
        if contains_text(name_chars, "MSI") {
            return Some("MSI GeForce RTX 3060 Ti Gaming X");
        } else if contains_text(name_chars, "ASUS") {
            return Some("ASUS Dual RTX 3060 Ti OC");
        } else if contains_text(name_chars, "Gigabyte") {
            return Some("Gigabyte GeForce RTX 3060 Ti Gaming OC Pro");
        }
    } else if contains_text(name_chars, "3060") {
        if contains_text(name_chars, "Gigabyte") {
            return Some("Gigabyte GeForce RTX 3060 Gaming OC");
        } else if contains_text(name_chars, "ASUS") {
            return Some("ASUS TUF Gaming RTX 3060 OC");
        } else if contains_text(name_chars, "MSI") {
            return Some("MSI GeForce RTX 3060 Ventus 2X OC");
        }
    }
    None
}


// ---- reading sysfs values ----

/// Unicode white space (the `White_Space` property, as `char::is_whitespace`
/// and `str::trim` use it).
pub open spec fn is_ws(c: char) -> bool {
    ('\t' <= c && c <= '\r') || c == ' ' || c == '\u{85}' || c == '\u{a0}' || c == '\u{1680}'
        || ('\u{2000}' <= c && c <= '\u{200a}') || c == '\u{2028}' || c == '\u{2029}' || c
        == '\u{202f}' || c == '\u{205f}' || c == '\u{3000}'
}

pub open spec fn trim_start(s: Seq<char>) -> Seq<char>
    decreases s.len(),
{
    if s.len() > 0 && is_ws(s[0]) {
        trim_start(s.drop_first())
    } else {
        s
    }
}

pub open spec fn trim_end(s: Seq<char>) -> Seq<char>
    decreases s.len(),
{
    if s.len() > 0 && is_ws(s.last()) {
        trim_end(s.drop_last())
    } else {
        s
    }
}

/// `s` without leading and trailing white space.
pub open spec fn trimmed(s: Seq<char>) -> Seq<char> {
    trim_end(trim_start(s))
}

proof fn lemma_trim_start(s: Seq<char>, a: int)
    requires
        0 <= a <= s.len(),
        forall|k: int| 0 <= k < a ==> is_ws(#[trigger] s[k]),
        a == s.len() || !is_ws(s[a]),
    ensures
        trim_start(s) == s.subrange(a, s.len() as int),
    decreases a,
{
    if a == 0 {
        assert(s.subrange(0, s.len() as int) =~= s);
    } else {
        let d = s.drop_first();
        assert forall|k: int| 0 <= k < a - 1 implies is_ws(#[trigger] d[k]) by {
            assert(d[k] == s[k + 1]);
        }
        if a - 1 < d.len() {
            assert(d[a - 1] == s[a]);
        }
        lemma_trim_start(d, a - 1);
        assert(d.subrange(a - 1, d.len() as int) =~= s.subrange(a, s.len() as int));
    }
}

proof fn lemma_trim_end(s: Seq<char>, b: int)
    requires
        0 <= b <= s.len(),
        forall|k: int| b <= k < s.len() ==> is_ws(#[trigger] s[k]),
        b == 0 || !is_ws(s[b - 1]),
    ensures
        trim_end(s) == s.subrange(0, b),
    decreases s.len() - b,
{
    if b == s.len() {
        assert(s.subrange(0, b) =~= s);
    } else {
        let d = s.drop_last();
        assert forall|k: int| b <= k < d.len() implies is_ws(#[trigger] d[k]) by {
            assert(d[k] == s[k]);
        }
        lemma_trim_end(d, b);
        assert(d.subrange(0, b) =~= s.subrange(0, b));
    }
}

fn is_ws_char(c: char) -> (r: bool)
    ensures
        r == is_ws(c),
{
    ('\t' <= c && c <= '\r') || c == ' ' || c == '\u{85}' || c == '\u{a0}' || c == '\u{1680}'
        || ('\u{2000}' <= c && c <= '\u{200a}') || c == '\u{2028}' || c == '\u{2029}' || c
        == '\u{202f}' || c == '\u{205f}' || c == '\u{3000}'
}

/// The characters of `s` without leading and trailing white space.
pub fn trim_chars(s: &Vec<char>) -> (r: Vec<char>)
    ensures
        r@ == trimmed(s@),
{
    let n = s.len();
    let mut a: usize = 0;
    while a < n && is_ws_char(s[a])
        invariant
            n == s@.len(),
            a <= n,
            forall|k: int| 0 <= k < a ==> is_ws(#[trigger] s@[k]),
        decreases n - a,
    {
        a += 1;
    }
    proof {
        lemma_trim_start(s@, a as int);
    }
    let ghost t = s@.subrange(a as int, n as int);
    let mut b: usize = n;
    while b > a && is_ws_char(s[b - 1])
        invariant
            n == s@.len(),
            a <= b <= n,
            forall|k: int| b <= k < n ==> is_ws(#[trigger] s@[k]),
        decreases b,
    {
        b -= 1;
    }
    proof {
        assert forall|k: int| b - a <= k < t.len() implies is_ws(#[trigger] t[k]) by {
            assert(t[k] == s@[k + a]);
        }
        if b > a {
            assert(t[b - a - 1] == s@[b - 1]);
        }
        lemma_trim_end(t, b - a);
    }
    let mut r: Vec<char> = Vec::new();
    let mut i: usize = a;
    while i < b
        invariant
            n == s@.len(),
            a <= i <= b <= n,
            r@ == s@.subrange(a as int, i as int),
        decreases b - i,
    {
        r.push(s[i]);
        i += 1;
    }
    assert(r@ =~= t.subrange(0, b - a));
    r
}

pub open spec fn is_digit(c: char) -> bool {
    '0' <= c && c <= '9'
}

pub open spec fn digit_value(c: char) -> nat {
    (c as u32 - '0' as u32) as nat
}

pub open spec fn all_digits(s: Seq<char>) -> bool {
    forall|i: int| 0 <= i < s.len() ==> is_digit(#[trigger] s[i])
}

/// The number that the decimal digits `s` spell.
pub open spec fn digits_number(s: Seq<char>) -> nat
    decreases s.len(),
{
    if s.len() == 0 {
        0
    } else {
        digits_number(s.drop_last()) * 10 + digit_value(s.last())
    }
}

/// The unsigned number that `s` spells: optional white space around an
/// optional `+` and at least one decimal digit, within `u64`.
pub open spec fn spec_parse_u64(s: Seq<char>) -> Option<u64> {
    let t = trimmed(s);
    let d = if t.len() > 0 && t[0] == '+' {
        t.drop_first()
    } else {
        t
    };
    if d.len() > 0 && all_digits(d) && digits_number(d) <= u64::MAX {
        Some(digits_number(d) as u64)
    } else {
        None
    }
}

/// Reads an unsigned decimal number (see `spec_parse_u64`).
pub fn parse_u64(s: &str) -> (r: Option<u64>)
    ensures
        r == spec_parse_u64(s@),
{
    let raw = chars_of(s);
    parse_u64_chars(&raw)
}

pub(crate) fn parse_u64_chars(raw: &Vec<char>) -> (r: Option<u64>)
    ensures
        r == spec_parse_u64(raw@),
{
    let t = trim_chars(raw);
    let start: usize = if t.len() > 0 && t[0] == '+' {
        1
    } else {
        0
    };
    let ghost d = t@.subrange(start as int, t@.len() as int);
    proof {
        if start == 1 {
            assert(d =~= t@.drop_first());
        } else {
            assert(d =~= t@);
        }
    }
    if t.len() == start {
        return None;
    }
    let mut v: u64 = 0;
    let mut overflow = false;
    let mut ok = true;
    let mut i: usize = start;
    while i < t.len()
        invariant
            start <= i <= t@.len(),
            d == t@.subrange(start as int, t@.len() as int),
            ok == all_digits(t@.subrange(start as int, i as int)),
            ok && !overflow ==> v == digits_number(t@.subrange(start as int, i as int)),
            ok && overflow ==> digits_number(t@.subrange(start as int, i as int)) > u64::MAX,
        decreases t@.len() - i,
    {
        let c = t[i];
        let ghost p = t@.subrange(start as int, i as int);
        let ghost q = t@.subrange(start as int, i + 1);
        proof {
            assert(q.drop_last() =~= p);
            assert(q.last() == c);
        }
        if '0' <= c && c <= '9' {
            if ok {
                let dv = (c as u32 - '0' as u32) as u64;
                if !overflow {
                    if v > (u64::MAX - dv) / 10 {
                        overflow = true;
                        assert(v * 10 + dv > u64::MAX) by (nonlinear_arith)
                            requires
                                v > (u64::MAX - dv) / 10,
                                dv <= 9,
                        ;
                    } else {
                        assert(v * 10 + dv <= u64::MAX) by (nonlinear_arith)
                            requires
                                v <= (u64::MAX - dv) / 10,
                                dv <= 9,
                        ;
                        v = v * 10 + dv;
                    }
                }
                proof {
                    assert forall|k: int| 0 <= k < q.len() implies is_digit(#[trigger] q[k]) by {
                        if k < p.len() {
                            assert(q[k] == p[k]);
                        }
                    }
                }
            }
        } else {
            ok = false;
            proof {
                assert(!is_digit(q[q.len() - 1]));
            }
        }
        proof {
            if !ok {
                if all_digits(q) {
                    assert forall|k: int| 0 <= k < p.len() implies is_digit(#[trigger] p[k]) by {
                        assert(p[k] == q[k]);
                    }
                }
            }
        }
        i += 1;
    }
    assert(t@.subrange(start as int, t@.len() as int) == d);
    if ok && !overflow {
        Some(v)
    } else {
        None
    }
}


/// The first vendor id AMD registered with PCI.
pub open spec fn amd_vendor_id() -> Seq<char> {
    seq!['0', 'x', '1', '0', '0', '2']
}

/// A directory entry of `/sys/class/drm` that names a card itself
/// (`card0`), not one of its connectors (`card1-DP-1`).
pub open spec fn spec_is_card_entry(name: Seq<char>) -> bool {
    name.len() >= 4 && name.subrange(0, 4) == seq!['c', 'a', 'r', 'd'] && !name.contains('-')
}

pub fn is_card_entry(name: &str) -> (r: bool)
    ensures
        r == spec_is_card_entry(name@),
{
    let c = chars_of(name);
    if c.len() < 4 || c[0] != 'c' || c[1] != 'a' || c[2] != 'r' || c[3] != 'd' {
        proof {
            if c@.len() >= 4 {
                assert(c@.subrange(0, 4)[0] == c@[0]);
                assert(c@.subrange(0, 4)[1] == c@[1]);
                assert(c@.subrange(0, 4)[2] == c@[2]);
                assert(c@.subrange(0, 4)[3] == c@[3]);
            }
        }
        return false;
    }
    assert(c@.subrange(0, 4) =~= seq!['c', 'a', 'r', 'd']);
    let mut i: usize = 0;
    while i < c.len()
        invariant
            c@ == name@,
            c@.subrange(0, 4) == seq!['c', 'a', 'r', 'd'],
            i <= c@.len(),
            forall|k: int| 0 <= k < i ==> c@[k] != '-',
        decreases c@.len() - i,
    {
        if c[i] == '-' {
            assert(c@.contains(c@[i as int]));
            return false;
        }
        i += 1;
    }
    true
}

/// Whether a device's `vendor` file names AMD.
pub fn is_amd_vendor(vendor: &str) -> (r: bool)
    ensures
        r == (trimmed(vendor@) == amd_vendor_id()),
{
    let c = chars_of(vendor);
    let t = trim_chars(&c);
    if t.len() != 6 {
        return false;
    }
    let r = t[0] == '0' && t[1] == 'x' && t[2] == '1' && t[3] == '0' && t[4] == '0' && t[5] == '2';
    proof {
        if r {
            assert(t@ =~= amd_vendor_id());
        } else {
            if t@ == amd_vendor_id() {
                assert(t@[0] == '0' && t@[1] == 'x' && t@[2] == '1');
                assert(t@[3] == '0' && t@[4] == '0' && t@[5] == '2');
            }
        }
    }
    r
}

/// One AMD GPU found through sysfs: its hwmon directory, its device
/// directory and its display name.
#[derive(Debug, Clone)]
pub struct AmdBackend {
    pub hwmon_path: String,
    pub device_path: String,
    pub name: String,
}

pub open spec fn opt_text(r: Option<String>) -> Option<Seq<char>> {
    match r {
        Some(s) => Some(s@),
        None => None,
    }
}

fn owned(r: Option<&'static str>) -> (o: Option<String>)
    ensures
        opt_text(o) == text_view(r),
{
    match r {
        Some(s) => Some(String::from_str(s)),
        None => None,
    }
}

/// The retail name of an NVIDIA board from the driver's device name (see
/// `nvidia_known_name`).
pub fn nvidia_known_gpu_name(name: &str) -> (r: Option<String>)
    ensures
        opt_text(r) == nvidia_known_name(name@),
{
    let c = chars_of(name);
    owned(nvidia_table(&c))
}

/// Millidegrees, microwatts and hertz as sysfs gives them, in this
/// library's units.
pub open spec fn fits_u32(v: int) -> Option<u32> {
    if 0 <= v <= u32::MAX {
        Some(v as u32)
    } else {
        None
    }
}

pub(crate) fn to_u32(v: u64) -> (r: Option<u32>)
    ensures
        r == fits_u32(v as int),
{
    if v <= u32::MAX as u64 {
        Some(v as u32)
    } else {
        None
    }
}

impl AmdBackend {
    /// The retail name of a board from its device id and subsystem vendor
    /// (see `amd_known_name`).
    pub fn get_known_gpu_name(device_id: &str, vendor: &str) -> (r: Option<String>)
        ensures
            opt_text(r) == amd_known_name(device_id@, vendor@),
    {
        let d = chars_of(device_id);
        let v = chars_of(vendor);
        owned(amd_table(&d, &v))
    }

    /// The GPUs that discovery found; finding none is an error.
    pub fn detect_all(found: Vec<AmdBackend>) -> (r: Result<Vec<AmdBackend>, Error>)
        ensures
            found@.len() == 0 <==> r is Err,
            r is Ok ==> r->Ok_0@ == found@,
    {
        if found.len() == 0 {
            return Err(Error::Gpu(String::from_str("No AMD GPUs detected")));
        }
        Ok(found)
    }

    /// `temp1_input` (millidegrees Celsius) as a temperature; a reading
    /// below zero has no representation here and gives `None`.
    pub fn temperature_from(raw: &str) -> (r: Option<u32>)
        ensures
            r == match spec_parse_u64(raw@) {
                Some(v) => fits_u32(v as int),
                None => None,
            },
    {
        match parse_u64(raw) {
            Some(v) => to_u32(v),
            None => None,
        }
    }

    /// `gpu_busy_percent` (whole percent) in thousandths of a percent.
    pub fn utilization_from(raw: &str) -> (r: Option<u32>)
        ensures
            r == match spec_parse_u64(raw@) {
                Some(v) => fits_u32(v as int * 1000),
                None => None,
            },
    {
        match parse_u64(raw) {
            Some(v) => {
                if v <= (u32::MAX / 1000) as u64 {
                    Some((v * 1000) as u32)
                } else {
                    None
                }
            },
            None => None,
        }
    }

    /// `mem_info_vram_used` or `mem_info_vram_total`, in bytes.
    pub fn memory_from(raw: &str) -> (r: Option<u64>)
        ensures
            r == spec_parse_u64(raw@),
    {
        parse_u64(raw)
    }

    /// `power1_average` or `power1_cap` (microwatts) in milliwatts, rounded
    /// down.
    pub fn power_from(raw: &str) -> (r: Option<u32>)
        ensures
            r == match spec_parse_u64(raw@) {
                Some(v) => fits_u32(v as int / 1000),
                None => None,
            },
    {
        match parse_u64(raw) {
            Some(v) => to_u32(v / 1000),
            None => None,
        }
    }

    /// `freq1_input` (hertz) in megahertz, rounded down.
    pub fn clock_from(raw: &str) -> (r: Option<u32>)
        ensures
            r == match spec_parse_u64(raw@) {
                Some(v) => fits_u32(v as int / 1_000_000),
                None => None,
            },
    {
        match parse_u64(raw) {
            Some(v) => to_u32(v / 1_000_000),
            None => None,
        }
    }

    /// `fan1_input` as read: the fan's speed in revolutions per minute.
    pub fn fan_from(raw: &str) -> (r: Option<u32>)
        ensures
            r == match spec_parse_u64(raw@) {
                Some(v) => fits_u32(v as int),
                None => None,
            },
    {
        match parse_u64(raw) {
            Some(v) => to_u32(v),
            None => None,
        }
    }
}

/// Intel GPUs are not monitored yet.
#[derive(Debug, Clone, Copy)]
pub struct IntelBackend;

impl IntelBackend {
    /// Always an error: there is no Intel backend yet.
    pub fn detect_all() -> (r: Result<Vec<IntelBackend>, Error>)
        ensures
            r is Err,
    {
        Err(Error::Gpu(String::from_str("Intel GPU monitoring not yet implemented")))
    }
}


/// Whether a hwmon `name` file names the driver `expected`.
pub fn is_driver_name(raw: &str, expected: &str) -> (r: bool)
    ensures
        r == (trimmed(raw@) == expected@),
{
    let c = chars_of(raw);
    let t = trim_chars(&c);
    text_equals(&t, expected)
}

// ---- pp_dpm_mclk: the memory clock level marked active ----

/// Where `c` first occurs in `s`, or `s.len()`.
pub open spec fn index_of(s: Seq<char>, c: char) -> int
    decreases s.len(),
{
    if s.len() == 0 {
        0
    } else if s[0] == c {
        0
    } else {
        1 + index_of(s.drop_first(), c)
    }
}

/// `s` up to its first `c` (all of it when there is none).
pub open spec fn before(s: Seq<char>, c: char) -> Seq<char> {
    s.subrange(0, index_of(s, c))
}

/// What follows the first `c` of `s`, if there is one.
pub open spec fn after(s: Seq<char>, c: char) -> Option<Seq<char>> {
    if index_of(s, c) < s.len() {
        Some(s.subrange(index_of(s, c) + 1, s.len() as int))
    } else {
        None
    }
}

/// The first line of `s` that holds a `*`.
pub open spec fn first_marked_line(s: Seq<char>) -> Option<Seq<char>>
    decreases s.len(),
{
    if before(s, '\n').contains('*') {
        Some(before(s, '\n'))
    } else {
        match after(s, '\n') {
            Some(rest) => if rest.len() < s.len() {
                first_marked_line(rest)
            } else {
                None
            },
            None => None,
        }
    }
}

/// Where `n` first occurs in `s`, or `s.len()`.
pub open spec fn index_of_seq(s: Seq<char>, n: Seq<char>) -> int
    decreases s.len(),
{
    if s.len() < n.len() {
        s.len() as int
    } else if s.subrange(0, n.len() as int) == n {
        0
    } else if s.len() == 0 {
        0
    } else {
        1 + index_of_seq(s.drop_first(), n)
    }
}

pub open spec fn mhz() -> Seq<char> {
    seq!['M', 'h', 'z']
}

/// The clock of the level marked `*` in `pp_dpm_mclk` ("1: 875Mhz *"):
/// the text between the first and second `:` of that line, trimmed, cut
/// at the first `Mhz`, trimmed again and read as a number.
pub open spec fn spec_active_memory_clock(content: Seq<char>) -> Option<u32> {
    match first_marked_line(content) {
        Some(line) => match after(line, ':') {
            Some(rest) => {
                let field = trimmed(before(rest, ':'));
                let num = trimmed(field.subrange(0, index_of_seq(field, mhz())));
                match spec_parse_u64(num) {
                    Some(v) => fits_u32(v as int),
                    None => None,
                }
            },
            None => None,
        },
        None => None,
    }
}

proof fn lemma_index_of(s: Seq<char>, c: char, j: int)
    requires
        0 <= j <= s.len(),
        forall|k: int| 0 <= k < j ==> s[k] != c,
        j == s.len() || s[j] == c,
    ensures
        index_of(s, c) == j,
    decreases j,
{
    if j > 0 {
        let d = s.drop_first();
        assert forall|k: int| 0 <= k < j - 1 implies d[k] != c by {
            assert(d[k] == s[k + 1]);
        }
        if j < s.len() {
            assert(d[j - 1] == s[j]);
        }
        lemma_index_of(d, c, j - 1);
    }
}

/// Where `c` first occurs in `v` from `from` on, or `v.len()`.
fn find_char(v: &Vec<char>, from: usize, c: char) -> (r: usize)
    requires
        from <= v@.len(),
    ensures
        from <= r <= v@.len(),
        r - from == index_of(v@.subrange(from as int, v@.len() as int), c),
{
    let n = v.len();
    let mut i: usize = from;
    while i < n && v[i] != c
        invariant
            n == v@.len(),
            from <= i <= n,
            forall|k: int| from <= k < i ==> v@[k] != c,
        decreases n - i,
    {
        i += 1;
    }
    proof {
        let s = v@.subrange(from as int, n as int);
        assert forall|k: int| 0 <= k < i - from implies s[k] != c by {
            assert(s[k] == v@[k + from]);
        }
        if i < n {
            assert(s[i - from] == v@[i as int]);
        }
        lemma_index_of(s, c, i - from);
    }
    i
}

pub(crate) fn copy_range(v: &Vec<char>, from: usize, to: usize) -> (r: Vec<char>)
    requires
        from <= to <= v@.len(),
    ensures
        r@ == v@.subrange(from as int, to as int),
{
    let mut r: Vec<char> = Vec::new();
    let mut i: usize = from;
    while i < to
        invariant
            from <= i <= to <= v@.len(),
            r@ == v@.subrange(from as int, i as int),
        decreases to - i,
    {
        r.push(v[i]);
        i += 1;
    }
    r
}

fn has_char(v: &Vec<char>, c: char) -> (r: bool)
    ensures
        r == v@.contains(c),
{
    let n = v.len();
    let i = find_char(v, 0, c);
    proof {
        let s = v@.subrange(0, n as int);
        assert(s =~= v@);
        if i < n {
            lemma_index_of_found(v@, c);
        } else {
            lemma_index_of_found(v@, c);
        }
    }
    i < n
}

proof fn lemma_index_of_found(s: Seq<char>, c: char)
    ensures
        0 <= index_of(s, c) <= s.len(),
        index_of(s, c) < s.len() ==> s[index_of(s, c)] == c,
        forall|k: int| 0 <= k < index_of(s, c) ==> s[k] != c,
        s.contains(c) <==> index_of(s, c) < s.len(),
    decreases s.len(),
{
    if s.len() > 0 && s[0] != c {
        let d = s.drop_first();
        lemma_index_of_found(d, c);
        assert forall|k: int| 0 <= k < index_of(s, c) implies s[k] != c by {
            if k > 0 {
                assert(s[k] == d[k - 1]);
            }
        }
        if index_of(s, c) < s.len() {
            assert(s[index_of(s, c)] == d[index_of(d, c)]);
        }
        if s.contains(c) {
            let k = choose|k: int| 0 <= k < s.len() && s[k] == c;
            assert(d[k - 1] == c);
        }
    }
}

proof fn lemma_seq_absent(s: Seq<char>, n: Seq<char>)
    requires
        n.len() > 0,
        forall|k: int| 0 <= k && k + n.len() <= s.len() ==> #[trigger] s.subrange(k, k + n.len()) != n,
    ensures
        index_of_seq(s, n) == s.len(),
    decreases s.len(),
{
    if s.len() >= n.len() {
        assert(s.subrange(0, 0 + n.len() as int) != n);
        let d = s.drop_first();
        assert forall|k: int| 0 <= k && k + n.len() <= d.len() implies #[trigger] d.subrange(k, k + n.len()) != n by {
            assert(d.subrange(k, k + n.len()) =~= s.subrange(k + 1, k + 1 + n.len()));
        }
        lemma_seq_absent(d, n);
    }
}

proof fn lemma_seq_found(s: Seq<char>, n: Seq<char>, j: int)
    requires
        n.len() > 0,
        0 <= j,
        j + n.len() <= s.len(),
        s.subrange(j, j + n.len()) == n,
        forall|k: int| 0 <= k < j ==> #[trigger] s.subrange(k, k + n.len()) != n,
    ensures
        index_of_seq(s, n) == j,
    decreases j,
{
    if j > 0 {
        assert(s.subrange(0, 0 + n.len() as int) != n);
        let d = s.drop_first();
        assert forall|k: int| 0 <= k < j - 1 implies #[trigger] d.subrange(k, k + n.len()) != n by {
            assert(d.subrange(k, k + n.len()) =~= s.subrange(k + 1, k + 1 + n.len()));
        }
        assert(d.subrange(j - 1, j - 1 + n.len()) =~= s.subrange(j, j + n.len()));
        lemma_seq_found(d, n, j - 1);
    }
}

/// Where `Mhz` first occurs in `v`, or `v.len()`.
fn find_mhz(v: &Vec<char>) -> (r: usize)
    ensures
        r == index_of_seq(v@, mhz()),
        r <= v@.len(),
{
    let m = vec!['M', 'h', 'z'];
    assert(m@ =~= mhz());
    let n = v.len();
    if n < 3 {
        return n;
    }
    let mut k: usize = 0;
    while k <= n - 3
        invariant
            n == v@.len(),
            n >= 3,
            k <= n - 2,
            m@ == mhz(),
            forall|j: int| 0 <= j < k ==> #[trigger] v@.subrange(j, j + 3) != mhz(),
        decreases n - k,
    {
        if matches_at(v, &m, k) {
            proof {
                lemma_seq_found(v@, mhz(), k as int);
            }
            return k;
        }
        k += 1;
    }
    proof {
        lemma_seq_absent(v@, mhz());
    }
    n
}


fn clock_of_line(line: &Vec<char>) -> (r: Option<u32>)
    ensures
        r == match after(line@, ':') {
            Some(rest) => {
                let field = trimmed(before(rest, ':'));
                let num = trimmed(field.subrange(0, index_of_seq(field, mhz())));
                match spec_parse_u64(num) {
                    Some(v) => fits_u32(v as int),
                    None => None,
                }
            },
            None => None,
        },
{
    let n = line.len();
    let p = find_char(line, 0, ':');
    assert(line@.subrange(0, n as int) =~= line@);
    if p == n {
        return None;
    }
    let rest = copy_range(line, p + 1, n);
    let q = find_char(&rest, 0, ':');
    assert(rest@.subrange(0, rest@.len() as int) =~= rest@);
    let field = copy_range(&rest, 0, q);
    let f = trim_chars(&field);
    let m = find_mhz(&f);
    let num = copy_range(&f, 0, m);
    let t = trim_chars(&num);
    match parse_u64_chars(&t) {
        Some(v) => to_u32(v),
        None => None,
    }
}

/// The memory clock (MHz) of the active level in `pp_dpm_mclk` (see
/// `spec_active_memory_clock`).
pub fn active_memory_clock(content: &str) -> (r: Option<u32>)
    ensures
        r == spec_active_memory_clock(content@),
{
    let v = chars_of(content);
    let n = v.len();
    let mut start: usize = 0;
    assert(v@.subrange(0, n as int) =~= v@);
    loop
        invariant
            n == v@.len(),
            v@ == content@,
            start <= n,
            first_marked_line(v@) == first_marked_line(v@.subrange(start as int, n as int)),
        decreases n - start,
    {
        let ghost sub = v@.subrange(start as int, n as int);
        let end = find_char(&v, start, '\n');
        let cand = copy_range(&v, start, end);
        assert(cand@ =~= before(sub, '\n'));
        if has_char(&cand, '*') {
            return clock_of_line(&cand);
        }
        if end == n {
            return None;
        }
        proof {
            assert(v@.subrange(end + 1, n as int) =~= sub.subrange(index_of(sub, '\n') + 1, sub.len() as int));
        }
        start = end + 1;
    }
}


// ---- naming an AMD board from sysfs and lspci ----

pub open spec fn starts_with(s: Seq<char>, p: Seq<char>) -> bool {
    s.len() >= p.len() && s.subrange(0, p.len() as int) == p
}

/// `s` with every leading repetition of `p` removed.
pub open spec fn strip_all(s: Seq<char>, p: Seq<char>) -> Seq<char>
    decreases s.len(),
{
    if p.len() > 0 && starts_with(s, p) {
        strip_all(s.subrange(p.len() as int, s.len() as int), p)
    } else {
        s
    }
}

/// The value of the last line of `text` that starts with `prefix`: the
/// rest of the line after the prefix (and any repetitions of it), trimmed.
pub open spec fn field_in(text: Seq<char>, prefix: Seq<char>) -> Option<Seq<char>>
    decreases text.len(),
{
    let line = before(text, '\n');
    let later = match after(text, '\n') {
        Some(rest) => if rest.len() < text.len() {
            field_in(rest, prefix)
        } else {
            None
        },
        None => None,
    };
    if later is Some {
        later
    } else if starts_with(line, prefix) {
        Some(trimmed(strip_all(line, prefix)))
    } else {
        None
    }
}

/// Length of the leading run of non-white-space characters.
pub open spec fn word_len(s: Seq<char>) -> int
    decreases s.len(),
{
    if s.len() == 0 || is_ws(s[0]) {
        0
    } else {
        1 + word_len(s.drop_first())
    }
}

/// The `k`-th white-space separated word of `s`, counting from zero.
pub open spec fn nth_word(s: Seq<char>, k: nat) -> Option<Seq<char>>
    decreases k,
{
    let t = trim_start(s);
    if t.len() == 0 {
        None
    } else if k == 0 {
        Some(t.subrange(0, word_len(t)))
    } else {
        nth_word(t.subrange(word_len(t), t.len() as int), (k - 1) as nat)
    }
}

/// The PCI device id in `lspci -n` output ("08:00.0 0300: 1002:73df ..."):
/// the part after the first `:` of the third word, up to the next `:`.
pub open spec fn device_id_of(ids: Seq<char>) -> Option<Seq<char>> {
    match nth_word(ids, 2) {
        Some(w) => match after(w, ':') {
            Some(r) => Some(before(r, ':')),
            None => None,
        },
        None => None,
    }
}

/// A device name with its marketing name in brackets ("Navi 22 [Radeon RX
/// 6700 XT]") gives what the first bracket opens, up to `]`, trimmed;
/// otherwise the name as it is.
pub open spec fn bracket_name(device: Seq<char>) -> Seq<char> {
    match after(device, '[') {
        Some(r) => trimmed(before(before(r, '['), ']')),
        None => device,
    }
}

pub open spec fn unknown_amd_name() -> Seq<char> {
    "Unknown AMD GPU"@
}

/// The display name of an AMD card: its trimmed `product_name` if not
/// empty; else a known retail name for its device id and subsystem vendor;
/// else the subsystem device name if not empty; else the device name (its
/// bracketed part when it has one); else a fixed fallback.
pub open spec fn spec_amd_gpu_name(product: Seq<char>, ids: Seq<char>, details: Seq<char>) -> Seq<char> {
    let p = trimmed(product);
    let dev = device_id_of(ids);
    let svendor = field_in(details, "SVendor:"@);
    let sdevice = field_in(details, "SDevice:"@);
    let device = field_in(details, "Device:"@);
    let known = if dev is Some && svendor is Some {
        amd_known_name(dev->0, svendor->0)
    } else {
        None
    };
    if p.len() > 0 {
        p
    } else if known is Some {
        known->0
    } else if sdevice is Some && sdevice->0.len() > 0 {
        sdevice->0
    } else if device is Some {
        bracket_name(device->0)
    } else {
        unknown_amd_name()
    }
}

fn starts_with_at(v: &Vec<char>, at: usize, p: &Vec<char>) -> (r: bool)
    requires
        at <= v@.len(),
    ensures
        r == starts_with(v@.subrange(at as int, v@.len() as int), p@),
{
    let n = v.len();
    if n - at < p.len() {
        return false;
    }
    let r = matches_at(v, p, at);
    proof {
        let s = v@.subrange(at as int, n as int);
        assert(s.subrange(0, p@.len() as int) =~= v@.subrange(at as int, at + p@.len()));
    }
    r
}

/// `strip_all` then trim, on a line.
fn field_value(line: &Vec<char>, p: &Vec<char>) -> (r: Vec<char>)
    requires
        p@.len() > 0,
    ensures
        r@ == trimmed(strip_all(line@, p@)),
{
    let n = line.len();
    let mut at: usize = 0;
    assert(line@.subrange(0, n as int) =~= line@);
    while n - at >= p.len() && starts_with_at(line, at, p)
        invariant
            n == line@.len(),
            p@.len() > 0,
            at <= n,
            strip_all(line@, p@) == strip_all(line@.subrange(at as int, n as int), p@),
        decreases n - at,
    {
        proof {
            let s = line@.subrange(at as int, n as int);
            assert(s.subrange(p@.len() as int, s.len() as int) =~= line@.subrange(at + p@.len(), n as int));
        }
        at = at + p.len();
    }
    proof {
        if n - at < p@.len() {
            let s = line@.subrange(at as int, n as int);
            assert(!starts_with(s, p@));
        }
    }
    let rest = copy_range(line, at, n);
    trim_chars(&rest)
}

/// The value of the last line of `text` starting with `prefix` (see
/// `field_in`).
fn find_field(text: &Vec<char>, prefix: &str) -> (r: Option<Vec<char>>)
    requires
        prefix@.len() > 0,
    ensures
        match r {
            Some(v) => field_in(text@, prefix@) == Some(v@),
            None => field_in(text@, prefix@) is None,
        },
{
    let p = chars_of(prefix);
    let n = text.len();
    let mut start: usize = 0;
    let mut found: Option<Vec<char>> = None;
    assert(text@.subrange(0, n as int) =~= text@);
    loop
        invariant
            n == text@.len(),
            p@ == prefix@,
            p@.len() > 0,
            start <= n,
            field_in(text@, prefix@) == match field_in(text@.subrange(start as int, n as int), prefix@) {
                Some(x) => Some(x),
                None => match found {
                    Some(v) => Some(v@),
                    None => None,
                },
            },
        decreases n - start,
    {
        let ghost sub = text@.subrange(start as int, n as int);
        let end = find_char(text, start, '\n');
        let line = copy_range(text, start, end);
        assert(line@ =~= before(sub, '\n'));
        let m = starts_with_at(&line, 0, &p);
        assert(line@.subrange(0, line@.len() as int) =~= line@);
        if m {
            found = Some(field_value(&line, &p));
        }
        if end == n {
            return found;
        }
        proof {
            assert(text@.subrange(end + 1, n as int) =~= sub.subrange(index_of(sub, '\n') + 1, sub.len() as int));
        }
        start = end + 1;
    }
}


proof fn lemma_word_len(t: Seq<char>, j: int)
    requires
        0 <= j <= t.len(),
        forall|k: int| 0 <= k < j ==> !is_ws(#[trigger] t[k]),
        j == t.len() || is_ws(t[j]),
    ensures
        word_len(t) == j,
    decreases j,
{
    if j > 0 {
        let d = t.drop_first();
        assert forall|k: int| 0 <= k < j - 1 implies !is_ws(#[trigger] d[k]) by {
            assert(d[k] == t[k + 1]);
        }
        if j < t.len() {
            assert(d[j - 1] == t[j]);
        }
        lemma_word_len(d, j - 1);
    }
}

/// The `k`-th word of `s` (see `nth_word`).
pub(crate) fn nth_word_chars(s: &Vec<char>, k: usize) -> (r: Option<Vec<char>>)
    ensures
        match r {
            Some(v) => nth_word(s@, k as nat) == Some(v@),
            None => nth_word(s@, k as nat) is None,
        },
{
    let n = s.len();
    let mut pos: usize = 0;
    let mut left: usize = k;
    assert(s@.subrange(0, n as int) =~= s@);
    loop
        invariant
            n == s@.len(),
            pos <= n,
            nth_word(s@, k as nat) == nth_word(s@.subrange(pos as int, n as int), left as nat),
        decreases left,
    {
        let ghost sub = s@.subrange(pos as int, n as int);
        let mut a: usize = pos;
        while a < n && is_ws_char(s[a])
            invariant
                n == s@.len(),
                pos <= a <= n,
                forall|j: int| pos <= j < a ==> is_ws(#[trigger] s@[j]),
            decreases n - a,
        {
            a += 1;
        }
        proof {
            assert forall|j: int| 0 <= j < a - pos implies is_ws(#[trigger] sub[j]) by {
                assert(sub[j] == s@[j + pos]);
            }
            if a < n {
                assert(sub[a - pos] == s@[a as int]);
            }
            lemma_trim_start(sub, a - pos);
            assert(sub.subrange(a - pos, sub.len() as int) =~= s@.subrange(a as int, n as int));
        }
        if a == n {
            return None;
        }
        let ghost t = s@.subrange(a as int, n as int);
        let mut b: usize = a;
        while b < n && !is_ws_char(s[b])
            invariant
                n == s@.len(),
                a <= b <= n,
                forall|j: int| a <= j < b ==> !is_ws(#[trigger] s@[j]),
            decreases n - b,
        {
            b += 1;
        }
        proof {
            assert forall|j: int| 0 <= j < b - a implies !is_ws(#[trigger] t[j]) by {
                assert(t[j] == s@[j + a]);
            }
            if b < n {
                assert(t[b - a] == s@[b as int]);
            }
            lemma_word_len(t, b - a);
            assert(t.subrange(0, b - a) =~= s@.subrange(a as int, b as int));
            assert(t.subrange(b - a, t.len() as int) =~= s@.subrange(b as int, n as int));
        }
        if left == 0 {
            return Some(copy_range(s, a, b));
        }
        pos = b;
        left = left - 1;
    }
}

fn device_id_chars(ids: &Vec<char>) -> (r: Option<Vec<char>>)
    ensures
        match r {
            Some(v) => device_id_of(ids@) == Some(v@),
            None => device_id_of(ids@) is None,
        },
{
    match nth_word_chars(ids, 2) {
        Some(w) => {
            let n = w.len();
            let p = find_char(&w, 0, ':');
            assert(w@.subrange(0, n as int) =~= w@);
            if p == n {
                return None;
            }
            let rest = copy_range(&w, p + 1, n);
            let q = find_char(&rest, 0, ':');
            assert(rest@.subrange(0, rest@.len() as int) =~= rest@);
            Some(copy_range(&rest, 0, q))
        },
        None => None,
    }
}

fn bracket_name_chars(device: &Vec<char>) -> (r: Vec<char>)
    ensures
        r@ == bracket_name(device@),
{
    let n = device.len();
    let p = find_char(device, 0, '[');
    assert(device@.subrange(0, n as int) =~= device@);
    if p == n {
        return copy_range(device, 0, n);
    }
    let rest = copy_range(device, p + 1, n);
    let q = find_char(&rest, 0, '[');
    assert(rest@.subrange(0, rest@.len() as int) =~= rest@);
    let seg = copy_range(&rest, 0, q);
    let e = find_char(&seg, 0, ']');
    assert(seg@.subrange(0, seg@.len() as int) =~= seg@);
    let inner = copy_range(&seg, 0, e);
    trim_chars(&inner)
}

/// Relies on `String`'s `FromIterator<char>`: the string of those
/// characters, in order.
#[verifier::external_body]
fn string_of(v: &Vec<char>) -> (r: String)
    ensures
        r@ == v@,
{
    v.iter().collect()
}

/// The display name of an AMD card from its `product_name` file and the
/// output of `lspci -n` and `lspci -vmm` for its slot, each empty when it
/// could not be read (see `spec_amd_gpu_name`).
pub fn amd_gpu_name(product: &str, ids: &str, details: &str) -> (r: String)
    ensures
        r@ == spec_amd_gpu_name(product@, ids@, details@),
{
    let pc = chars_of(product);
    let p = trim_chars(&pc);
    if p.len() > 0 {
        return string_of(&p);
    }
    let idc = chars_of(ids);
    let dc = chars_of(details);
    proof {
        reveal_strlit("SVendor:");
        reveal_strlit("SDevice:");
        reveal_strlit("Device:");
    }
    let dev = device_id_chars(&idc);
    let svendor = find_field(&dc, "SVendor:");
    let known = match (&dev, &svendor) {
        (Some(d), Some(v)) => amd_table(d, v),
        _ => None,
    };
    if let Some(name) = known {
        return String::from_str(name);
    }
    let sdevice = find_field(&dc, "SDevice:");
    if let Some(sd) = &sdevice {
        if sd.len() > 0 {
            return string_of(sd);
        }
    }
    let device = find_field(&dc, "Device:");
    match &device {
        Some(d) => {
            let b = bracket_name_chars(d);
            string_of(&b)
        },
        None => String::from_str("Unknown AMD GPU"),
    }
}

} // verus!
