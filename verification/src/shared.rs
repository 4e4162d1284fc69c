//! What the platform layers have in common: the description of an installed
//! browser and of the window a URL came from, and a few conversions.

use vstd::prelude::*;
use vstd::std_specs::hash::DefaultHasherAdditionalSpecFns;
use std::collections::hash_map::DefaultHasher;
use std::hash::Hasher;
use crate::entities::SelectionEntity;

verus! {

/// The window that was in front when a URL was handed over.
#[derive(Debug, Default)]
pub struct ActiveWindowInfo {
    pub window_name: Option<String>,
    /// The executable that owns the window: the source of the URL.
    pub exe_path: Option<String>,
}

/// The word size of an executable.
#[derive(Clone, Copy, Debug, PartialEq, Eq, Structural)]
pub enum BinaryType {
    Bits32,
    Bits64,
    Unknown,
}

impl Default for BinaryType {
    fn default() -> (b: BinaryType)
        ensures
            b == BinaryType::Unknown,
    {
        BinaryType::Unknown
    }
}

impl BinaryType {
    /// The word size in words, empty where it is not known.
    pub open spec fn label_of(self) -> Seq<char> {
        match self {
            BinaryType::Bits32 => "32 bits"@,
            BinaryType::Bits64 => "64 bits"@,
            BinaryType::Unknown => ""@,
        }
    }

    /// The word size in words, empty where it is not known.
    pub fn label(&self) -> (s: String)
        ensures
            s@ == self.label_of(),
    {
        match self {
            BinaryType::Bits32 => String::from_str("32 bits"),
            BinaryType::Bits64 => String::from_str("64 bits"),
            BinaryType::Unknown => String::from_str(""),
        }
    }
}

/// What an executable says of itself.
#[derive(Debug)]
pub struct VersionInfo {
    pub company_name: String,
    pub file_description: String,
    pub product_version: String,
    pub product_name: String,
    pub binary_type: BinaryType,
}

impl Default for VersionInfo {
    fn default() -> (v: VersionInfo)
        ensures
            v.company_name@.len() == 0,
            v.file_description@.len() == 0,
            v.product_version@.len() == 0,
            v.product_name@.len() == 0,
            v.binary_type == BinaryType::Unknown,
    {
        VersionInfo {
            company_name: String::new(),
            file_description: String::new(),
            product_version: String::new(),
            product_name: String::new(),
            binary_type: BinaryType::Unknown,
        }
    }
}

/// A browser installed on the machine.
#[derive(Debug)]
pub struct Browser {
    /// The absolute path of the executable, free of arguments.
    pub exe_path: String,
    /// The arguments to pass when the browser is started.
    pub arguments: Vec<String>,
    /// The name that the publisher gave the program.
    pub name: String,
    /// The path of the icon.
    pub icon: String,
    pub exe_exists: bool,
    pub icon_exists: bool,
    pub version: VersionInfo,
}

impl Default for Browser {
    fn default() -> (b: Browser)
        ensures
            b.exe_path@.len() == 0,
            b.arguments@.len() == 0,
            b.name@.len() == 0,
            b.icon@.len() == 0,
            !b.exe_exists,
            !b.icon_exists,
            b.version.binary_type == BinaryType::Unknown,
    {
        Browser {
            exe_path: String::new(),
            arguments: Vec::new(),
            name: String::new(),
            icon: String::new(),
            exe_exists: false,
            icon_exists: false,
            version: VersionInfo::default(),
        }
    }
}

/// The character of a decimal digit.
pub open spec fn digit_char(d: nat) -> char {
    ((48 + d) as u8) as char
}

/// The decimal digits of `n`, without leading zeros.
pub open spec fn decimal_digits(n: nat) -> Seq<char>
    decreases n,
{
    if n < 10 {
        seq![digit_char(n)]
    } else {
        decimal_digits(n / 10).push(digit_char(n % 10))
    }
}

/// The text of one decimal digit.
fn digit_text(d: u64) -> (s: &'static str)
    requires
        d < 10,
    ensures
        s@ == seq![digit_char(d as nat)],
{
    proof {
        reveal_strlit("0");
        reveal_strlit("1");
        reveal_strlit("2");
        reveal_strlit("3");
        reveal_strlit("4");
        reveal_strlit("5");
        reveal_strlit("6");
        reveal_strlit("7");
        reveal_strlit("8");
        reveal_strlit("9");
    }
    let s: &'static str = if d == 0 {
        "0"
    } else if d == 1 {
        "1"
    } else if d == 2 {
        "2"
    } else if d == 3 {
        "3"
    } else if d == 4 {
        "4"
    } else if d == 5 {
        "5"
    } else if d == 6 {
        "6"
    } else if d == 7 {
        "7"
    } else if d == 8 {
        "8"
    } else {
        "9"
    };
    assert(s@ =~= seq![digit_char(d as nat)]);
    s
}

/// The number `n` in decimal digits, without sign or leading zeros.
pub fn decimal_text(n: u64) -> (s: String)
    ensures
        s@ == decimal_digits(n as nat),
{
    let mut rest: u64 = n;
    let mut tail: String = String::new();
    while rest >= 10
        invariant
            decimal_digits(n as nat) == decimal_digits(rest as nat) + tail@,
        decreases rest,
    {
        let digit = digit_text(rest % 10);
        let ghost before = tail@;
        tail = String::from_str(digit).concat(tail.as_str());
        proof {
            assert(decimal_digits(rest as nat) == decimal_digits((rest / 10) as nat).push(
                digit_char((rest % 10) as nat),
            ));
            assert(decimal_digits((rest / 10) as nat).push(digit_char((rest % 10) as nat)) + before
                =~= decimal_digits((rest / 10) as nat) + tail@);
        }
        rest = rest / 10;
    }
    let s = String::from_str(digit_text(rest)).concat(tail.as_str());
    assert(s@ =~= decimal_digits(rest as nat) + tail@);
    s
}

/// The bytes that mark the end of a text fed to a hasher.
pub open spec fn text_end() -> Seq<u8> {
    seq![0xffu8]
}

/// The fingerprint of a path: what the default hasher makes of the bytes of
/// the path and the end mark, in decimal digits.
pub open spec fn fingerprint_of(path: Seq<char>) -> Seq<char> {
    decimal_digits(
        DefaultHasher::spec_finish(seq![vstd::utf8::encode_utf8(path), text_end()]) as nat,
    )
}

impl Browser {
    /// The fingerprint of the executable's path.
    pub fn get_hash(&self) -> (h: String)
        ensures
            h@ == fingerprint_of(self.exe_path@),
    {
        let mut hasher = DefaultHasher::new();
        hasher.write(self.exe_path.as_str().as_bytes());
        let end: Vec<u8> = vec![0xffu8];
        hasher.write(end.as_slice());
        proof {
            assert(end@ =~= text_end());
            assert(hasher@ =~= seq![vstd::utf8::encode_utf8(self.exe_path@), text_end()]);
        }
        decimal_text(hasher.finish())
    }

    /// The selection that stands for this browser in the store, before the
    /// store has given it an identity.
    pub fn to_selection(&self) -> (s: SelectionEntity)
        ensures
            s@.id is None,
            s@.path == Some(self.exe_path@),
            s@.path_hash == Some(fingerprint_of(self.exe_path@)),
    {
        SelectionEntity { id: None, path_hash: Some(self.get_hash()), path: Some(self.exe_path.clone()) }
    }
}

/// A code unit that opens a surrogate pair.
pub open spec fn is_high_surrogate(u: u16) -> bool {
    0xD800 <= u <= 0xDBFF
}

/// A code unit that closes a surrogate pair.
pub open spec fn is_low_surrogate(u: u16) -> bool {
    0xDC00 <= u <= 0xDFFF
}

/// The character that a surrogate pair stands for.
pub open spec fn pair_char(high: u16, low: u16) -> char {
    ((0x10000 + (high - 0xD800) * 0x400 + (low - 0xDC00)) as u32) as char
}

/// The text that a sequence of UTF-16 code units spells, with U+FFFD in the
/// place of each surrogate that belongs to no pair.
pub open spec fn utf16_lossy_of(units: Seq<u16>) -> Seq<char>
    decreases units.len(),
{
    if units.len() == 0 {
        Seq::empty()
    } else if is_high_surrogate(units[0]) && units.len() >= 2 && is_low_surrogate(units[1]) {
        seq![pair_char(units[0], units[1])] + utf16_lossy_of(units.skip(2))
    } else if is_high_surrogate(units[0]) || is_low_surrogate(units[0]) {
        seq!['\u{FFFD}'] + utf16_lossy_of(units.skip(1))
    } else {
        seq![(units[0] as u32) as char] + utf16_lossy_of(units.skip(1))
    }
}

/// Decodes with `String::from_utf16_lossy`: each unit outside the surrogate
/// range is its character, a high surrogate followed by a low one is the
/// character of the pair, and any other surrogate becomes U+FFFD.
#[verifier::external_body]
fn decode_utf16_lossy(buf: &[u16]) -> (s: String)
    ensures
        s@ == utf16_lossy_of(buf@),
{
    String::from_utf16_lossy(buf)
}

/// The text that the UTF-16 code units of `buf` spell.
pub fn wide_to_str(buf: &Vec<u16>) -> (s: String)
    ensures
        s@ == utf16_lossy_of(buf@),
{
    decode_utf16_lossy(buf.as_slice())
}

/// The text that the UTF-16 code units of `buf` spell.
pub fn wide_slice_to_str(buf: &[u16]) -> (s: String)
    ensures
        s@ == utf16_lossy_of(buf@),
{
    decode_utf16_lossy(buf)
}

/// A colour channel scaled by the opacity `a`.
pub open spec fn premultiplied(channel: u8, a: u8) -> int {
    (channel as int * a as int) / 255
}

/// A colour channel scaled by the opacity `a`.
fn scale(channel: u8, a: u8) -> (r: u32)
    ensures
        r == premultiplied(channel, a),
        r <= 255,
{
    let c: u32 = channel as u32;
    let alpha: u32 = a as u32;
    assert(c * alpha <= 255 * 255) by (nonlinear_arith)
        requires
            c <= 255,
            alpha <= 255,
    ;
    c * alpha / 255
}

/// Packs a colour into one number with the channels scaled by the opacity:
/// blue in the highest byte, then green, then red, and the opacity itself in
/// the lowest.
pub fn rgba_to_bgra(r: u8, g: u8, b: u8, a: u8) -> (v: u32)
    ensures
        v == premultiplied(b, a) * 0x100_0000 + premultiplied(g, a) * 0x1_0000 + premultiplied(r, a)
            * 0x100 + a,
{
    let res_r: u32 = scale(r, a);
    let res_g: u32 = scale(g, a);
    let res_b: u32 = scale(b, a);
    res_b * 0x100_0000 + res_g * 0x1_0000 + res_r * 0x100 + a as u32
}

/// The code by which the system calls a 32-bit executable.
pub const BINARY_CODE_32: u32 = 0;

/// The code by which the system calls a 64-bit executable.
pub const BINARY_CODE_64: u32 = 6;

/// The word size that a binary-type code of the system stands for.
pub open spec fn binary_type_of_code(code: u32) -> BinaryType {
    if code == BINARY_CODE_32 {
        BinaryType::Bits32
    } else if code == BINARY_CODE_64 {
        BinaryType::Bits64
    } else {
        BinaryType::Unknown
    }
}

/// The word size that a binary-type code of the system stands for.
pub fn binary_type_from_code(code: u32) -> (b: BinaryType)
    ensures
        b == binary_type_of_code(code),
{
    if code == BINARY_CODE_32 {
        BinaryType::Bits32
    } else if code == BINARY_CODE_64 {
        BinaryType::Bits64
    } else {
        BinaryType::Unknown
    }
}

/// The language code that stands for "no language in particular".
pub const NEUTRAL_LANGUAGE: u16 = 0;

/// Position `i` is the first at which `languages` holds `wanted`.
pub open spec fn is_first_of(languages: Seq<u16>, wanted: u16, i: int) -> bool {
    &&& 0 <= i < languages.len()
    &&& languages[i] == wanted
    &&& forall|j: int| 0 <= j < i ==> languages[j] != wanted
}

/// Which of the translations of an executable's description to read: the
/// first in the user's language; without one, the first in no particular
/// language; without that, the first of all.
pub open spec fn is_translation_choice(languages: Seq<u16>, user: u16, i: int) -> bool {
    if languages.contains(user) {
        is_first_of(languages, user, i)
    } else if languages.contains(NEUTRAL_LANGUAGE) {
        is_first_of(languages, NEUTRAL_LANGUAGE, i)
    } else {
        i == 0
    }
}

/// The first position of `wanted` in `languages`.
fn first_of(languages: &Vec<u16>, wanted: u16) -> (r: Option<usize>)
    ensures
        match r {
            Some(i) => is_first_of(languages@, wanted, i as int),
            None => !languages@.contains(wanted),
        },
{
    let mut i: usize = 0;
    while i < languages.len()
        invariant
            i <= languages.len(),
            forall|j: int| 0 <= j < i ==> languages[j] != wanted,
        decreases languages.len() - i,
    {
        if languages[i] == wanted {
            return Some(i);
        }
        i += 1;
    }
    None
}

/// Which of the translations to read, given the language of each and the
/// language of the user.
pub fn pick_translation(languages: &Vec<u16>, user: u16) -> (i: usize)
    requires
        languages.len() > 0,
    ensures
        i < languages.len(),
        is_translation_choice(languages@, user, i as int),
{
    match first_of(languages, user) {
        Some(i) => i,
        None => match first_of(languages, NEUTRAL_LANGUAGE) {
            Some(i) => i,
            None => 0,
        },
    }
}

/// How bright a colour is, on a scale on which 1024 is middle grey: green
/// counts five times, red twice and blue once.
pub open spec fn brightness(r: u8, g: u8, b: u8) -> int {
    5 * g + 2 * r + b
}

/// Whether a colour is light: brighter than middle grey.
pub fn is_light_color(r: u8, g: u8, b: u8) -> (light: bool)
    ensures
        light == (brightness(r, g, b) > 8 * 128),
{
    5 * (g as u32) + 2 * (r as u32) + (b as u32) > 8 * 128
}

} // verus!
