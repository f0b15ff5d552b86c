//! Normalization, comparison keys and lengths.

use namefence::unicode::{
    casefold_key, combining_class, is_nfc, to_nfc, to_nfd, utf16_len,
};

#[test]
fn ascii_is_untouched_and_nfc() {
    assert_eq!(to_nfc("report_2024.txt"), "report_2024.txt");
    assert!(is_nfc("report_2024.txt"));
}

#[test]
fn latin_nfd_composes_to_nfc() {
    // "café" with a decomposed é (e + COMBINING ACUTE ACCENT), the exact
    // form HFS+ stores and rsync/Syncthing ship back to Linux.
    let nfd = "cafe\u{0301}";
    assert_eq!(to_nfc(nfd), "caf\u{00E9}");
    assert!(!is_nfc(nfd));
    assert!(is_nfc("caf\u{00E9}"));
}

#[test]
fn nfc_decomposes_to_nfd() {
    assert_eq!(to_nfd("caf\u{00E9}"), "cafe\u{0301}");
    assert_eq!(to_nfd("\u{1E17}"), "e\u{0304}\u{0301}"); // ḗ -> e + macron + acute
}

#[test]
fn multi_mark_recursive_decomposition_recomposes() {
    // U+1EC7 ệ fully decomposes to e + circumflex + dot-below (reordered
    // to dot-below first, ccc 220 < 230) and must recompose to itself.
    let nfd = to_nfd("\u{1EC7}");
    assert_eq!(nfd, "e\u{0323}\u{0302}");
    assert_eq!(to_nfc(&nfd), "\u{1EC7}");
}

#[test]
fn unordered_marks_are_canonically_reordered() {
    // Same marks in the "wrong" order still normalize identically.
    assert_eq!(to_nfc("e\u{0302}\u{0323}"), to_nfc("e\u{0323}\u{0302}"));
}

#[test]
fn composition_stops_where_the_standard_says() {
    // e + dot-below(220) + acute(230): dot-below composes to ẹ; the acute
    // is not blocked (220 < 230) but (ẹ, acute) has no primary composite,
    // so it stays a bare mark. Verified against Python unicodedata.
    let s = "e\u{0323}\u{0301}";
    assert_eq!(to_nfc(s), "\u{1EB9}\u{0301}");
    // e + acute + acute: the first acute composes to é; the second finds
    // no (é, acute) composite and must survive as a mark, not vanish.
    let s2 = "e\u{0301}\u{0301}";
    assert_eq!(to_nfc(s2), "\u{00E9}\u{0301}");
}

#[test]
fn singleton_decompositions_normalize() {
    // U+212B ANGSTROM SIGN normalizes to U+00C5 in both NFC and NFD paths.
    assert_eq!(to_nfc("\u{212B}"), "\u{00C5}");
    assert!(!is_nfc("\u{212B}"));
}

#[test]
fn composition_exclusions_stay_decomposed() {
    // U+0958 DEVANAGARI QA is a composition exclusion: NFC keeps it
    // decomposed as U+0915 + U+093C.
    assert_eq!(to_nfc("\u{0958}"), "\u{0915}\u{093C}");
    assert_eq!(to_nfd("\u{0958}"), "\u{0915}\u{093C}");
}

#[test]
fn hangul_composes_and_decomposes_algorithmically() {
    // 한 (U+D55C) = ᄒ U+1112 + ᅡ U+1161 + ᆫ U+11AB.
    assert_eq!(to_nfc("\u{1112}\u{1161}\u{11AB}"), "\u{D55C}");
    assert_eq!(to_nfd("\u{D55C}"), "\u{1112}\u{1161}\u{11AB}");
    // LV syllable without trailing consonant: 하 U+D558.
    assert_eq!(to_nfc("\u{1112}\u{1161}"), "\u{D558}");
}

#[test]
fn kana_voiced_marks_compose() {
    // か + U+3099 (combining voiced sound mark) -> が, the classic
    // Japanese NFD filename difference between macOS and Linux.
    assert_eq!(to_nfc("\u{304B}\u{3099}"), "\u{304C}");
    assert_eq!(to_nfd("\u{30D7}"), "\u{30D5}\u{309A}"); // プ -> フ + handakuten
}

#[test]
fn nfc_and_nfd_are_idempotent() {
    for s in ["caf\u{00E9}", "e\u{0323}\u{0302}", "\u{D55C}\u{304C}", "x"] {
        assert_eq!(to_nfc(&to_nfc(s)), to_nfc(s));
        assert_eq!(to_nfd(&to_nfd(s)), to_nfd(s));
        assert_eq!(to_nfc(&to_nfd(s)), to_nfc(s));
    }
}

#[test]
fn combining_class_lookup() {
    assert_eq!(combining_class('a'), 0);
    assert_eq!(combining_class('\u{0301}'), 230); // acute above
    assert_eq!(combining_class('\u{0323}'), 220); // dot below
    assert_eq!(combining_class('\u{3099}'), 8); // kana voicing
}

#[test]
fn casefold_key_merges_case_and_normalization() {
    // É (NFC), É (NFD), and é all collide on a case-insensitive volume.
    let a = casefold_key("R\u{00C9}SUM\u{00C9}.doc");
    let b = casefold_key("re\u{0301}sume\u{0301}.DOC");
    let c = casefold_key("r\u{00E9}sum\u{00E9}.doc");
    assert_eq!(a, b);
    assert_eq!(b, c);
    assert_ne!(casefold_key("resume.doc"), c);
}

#[test]
fn casefold_handles_one_to_many_mappings() {
    // U+0130 LATIN CAPITAL LETTER I WITH DOT ABOVE lowercases to i + dot
    // above — a two-character mapping that a naive per-char map misses.
    assert_eq!(casefold_key("\u{0130}"), "i\u{0307}");
}

#[test]
fn utf16_length_counts_surrogate_pairs() {
    assert_eq!(utf16_len("abc"), 3);
    assert_eq!(utf16_len("\u{1F600}"), 2); // emoji = surrogate pair
    assert_eq!(utf16_len("\u{00E9}"), 1);
}

/// A digest of numbers.
fn digest(h: u64, n: u32) -> u64 {
    (h ^ u64::from(n)).wrapping_mul(0x0100_0000_01B3)
}

/// Digests of the decomposed and composed forms and the combining classes of the
/// characters from `lo` to `hi`.
fn digests(lo: u32, hi: u32) -> (u64, u64, u64) {
    let start: u64 = 0xCBF2_9CE4_8422_2325;
    let (mut d, mut c, mut k) = (start, start, start);
    for cp in lo..hi {
        if let Some(ch) = char::from_u32(cp) {
            let s = ch.to_string();
            d = to_nfd(&s).chars().fold(d, |h, x| digest(h, x as u32));
            c = to_nfc(&s).chars().fold(c, |h, x| digest(h, x as u32));
            d = digest(d, 0x11_0000);
            c = digest(c, 0x11_0000);
            k = digest(k, u32::from(combining_class(ch)));
        }
    }
    (d, c, k)
}

#[test]
fn the_low_planes_normalize_by_the_tables_of_unicode_14() {
    assert_eq!(
        digests(0x0, 0x4000),
        (0xE659166EC2219551, 0x3028E8441B483A87, 0xDE6439674F7295D5)
    );
}

#[test]
fn the_middle_planes_normalize_by_the_tables_of_unicode_14() {
    assert_eq!(
        digests(0x4000, 0x18000),
        (0x77E3CD2F74937BEC, 0xAFF98A6B7BF93AF9, 0x619477AC4BDDE223)
    );
}

#[test]
fn the_high_planes_normalize_by_the_tables_of_unicode_14() {
    assert_eq!(
        digests(0x18000, 0x30000),
        (0xE929FEA684348EDB, 0xE929FEA684348EDB, 0x9EAF5A2CE84E3FC8)
    );
}

#[test]
fn sequences_normalize_as_unicode_says() {
    let cases: [(&str, &str, &str); 120] = [
        ("\u{0125}\u{3099}\u{0306}\u{0309}\u{02AF}", "h\u{3099}\u{0302}\u{0306}\u{0309}\u{02AF}", "\u{0125}\u{3099}\u{0306}\u{0309}\u{02AF}"),
        ("\u{110A}\u{0292}\u{0304}", "\u{110A}\u{0292}\u{0304}", "\u{110A}\u{0292}\u{0304}"),
        ("\u{0247}\u{0308}\u{031E}\u{030B}", "\u{0247}\u{031E}\u{0308}\u{030B}", "\u{0247}\u{031E}\u{0308}\u{030B}"),
        ("\u{023D}\u{02E0}\u{016F}\u{0307}\u{0349}\u{034A}\u{0332}", "\u{023D}\u{02E0}u\u{0349}\u{0332}\u{030A}\u{0307}\u{034A}", "\u{023D}\u{02E0}\u{016F}\u{0349}\u{0332}\u{0307}\u{034A}"),
        ("\u{016D}", "u\u{0306}", "\u{016D}"),
        ("\u{0113}\u{0335}\u{0312}\u{02B4}\u{02EC}\u{0347}\u{0F74}", "e\u{0335}\u{0304}\u{0312}\u{02B4}\u{02EC}\u{0F74}\u{0347}", "\u{0113}\u{0335}\u{0312}\u{02B4}\u{02EC}\u{0F74}\u{0347}"),
        ("\u{00F3}\u{0349}\u{11A8}\u{0318}\u{032F}", "o\u{0349}\u{0301}\u{11A8}\u{0318}\u{032F}", "\u{00F3}\u{0349}\u{11A8}\u{0318}\u{032F}"),
        ("\u{02BB}", "\u{02BB}", "\u{02BB}"),
        ("\u{00C6}\u{031A}\u{033F}\u{0F74}\u{0344}\u{0240}\u{033B}\u{034A}\u{025B}\u{0326}\u{031F}", "\u{00C6}\u{0F74}\u{033F}\u{0308}\u{0301}\u{031A}\u{0240}\u{033B}\u{034A}\u{025B}\u{0326}\u{031F}", "\u{00C6}\u{0F74}\u{033F}\u{0308}\u{0301}\u{031A}\u{0240}\u{033B}\u{034A}\u{025B}\u{0326}\u{031F}"),
        ("\u{0184}", "\u{0184}", "\u{0184}"),
        ("\u{01BE}\u{033F}\u{032B}\u{0339}\u{0324}\u{00D3}\u{0297}\u{0315}\u{032B}\u{0313}", "\u{01BE}\u{032B}\u{0339}\u{0324}\u{033F}O\u{0301}\u{0297}\u{032B}\u{0313}\u{0315}", "\u{01BE}\u{032B}\u{0339}\u{0324}\u{033F}\u{00D3}\u{0297}\u{032B}\u{0313}\u{0315}"),
        ("\u{023A}\u{00D9}\u{0349}\u{0328}\u{032B}\u{11127}", "\u{023A}U\u{0328}\u{0349}\u{032B}\u{0300}\u{11127}", "\u{023A}\u{0172}\u{0349}\u{032B}\u{0300}\u{11127}"),
        ("\u{0915}\u{034A}\u{033A}\u{0308}\u{00E9}\u{033C}\u{302A}", "\u{0915}\u{033A}\u{034A}\u{0308}e\u{302A}\u{033C}\u{0301}", "\u{0915}\u{033A}\u{034A}\u{0308}\u{00E9}\u{302A}\u{033C}"),
        ("\u{00CB}\u{01C8}\u{0F74}\u{0339}\u{0324}\u{1D165}\u{0216}\u{0302}\u{033B}", "E\u{0308}\u{01C8}\u{0F74}\u{1D165}\u{0339}\u{0324}U\u{033B}\u{0311}\u{0302}", "\u{00CB}\u{01C8}\u{0F74}\u{1D165}\u{0339}\u{0324}\u{0216}\u{033B}\u{0302}"),
        ("\u{0137}\u{030E}\u{033F}\u{0307}\u{031B}\u{01B1}\u{031F}", "k\u{0327}\u{031B}\u{030E}\u{033F}\u{0307}\u{01B1}\u{031F}", "\u{0137}\u{031B}\u{030E}\u{033F}\u{0307}\u{01B1}\u{031F}"),
        ("\u{021B}\u{030A}\u{0315}\u{0339}\u{0226}\u{0323}\u{0311}\u{0337}\u{0346}", "t\u{0326}\u{0339}\u{030A}\u{0315}A\u{0337}\u{0323}\u{0307}\u{0311}\u{0346}", "\u{021B}\u{0339}\u{030A}\u{0315}\u{1EA0}\u{0337}\u{0307}\u{0311}\u{0346}"),
        ("\u{0234}\u{0F74}\u{0330}\u{0177}\u{030A}", "\u{0234}\u{0F74}\u{0330}y\u{0302}\u{030A}", "\u{0234}\u{0F74}\u{0330}\u{0177}\u{030A}"),
        ("\u{0125}\u{309A}", "h\u{309A}\u{0302}", "\u{0125}\u{309A}"),
        ("M\u{034B}\u{0317}\u{0321}", "M\u{0321}\u{0317}\u{034B}", "M\u{0321}\u{0317}\u{034B}"),
        ("E\u{0335}\u{02AE}\u{034E}\u{0348}", "E\u{0335}\u{02AE}\u{034E}\u{0348}", "E\u{0335}\u{02AE}\u{034E}\u{0348}"),
        ("\u{010B}\u{0345}\u{3099}\u{0F72}\u{0306}\u{025E}\u{0332}\u{0332}\u{0333}\u{0332}", "c\u{3099}\u{0F72}\u{0307}\u{0306}\u{0345}\u{025E}\u{0332}\u{0332}\u{0333}\u{0332}", "\u{010B}\u{3099}\u{0F72}\u{0306}\u{0345}\u{025E}\u{0332}\u{0332}\u{0333}\u{0332}"),
        ("\u{0278}\u{0307}\u{0318}\u{0308}", "\u{0278}\u{0318}\u{0307}\u{0308}", "\u{0278}\u{0318}\u{0307}\u{0308}"),
        ("\u{024E}\u{030E}", "\u{024E}\u{030E}", "\u{024E}\u{030E}"),
        ("\u{1F00}\u{00F2}", "\u{03B1}\u{0313}o\u{0300}", "\u{1F00}\u{00F2}"),
        ("\u{0125}\u{030C}\u{032E}\u{034E}\u{0303}\u{00D1}\u{034E}\u{020C}\u{11A8}", "h\u{032E}\u{034E}\u{0302}\u{030C}\u{0303}N\u{034E}\u{0303}O\u{030F}\u{11A8}", "\u{1E2B}\u{034E}\u{0302}\u{030C}\u{0303}\u{00D1}\u{034E}\u{020C}\u{11A8}"),
        ("\u{01EE}\u{032E}\u{033C}\u{030F}\u{030E}\u{027E}\u{033D}\u{033D}\u{0327}", "\u{01B7}\u{032E}\u{033C}\u{030C}\u{030F}\u{030E}\u{027E}\u{0327}\u{033D}\u{033D}", "\u{01EE}\u{032E}\u{033C}\u{030F}\u{030E}\u{027E}\u{0327}\u{033D}\u{033D}"),
        ("\u{011E}", "G\u{0306}", "\u{011E}"),
        ("\u{01E9}\u{033D}\u{11127}\u{0130}\u{0302}\u{031A}\u{0343}\u{032E}\u{0121}\u{0303}\u{0343}\u{0326}\u{093C}", "k\u{030C}\u{033D}\u{11127}I\u{032E}\u{0307}\u{0302}\u{0313}\u{031A}g\u{093C}\u{0326}\u{0307}\u{0303}\u{0313}", "\u{01E9}\u{033D}\u{11127}\u{0130}\u{032E}\u{0302}\u{0313}\u{031A}\u{0121}\u{093C}\u{0326}\u{0303}\u{0313}"),
        ("\u{0196}\u{032E}\u{0315}\u{032D}\u{031C}", "\u{0196}\u{032E}\u{032D}\u{031C}\u{0315}", "\u{0196}\u{032E}\u{032D}\u{031C}\u{0315}"),
        ("\u{02B5}\u{032A}\u{11A8}\u{031C}\u{034E}\u{0152}\u{0333}\u{0173}\u{0342}", "\u{02B5}\u{032A}\u{11A8}\u{031C}\u{034E}\u{0152}\u{0333}u\u{0328}\u{0342}", "\u{02B5}\u{032A}\u{11A8}\u{031C}\u{034E}\u{0152}\u{0333}\u{0173}\u{0342}"),
        ("\u{01F7}c\u{033C}\u{0321}", "\u{01F7}c\u{0321}\u{033C}", "\u{01F7}c\u{0321}\u{033C}"),
        ("\u{0F71}\u{0339}\u{032C}", "\u{0F71}\u{0339}\u{032C}", "\u{0F71}\u{0339}\u{032C}"),
        ("\u{00DC}\u{030D}\u{0173}\u{0319}\u{032B}\u{031A}", "U\u{0308}\u{030D}u\u{0328}\u{0319}\u{032B}\u{031A}", "\u{00DC}\u{030D}\u{0173}\u{0319}\u{032B}\u{031A}"),
        ("B\u{3099}\u{032C}\u{093C}\u{00E0}", "B\u{093C}\u{3099}\u{032C}a\u{0300}", "B\u{093C}\u{3099}\u{032C}\u{00E0}"),
        ("\u{0157}\u{0316}\u{0337}\u{11A8}\u{01DF}", "r\u{0337}\u{0327}\u{0316}\u{11A8}a\u{0308}\u{0304}", "\u{0157}\u{0337}\u{0316}\u{11A8}\u{01DF}"),
        ("\u{0220}\u{0333}\u{030A}\u{0314}\u{0139}\u{0303}\u{0125}\u{033B}\u{3099}\u{0312}\u{034E}", "\u{0220}\u{0333}\u{030A}\u{0314}L\u{0301}\u{0303}h\u{3099}\u{033B}\u{034E}\u{0302}\u{0312}", "\u{0220}\u{0333}\u{030A}\u{0314}\u{0139}\u{0303}\u{0125}\u{3099}\u{033B}\u{034E}\u{0312}"),
        ("\u{0270}\u{0313}\u{0346}\u{02BC}\u{0302}O", "\u{0270}\u{0313}\u{0346}\u{02BC}\u{0302}O", "\u{0270}\u{0313}\u{0346}\u{02BC}\u{0302}O"),
        ("\u{0119}\u{0318}\u{031B}\u{0303}\u{018C}\u{0325}\u{028C}\u{034B}", "e\u{0328}\u{031B}\u{0318}\u{0303}\u{018C}\u{0325}\u{028C}\u{034B}", "\u{0119}\u{031B}\u{0318}\u{0303}\u{018C}\u{0325}\u{028C}\u{034B}"),
        ("\u{0194}\u{0335}\u{0310}\u{0307}\u{032D}\u{0260}\u{0342}\u{0335}\u{0340}\u{0310}", "\u{0194}\u{0335}\u{032D}\u{0310}\u{0307}\u{0260}\u{0335}\u{0342}\u{0300}\u{0310}", "\u{0194}\u{0335}\u{032D}\u{0310}\u{0307}\u{0260}\u{0335}\u{0342}\u{0300}\u{0310}"),
        ("\u{0126}\u{0341}\u{0302}\u{0338}\u{0317}E\u{0316}\u{011B}\u{0345}\u{030F}\u{0347}", "\u{0126}\u{0338}\u{0317}\u{0301}\u{0302}E\u{0316}e\u{0347}\u{030C}\u{030F}\u{0345}", "\u{0126}\u{0338}\u{0317}\u{0301}\u{0302}E\u{0316}\u{011B}\u{0347}\u{030F}\u{0345}"),
        ("\u{01D8}\u{0343}\u{0347}\u{033D}\u{030D}", "u\u{0347}\u{0308}\u{0301}\u{0313}\u{033D}\u{030D}", "\u{01D8}\u{0347}\u{0313}\u{033D}\u{030D}"),
        ("\u{00C3}\u{0318}\u{01A6}\u{00EE}\u{0339}\u{0347}\u{0303}\u{0308}", "A\u{0318}\u{0303}\u{01A6}i\u{0339}\u{0347}\u{0302}\u{0303}\u{0308}", "\u{00C3}\u{0318}\u{01A6}\u{00EE}\u{0339}\u{0347}\u{0303}\u{0308}"),
        ("\u{01D8}\u{0340}\u{034D}\u{0341}\u{0319}\u{01A6}\u{0341}\u{0344}\u{033D}", "u\u{034D}\u{0319}\u{0308}\u{0301}\u{0300}\u{0301}\u{01A6}\u{0301}\u{0308}\u{0301}\u{033D}", "\u{01D8}\u{034D}\u{0319}\u{0300}\u{0301}\u{01A6}\u{0301}\u{0308}\u{0301}\u{033D}"),
        ("\u{0188}\u{0321}\u{0347}\u{0319}\u{0339}\u{0117}\u{030F}\u{0332}\u{0338}\u{01CE}", "\u{0188}\u{0321}\u{0347}\u{0319}\u{0339}e\u{0338}\u{0332}\u{0307}\u{030F}a\u{030C}", "\u{0188}\u{0321}\u{0347}\u{0319}\u{0339}\u{0117}\u{0338}\u{0332}\u{030F}\u{01CE}"),
        ("\u{0181}\u{0309}\u{031B}\u{0338}\u{01C1}\u{0129}\u{0312}\u{0320}", "\u{0181}\u{0338}\u{031B}\u{0309}\u{01C1}i\u{0320}\u{0303}\u{0312}", "\u{0181}\u{0338}\u{031B}\u{0309}\u{01C1}\u{0129}\u{0320}\u{0312}"),
        ("\u{0269}\u{030C}", "\u{0269}\u{030C}", "\u{0269}\u{030C}"),
        ("\u{027D}\u{0338}\u{0170}\u{302C}", "\u{027D}\u{0338}U\u{030B}\u{302C}", "\u{027D}\u{0338}\u{0170}\u{302C}"),
        ("\u{029A}\u{032B}\u{0335}\u{0319}\u{01F8}\u{030B}\u{032E}", "\u{029A}\u{0335}\u{032B}\u{0319}N\u{032E}\u{0300}\u{030B}", "\u{029A}\u{0335}\u{032B}\u{0319}\u{01F8}\u{032E}\u{030B}"),
        ("\u{01E5}\u{033A}\u{0338}\u{302C}\u{0302}", "\u{01E5}\u{0338}\u{033A}\u{0302}\u{302C}", "\u{01E5}\u{0338}\u{033A}\u{0302}\u{302C}"),
        ("\u{01DE}\u{0345}\u{0325}\u{0341}\u{0308}\u{00FE}\u{030D}", "A\u{0325}\u{0308}\u{0304}\u{0301}\u{0308}\u{0345}\u{00FE}\u{030D}", "\u{1E00}\u{0308}\u{0304}\u{0301}\u{0308}\u{0345}\u{00FE}\u{030D}"),
        ("\u{019A}\u{0305}\u{0317}", "\u{019A}\u{0317}\u{0305}", "\u{019A}\u{0317}\u{0305}"),
        ("\u{010F}\u{0F72}\u{0321}\u{0333}\u{0123}\u{0341}\u{0349}\u{033F}\u{302A}", "d\u{0F72}\u{0321}\u{0333}\u{030C}g\u{0327}\u{302A}\u{0349}\u{0301}\u{033F}", "\u{010F}\u{0F72}\u{0321}\u{0333}\u{0123}\u{302A}\u{0349}\u{0301}\u{033F}"),
        ("\u{00E5}\u{0307}\u{11127}\u{0146}\u{0309}\u{0322}\u{0302}", "a\u{030A}\u{0307}\u{11127}n\u{0327}\u{0322}\u{0309}\u{0302}", "\u{00E5}\u{0307}\u{11127}\u{0146}\u{0322}\u{0309}\u{0302}"),
        ("\u{00E4}\u{030A}\u{034D}\u{016E}\u{0199}", "a\u{034D}\u{0308}\u{030A}U\u{030A}\u{0199}", "\u{00E4}\u{034D}\u{030A}\u{016E}\u{0199}"),
        ("L\u{0346}\u{0335}\u{019D}\u{0310}\u{0305}\u{0343}\u{302C}", "L\u{0335}\u{0346}\u{019D}\u{0310}\u{0305}\u{0313}\u{302C}", "L\u{0335}\u{0346}\u{019D}\u{0310}\u{0305}\u{0313}\u{302C}"),
        ("\u{00FB}\u{0321}", "u\u{0321}\u{0302}", "\u{00FB}\u{0321}"),
        ("\u{0144}\u{0327}", "n\u{0327}\u{0301}", "\u{0146}\u{0301}"),
        ("\u{01C3}\u{031A}\u{0325}\u{0339}\u{0340}\u{0141}\u{032C}\u{0302}\u{018B}", "\u{01C3}\u{0325}\u{0339}\u{0300}\u{031A}\u{0141}\u{032C}\u{0302}\u{018B}", "\u{01C3}\u{0325}\u{0339}\u{0300}\u{031A}\u{0141}\u{032C}\u{0302}\u{018B}"),
        ("S\u{0346}\u{0318}\u{0341}\u{033C}", "S\u{0318}\u{033C}\u{0346}\u{0301}", "S\u{0318}\u{033C}\u{0346}\u{0301}"),
        ("\u{0254}", "\u{0254}", "\u{0254}"),
        ("\u{0245}\u{0345}\u{0332}\u{0340}\u{01C6}\u{031D}\u{01E9}\u{302C}", "\u{0245}\u{0332}\u{0300}\u{0345}\u{01C6}\u{031D}k\u{030C}\u{302C}", "\u{0245}\u{0332}\u{0300}\u{0345}\u{01C6}\u{031D}\u{01E9}\u{302C}"),
        ("\u{011A}\u{032C}\u{0306}\u{0310}O\u{0190}\u{0314}\u{0307}\u{030A}", "E\u{032C}\u{030C}\u{0306}\u{0310}O\u{0190}\u{0314}\u{0307}\u{030A}", "\u{011A}\u{032C}\u{0306}\u{0310}O\u{0190}\u{0314}\u{0307}\u{030A}"),
        ("\u{0211}\u{0338}\u{0324}\u{034C}\u{031F}\u{01B7}\u{0261}\u{0314}", "r\u{0338}\u{0324}\u{031F}\u{030F}\u{034C}\u{01B7}\u{0261}\u{0314}", "\u{0211}\u{0338}\u{0324}\u{031F}\u{034C}\u{01B7}\u{0261}\u{0314}"),
        ("\u{0253}\u{0198}\u{032A}\u{0346}", "\u{0253}\u{0198}\u{032A}\u{0346}", "\u{0253}\u{0198}\u{032A}\u{0346}"),
        ("\u{0185}\u{01C7}\u{032D}", "\u{0185}\u{01C7}\u{032D}", "\u{0185}\u{01C7}\u{032D}"),
        ("B\u{0330}\u{030A}", "B\u{0330}\u{030A}", "B\u{0330}\u{030A}"),
        ("\u{01A8}\u{3099}\u{0319}\u{031F}\u{0340}F", "\u{01A8}\u{3099}\u{0319}\u{031F}\u{0300}F", "\u{01A8}\u{3099}\u{0319}\u{031F}\u{0300}F"),
        ("\u{00E5}\u{0333}\u{110E}", "a\u{0333}\u{030A}\u{110E}", "\u{00E5}\u{0333}\u{110E}"),
        ("X\u{0326}\u{1161}\u{0179}", "X\u{0326}\u{1161}Z\u{0301}", "X\u{0326}\u{1161}\u{0179}"),
        ("\u{02A8}\u{309A}\u{304B}\u{0329}\u{033F}\u{0313}\u{01AD}\u{093C}\u{0312}\u{0305}\u{1D165}", "\u{02A8}\u{309A}\u{304B}\u{0329}\u{033F}\u{0313}\u{01AD}\u{093C}\u{1D165}\u{0312}\u{0305}", "\u{02A8}\u{309A}\u{304B}\u{0329}\u{033F}\u{0313}\u{01AD}\u{093C}\u{1D165}\u{0312}\u{0305}"),
        ("\u{0242}\u{0311}\u{0343}\u{0340}\u{0348}Q\u{1D165}\u{0F74}\u{11127}\u{093C}\u{0176}", "\u{0242}\u{0348}\u{0311}\u{0313}\u{0300}Q\u{0F74}\u{1D165}\u{11127}\u{093C}Y\u{0302}", "\u{0242}\u{0348}\u{0311}\u{0313}\u{0300}Q\u{0F74}\u{1D165}\u{11127}\u{093C}\u{0176}"),
        ("q\u{11A8}", "q\u{11A8}", "q\u{11A8}"),
        ("\u{00F5}\u{0339}\u{0347}\u{0306}T\u{0F74}\u{031F}\u{033E}\u{0321}", "o\u{0339}\u{0347}\u{0303}\u{0306}T\u{0F74}\u{0321}\u{031F}\u{033E}", "\u{00F5}\u{0339}\u{0347}\u{0306}T\u{0F74}\u{0321}\u{031F}\u{033E}"),
        ("\u{025E}", "\u{025E}", "\u{025E}"),
        ("\u{028E}\u{030B}\u{309A}\u{0343}\u{0308}\u{0270}\u{0309}\u{0321}\u{017B}\u{031D}", "\u{028E}\u{309A}\u{030B}\u{0313}\u{0308}\u{0270}\u{0321}\u{0309}Z\u{031D}\u{0307}", "\u{028E}\u{309A}\u{030B}\u{0313}\u{0308}\u{0270}\u{0321}\u{0309}\u{017B}\u{031D}"),
        ("\u{0262}\u{0330}\u{0309}\u{033D}\u{01B1}\u{0156}", "\u{0262}\u{0330}\u{0309}\u{033D}\u{01B1}R\u{0327}", "\u{0262}\u{0330}\u{0309}\u{033D}\u{01B1}\u{0156}"),
        ("\u{0121}\u{0320}\u{3099}\u{01C2}\u{0348}\u{0311}\u{0301}\u{033D}\u{00C7}\u{0322}\u{0F72}\u{030C}", "g\u{3099}\u{0320}\u{0307}\u{01C2}\u{0348}\u{0311}\u{0301}\u{033D}C\u{0F72}\u{0327}\u{0322}\u{030C}", "\u{0121}\u{3099}\u{0320}\u{01C2}\u{0348}\u{0311}\u{0301}\u{033D}\u{00C7}\u{0F72}\u{0322}\u{030C}"),
        ("\u{0169}\u{0325}\u{302C}\u{0342}\u{01AF}\u{033B}\u{033B}\u{030F}\u{02BD}\u{0327}", "u\u{0325}\u{0303}\u{0342}\u{302C}U\u{031B}\u{033B}\u{033B}\u{030F}\u{02BD}\u{0327}", "\u{0169}\u{0325}\u{0342}\u{302C}\u{01AF}\u{033B}\u{033B}\u{030F}\u{02BD}\u{0327}"),
        ("\u{026F}", "\u{026F}", "\u{026F}"),
        ("\u{0260}\u{0291}\u{0322}\u{0331}\u{031A}", "\u{0260}\u{0291}\u{0322}\u{0331}\u{031A}", "\u{0260}\u{0291}\u{0322}\u{0331}\u{031A}"),
        ("\u{00D5}\u{030B}\u{0312}\u{0343}\u{0321}", "O\u{0321}\u{0303}\u{030B}\u{0312}\u{0313}", "\u{00D5}\u{0321}\u{030B}\u{0312}\u{0313}"),
        ("\u{0112}\u{1161}\u{0341}\u{0323}\u{030E}\u{0200}\u{033F}", "E\u{0304}\u{1161}\u{0323}\u{0301}\u{030E}A\u{030F}\u{033F}", "\u{0112}\u{1161}\u{0323}\u{0301}\u{030E}\u{0200}\u{033F}"),
        ("\u{021E}\u{012D}", "H\u{030C}i\u{0306}", "\u{021E}\u{012D}"),
        ("\u{0258}\u{0326}\u{0312}\u{0335}\u{01EB}\u{0328}\u{030F}\u{032A}", "\u{0258}\u{0335}\u{0326}\u{0312}o\u{0328}\u{0328}\u{032A}\u{030F}", "\u{0258}\u{0335}\u{0326}\u{0312}\u{01EB}\u{0328}\u{032A}\u{030F}"),
        ("\u{01D7}\u{0332}\u{030F}", "U\u{0332}\u{0308}\u{0301}\u{030F}", "\u{01D7}\u{0332}\u{030F}"),
        ("M\u{0320}\u{032F}", "M\u{0320}\u{032F}", "M\u{0320}\u{032F}"),
        ("\u{021D}\u{034B}\u{0309}\u{032E}", "\u{021D}\u{032E}\u{034B}\u{0309}", "\u{021D}\u{032E}\u{034B}\u{0309}"),
        ("\u{01A4}\u{01AA}", "\u{01A4}\u{01AA}", "\u{01A4}\u{01AA}"),
        ("\u{01AF}\u{031F}", "U\u{031B}\u{031F}", "\u{01AF}\u{031F}"),
        ("\u{0249}\u{0328}\u{0318}\u{032F}\u{0336}d\u{0346}\u{0346}\u{031A}", "\u{0249}\u{0336}\u{0328}\u{0318}\u{032F}d\u{0346}\u{0346}\u{031A}", "\u{0249}\u{0336}\u{0328}\u{0318}\u{032F}d\u{0346}\u{0346}\u{031A}"),
        ("\u{00DC}\u{022F}\u{034E}\u{0311}\u{093C}\u{01B0}\u{0306}\u{0346}\u{0310}", "U\u{0308}o\u{093C}\u{034E}\u{0307}\u{0311}u\u{031B}\u{0306}\u{0346}\u{0310}", "\u{00DC}\u{022F}\u{093C}\u{034E}\u{0311}\u{01B0}\u{0306}\u{0346}\u{0310}"),
        ("\u{026E}\u{032B}\u{0324}\u{0326}", "\u{026E}\u{032B}\u{0324}\u{0326}", "\u{026E}\u{032B}\u{0324}\u{0326}"),
        ("\u{0195}\u{3099}\u{031E}\u{0326}\u{0279}\u{0338}\u{0332}\u{030F}\u{0315}", "\u{0195}\u{3099}\u{031E}\u{0326}\u{0279}\u{0338}\u{0332}\u{030F}\u{0315}", "\u{0195}\u{3099}\u{031E}\u{0326}\u{0279}\u{0338}\u{0332}\u{030F}\u{0315}"),
        ("\u{0130}\u{015F}\u{033F}\u{0346}\u{031C}\u{0339}\u{01DF}\u{0336}\u{0311}\u{0346}", "I\u{0307}s\u{0327}\u{031C}\u{0339}\u{033F}\u{0346}a\u{0336}\u{0308}\u{0304}\u{0311}\u{0346}", "\u{0130}\u{015F}\u{031C}\u{0339}\u{033F}\u{0346}\u{01DF}\u{0336}\u{0311}\u{0346}"),
        ("\u{0184}", "\u{0184}", "\u{0184}"),
        ("\u{01E9}\u{030B}\u{0328}\u{031E}\u{032F}", "k\u{0328}\u{031E}\u{032F}\u{030C}\u{030B}", "\u{01E9}\u{0328}\u{031E}\u{032F}\u{030B}"),
        ("\u{02E4}\u{0302}\u{0231}\u{0334}\u{0343}\u{031A}", "\u{02E4}\u{0302}o\u{0334}\u{0307}\u{0304}\u{0313}\u{031A}", "\u{02E4}\u{0302}\u{0231}\u{0334}\u{0313}\u{031A}"),
        ("\u{019F}\u{0307}\u{033F}\u{01A7}\u{032E}\u{0310}\u{0F74}\u{0340}", "\u{019F}\u{0307}\u{033F}\u{01A7}\u{0F74}\u{032E}\u{0310}\u{0300}", "\u{019F}\u{0307}\u{033F}\u{01A7}\u{0F74}\u{032E}\u{0310}\u{0300}"),
        ("\u{0168}\u{01A0}\u{0331}\u{0224}\u{0337}\u{0327}\u{0302}", "U\u{0303}O\u{031B}\u{0331}\u{0224}\u{0337}\u{0327}\u{0302}", "\u{0168}\u{01A0}\u{0331}\u{0224}\u{0337}\u{0327}\u{0302}"),
        ("h\u{302C}\u{033C}\u{034B}", "h\u{033C}\u{034B}\u{302C}", "h\u{033C}\u{034B}\u{302C}"),
        ("A\u{021B}\u{033B}\u{0339}\u{031F}\u{030D}", "At\u{0326}\u{033B}\u{0339}\u{031F}\u{030D}", "A\u{021B}\u{033B}\u{0339}\u{031F}\u{030D}"),
        ("\u{0129}\u{0342}", "i\u{0303}\u{0342}", "\u{0129}\u{0342}"),
        ("\u{00FA}\u{030A}\u{0346}\u{0305}B\u{031D}\u{02E4}", "u\u{0301}\u{030A}\u{0346}\u{0305}B\u{031D}\u{02E4}", "\u{00FA}\u{030A}\u{0346}\u{0305}B\u{031D}\u{02E4}"),
        ("\u{01C2}\u{1161}\u{018C}\u{11A8}\u{0337}\u{302A}\u{030E}\u{00EF}", "\u{01C2}\u{1161}\u{018C}\u{11A8}\u{0337}\u{302A}\u{030E}i\u{0308}", "\u{01C2}\u{1161}\u{018C}\u{11A8}\u{0337}\u{302A}\u{030E}\u{00EF}"),
        ("\u{02A4}\u{0318}\u{0331}\u{0321}\u{031C}\u{1F00}", "\u{02A4}\u{0321}\u{0318}\u{0331}\u{031C}\u{03B1}\u{0313}", "\u{02A4}\u{0321}\u{0318}\u{0331}\u{031C}\u{1F00}"),
        ("\u{02B1}\u{033A}\u{0323}", "\u{02B1}\u{033A}\u{0323}", "\u{02B1}\u{033A}\u{0323}"),
        ("\u{0183}\u{0343}\u{031E}\u{0346}\u{0187}", "\u{0183}\u{031E}\u{0313}\u{0346}\u{0187}", "\u{0183}\u{031E}\u{0313}\u{0346}\u{0187}"),
        ("\u{01C5}W\u{033F}", "\u{01C5}W\u{033F}", "\u{01C5}W\u{033F}"),
        ("\u{0239}\u{0192}\u{0338}\u{023D}\u{031D}\u{033F}", "\u{0239}\u{0192}\u{0338}\u{023D}\u{031D}\u{033F}", "\u{0239}\u{0192}\u{0338}\u{023D}\u{031D}\u{033F}"),
        ("\u{01E5}\u{032E}\u{0F74}\u{0332}", "\u{01E5}\u{0F74}\u{032E}\u{0332}", "\u{01E5}\u{0F74}\u{032E}\u{0332}"),
        ("G\u{0340}\u{0308}", "G\u{0300}\u{0308}", "G\u{0300}\u{0308}"),
        ("\u{0286}\u{0327}", "\u{0286}\u{0327}", "\u{0286}\u{0327}"),
        ("\u{0177}\u{031C}\u{0321}\u{0325}", "y\u{0321}\u{031C}\u{0325}\u{0302}", "\u{0177}\u{0321}\u{031C}\u{0325}"),
        ("\u{0286}\u{0317}\u{031C}\u{033E}\u{0335}", "\u{0286}\u{0335}\u{0317}\u{031C}\u{033E}", "\u{0286}\u{0335}\u{0317}\u{031C}\u{033E}"),
        ("\u{00C2}\u{0312}\u{0332}\u{0306}\u{031B}Y\u{0312}\u{0335}\u{0306}\u{302C}\u{00C6}\u{0332}", "A\u{031B}\u{0332}\u{0302}\u{0312}\u{0306}Y\u{0335}\u{0312}\u{0306}\u{302C}\u{00C6}\u{0332}", "\u{00C2}\u{031B}\u{0332}\u{0312}\u{0306}Y\u{0335}\u{0312}\u{0306}\u{302C}\u{00C6}\u{0332}"),
        ("\u{01CC}\u{00DB}\u{032A}", "\u{01CC}U\u{032A}\u{0302}", "\u{01CC}\u{00DB}\u{032A}"),
        ("\u{0148}\u{033B}\u{0304}\u{0327}\u{0338}", "n\u{0338}\u{0327}\u{033B}\u{030C}\u{0304}", "\u{0146}\u{0338}\u{033B}\u{030C}\u{0304}"),
        ("\u{020E}\u{032A}\u{0338}\u{0138}C", "O\u{0338}\u{032A}\u{0311}\u{0138}C", "\u{020E}\u{0338}\u{032A}\u{0138}C"),
        ("\u{00DC}\u{0335}\u{030F}\u{02CD}\u{0330}", "U\u{0335}\u{0308}\u{030F}\u{02CD}\u{0330}", "\u{00DC}\u{0335}\u{030F}\u{02CD}\u{0330}"),
        ("\u{01C7}\u{030B}\u{0306}\u{302C}\u{026F}\u{032F}", "\u{01C7}\u{030B}\u{0306}\u{302C}\u{026F}\u{032F}", "\u{01C7}\u{030B}\u{0306}\u{302C}\u{026F}\u{032F}"),
    ];
    for (s, nfd, nfc) in cases {
        assert_eq!(to_nfd(s), nfd);
        assert_eq!(to_nfc(s), nfc);
        assert_eq!(is_nfc(s), nfc == s);
        // Both forms are stable, and each is reached from the other.
        assert_eq!(to_nfd(nfd), nfd);
        assert_eq!(to_nfc(nfc), nfc);
        assert_eq!(to_nfc(nfd), nfc);
        assert_eq!(to_nfd(nfc), nfd);
        assert_eq!(casefold_key(nfd), casefold_key(s));
        // What is left after a cut at the end is composed too.
        for (i, _) in nfc.char_indices() {
            assert!(is_nfc(&nfc[..i]));
        }
        // ASCII characters part what is normalized.
        let joint = format!(" {s}.{s}");
        assert_eq!(to_nfc(&joint), format!(" {nfc}.{nfc}"));
    }
}

#[test]
fn keys_go_by_the_lowercase_of_the_standard_library() {
    for cp in 0..0x3_0000u32 {
        if let Some(c) = char::from_u32(cp) {
            let s = c.to_string();
            let expected: String = to_nfc(&s).chars().flat_map(|x| x.to_lowercase()).collect();
            assert_eq!(casefold_key(&s), expected, "U+{cp:04X}");
            assert_eq!(utf16_len(&s), c.len_utf16());
        }
    }
}

#[test]
fn nothing_normalizes_to_nothing() {
    assert_eq!(to_nfc(""), "");
    assert_eq!(to_nfd(""), "");
    assert!(is_nfc(""));
    assert_eq!(casefold_key(""), "");
    assert_eq!(utf16_len(""), 0);
}

#[test]
fn marks_without_a_starter_are_ordered() {
    assert_eq!(to_nfc("\u{0301}\u{0323}"), "\u{0323}\u{0301}");
    assert_eq!(to_nfc(" \u{0301}\u{0323}"), " \u{0323}\u{0301}");
}

#[test]
fn negated_brackets_are_joined_again() {
    // The decomposition sets `<` free, which Windows rejects.
    assert_eq!(to_nfd("\u{226E}"), "<\u{0338}");
    assert_eq!(to_nfc("\u{226E}\u{0338}\u{0301}"), "\u{226E}\u{0338}\u{0301}");
    assert_eq!(to_nfc(">\u{0323}\u{0338}"), "\u{226F}\u{0323}");
}
