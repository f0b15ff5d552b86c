//! Canonical normalization data of the Unicode Character Database, version 14.0.
//!
//! Canonical mappings are stored once, as rows `(character, first, second)` in
//! ascending order of the character; a singleton mapping has `'\0'` in its last
//! column. Hangul syllables are left out: they are mapped by arithmetic. The
//! primary composites are those rows that recompose; they are listed by row
//! number, in ascending order of `(first, second)`.

use vstd::prelude::*;

verus! {

/// Canonical mappings of the characters below U+2000.
#[verifier::opaque]
pub const DECOMP_LOW: [(char, char, char); 889] = [
    ('\u{00C0}', '\u{0041}', '\u{0300}'), ('\u{00C1}', '\u{0041}', '\u{0301}'), ('\u{00C2}', '\u{0041}', '\u{0302}'),
    ('\u{00C3}', '\u{0041}', '\u{0303}'), ('\u{00C4}', '\u{0041}', '\u{0308}'), ('\u{00C5}', '\u{0041}', '\u{030A}'),
    ('\u{00C7}', '\u{0043}', '\u{0327}'), ('\u{00C8}', '\u{0045}', '\u{0300}'), ('\u{00C9}', '\u{0045}', '\u{0301}'),
    ('\u{00CA}', '\u{0045}', '\u{0302}'), ('\u{00CB}', '\u{0045}', '\u{0308}'), ('\u{00CC}', '\u{0049}', '\u{0300}'),
    ('\u{00CD}', '\u{0049}', '\u{0301}'), ('\u{00CE}', '\u{0049}', '\u{0302}'), ('\u{00CF}', '\u{0049}', '\u{0308}'),
    ('\u{00D1}', '\u{004E}', '\u{0303}'), ('\u{00D2}', '\u{004F}', '\u{0300}'), ('\u{00D3}', '\u{004F}', '\u{0301}'),
    ('\u{00D4}', '\u{004F}', '\u{0302}'), ('\u{00D5}', '\u{004F}', '\u{0303}'), ('\u{00D6}', '\u{004F}', '\u{0308}'),
    ('\u{00D9}', '\u{0055}', '\u{0300}'), ('\u{00DA}', '\u{0055}', '\u{0301}'), ('\u{00DB}', '\u{0055}', '\u{0302}'),
    ('\u{00DC}', '\u{0055}', '\u{0308}'), ('\u{00DD}', '\u{0059}', '\u{0301}'), ('\u{00E0}', '\u{0061}', '\u{0300}'),
    ('\u{00E1}', '\u{0061}', '\u{0301}'), ('\u{00E2}', '\u{0061}', '\u{0302}'), ('\u{00E3}', '\u{0061}', '\u{0303}'),
    ('\u{00E4}', '\u{0061}', '\u{0308}'), ('\u{00E5}', '\u{0061}', '\u{030A}'), ('\u{00E7}', '\u{0063}', '\u{0327}'),
    ('\u{00E8}', '\u{0065}', '\u{0300}'), ('\u{00E9}', '\u{0065}', '\u{0301}'), ('\u{00EA}', '\u{0065}', '\u{0302}'),
    ('\u{00EB}', '\u{0065}', '\u{0308}'), ('\u{00EC}', '\u{0069}', '\u{0300}'), ('\u{00ED}', '\u{0069}', '\u{0301}'),
    ('\u{00EE}', '\u{0069}', '\u{0302}'), ('\u{00EF}', '\u{0069}', '\u{0308}'), ('\u{00F1}', '\u{006E}', '\u{0303}'),
    ('\u{00F2}', '\u{006F}', '\u{0300}'), ('\u{00F3}', '\u{006F}', '\u{0301}'), ('\u{00F4}', '\u{006F}', '\u{0302}'),
    ('\u{00F5}', '\u{006F}', '\u{0303}'), ('\u{00F6}', '\u{006F}', '\u{0308}'), ('\u{00F9}', '\u{0075}', '\u{0300}'),
    ('\u{00FA}', '\u{0075}', '\u{0301}'), ('\u{00FB}', '\u{0075}', '\u{0302}'), ('\u{00FC}', '\u{0075}', '\u{0308}'),
    ('\u{00FD}', '\u{0079}', '\u{0301}'), ('\u{00FF}', '\u{0079}', '\u{0308}'), ('\u{0100}', '\u{0041}', '\u{0304}'),
    ('\u{0101}', '\u{0061}', '\u{0304}'), ('\u{0102}', '\u{0041}', '\u{0306}'), ('\u{0103}', '\u{0061}', '\u{0306}'),
    ('\u{0104}', '\u{0041}', '\u{0328}'), ('\u{0105}', '\u{0061}', '\u{0328}'), ('\u{0106}', '\u{0043}', '\u{0301}'),
    ('\u{0107}', '\u{0063}', '\u{0301}'), ('\u{0108}', '\u{0043}', '\u{0302}'), ('\u{0109}', '\u{0063}', '\u{0302}'),
    ('\u{010A}', '\u{0043}', '\u{0307}'), ('\u{010B}', '\u{0063}', '\u{0307}'), ('\u{010C}', '\u{0043}', '\u{030C}'),
    ('\u{010D}', '\u{0063}', '\u{030C}'), ('\u{010E}', '\u{0044}', '\u{030C}'), ('\u{010F}', '\u{0064}', '\u{030C}'),
    ('\u{0112}', '\u{0045}', '\u{0304}'), ('\u{0113}', '\u{0065}', '\u{0304}'), ('\u{0114}', '\u{0045}', '\u{0306}'),
    ('\u{0115}', '\u{0065}', '\u{0306}'), ('\u{0116}', '\u{0045}', '\u{0307}'), ('\u{0117}', '\u{0065}', '\u{0307}'),
    ('\u{0118}', '\u{0045}', '\u{0328}'), ('\u{0119}', '\u{0065}', '\u{0328}'), ('\u{011A}', '\u{0045}', '\u{030C}'),
    ('\u{011B}', '\u{0065}', '\u{030C}'), ('\u{011C}', '\u{0047}', '\u{0302}'), ('\u{011D}', '\u{0067}', '\u{0302}'),
    ('\u{011E}', '\u{0047}', '\u{0306}'), ('\u{011F}', '\u{0067}', '\u{0306}'), ('\u{0120}', '\u{0047}', '\u{0307}'),
    ('\u{0121}', '\u{0067}', '\u{0307}'), ('\u{0122}', '\u{0047}', '\u{0327}'), ('\u{0123}', '\u{0067}', '\u{0327}'),
    ('\u{0124}', '\u{0048}', '\u{0302}'), ('\u{0125}', '\u{0068}', '\u{0302}'), ('\u{0128}', '\u{0049}', '\u{0303}'),
    ('\u{0129}', '\u{0069}', '\u{0303}'), ('\u{012A}', '\u{0049}', '\u{0304}'), ('\u{012B}', '\u{0069}', '\u{0304}'),
    ('\u{012C}', '\u{0049}', '\u{0306}'), ('\u{012D}', '\u{0069}', '\u{0306}'), ('\u{012E}', '\u{0049}', '\u{0328}'),
    ('\u{012F}', '\u{0069}', '\u{0328}'), ('\u{0130}', '\u{0049}', '\u{0307}'), ('\u{0134}', '\u{004A}', '\u{0302}'),
    ('\u{0135}', '\u{006A}', '\u{0302}'), ('\u{0136}', '\u{004B}', '\u{0327}'), ('\u{0137}', '\u{006B}', '\u{0327}'),
    ('\u{0139}', '\u{004C}', '\u{0301}'), ('\u{013A}', '\u{006C}', '\u{0301}'), ('\u{013B}', '\u{004C}', '\u{0327}'),
    ('\u{013C}', '\u{006C}', '\u{0327}'), ('\u{013D}', '\u{004C}', '\u{030C}'), ('\u{013E}', '\u{006C}', '\u{030C}'),
    ('\u{0143}', '\u{004E}', '\u{0301}'), ('\u{0144}', '\u{006E}', '\u{0301}'), ('\u{0145}', '\u{004E}', '\u{0327}'),
    ('\u{0146}', '\u{006E}', '\u{0327}'), ('\u{0147}', '\u{004E}', '\u{030C}'), ('\u{0148}', '\u{006E}', '\u{030C}'),
    ('\u{014C}', '\u{004F}', '\u{0304}'), ('\u{014D}', '\u{006F}', '\u{0304}'), ('\u{014E}', '\u{004F}', '\u{0306}'),
    ('\u{014F}', '\u{006F}', '\u{0306}'), ('\u{0150}', '\u{004F}', '\u{030B}'), ('\u{0151}', '\u{006F}', '\u{030B}'),
    ('\u{0154}', '\u{0052}', '\u{0301}'), ('\u{0155}', '\u{0072}', '\u{0301}'), ('\u{0156}', '\u{0052}', '\u{0327}'),
    ('\u{0157}', '\u{0072}', '\u{0327}'), ('\u{0158}', '\u{0052}', '\u{030C}'), ('\u{0159}', '\u{0072}', '\u{030C}'),
    ('\u{015A}', '\u{0053}', '\u{0301}'), ('\u{015B}', '\u{0073}', '\u{0301}'), ('\u{015C}', '\u{0053}', '\u{0302}'),
    ('\u{015D}', '\u{0073}', '\u{0302}'), ('\u{015E}', '\u{0053}', '\u{0327}'), ('\u{015F}', '\u{0073}', '\u{0327}'),
    ('\u{0160}', '\u{0053}', '\u{030C}'), ('\u{0161}', '\u{0073}', '\u{030C}'), ('\u{0162}', '\u{0054}', '\u{0327}'),
    ('\u{0163}', '\u{0074}', '\u{0327}'), ('\u{0164}', '\u{0054}', '\u{030C}'), ('\u{0165}', '\u{0074}', '\u{030C}'),
    ('\u{0168}', '\u{0055}', '\u{0303}'), ('\u{0169}', '\u{0075}', '\u{0303}'), ('\u{016A}', '\u{0055}', '\u{0304}'),
    ('\u{016B}', '\u{0075}', '\u{0304}'), ('\u{016C}', '\u{0055}', '\u{0306}'), ('\u{016D}', '\u{0075}', '\u{0306}'),
    ('\u{016E}', '\u{0055}', '\u{030A}'), ('\u{016F}', '\u{0075}', '\u{030A}'), ('\u{0170}', '\u{0055}', '\u{030B}'),
    ('\u{0171}', '\u{0075}', '\u{030B}'), ('\u{0172}', '\u{0055}', '\u{0328}'), ('\u{0173}', '\u{0075}', '\u{0328}'),
    ('\u{0174}', '\u{0057}', '\u{0302}'), ('\u{0175}', '\u{0077}', '\u{0302}'), ('\u{0176}', '\u{0059}', '\u{0302}'),
    ('\u{0177}', '\u{0079}', '\u{0302}'), ('\u{0178}', '\u{0059}', '\u{0308}'), ('\u{0179}', '\u{005A}', '\u{0301}'),
    ('\u{017A}', '\u{007A}', '\u{0301}'), ('\u{017B}', '\u{005A}', '\u{0307}'), ('\u{017C}', '\u{007A}', '\u{0307}'),
    ('\u{017D}', '\u{005A}', '\u{030C}'), ('\u{017E}', '\u{007A}', '\u{030C}'), ('\u{01A0}', '\u{004F}', '\u{031B}'),
    ('\u{01A1}', '\u{006F}', '\u{031B}'), ('\u{01AF}', '\u{0055}', '\u{031B}'), ('\u{01B0}', '\u{0075}', '\u{031B}'),
    ('\u{01CD}', '\u{0041}', '\u{030C}'), ('\u{01CE}', '\u{0061}', '\u{030C}'), ('\u{01CF}', '\u{0049}', '\u{030C}'),
    ('\u{01D0}', '\u{0069}', '\u{030C}'), ('\u{01D1}', '\u{004F}', '\u{030C}'), ('\u{01D2}', '\u{006F}', '\u{030C}'),
    ('\u{01D3}', '\u{0055}', '\u{030C}'), ('\u{01D4}', '\u{0075}', '\u{030C}'), ('\u{01D5}', '\u{00DC}', '\u{0304}'),
    ('\u{01D6}', '\u{00FC}', '\u{0304}'), ('\u{01D7}', '\u{00DC}', '\u{0301}'), ('\u{01D8}', '\u{00FC}', '\u{0301}'),
    ('\u{01D9}', '\u{00DC}', '\u{030C}'), ('\u{01DA}', '\u{00FC}', '\u{030C}'), ('\u{01DB}', '\u{00DC}', '\u{0300}'),
    ('\u{01DC}', '\u{00FC}', '\u{0300}'), ('\u{01DE}', '\u{00C4}', '\u{0304}'), ('\u{01DF}', '\u{00E4}', '\u{0304}'),
    ('\u{01E0}', '\u{0226}', '\u{0304}'), ('\u{01E1}', '\u{0227}', '\u{0304}'), ('\u{01E2}', '\u{00C6}', '\u{0304}'),
    ('\u{01E3}', '\u{00E6}', '\u{0304}'), ('\u{01E6}', '\u{0047}', '\u{030C}'), ('\u{01E7}', '\u{0067}', '\u{030C}'),
    ('\u{01E8}', '\u{004B}', '\u{030C}'), ('\u{01E9}', '\u{006B}', '\u{030C}'), ('\u{01EA}', '\u{004F}', '\u{0328}'),
    ('\u{01EB}', '\u{006F}', '\u{0328}'), ('\u{01EC}', '\u{01EA}', '\u{0304}'), ('\u{01ED}', '\u{01EB}', '\u{0304}'),
    ('\u{01EE}', '\u{01B7}', '\u{030C}'), ('\u{01EF}', '\u{0292}', '\u{030C}'), ('\u{01F0}', '\u{006A}', '\u{030C}'),
    ('\u{01F4}', '\u{0047}', '\u{0301}'), ('\u{01F5}', '\u{0067}', '\u{0301}'), ('\u{01F8}', '\u{004E}', '\u{0300}'),
    ('\u{01F9}', '\u{006E}', '\u{0300}'), ('\u{01FA}', '\u{00C5}', '\u{0301}'), ('\u{01FB}', '\u{00E5}', '\u{0301}'),
    ('\u{01FC}', '\u{00C6}', '\u{0301}'), ('\u{01FD}', '\u{00E6}', '\u{0301}'), ('\u{01FE}', '\u{00D8}', '\u{0301}'),
    ('\u{01FF}', '\u{00F8}', '\u{0301}'), ('\u{0200}', '\u{0041}', '\u{030F}'), ('\u{0201}', '\u{0061}', '\u{030F}'),
    ('\u{0202}', '\u{0041}', '\u{0311}'), ('\u{0203}', '\u{0061}', '\u{0311}'), ('\u{0204}', '\u{0045}', '\u{030F}'),
    ('\u{0205}', '\u{0065}', '\u{030F}'), ('\u{0206}', '\u{0045}', '\u{0311}'), ('\u{0207}', '\u{0065}', '\u{0311}'),
    ('\u{0208}', '\u{0049}', '\u{030F}'), ('\u{0209}', '\u{0069}', '\u{030F}'), ('\u{020A}', '\u{0049}', '\u{0311}'),
    ('\u{020B}', '\u{0069}', '\u{0311}'), ('\u{020C}', '\u{004F}', '\u{030F}'), ('\u{020D}', '\u{006F}', '\u{030F}'),
    ('\u{020E}', '\u{004F}', '\u{0311}'), ('\u{020F}', '\u{006F}', '\u{0311}'), ('\u{0210}', '\u{0052}', '\u{030F}'),
    ('\u{0211}', '\u{0072}', '\u{030F}'), ('\u{0212}', '\u{0052}', '\u{0311}'), ('\u{0213}', '\u{0072}', '\u{0311}'),
    ('\u{0214}', '\u{0055}', '\u{030F}'), ('\u{0215}', '\u{0075}', '\u{030F}'), ('\u{0216}', '\u{0055}', '\u{0311}'),
    ('\u{0217}', '\u{0075}', '\u{0311}'), ('\u{0218}', '\u{0053}', '\u{0326}'), ('\u{0219}', '\u{0073}', '\u{0326}'),
    ('\u{021A}', '\u{0054}', '\u{0326}'), ('\u{021B}', '\u{0074}', '\u{0326}'), ('\u{021E}', '\u{0048}', '\u{030C}'),
    ('\u{021F}', '\u{0068}', '\u{030C}'), ('\u{0226}', '\u{0041}', '\u{0307}'), ('\u{0227}', '\u{0061}', '\u{0307}'),
    ('\u{0228}', '\u{0045}', '\u{0327}'), ('\u{0229}', '\u{0065}', '\u{0327}'), ('\u{022A}', '\u{00D6}', '\u{0304}'),
    ('\u{022B}', '\u{00F6}', '\u{0304}'), ('\u{022C}', '\u{00D5}', '\u{0304}'), ('\u{022D}', '\u{00F5}', '\u{0304}'),
    ('\u{022E}', '\u{004F}', '\u{0307}'), ('\u{022F}', '\u{006F}', '\u{0307}'), ('\u{0230}', '\u{022E}', '\u{0304}'),
    ('\u{0231}', '\u{022F}', '\u{0304}'), ('\u{0232}', '\u{0059}', '\u{0304}'), ('\u{0233}', '\u{0079}', '\u{0304}'),
    ('\u{0340}', '\u{0300}', '\0'), ('\u{0341}', '\u{0301}', '\0'), ('\u{0343}', '\u{0313}', '\0'),
    ('\u{0344}', '\u{0308}', '\u{0301}'), ('\u{0374}', '\u{02B9}', '\0'), ('\u{037E}', '\u{003B}', '\0'),
    ('\u{0385}', '\u{00A8}', '\u{0301}'), ('\u{0386}', '\u{0391}', '\u{0301}'), ('\u{0387}', '\u{00B7}', '\0'),
    ('\u{0388}', '\u{0395}', '\u{0301}'), ('\u{0389}', '\u{0397}', '\u{0301}'), ('\u{038A}', '\u{0399}', '\u{0301}'),
    ('\u{038C}', '\u{039F}', '\u{0301}'), ('\u{038E}', '\u{03A5}', '\u{0301}'), ('\u{038F}', '\u{03A9}', '\u{0301}'),
    ('\u{0390}', '\u{03CA}', '\u{0301}'), ('\u{03AA}', '\u{0399}', '\u{0308}'), ('\u{03AB}', '\u{03A5}', '\u{0308}'),
    ('\u{03AC}', '\u{03B1}', '\u{0301}'), ('\u{03AD}', '\u{03B5}', '\u{0301}'), ('\u{03AE}', '\u{03B7}', '\u{0301}'),
    ('\u{03AF}', '\u{03B9}', '\u{0301}'), ('\u{03B0}', '\u{03CB}', '\u{0301}'), ('\u{03CA}', '\u{03B9}', '\u{0308}'),
    ('\u{03CB}', '\u{03C5}', '\u{0308}'), ('\u{03CC}', '\u{03BF}', '\u{0301}'), ('\u{03CD}', '\u{03C5}', '\u{0301}'),
    ('\u{03CE}', '\u{03C9}', '\u{0301}'), ('\u{03D3}', '\u{03D2}', '\u{0301}'), ('\u{03D4}', '\u{03D2}', '\u{0308}'),
    ('\u{0400}', '\u{0415}', '\u{0300}'), ('\u{0401}', '\u{0415}', '\u{0308}'), ('\u{0403}', '\u{0413}', '\u{0301}'),
    ('\u{0407}', '\u{0406}', '\u{0308}'), ('\u{040C}', '\u{041A}', '\u{0301}'), ('\u{040D}', '\u{0418}', '\u{0300}'),
    ('\u{040E}', '\u{0423}', '\u{0306}'), ('\u{0419}', '\u{0418}', '\u{0306}'), ('\u{0439}', '\u{0438}', '\u{0306}'),
    ('\u{0450}', '\u{0435}', '\u{0300}'), ('\u{0451}', '\u{0435}', '\u{0308}'), ('\u{0453}', '\u{0433}', '\u{0301}'),
    ('\u{0457}', '\u{0456}', '\u{0308}'), ('\u{045C}', '\u{043A}', '\u{0301}'), ('\u{045D}', '\u{0438}', '\u{0300}'),
    ('\u{045E}', '\u{0443}', '\u{0306}'), ('\u{0476}', '\u{0474}', '\u{030F}'), ('\u{0477}', '\u{0475}', '\u{030F}'),
    ('\u{04C1}', '\u{0416}', '\u{0306}'), ('\u{04C2}', '\u{0436}', '\u{0306}'), ('\u{04D0}', '\u{0410}', '\u{0306}'),
    ('\u{04D1}', '\u{0430}', '\u{0306}'), ('\u{04D2}', '\u{0410}', '\u{0308}'), ('\u{04D3}', '\u{0430}', '\u{0308}'),
    ('\u{04D6}', '\u{0415}', '\u{0306}'), ('\u{04D7}', '\u{0435}', '\u{0306}'), ('\u{04DA}', '\u{04D8}', '\u{0308}'),
    ('\u{04DB}', '\u{04D9}', '\u{0308}'), ('\u{04DC}', '\u{0416}', '\u{0308}'), ('\u{04DD}', '\u{0436}', '\u{0308}'),
    ('\u{04DE}', '\u{0417}', '\u{0308}'), ('\u{04DF}', '\u{0437}', '\u{0308}'), ('\u{04E2}', '\u{0418}', '\u{0304}'),
    ('\u{04E3}', '\u{0438}', '\u{0304}'), ('\u{04E4}', '\u{0418}', '\u{0308}'), ('\u{04E5}', '\u{0438}', '\u{0308}'),
    ('\u{04E6}', '\u{041E}', '\u{0308}'), ('\u{04E7}', '\u{043E}', '\u{0308}'), ('\u{04EA}', '\u{04E8}', '\u{0308}'),
    ('\u{04EB}', '\u{04E9}', '\u{0308}'), ('\u{04EC}', '\u{042D}', '\u{0308}'), ('\u{04ED}', '\u{044D}', '\u{0308}'),
    ('\u{04EE}', '\u{0423}', '\u{0304}'), ('\u{04EF}', '\u{0443}', '\u{0304}'), ('\u{04F0}', '\u{0423}', '\u{0308}'),
    ('\u{04F1}', '\u{0443}', '\u{0308}'), ('\u{04F2}', '\u{0423}', '\u{030B}'), ('\u{04F3}', '\u{0443}', '\u{030B}'),
    ('\u{04F4}', '\u{0427}', '\u{0308}'), ('\u{04F5}', '\u{0447}', '\u{0308}'), ('\u{04F8}', '\u{042B}', '\u{0308}'),
    ('\u{04F9}', '\u{044B}', '\u{0308}'), ('\u{0622}', '\u{0627}', '\u{0653}'), ('\u{0623}', '\u{0627}', '\u{0654}'),
    ('\u{0624}', '\u{0648}', '\u{0654}'), ('\u{0625}', '\u{0627}', '\u{0655}'), ('\u{0626}', '\u{064A}', '\u{0654}'),
    ('\u{06C0}', '\u{06D5}', '\u{0654}'), ('\u{06C2}', '\u{06C1}', '\u{0654}'), ('\u{06D3}', '\u{06D2}', '\u{0654}'),
    ('\u{0929}', '\u{0928}', '\u{093C}'), ('\u{0931}', '\u{0930}', '\u{093C}'), ('\u{0934}', '\u{0933}', '\u{093C}'),
    ('\u{0958}', '\u{0915}', '\u{093C}'), ('\u{0959}', '\u{0916}', '\u{093C}'), ('\u{095A}', '\u{0917}', '\u{093C}'),
    ('\u{095B}', '\u{091C}', '\u{093C}'), ('\u{095C}', '\u{0921}', '\u{093C}'), ('\u{095D}', '\u{0922}', '\u{093C}'),
    ('\u{095E}', '\u{092B}', '\u{093C}'), ('\u{095F}', '\u{092F}', '\u{093C}'), ('\u{09CB}', '\u{09C7}', '\u{09BE}'),
    ('\u{09CC}', '\u{09C7}', '\u{09D7}'), ('\u{09DC}', '\u{09A1}', '\u{09BC}'), ('\u{09DD}', '\u{09A2}', '\u{09BC}'),
    ('\u{09DF}', '\u{09AF}', '\u{09BC}'), ('\u{0A33}', '\u{0A32}', '\u{0A3C}'), ('\u{0A36}', '\u{0A38}', '\u{0A3C}'),
    ('\u{0A59}', '\u{0A16}', '\u{0A3C}'), ('\u{0A5A}', '\u{0A17}', '\u{0A3C}'), ('\u{0A5B}', '\u{0A1C}', '\u{0A3C}'),
    ('\u{0A5E}', '\u{0A2B}', '\u{0A3C}'), ('\u{0B48}', '\u{0B47}', '\u{0B56}'), ('\u{0B4B}', '\u{0B47}', '\u{0B3E}'),
    ('\u{0B4C}', '\u{0B47}', '\u{0B57}'), ('\u{0B5C}', '\u{0B21}', '\u{0B3C}'), ('\u{0B5D}', '\u{0B22}', '\u{0B3C}'),
    ('\u{0B94}', '\u{0B92}', '\u{0BD7}'), ('\u{0BCA}', '\u{0BC6}', '\u{0BBE}'), ('\u{0BCB}', '\u{0BC7}', '\u{0BBE}'),
    ('\u{0BCC}', '\u{0BC6}', '\u{0BD7}'), ('\u{0C48}', '\u{0C46}', '\u{0C56}'), ('\u{0CC0}', '\u{0CBF}', '\u{0CD5}'),
    ('\u{0CC7}', '\u{0CC6}', '\u{0CD5}'), ('\u{0CC8}', '\u{0CC6}', '\u{0CD6}'), ('\u{0CCA}', '\u{0CC6}', '\u{0CC2}'),
    ('\u{0CCB}', '\u{0CCA}', '\u{0CD5}'), ('\u{0D4A}', '\u{0D46}', '\u{0D3E}'), ('\u{0D4B}', '\u{0D47}', '\u{0D3E}'),
    ('\u{0D4C}', '\u{0D46}', '\u{0D57}'), ('\u{0DDA}', '\u{0DD9}', '\u{0DCA}'), ('\u{0DDC}', '\u{0DD9}', '\u{0DCF}'),
    ('\u{0DDD}', '\u{0DDC}', '\u{0DCA}'), ('\u{0DDE}', '\u{0DD9}', '\u{0DDF}'), ('\u{0F43}', '\u{0F42}', '\u{0FB7}'),
    ('\u{0F4D}', '\u{0F4C}', '\u{0FB7}'), ('\u{0F52}', '\u{0F51}', '\u{0FB7}'), ('\u{0F57}', '\u{0F56}', '\u{0FB7}'),
    ('\u{0F5C}', '\u{0F5B}', '\u{0FB7}'), ('\u{0F69}', '\u{0F40}', '\u{0FB5}'), ('\u{0F73}', '\u{0F71}', '\u{0F72}'),
    ('\u{0F75}', '\u{0F71}', '\u{0F74}'), ('\u{0F76}', '\u{0FB2}', '\u{0F80}'), ('\u{0F78}', '\u{0FB3}', '\u{0F80}'),
    ('\u{0F81}', '\u{0F71}', '\u{0F80}'), ('\u{0F93}', '\u{0F92}', '\u{0FB7}'), ('\u{0F9D}', '\u{0F9C}', '\u{0FB7}'),
    ('\u{0FA2}', '\u{0FA1}', '\u{0FB7}'), ('\u{0FA7}', '\u{0FA6}', '\u{0FB7}'), ('\u{0FAC}', '\u{0FAB}', '\u{0FB7}'),
    ('\u{0FB9}', '\u{0F90}', '\u{0FB5}'), ('\u{1026}', '\u{1025}', '\u{102E}'), ('\u{1B06}', '\u{1B05}', '\u{1B35}'),
    ('\u{1B08}', '\u{1B07}', '\u{1B35}'), ('\u{1B0A}', '\u{1B09}', '\u{1B35}'), ('\u{1B0C}', '\u{1B0B}', '\u{1B35}'),
    ('\u{1B0E}', '\u{1B0D}', '\u{1B35}'), ('\u{1B12}', '\u{1B11}', '\u{1B35}'), ('\u{1B3B}', '\u{1B3A}', '\u{1B35}'),
    ('\u{1B3D}', '\u{1B3C}', '\u{1B35}'), ('\u{1B40}', '\u{1B3E}', '\u{1B35}'), ('\u{1B41}', '\u{1B3F}', '\u{1B35}'),
    ('\u{1B43}', '\u{1B42}', '\u{1B35}'), ('\u{1E00}', '\u{0041}', '\u{0325}'), ('\u{1E01}', '\u{0061}', '\u{0325}'),
    ('\u{1E02}', '\u{0042}', '\u{0307}'), ('\u{1E03}', '\u{0062}', '\u{0307}'), ('\u{1E04}', '\u{0042}', '\u{0323}'),
    ('\u{1E05}', '\u{0062}', '\u{0323}'), ('\u{1E06}', '\u{0042}', '\u{0331}'), ('\u{1E07}', '\u{0062}', '\u{0331}'),
    ('\u{1E08}', '\u{00C7}', '\u{0301}'), ('\u{1E09}', '\u{00E7}', '\u{0301}'), ('\u{1E0A}', '\u{0044}', '\u{0307}'),
    ('\u{1E0B}', '\u{0064}', '\u{0307}'), ('\u{1E0C}', '\u{0044}', '\u{0323}'), ('\u{1E0D}', '\u{0064}', '\u{0323}'),
    ('\u{1E0E}', '\u{0044}', '\u{0331}'), ('\u{1E0F}', '\u{0064}', '\u{0331}'), ('\u{1E10}', '\u{0044}', '\u{0327}'),
    ('\u{1E11}', '\u{0064}', '\u{0327}'), ('\u{1E12}', '\u{0044}', '\u{032D}'), ('\u{1E13}', '\u{0064}', '\u{032D}'),
    ('\u{1E14}', '\u{0112}', '\u{0300}'), ('\u{1E15}', '\u{0113}', '\u{0300}'), ('\u{1E16}', '\u{0112}', '\u{0301}'),
    ('\u{1E17}', '\u{0113}', '\u{0301}'), ('\u{1E18}', '\u{0045}', '\u{032D}'), ('\u{1E19}', '\u{0065}', '\u{032D}'),
    ('\u{1E1A}', '\u{0045}', '\u{0330}'), ('\u{1E1B}', '\u{0065}', '\u{0330}'), ('\u{1E1C}', '\u{0228}', '\u{0306}'),
    ('\u{1E1D}', '\u{0229}', '\u{0306}'), ('\u{1E1E}', '\u{0046}', '\u{0307}'), ('\u{1E1F}', '\u{0066}', '\u{0307}'),
    ('\u{1E20}', '\u{0047}', '\u{0304}'), ('\u{1E21}', '\u{0067}', '\u{0304}'), ('\u{1E22}', '\u{0048}', '\u{0307}'),
    ('\u{1E23}', '\u{0068}', '\u{0307}'), ('\u{1E24}', '\u{0048}', '\u{0323}'), ('\u{1E25}', '\u{0068}', '\u{0323}'),
    ('\u{1E26}', '\u{0048}', '\u{0308}'), ('\u{1E27}', '\u{0068}', '\u{0308}'), ('\u{1E28}', '\u{0048}', '\u{0327}'),
    ('\u{1E29}', '\u{0068}', '\u{0327}'), ('\u{1E2A}', '\u{0048}', '\u{032E}'), ('\u{1E2B}', '\u{0068}', '\u{032E}'),
    ('\u{1E2C}', '\u{0049}', '\u{0330}'), ('\u{1E2D}', '\u{0069}', '\u{0330}'), ('\u{1E2E}', '\u{00CF}', '\u{0301}'),
    ('\u{1E2F}', '\u{00EF}', '\u{0301}'), ('\u{1E30}', '\u{004B}', '\u{0301}'), ('\u{1E31}', '\u{006B}', '\u{0301}'),
    ('\u{1E32}', '\u{004B}', '\u{0323}'), ('\u{1E33}', '\u{006B}', '\u{0323}'), ('\u{1E34}', '\u{004B}', '\u{0331}'),
    ('\u{1E35}', '\u{006B}', '\u{0331}'), ('\u{1E36}', '\u{004C}', '\u{0323}'), ('\u{1E37}', '\u{006C}', '\u{0323}'),
    ('\u{1E38}', '\u{1E36}', '\u{0304}'), ('\u{1E39}', '\u{1E37}', '\u{0304}'), ('\u{1E3A}', '\u{004C}', '\u{0331}'),
    ('\u{1E3B}', '\u{006C}', '\u{0331}'), ('\u{1E3C}', '\u{004C}', '\u{032D}'), ('\u{1E3D}', '\u{006C}', '\u{032D}'),
    ('\u{1E3E}', '\u{004D}', '\u{0301}'), ('\u{1E3F}', '\u{006D}', '\u{0301}'), ('\u{1E40}', '\u{004D}', '\u{0307}'),
    ('\u{1E41}', '\u{006D}', '\u{0307}'), ('\u{1E42}', '\u{004D}', '\u{0323}'), ('\u{1E43}', '\u{006D}', '\u{0323}'),
    ('\u{1E44}', '\u{004E}', '\u{0307}'), ('\u{1E45}', '\u{006E}', '\u{0307}'), ('\u{1E46}', '\u{004E}', '\u{0323}'),
    ('\u{1E47}', '\u{006E}', '\u{0323}'), ('\u{1E48}', '\u{004E}', '\u{0331}'), ('\u{1E49}', '\u{006E}', '\u{0331}'),
    ('\u{1E4A}', '\u{004E}', '\u{032D}'), ('\u{1E4B}', '\u{006E}', '\u{032D}'), ('\u{1E4C}', '\u{00D5}', '\u{0301}'),
    ('\u{1E4D}', '\u{00F5}', '\u{0301}'), ('\u{1E4E}', '\u{00D5}', '\u{0308}'), ('\u{1E4F}', '\u{00F5}', '\u{0308}'),
    ('\u{1E50}', '\u{014C}', '\u{0300}'), ('\u{1E51}', '\u{014D}', '\u{0300}'), ('\u{1E52}', '\u{014C}', '\u{0301}'),
    ('\u{1E53}', '\u{014D}', '\u{0301}'), ('\u{1E54}', '\u{0050}', '\u{0301}'), ('\u{1E55}', '\u{0070}', '\u{0301}'),
    ('\u{1E56}', '\u{0050}', '\u{0307}'), ('\u{1E57}', '\u{0070}', '\u{0307}'), ('\u{1E58}', '\u{0052}', '\u{0307}'),
    ('\u{1E59}', '\u{0072}', '\u{0307}'), ('\u{1E5A}', '\u{0052}', '\u{0323}'), ('\u{1E5B}', '\u{0072}', '\u{0323}'),
    ('\u{1E5C}', '\u{1E5A}', '\u{0304}'), ('\u{1E5D}', '\u{1E5B}', '\u{0304}'), ('\u{1E5E}', '\u{0052}', '\u{0331}'),
    ('\u{1E5F}', '\u{0072}', '\u{0331}'), ('\u{1E60}', '\u{0053}', '\u{0307}'), ('\u{1E61}', '\u{0073}', '\u{0307}'),
    ('\u{1E62}', '\u{0053}', '\u{0323}'), ('\u{1E63}', '\u{0073}', '\u{0323}'), ('\u{1E64}', '\u{015A}', '\u{0307}'),
    ('\u{1E65}', '\u{015B}', '\u{0307}'), ('\u{1E66}', '\u{0160}', '\u{0307}'), ('\u{1E67}', '\u{0161}', '\u{0307}'),
    ('\u{1E68}', '\u{1E62}', '\u{0307}'), ('\u{1E69}', '\u{1E63}', '\u{0307}'), ('\u{1E6A}', '\u{0054}', '\u{0307}'),
    ('\u{1E6B}', '\u{0074}', '\u{0307}'), ('\u{1E6C}', '\u{0054}', '\u{0323}'), ('\u{1E6D}', '\u{0074}', '\u{0323}'),
    ('\u{1E6E}', '\u{0054}', '\u{0331}'), ('\u{1E6F}', '\u{0074}', '\u{0331}'), ('\u{1E70}', '\u{0054}', '\u{032D}'),
    ('\u{1E71}', '\u{0074}', '\u{032D}'), ('\u{1E72}', '\u{0055}', '\u{0324}'), ('\u{1E73}', '\u{0075}', '\u{0324}'),
    ('\u{1E74}', '\u{0055}', '\u{0330}'), ('\u{1E75}', '\u{0075}', '\u{0330}'), ('\u{1E76}', '\u{0055}', '\u{032D}'),
    ('\u{1E77}', '\u{0075}', '\u{032D}'), ('\u{1E78}', '\u{0168}', '\u{0301}'), ('\u{1E79}', '\u{0169}', '\u{0301}'),
    ('\u{1E7A}', '\u{016A}', '\u{0308}'), ('\u{1E7B}', '\u{016B}', '\u{0308}'), ('\u{1E7C}', '\u{0056}', '\u{0303}'),
    ('\u{1E7D}', '\u{0076}', '\u{0303}'), ('\u{1E7E}', '\u{0056}', '\u{0323}'), ('\u{1E7F}', '\u{0076}', '\u{0323}'),
    ('\u{1E80}', '\u{0057}', '\u{0300}'), ('\u{1E81}', '\u{0077}', '\u{0300}'), ('\u{1E82}', '\u{0057}', '\u{0301}'),
    ('\u{1E83}', '\u{0077}', '\u{0301}'), ('\u{1E84}', '\u{0057}', '\u{0308}'), ('\u{1E85}', '\u{0077}', '\u{0308}'),
    ('\u{1E86}', '\u{0057}', '\u{0307}'), ('\u{1E87}', '\u{0077}', '\u{0307}'), ('\u{1E88}', '\u{0057}', '\u{0323}'),
    ('\u{1E89}', '\u{0077}', '\u{0323}'), ('\u{1E8A}', '\u{0058}', '\u{0307}'), ('\u{1E8B}', '\u{0078}', '\u{0307}'),
    ('\u{1E8C}', '\u{0058}', '\u{0308}'), ('\u{1E8D}', '\u{0078}', '\u{0308}'), ('\u{1E8E}', '\u{0059}', '\u{0307}'),
    ('\u{1E8F}', '\u{0079}', '\u{0307}'), ('\u{1E90}', '\u{005A}', '\u{0302}'), ('\u{1E91}', '\u{007A}', '\u{0302}'),
    ('\u{1E92}', '\u{005A}', '\u{0323}'), ('\u{1E93}', '\u{007A}', '\u{0323}'), ('\u{1E94}', '\u{005A}', '\u{0331}'),
    ('\u{1E95}', '\u{007A}', '\u{0331}'), ('\u{1E96}', '\u{0068}', '\u{0331}'), ('\u{1E97}', '\u{0074}', '\u{0308}'),
    ('\u{1E98}', '\u{0077}', '\u{030A}'), ('\u{1E99}', '\u{0079}', '\u{030A}'), ('\u{1E9B}', '\u{017F}', '\u{0307}'),
    ('\u{1EA0}', '\u{0041}', '\u{0323}'), ('\u{1EA1}', '\u{0061}', '\u{0323}'), ('\u{1EA2}', '\u{0041}', '\u{0309}'),
    ('\u{1EA3}', '\u{0061}', '\u{0309}'), ('\u{1EA4}', '\u{00C2}', '\u{0301}'), ('\u{1EA5}', '\u{00E2}', '\u{0301}'),
    ('\u{1EA6}', '\u{00C2}', '\u{0300}'), ('\u{1EA7}', '\u{00E2}', '\u{0300}'), ('\u{1EA8}', '\u{00C2}', '\u{0309}'),
    ('\u{1EA9}', '\u{00E2}', '\u{0309}'), ('\u{1EAA}', '\u{00C2}', '\u{0303}'), ('\u{1EAB}', '\u{00E2}', '\u{0303}'),
    ('\u{1EAC}', '\u{1EA0}', '\u{0302}'), ('\u{1EAD}', '\u{1EA1}', '\u{0302}'), ('\u{1EAE}', '\u{0102}', '\u{0301}'),
    ('\u{1EAF}', '\u{0103}', '\u{0301}'), ('\u{1EB0}', '\u{0102}', '\u{0300}'), ('\u{1EB1}', '\u{0103}', '\u{0300}'),
    ('\u{1EB2}', '\u{0102}', '\u{0309}'), ('\u{1EB3}', '\u{0103}', '\u{0309}'), ('\u{1EB4}', '\u{0102}', '\u{0303}'),
    ('\u{1EB5}', '\u{0103}', '\u{0303}'), ('\u{1EB6}', '\u{1EA0}', '\u{0306}'), ('\u{1EB7}', '\u{1EA1}', '\u{0306}'),
    ('\u{1EB8}', '\u{0045}', '\u{0323}'), ('\u{1EB9}', '\u{0065}', '\u{0323}'), ('\u{1EBA}', '\u{0045}', '\u{0309}'),
    ('\u{1EBB}', '\u{0065}', '\u{0309}'), ('\u{1EBC}', '\u{0045}', '\u{0303}'), ('\u{1EBD}', '\u{0065}', '\u{0303}'),
    ('\u{1EBE}', '\u{00CA}', '\u{0301}'), ('\u{1EBF}', '\u{00EA}', '\u{0301}'), ('\u{1EC0}', '\u{00CA}', '\u{0300}'),
    ('\u{1EC1}', '\u{00EA}', '\u{0300}'), ('\u{1EC2}', '\u{00CA}', '\u{0309}'), ('\u{1EC3}', '\u{00EA}', '\u{0309}'),
    ('\u{1EC4}', '\u{00CA}', '\u{0303}'), ('\u{1EC5}', '\u{00EA}', '\u{0303}'), ('\u{1EC6}', '\u{1EB8}', '\u{0302}'),
    ('\u{1EC7}', '\u{1EB9}', '\u{0302}'), ('\u{1EC8}', '\u{0049}', '\u{0309}'), ('\u{1EC9}', '\u{0069}', '\u{0309}'),
    ('\u{1ECA}', '\u{0049}', '\u{0323}'), ('\u{1ECB}', '\u{0069}', '\u{0323}'), ('\u{1ECC}', '\u{004F}', '\u{0323}'),
    ('\u{1ECD}', '\u{006F}', '\u{0323}'), ('\u{1ECE}', '\u{004F}', '\u{0309}'), ('\u{1ECF}', '\u{006F}', '\u{0309}'),
    ('\u{1ED0}', '\u{00D4}', '\u{0301}'), ('\u{1ED1}', '\u{00F4}', '\u{0301}'), ('\u{1ED2}', '\u{00D4}', '\u{0300}'),
    ('\u{1ED3}', '\u{00F4}', '\u{0300}'), ('\u{1ED4}', '\u{00D4}', '\u{0309}'), ('\u{1ED5}', '\u{00F4}', '\u{0309}'),
    ('\u{1ED6}', '\u{00D4}', '\u{0303}'), ('\u{1ED7}', '\u{00F4}', '\u{0303}'), ('\u{1ED8}', '\u{1ECC}', '\u{0302}'),
    ('\u{1ED9}', '\u{1ECD}', '\u{0302}'), ('\u{1EDA}', '\u{01A0}', '\u{0301}'), ('\u{1EDB}', '\u{01A1}', '\u{0301}'),
    ('\u{1EDC}', '\u{01A0}', '\u{0300}'), ('\u{1EDD}', '\u{01A1}', '\u{0300}'), ('\u{1EDE}', '\u{01A0}', '\u{0309}'),
    ('\u{1EDF}', '\u{01A1}', '\u{0309}'), ('\u{1EE0}', '\u{01A0}', '\u{0303}'), ('\u{1EE1}', '\u{01A1}', '\u{0303}'),
    ('\u{1EE2}', '\u{01A0}', '\u{0323}'), ('\u{1EE3}', '\u{01A1}', '\u{0323}'), ('\u{1EE4}', '\u{0055}', '\u{0323}'),
    ('\u{1EE5}', '\u{0075}', '\u{0323}'), ('\u{1EE6}', '\u{0055}', '\u{0309}'), ('\u{1EE7}', '\u{0075}', '\u{0309}'),
    ('\u{1EE8}', '\u{01AF}', '\u{0301}'), ('\u{1EE9}', '\u{01B0}', '\u{0301}'), ('\u{1EEA}', '\u{01AF}', '\u{0300}'),
    ('\u{1EEB}', '\u{01B0}', '\u{0300}'), ('\u{1EEC}', '\u{01AF}', '\u{0309}'), ('\u{1EED}', '\u{01B0}', '\u{0309}'),
    ('\u{1EEE}', '\u{01AF}', '\u{0303}'), ('\u{1EEF}', '\u{01B0}', '\u{0303}'), ('\u{1EF0}', '\u{01AF}', '\u{0323}'),
    ('\u{1EF1}', '\u{01B0}', '\u{0323}'), ('\u{1EF2}', '\u{0059}', '\u{0300}'), ('\u{1EF3}', '\u{0079}', '\u{0300}'),
    ('\u{1EF4}', '\u{0059}', '\u{0323}'), ('\u{1EF5}', '\u{0079}', '\u{0323}'), ('\u{1EF6}', '\u{0059}', '\u{0309}'),
    ('\u{1EF7}', '\u{0079}', '\u{0309}'), ('\u{1EF8}', '\u{0059}', '\u{0303}'), ('\u{1EF9}', '\u{0079}', '\u{0303}'),
    ('\u{1F00}', '\u{03B1}', '\u{0313}'), ('\u{1F01}', '\u{03B1}', '\u{0314}'), ('\u{1F02}', '\u{1F00}', '\u{0300}'),
    ('\u{1F03}', '\u{1F01}', '\u{0300}'), ('\u{1F04}', '\u{1F00}', '\u{0301}'), ('\u{1F05}', '\u{1F01}', '\u{0301}'),
    ('\u{1F06}', '\u{1F00}', '\u{0342}'), ('\u{1F07}', '\u{1F01}', '\u{0342}'), ('\u{1F08}', '\u{0391}', '\u{0313}'),
    ('\u{1F09}', '\u{0391}', '\u{0314}'), ('\u{1F0A}', '\u{1F08}', '\u{0300}'), ('\u{1F0B}', '\u{1F09}', '\u{0300}'),
    ('\u{1F0C}', '\u{1F08}', '\u{0301}'), ('\u{1F0D}', '\u{1F09}', '\u{0301}'), ('\u{1F0E}', '\u{1F08}', '\u{0342}'),
    ('\u{1F0F}', '\u{1F09}', '\u{0342}'), ('\u{1F10}', '\u{03B5}', '\u{0313}'), ('\u{1F11}', '\u{03B5}', '\u{0314}'),
    ('\u{1F12}', '\u{1F10}', '\u{0300}'), ('\u{1F13}', '\u{1F11}', '\u{0300}'), ('\u{1F14}', '\u{1F10}', '\u{0301}'),
    ('\u{1F15}', '\u{1F11}', '\u{0301}'), ('\u{1F18}', '\u{0395}', '\u{0313}'), ('\u{1F19}', '\u{0395}', '\u{0314}'),
    ('\u{1F1A}', '\u{1F18}', '\u{0300}'), ('\u{1F1B}', '\u{1F19}', '\u{0300}'), ('\u{1F1C}', '\u{1F18}', '\u{0301}'),
    ('\u{1F1D}', '\u{1F19}', '\u{0301}'), ('\u{1F20}', '\u{03B7}', '\u{0313}'), ('\u{1F21}', '\u{03B7}', '\u{0314}'),
    ('\u{1F22}', '\u{1F20}', '\u{0300}'), ('\u{1F23}', '\u{1F21}', '\u{0300}'), ('\u{1F24}', '\u{1F20}', '\u{0301}'),
    ('\u{1F25}', '\u{1F21}', '\u{0301}'), ('\u{1F26}', '\u{1F20}', '\u{0342}'), ('\u{1F27}', '\u{1F21}', '\u{0342}'),
    ('\u{1F28}', '\u{0397}', '\u{0313}'), ('\u{1F29}', '\u{0397}', '\u{0314}'), ('\u{1F2A}', '\u{1F28}', '\u{0300}'),
    ('\u{1F2B}', '\u{1F29}', '\u{0300}'), ('\u{1F2C}', '\u{1F28}', '\u{0301}'), ('\u{1F2D}', '\u{1F29}', '\u{0301}'),
    ('\u{1F2E}', '\u{1F28}', '\u{0342}'), ('\u{1F2F}', '\u{1F29}', '\u{0342}'), ('\u{1F30}', '\u{03B9}', '\u{0313}'),
    ('\u{1F31}', '\u{03B9}', '\u{0314}'), ('\u{1F32}', '\u{1F30}', '\u{0300}'), ('\u{1F33}', '\u{1F31}', '\u{0300}'),
    ('\u{1F34}', '\u{1F30}', '\u{0301}'), ('\u{1F35}', '\u{1F31}', '\u{0301}'), ('\u{1F36}', '\u{1F30}', '\u{0342}'),
    ('\u{1F37}', '\u{1F31}', '\u{0342}'), ('\u{1F38}', '\u{0399}', '\u{0313}'), ('\u{1F39}', '\u{0399}', '\u{0314}'),
    ('\u{1F3A}', '\u{1F38}', '\u{0300}'), ('\u{1F3B}', '\u{1F39}', '\u{0300}'), ('\u{1F3C}', '\u{1F38}', '\u{0301}'),
    ('\u{1F3D}', '\u{1F39}', '\u{0301}'), ('\u{1F3E}', '\u{1F38}', '\u{0342}'), ('\u{1F3F}', '\u{1F39}', '\u{0342}'),
    ('\u{1F40}', '\u{03BF}', '\u{0313}'), ('\u{1F41}', '\u{03BF}', '\u{0314}'), ('\u{1F42}', '\u{1F40}', '\u{0300}'),
    ('\u{1F43}', '\u{1F41}', '\u{0300}'), ('\u{1F44}', '\u{1F40}', '\u{0301}'), ('\u{1F45}', '\u{1F41}', '\u{0301}'),
    ('\u{1F48}', '\u{039F}', '\u{0313}'), ('\u{1F49}', '\u{039F}', '\u{0314}'), ('\u{1F4A}', '\u{1F48}', '\u{0300}'),
    ('\u{1F4B}', '\u{1F49}', '\u{0300}'), ('\u{1F4C}', '\u{1F48}', '\u{0301}'), ('\u{1F4D}', '\u{1F49}', '\u{0301}'),
    ('\u{1F50}', '\u{03C5}', '\u{0313}'), ('\u{1F51}', '\u{03C5}', '\u{0314}'), ('\u{1F52}', '\u{1F50}', '\u{0300}'),
    ('\u{1F53}', '\u{1F51}', '\u{0300}'), ('\u{1F54}', '\u{1F50}', '\u{0301}'), ('\u{1F55}', '\u{1F51}', '\u{0301}'),
    ('\u{1F56}', '\u{1F50}', '\u{0342}'), ('\u{1F57}', '\u{1F51}', '\u{0342}'), ('\u{1F59}', '\u{03A5}', '\u{0314}'),
    ('\u{1F5B}', '\u{1F59}', '\u{0300}'), ('\u{1F5D}', '\u{1F59}', '\u{0301}'), ('\u{1F5F}', '\u{1F59}', '\u{0342}'),
    ('\u{1F60}', '\u{03C9}', '\u{0313}'), ('\u{1F61}', '\u{03C9}', '\u{0314}'), ('\u{1F62}', '\u{1F60}', '\u{0300}'),
    ('\u{1F63}', '\u{1F61}', '\u{0300}'), ('\u{1F64}', '\u{1F60}', '\u{0301}'), ('\u{1F65}', '\u{1F61}', '\u{0301}'),
    ('\u{1F66}', '\u{1F60}', '\u{0342}'), ('\u{1F67}', '\u{1F61}', '\u{0342}'), ('\u{1F68}', '\u{03A9}', '\u{0313}'),
    ('\u{1F69}', '\u{03A9}', '\u{0314}'), ('\u{1F6A}', '\u{1F68}', '\u{0300}'), ('\u{1F6B}', '\u{1F69}', '\u{0300}'),
    ('\u{1F6C}', '\u{1F68}', '\u{0301}'), ('\u{1F6D}', '\u{1F69}', '\u{0301}'), ('\u{1F6E}', '\u{1F68}', '\u{0342}'),
    ('\u{1F6F}', '\u{1F69}', '\u{0342}'), ('\u{1F70}', '\u{03B1}', '\u{0300}'), ('\u{1F71}', '\u{03AC}', '\0'),
    ('\u{1F72}', '\u{03B5}', '\u{0300}'), ('\u{1F73}', '\u{03AD}', '\0'), ('\u{1F74}', '\u{03B7}', '\u{0300}'),
    ('\u{1F75}', '\u{03AE}', '\0'), ('\u{1F76}', '\u{03B9}', '\u{0300}'), ('\u{1F77}', '\u{03AF}', '\0'),
    ('\u{1F78}', '\u{03BF}', '\u{0300}'), ('\u{1F79}', '\u{03CC}', '\0'), ('\u{1F7A}', '\u{03C5}', '\u{0300}'),
    ('\u{1F7B}', '\u{03CD}', '\0'), ('\u{1F7C}', '\u{03C9}', '\u{0300}'), ('\u{1F7D}', '\u{03CE}', '\0'),
    ('\u{1F80}', '\u{1F00}', '\u{0345}'), ('\u{1F81}', '\u{1F01}', '\u{0345}'), ('\u{1F82}', '\u{1F02}', '\u{0345}'),
    ('\u{1F83}', '\u{1F03}', '\u{0345}'), ('\u{1F84}', '\u{1F04}', '\u{0345}'), ('\u{1F85}', '\u{1F05}', '\u{0345}'),
    ('\u{1F86}', '\u{1F06}', '\u{0345}'), ('\u{1F87}', '\u{1F07}', '\u{0345}'), ('\u{1F88}', '\u{1F08}', '\u{0345}'),
    ('\u{1F89}', '\u{1F09}', '\u{0345}'), ('\u{1F8A}', '\u{1F0A}', '\u{0345}'), ('\u{1F8B}', '\u{1F0B}', '\u{0345}'),
    ('\u{1F8C}', '\u{1F0C}', '\u{0345}'), ('\u{1F8D}', '\u{1F0D}', '\u{0345}'), ('\u{1F8E}', '\u{1F0E}', '\u{0345}'),
    ('\u{1F8F}', '\u{1F0F}', '\u{0345}'), ('\u{1F90}', '\u{1F20}', '\u{0345}'), ('\u{1F91}', '\u{1F21}', '\u{0345}'),
    ('\u{1F92}', '\u{1F22}', '\u{0345}'), ('\u{1F93}', '\u{1F23}', '\u{0345}'), ('\u{1F94}', '\u{1F24}', '\u{0345}'),
    ('\u{1F95}', '\u{1F25}', '\u{0345}'), ('\u{1F96}', '\u{1F26}', '\u{0345}'), ('\u{1F97}', '\u{1F27}', '\u{0345}'),
    ('\u{1F98}', '\u{1F28}', '\u{0345}'), ('\u{1F99}', '\u{1F29}', '\u{0345}'), ('\u{1F9A}', '\u{1F2A}', '\u{0345}'),
    ('\u{1F9B}', '\u{1F2B}', '\u{0345}'), ('\u{1F9C}', '\u{1F2C}', '\u{0345}'), ('\u{1F9D}', '\u{1F2D}', '\u{0345}'),
    ('\u{1F9E}', '\u{1F2E}', '\u{0345}'), ('\u{1F9F}', '\u{1F2F}', '\u{0345}'), ('\u{1FA0}', '\u{1F60}', '\u{0345}'),
    ('\u{1FA1}', '\u{1F61}', '\u{0345}'), ('\u{1FA2}', '\u{1F62}', '\u{0345}'), ('\u{1FA3}', '\u{1F63}', '\u{0345}'),
    ('\u{1FA4}', '\u{1F64}', '\u{0345}'), ('\u{1FA5}', '\u{1F65}', '\u{0345}'), ('\u{1FA6}', '\u{1F66}', '\u{0345}'),
    ('\u{1FA7}', '\u{1F67}', '\u{0345}'), ('\u{1FA8}', '\u{1F68}', '\u{0345}'), ('\u{1FA9}', '\u{1F69}', '\u{0345}'),
    ('\u{1FAA}', '\u{1F6A}', '\u{0345}'), ('\u{1FAB}', '\u{1F6B}', '\u{0345}'), ('\u{1FAC}', '\u{1F6C}', '\u{0345}'),
    ('\u{1FAD}', '\u{1F6D}', '\u{0345}'), ('\u{1FAE}', '\u{1F6E}', '\u{0345}'), ('\u{1FAF}', '\u{1F6F}', '\u{0345}'),
    ('\u{1FB0}', '\u{03B1}', '\u{0306}'), ('\u{1FB1}', '\u{03B1}', '\u{0304}'), ('\u{1FB2}', '\u{1F70}', '\u{0345}'),
    ('\u{1FB3}', '\u{03B1}', '\u{0345}'), ('\u{1FB4}', '\u{03AC}', '\u{0345}'), ('\u{1FB6}', '\u{03B1}', '\u{0342}'),
    ('\u{1FB7}', '\u{1FB6}', '\u{0345}'), ('\u{1FB8}', '\u{0391}', '\u{0306}'), ('\u{1FB9}', '\u{0391}', '\u{0304}'),
    ('\u{1FBA}', '\u{0391}', '\u{0300}'), ('\u{1FBB}', '\u{0386}', '\0'), ('\u{1FBC}', '\u{0391}', '\u{0345}'),
    ('\u{1FBE}', '\u{03B9}', '\0'), ('\u{1FC1}', '\u{00A8}', '\u{0342}'), ('\u{1FC2}', '\u{1F74}', '\u{0345}'),
    ('\u{1FC3}', '\u{03B7}', '\u{0345}'), ('\u{1FC4}', '\u{03AE}', '\u{0345}'), ('\u{1FC6}', '\u{03B7}', '\u{0342}'),
    ('\u{1FC7}', '\u{1FC6}', '\u{0345}'), ('\u{1FC8}', '\u{0395}', '\u{0300}'), ('\u{1FC9}', '\u{0388}', '\0'),
    ('\u{1FCA}', '\u{0397}', '\u{0300}'), ('\u{1FCB}', '\u{0389}', '\0'), ('\u{1FCC}', '\u{0397}', '\u{0345}'),
    ('\u{1FCD}', '\u{1FBF}', '\u{0300}'), ('\u{1FCE}', '\u{1FBF}', '\u{0301}'), ('\u{1FCF}', '\u{1FBF}', '\u{0342}'),
    ('\u{1FD0}', '\u{03B9}', '\u{0306}'), ('\u{1FD1}', '\u{03B9}', '\u{0304}'), ('\u{1FD2}', '\u{03CA}', '\u{0300}'),
    ('\u{1FD3}', '\u{0390}', '\0'), ('\u{1FD6}', '\u{03B9}', '\u{0342}'), ('\u{1FD7}', '\u{03CA}', '\u{0342}'),
    ('\u{1FD8}', '\u{0399}', '\u{0306}'), ('\u{1FD9}', '\u{0399}', '\u{0304}'), ('\u{1FDA}', '\u{0399}', '\u{0300}'),
    ('\u{1FDB}', '\u{038A}', '\0'), ('\u{1FDD}', '\u{1FFE}', '\u{0300}'), ('\u{1FDE}', '\u{1FFE}', '\u{0301}'),
    ('\u{1FDF}', '\u{1FFE}', '\u{0342}'), ('\u{1FE0}', '\u{03C5}', '\u{0306}'), ('\u{1FE1}', '\u{03C5}', '\u{0304}'),
    ('\u{1FE2}', '\u{03CB}', '\u{0300}'), ('\u{1FE3}', '\u{03B0}', '\0'), ('\u{1FE4}', '\u{03C1}', '\u{0313}'),
    ('\u{1FE5}', '\u{03C1}', '\u{0314}'), ('\u{1FE6}', '\u{03C5}', '\u{0342}'), ('\u{1FE7}', '\u{03CB}', '\u{0342}'),
    ('\u{1FE8}', '\u{03A5}', '\u{0306}'), ('\u{1FE9}', '\u{03A5}', '\u{0304}'), ('\u{1FEA}', '\u{03A5}', '\u{0300}'),
    ('\u{1FEB}', '\u{038E}', '\0'), ('\u{1FEC}', '\u{03A1}', '\u{0314}'), ('\u{1FED}', '\u{00A8}', '\u{0300}'),
    ('\u{1FEE}', '\u{0385}', '\0'), ('\u{1FEF}', '\u{0060}', '\0'), ('\u{1FF2}', '\u{1F7C}', '\u{0345}'),
    ('\u{1FF3}', '\u{03C9}', '\u{0345}'), ('\u{1FF4}', '\u{03CE}', '\u{0345}'), ('\u{1FF6}', '\u{03C9}', '\u{0342}'),
    ('\u{1FF7}', '\u{1FF6}', '\u{0345}'), ('\u{1FF8}', '\u{039F}', '\u{0300}'), ('\u{1FF9}', '\u{038C}', '\0'),
    ('\u{1FFA}', '\u{03A9}', '\u{0300}'), ('\u{1FFB}', '\u{038F}', '\0'), ('\u{1FFC}', '\u{03A9}', '\u{0345}'),
    ('\u{1FFD}', '\u{00B4}', '\0'),
];

/// Canonical mappings of the characters from U+2000 to U+FFFF.
#[verifier::opaque]
pub const DECOMP_MID: [(char, char, char); 604] = [
    ('\u{2000}', '\u{2002}', '\0'), ('\u{2001}', '\u{2003}', '\0'), ('\u{2126}', '\u{03A9}', '\0'),
    ('\u{212A}', '\u{004B}', '\0'), ('\u{212B}', '\u{00C5}', '\0'), ('\u{219A}', '\u{2190}', '\u{0338}'),
    ('\u{219B}', '\u{2192}', '\u{0338}'), ('\u{21AE}', '\u{2194}', '\u{0338}'), ('\u{21CD}', '\u{21D0}', '\u{0338}'),
    ('\u{21CE}', '\u{21D4}', '\u{0338}'), ('\u{21CF}', '\u{21D2}', '\u{0338}'), ('\u{2204}', '\u{2203}', '\u{0338}'),
    ('\u{2209}', '\u{2208}', '\u{0338}'), ('\u{220C}', '\u{220B}', '\u{0338}'), ('\u{2224}', '\u{2223}', '\u{0338}'),
    ('\u{2226}', '\u{2225}', '\u{0338}'), ('\u{2241}', '\u{223C}', '\u{0338}'), ('\u{2244}', '\u{2243}', '\u{0338}'),
    ('\u{2247}', '\u{2245}', '\u{0338}'), ('\u{2249}', '\u{2248}', '\u{0338}'), ('\u{2260}', '\u{003D}', '\u{0338}'),
    ('\u{2262}', '\u{2261}', '\u{0338}'), ('\u{226D}', '\u{224D}', '\u{0338}'), ('\u{226E}', '\u{003C}', '\u{0338}'),
    ('\u{226F}', '\u{003E}', '\u{0338}'), ('\u{2270}', '\u{2264}', '\u{0338}'), ('\u{2271}', '\u{2265}', '\u{0338}'),
    ('\u{2274}', '\u{2272}', '\u{0338}'), ('\u{2275}', '\u{2273}', '\u{0338}'), ('\u{2278}', '\u{2276}', '\u{0338}'),
    ('\u{2279}', '\u{2277}', '\u{0338}'), ('\u{2280}', '\u{227A}', '\u{0338}'), ('\u{2281}', '\u{227B}', '\u{0338}'),
    ('\u{2284}', '\u{2282}', '\u{0338}'), ('\u{2285}', '\u{2283}', '\u{0338}'), ('\u{2288}', '\u{2286}', '\u{0338}'),
    ('\u{2289}', '\u{2287}', '\u{0338}'), ('\u{22AC}', '\u{22A2}', '\u{0338}'), ('\u{22AD}', '\u{22A8}', '\u{0338}'),
    ('\u{22AE}', '\u{22A9}', '\u{0338}'), ('\u{22AF}', '\u{22AB}', '\u{0338}'), ('\u{22E0}', '\u{227C}', '\u{0338}'),
    ('\u{22E1}', '\u{227D}', '\u{0338}'), ('\u{22E2}', '\u{2291}', '\u{0338}'), ('\u{22E3}', '\u{2292}', '\u{0338}'),
    ('\u{22EA}', '\u{22B2}', '\u{0338}'), ('\u{22EB}', '\u{22B3}', '\u{0338}'), ('\u{22EC}', '\u{22B4}', '\u{0338}'),
    ('\u{22ED}', '\u{22B5}', '\u{0338}'), ('\u{2329}', '\u{3008}', '\0'), ('\u{232A}', '\u{3009}', '\0'),
    ('\u{2ADC}', '\u{2ADD}', '\u{0338}'), ('\u{304C}', '\u{304B}', '\u{3099}'), ('\u{304E}', '\u{304D}', '\u{3099}'),
    ('\u{3050}', '\u{304F}', '\u{3099}'), ('\u{3052}', '\u{3051}', '\u{3099}'), ('\u{3054}', '\u{3053}', '\u{3099}'),
    ('\u{3056}', '\u{3055}', '\u{3099}'), ('\u{3058}', '\u{3057}', '\u{3099}'), ('\u{305A}', '\u{3059}', '\u{3099}'),
    ('\u{305C}', '\u{305B}', '\u{3099}'), ('\u{305E}', '\u{305D}', '\u{3099}'), ('\u{3060}', '\u{305F}', '\u{3099}'),
    ('\u{3062}', '\u{3061}', '\u{3099}'), ('\u{3065}', '\u{3064}', '\u{3099}'), ('\u{3067}', '\u{3066}', '\u{3099}'),
    ('\u{3069}', '\u{3068}', '\u{3099}'), ('\u{3070}', '\u{306F}', '\u{3099}'), ('\u{3071}', '\u{306F}', '\u{309A}'),
    ('\u{3073}', '\u{3072}', '\u{3099}'), ('\u{3074}', '\u{3072}', '\u{309A}'), ('\u{3076}', '\u{3075}', '\u{3099}'),
    ('\u{3077}', '\u{3075}', '\u{309A}'), ('\u{3079}', '\u{3078}', '\u{3099}'), ('\u{307A}', '\u{3078}', '\u{309A}'),
    ('\u{307C}', '\u{307B}', '\u{3099}'), ('\u{307D}', '\u{307B}', '\u{309A}'), ('\u{3094}', '\u{3046}', '\u{3099}'),
    ('\u{309E}', '\u{309D}', '\u{3099}'), ('\u{30AC}', '\u{30AB}', '\u{3099}'), ('\u{30AE}', '\u{30AD}', '\u{3099}'),
    ('\u{30B0}', '\u{30AF}', '\u{3099}'), ('\u{30B2}', '\u{30B1}', '\u{3099}'), ('\u{30B4}', '\u{30B3}', '\u{3099}'),
    ('\u{30B6}', '\u{30B5}', '\u{3099}'), ('\u{30B8}', '\u{30B7}', '\u{3099}'), ('\u{30BA}', '\u{30B9}', '\u{3099}'),
    ('\u{30BC}', '\u{30BB}', '\u{3099}'), ('\u{30BE}', '\u{30BD}', '\u{3099}'), ('\u{30C0}', '\u{30BF}', '\u{3099}'),
    ('\u{30C2}', '\u{30C1}', '\u{3099}'), ('\u{30C5}', '\u{30C4}', '\u{3099}'), ('\u{30C7}', '\u{30C6}', '\u{3099}'),
    ('\u{30C9}', '\u{30C8}', '\u{3099}'), ('\u{30D0}', '\u{30CF}', '\u{3099}'), ('\u{30D1}', '\u{30CF}', '\u{309A}'),
    ('\u{30D3}', '\u{30D2}', '\u{3099}'), ('\u{30D4}', '\u{30D2}', '\u{309A}'), ('\u{30D6}', '\u{30D5}', '\u{3099}'),
    ('\u{30D7}', '\u{30D5}', '\u{309A}'), ('\u{30D9}', '\u{30D8}', '\u{3099}'), ('\u{30DA}', '\u{30D8}', '\u{309A}'),
    ('\u{30DC}', '\u{30DB}', '\u{3099}'), ('\u{30DD}', '\u{30DB}', '\u{309A}'), ('\u{30F4}', '\u{30A6}', '\u{3099}'),
    ('\u{30F7}', '\u{30EF}', '\u{3099}'), ('\u{30F8}', '\u{30F0}', '\u{3099}'), ('\u{30F9}', '\u{30F1}', '\u{3099}'),
    ('\u{30FA}', '\u{30F2}', '\u{3099}'), ('\u{30FE}', '\u{30FD}', '\u{3099}'), ('\u{F900}', '\u{8C48}', '\0'),
    ('\u{F901}', '\u{66F4}', '\0'), ('\u{F902}', '\u{8ECA}', '\0'), ('\u{F903}', '\u{8CC8}', '\0'),
    ('\u{F904}', '\u{6ED1}', '\0'), ('\u{F905}', '\u{4E32}', '\0'), ('\u{F906}', '\u{53E5}', '\0'),
    ('\u{F907}', '\u{9F9C}', '\0'), ('\u{F908}', '\u{9F9C}', '\0'), ('\u{F909}', '\u{5951}', '\0'),
    ('\u{F90A}', '\u{91D1}', '\0'), ('\u{F90B}', '\u{5587}', '\0'), ('\u{F90C}', '\u{5948}', '\0'),
    ('\u{F90D}', '\u{61F6}', '\0'), ('\u{F90E}', '\u{7669}', '\0'), ('\u{F90F}', '\u{7F85}', '\0'),
    ('\u{F910}', '\u{863F}', '\0'), ('\u{F911}', '\u{87BA}', '\0'), ('\u{F912}', '\u{88F8}', '\0'),
    ('\u{F913}', '\u{908F}', '\0'), ('\u{F914}', '\u{6A02}', '\0'), ('\u{F915}', '\u{6D1B}', '\0'),
    ('\u{F916}', '\u{70D9}', '\0'), ('\u{F917}', '\u{73DE}', '\0'), ('\u{F918}', '\u{843D}', '\0'),
    ('\u{F919}', '\u{916A}', '\0'), ('\u{F91A}', '\u{99F1}', '\0'), ('\u{F91B}', '\u{4E82}', '\0'),
    ('\u{F91C}', '\u{5375}', '\0'), ('\u{F91D}', '\u{6B04}', '\0'), ('\u{F91E}', '\u{721B}', '\0'),
    ('\u{F91F}', '\u{862D}', '\0'), ('\u{F920}', '\u{9E1E}', '\0'), ('\u{F921}', '\u{5D50}', '\0'),
    ('\u{F922}', '\u{6FEB}', '\0'), ('\u{F923}', '\u{85CD}', '\0'), ('\u{F924}', '\u{8964}', '\0'),
    ('\u{F925}', '\u{62C9}', '\0'), ('\u{F926}', '\u{81D8}', '\0'), ('\u{F927}', '\u{881F}', '\0'),
    ('\u{F928}', '\u{5ECA}', '\0'), ('\u{F929}', '\u{6717}', '\0'), ('\u{F92A}', '\u{6D6A}', '\0'),
    ('\u{F92B}', '\u{72FC}', '\0'), ('\u{F92C}', '\u{90CE}', '\0'), ('\u{F92D}', '\u{4F86}', '\0'),
    ('\u{F92E}', '\u{51B7}', '\0'), ('\u{F92F}', '\u{52DE}', '\0'), ('\u{F930}', '\u{64C4}', '\0'),
    ('\u{F931}', '\u{6AD3}', '\0'), ('\u{F932}', '\u{7210}', '\0'), ('\u{F933}', '\u{76E7}', '\0'),
    ('\u{F934}', '\u{8001}', '\0'), ('\u{F935}', '\u{8606}', '\0'), ('\u{F936}', '\u{865C}', '\0'),
    ('\u{F937}', '\u{8DEF}', '\0'), ('\u{F938}', '\u{9732}', '\0'), ('\u{F939}', '\u{9B6F}', '\0'),
    ('\u{F93A}', '\u{9DFA}', '\0'), ('\u{F93B}', '\u{788C}', '\0'), ('\u{F93C}', '\u{797F}', '\0'),
    ('\u{F93D}', '\u{7DA0}', '\0'), ('\u{F93E}', '\u{83C9}', '\0'), ('\u{F93F}', '\u{9304}', '\0'),
    ('\u{F940}', '\u{9E7F}', '\0'), ('\u{F941}', '\u{8AD6}', '\0'), ('\u{F942}', '\u{58DF}', '\0'),
    ('\u{F943}', '\u{5F04}', '\0'), ('\u{F944}', '\u{7C60}', '\0'), ('\u{F945}', '\u{807E}', '\0'),
    ('\u{F946}', '\u{7262}', '\0'), ('\u{F947}', '\u{78CA}', '\0'), ('\u{F948}', '\u{8CC2}', '\0'),
    ('\u{F949}', '\u{96F7}', '\0'), ('\u{F94A}', '\u{58D8}', '\0'), ('\u{F94B}', '\u{5C62}', '\0'),
    ('\u{F94C}', '\u{6A13}', '\0'), ('\u{F94D}', '\u{6DDA}', '\0'), ('\u{F94E}', '\u{6F0F}', '\0'),
    ('\u{F94F}', '\u{7D2F}', '\0'), ('\u{F950}', '\u{7E37}', '\0'), ('\u{F951}', '\u{964B}', '\0'),
    ('\u{F952}', '\u{52D2}', '\0'), ('\u{F953}', '\u{808B}', '\0'), ('\u{F954}', '\u{51DC}', '\0'),
    ('\u{F955}', '\u{51CC}', '\0'), ('\u{F956}', '\u{7A1C}', '\0'), ('\u{F957}', '\u{7DBE}', '\0'),
    ('\u{F958}', '\u{83F1}', '\0'), ('\u{F959}', '\u{9675}', '\0'), ('\u{F95A}', '\u{8B80}', '\0'),
    ('\u{F95B}', '\u{62CF}', '\0'), ('\u{F95C}', '\u{6A02}', '\0'), ('\u{F95D}', '\u{8AFE}', '\0'),
    ('\u{F95E}', '\u{4E39}', '\0'), ('\u{F95F}', '\u{5BE7}', '\0'), ('\u{F960}', '\u{6012}', '\0'),
    ('\u{F961}', '\u{7387}', '\0'), ('\u{F962}', '\u{7570}', '\0'), ('\u{F963}', '\u{5317}', '\0'),
    ('\u{F964}', '\u{78FB}', '\0'), ('\u{F965}', '\u{4FBF}', '\0'), ('\u{F966}', '\u{5FA9}', '\0'),
    ('\u{F967}', '\u{4E0D}', '\0'), ('\u{F968}', '\u{6CCC}', '\0'), ('\u{F969}', '\u{6578}', '\0'),
    ('\u{F96A}', '\u{7D22}', '\0'), ('\u{F96B}', '\u{53C3}', '\0'), ('\u{F96C}', '\u{585E}', '\0'),
    ('\u{F96D}', '\u{7701}', '\0'), ('\u{F96E}', '\u{8449}', '\0'), ('\u{F96F}', '\u{8AAA}', '\0'),
    ('\u{F970}', '\u{6BBA}', '\0'), ('\u{F971}', '\u{8FB0}', '\0'), ('\u{F972}', '\u{6C88}', '\0'),
    ('\u{F973}', '\u{62FE}', '\0'), ('\u{F974}', '\u{82E5}', '\0'), ('\u{F975}', '\u{63A0}', '\0'),
    ('\u{F976}', '\u{7565}', '\0'), ('\u{F977}', '\u{4EAE}', '\0'), ('\u{F978}', '\u{5169}', '\0'),
    ('\u{F979}', '\u{51C9}', '\0'), ('\u{F97A}', '\u{6881}', '\0'), ('\u{F97B}', '\u{7CE7}', '\0'),
    ('\u{F97C}', '\u{826F}', '\0'), ('\u{F97D}', '\u{8AD2}', '\0'), ('\u{F97E}', '\u{91CF}', '\0'),
    ('\u{F97F}', '\u{52F5}', '\0'), ('\u{F980}', '\u{5442}', '\0'), ('\u{F981}', '\u{5973}', '\0'),
    ('\u{F982}', '\u{5EEC}', '\0'), ('\u{F983}', '\u{65C5}', '\0'), ('\u{F984}', '\u{6FFE}', '\0'),
    ('\u{F985}', '\u{792A}', '\0'), ('\u{F986}', '\u{95AD}', '\0'), ('\u{F987}', '\u{9A6A}', '\0'),
    ('\u{F988}', '\u{9E97}', '\0'), ('\u{F989}', '\u{9ECE}', '\0'), ('\u{F98A}', '\u{529B}', '\0'),
    ('\u{F98B}', '\u{66C6}', '\0'), ('\u{F98C}', '\u{6B77}', '\0'), ('\u{F98D}', '\u{8F62}', '\0'),
    ('\u{F98E}', '\u{5E74}', '\0'), ('\u{F98F}', '\u{6190}', '\0'), ('\u{F990}', '\u{6200}', '\0'),
    ('\u{F991}', '\u{649A}', '\0'), ('\u{F992}', '\u{6F23}', '\0'), ('\u{F993}', '\u{7149}', '\0'),
    ('\u{F994}', '\u{7489}', '\0'), ('\u{F995}', '\u{79CA}', '\0'), ('\u{F996}', '\u{7DF4}', '\0'),
    ('\u{F997}', '\u{806F}', '\0'), ('\u{F998}', '\u{8F26}', '\0'), ('\u{F999}', '\u{84EE}', '\0'),
    ('\u{F99A}', '\u{9023}', '\0'), ('\u{F99B}', '\u{934A}', '\0'), ('\u{F99C}', '\u{5217}', '\0'),
    ('\u{F99D}', '\u{52A3}', '\0'), ('\u{F99E}', '\u{54BD}', '\0'), ('\u{F99F}', '\u{70C8}', '\0'),
    ('\u{F9A0}', '\u{88C2}', '\0'), ('\u{F9A1}', '\u{8AAA}', '\0'), ('\u{F9A2}', '\u{5EC9}', '\0'),
    ('\u{F9A3}', '\u{5FF5}', '\0'), ('\u{F9A4}', '\u{637B}', '\0'), ('\u{F9A5}', '\u{6BAE}', '\0'),
    ('\u{F9A6}', '\u{7C3E}', '\0'), ('\u{F9A7}', '\u{7375}', '\0'), ('\u{F9A8}', '\u{4EE4}', '\0'),
    ('\u{F9A9}', '\u{56F9}', '\0'), ('\u{F9AA}', '\u{5BE7}', '\0'), ('\u{F9AB}', '\u{5DBA}', '\0'),
    ('\u{F9AC}', '\u{601C}', '\0'), ('\u{F9AD}', '\u{73B2}', '\0'), ('\u{F9AE}', '\u{7469}', '\0'),
    ('\u{F9AF}', '\u{7F9A}', '\0'), ('\u{F9B0}', '\u{8046}', '\0'), ('\u{F9B1}', '\u{9234}', '\0'),
    ('\u{F9B2}', '\u{96F6}', '\0'), ('\u{F9B3}', '\u{9748}', '\0'), ('\u{F9B4}', '\u{9818}', '\0'),
    ('\u{F9B5}', '\u{4F8B}', '\0'), ('\u{F9B6}', '\u{79AE}', '\0'), ('\u{F9B7}', '\u{91B4}', '\0'),
    ('\u{F9B8}', '\u{96B8}', '\0'), ('\u{F9B9}', '\u{60E1}', '\0'), ('\u{F9BA}', '\u{4E86}', '\0'),
    ('\u{F9BB}', '\u{50DA}', '\0'), ('\u{F9BC}', '\u{5BEE}', '\0'), ('\u{F9BD}', '\u{5C3F}', '\0'),
    ('\u{F9BE}', '\u{6599}', '\0'), ('\u{F9BF}', '\u{6A02}', '\0'), ('\u{F9C0}', '\u{71CE}', '\0'),
    ('\u{F9C1}', '\u{7642}', '\0'), ('\u{F9C2}', '\u{84FC}', '\0'), ('\u{F9C3}', '\u{907C}', '\0'),
    ('\u{F9C4}', '\u{9F8D}', '\0'), ('\u{F9C5}', '\u{6688}', '\0'), ('\u{F9C6}', '\u{962E}', '\0'),
    ('\u{F9C7}', '\u{5289}', '\0'), ('\u{F9C8}', '\u{677B}', '\0'), ('\u{F9C9}', '\u{67F3}', '\0'),
    ('\u{F9CA}', '\u{6D41}', '\0'), ('\u{F9CB}', '\u{6E9C}', '\0'), ('\u{F9CC}', '\u{7409}', '\0'),
    ('\u{F9CD}', '\u{7559}', '\0'), ('\u{F9CE}', '\u{786B}', '\0'), ('\u{F9CF}', '\u{7D10}', '\0'),
    ('\u{F9D0}', '\u{985E}', '\0'), ('\u{F9D1}', '\u{516D}', '\0'), ('\u{F9D2}', '\u{622E}', '\0'),
    ('\u{F9D3}', '\u{9678}', '\0'), ('\u{F9D4}', '\u{502B}', '\0'), ('\u{F9D5}', '\u{5D19}', '\0'),
    ('\u{F9D6}', '\u{6DEA}', '\0'), ('\u{F9D7}', '\u{8F2A}', '\0'), ('\u{F9D8}', '\u{5F8B}', '\0'),
    ('\u{F9D9}', '\u{6144}', '\0'), ('\u{F9DA}', '\u{6817}', '\0'), ('\u{F9DB}', '\u{7387}', '\0'),
    ('\u{F9DC}', '\u{9686}', '\0'), ('\u{F9DD}', '\u{5229}', '\0'), ('\u{F9DE}', '\u{540F}', '\0'),
    ('\u{F9DF}', '\u{5C65}', '\0'), ('\u{F9E0}', '\u{6613}', '\0'), ('\u{F9E1}', '\u{674E}', '\0'),
    ('\u{F9E2}', '\u{68A8}', '\0'), ('\u{F9E3}', '\u{6CE5}', '\0'), ('\u{F9E4}', '\u{7406}', '\0'),
    ('\u{F9E5}', '\u{75E2}', '\0'), ('\u{F9E6}', '\u{7F79}', '\0'), ('\u{F9E7}', '\u{88CF}', '\0'),
    ('\u{F9E8}', '\u{88E1}', '\0'), ('\u{F9E9}', '\u{91CC}', '\0'), ('\u{F9EA}', '\u{96E2}', '\0'),
    ('\u{F9EB}', '\u{533F}', '\0'), ('\u{F9EC}', '\u{6EBA}', '\0'), ('\u{F9ED}', '\u{541D}', '\0'),
    ('\u{F9EE}', '\u{71D0}', '\0'), ('\u{F9EF}', '\u{7498}', '\0'), ('\u{F9F0}', '\u{85FA}', '\0'),
    ('\u{F9F1}', '\u{96A3}', '\0'), ('\u{F9F2}', '\u{9C57}', '\0'), ('\u{F9F3}', '\u{9E9F}', '\0'),
    ('\u{F9F4}', '\u{6797}', '\0'), ('\u{F9F5}', '\u{6DCB}', '\0'), ('\u{F9F6}', '\u{81E8}', '\0'),
    ('\u{F9F7}', '\u{7ACB}', '\0'), ('\u{F9F8}', '\u{7B20}', '\0'), ('\u{F9F9}', '\u{7C92}', '\0'),
    ('\u{F9FA}', '\u{72C0}', '\0'), ('\u{F9FB}', '\u{7099}', '\0'), ('\u{F9FC}', '\u{8B58}', '\0'),
    ('\u{F9FD}', '\u{4EC0}', '\0'), ('\u{F9FE}', '\u{8336}', '\0'), ('\u{F9FF}', '\u{523A}', '\0'),
    ('\u{FA00}', '\u{5207}', '\0'), ('\u{FA01}', '\u{5EA6}', '\0'), ('\u{FA02}', '\u{62D3}', '\0'),
    ('\u{FA03}', '\u{7CD6}', '\0'), ('\u{FA04}', '\u{5B85}', '\0'), ('\u{FA05}', '\u{6D1E}', '\0'),
    ('\u{FA06}', '\u{66B4}', '\0'), ('\u{FA07}', '\u{8F3B}', '\0'), ('\u{FA08}', '\u{884C}', '\0'),
    ('\u{FA09}', '\u{964D}', '\0'), ('\u{FA0A}', '\u{898B}', '\0'), ('\u{FA0B}', '\u{5ED3}', '\0'),
    ('\u{FA0C}', '\u{5140}', '\0'), ('\u{FA0D}', '\u{55C0}', '\0'), ('\u{FA10}', '\u{585A}', '\0'),
    ('\u{FA12}', '\u{6674}', '\0'), ('\u{FA15}', '\u{51DE}', '\0'), ('\u{FA16}', '\u{732A}', '\0'),
    ('\u{FA17}', '\u{76CA}', '\0'), ('\u{FA18}', '\u{793C}', '\0'), ('\u{FA19}', '\u{795E}', '\0'),
    ('\u{FA1A}', '\u{7965}', '\0'), ('\u{FA1B}', '\u{798F}', '\0'), ('\u{FA1C}', '\u{9756}', '\0'),
    ('\u{FA1D}', '\u{7CBE}', '\0'), ('\u{FA1E}', '\u{7FBD}', '\0'), ('\u{FA20}', '\u{8612}', '\0'),
    ('\u{FA22}', '\u{8AF8}', '\0'), ('\u{FA25}', '\u{9038}', '\0'), ('\u{FA26}', '\u{90FD}', '\0'),
    ('\u{FA2A}', '\u{98EF}', '\0'), ('\u{FA2B}', '\u{98FC}', '\0'), ('\u{FA2C}', '\u{9928}', '\0'),
    ('\u{FA2D}', '\u{9DB4}', '\0'), ('\u{FA2E}', '\u{90DE}', '\0'), ('\u{FA2F}', '\u{96B7}', '\0'),
    ('\u{FA30}', '\u{4FAE}', '\0'), ('\u{FA31}', '\u{50E7}', '\0'), ('\u{FA32}', '\u{514D}', '\0'),
    ('\u{FA33}', '\u{52C9}', '\0'), ('\u{FA34}', '\u{52E4}', '\0'), ('\u{FA35}', '\u{5351}', '\0'),
    ('\u{FA36}', '\u{559D}', '\0'), ('\u{FA37}', '\u{5606}', '\0'), ('\u{FA38}', '\u{5668}', '\0'),
    ('\u{FA39}', '\u{5840}', '\0'), ('\u{FA3A}', '\u{58A8}', '\0'), ('\u{FA3B}', '\u{5C64}', '\0'),
    ('\u{FA3C}', '\u{5C6E}', '\0'), ('\u{FA3D}', '\u{6094}', '\0'), ('\u{FA3E}', '\u{6168}', '\0'),
    ('\u{FA3F}', '\u{618E}', '\0'), ('\u{FA40}', '\u{61F2}', '\0'), ('\u{FA41}', '\u{654F}', '\0'),
    ('\u{FA42}', '\u{65E2}', '\0'), ('\u{FA43}', '\u{6691}', '\0'), ('\u{FA44}', '\u{6885}', '\0'),
    ('\u{FA45}', '\u{6D77}', '\0'), ('\u{FA46}', '\u{6E1A}', '\0'), ('\u{FA47}', '\u{6F22}', '\0'),
    ('\u{FA48}', '\u{716E}', '\0'), ('\u{FA49}', '\u{722B}', '\0'), ('\u{FA4A}', '\u{7422}', '\0'),
    ('\u{FA4B}', '\u{7891}', '\0'), ('\u{FA4C}', '\u{793E}', '\0'), ('\u{FA4D}', '\u{7949}', '\0'),
    ('\u{FA4E}', '\u{7948}', '\0'), ('\u{FA4F}', '\u{7950}', '\0'), ('\u{FA50}', '\u{7956}', '\0'),
    ('\u{FA51}', '\u{795D}', '\0'), ('\u{FA52}', '\u{798D}', '\0'), ('\u{FA53}', '\u{798E}', '\0'),
    ('\u{FA54}', '\u{7A40}', '\0'), ('\u{FA55}', '\u{7A81}', '\0'), ('\u{FA56}', '\u{7BC0}', '\0'),
    ('\u{FA57}', '\u{7DF4}', '\0'), ('\u{FA58}', '\u{7E09}', '\0'), ('\u{FA59}', '\u{7E41}', '\0'),
    ('\u{FA5A}', '\u{7F72}', '\0'), ('\u{FA5B}', '\u{8005}', '\0'), ('\u{FA5C}', '\u{81ED}', '\0'),
    ('\u{FA5D}', '\u{8279}', '\0'), ('\u{FA5E}', '\u{8279}', '\0'), ('\u{FA5F}', '\u{8457}', '\0'),
    ('\u{FA60}', '\u{8910}', '\0'), ('\u{FA61}', '\u{8996}', '\0'), ('\u{FA62}', '\u{8B01}', '\0'),
    ('\u{FA63}', '\u{8B39}', '\0'), ('\u{FA64}', '\u{8CD3}', '\0'), ('\u{FA65}', '\u{8D08}', '\0'),
    ('\u{FA66}', '\u{8FB6}', '\0'), ('\u{FA67}', '\u{9038}', '\0'), ('\u{FA68}', '\u{96E3}', '\0'),
    ('\u{FA69}', '\u{97FF}', '\0'), ('\u{FA6A}', '\u{983B}', '\0'), ('\u{FA6B}', '\u{6075}', '\0'),
    ('\u{FA6C}', '\u{242EE}', '\0'), ('\u{FA6D}', '\u{8218}', '\0'), ('\u{FA70}', '\u{4E26}', '\0'),
    ('\u{FA71}', '\u{51B5}', '\0'), ('\u{FA72}', '\u{5168}', '\0'), ('\u{FA73}', '\u{4F80}', '\0'),
    ('\u{FA74}', '\u{5145}', '\0'), ('\u{FA75}', '\u{5180}', '\0'), ('\u{FA76}', '\u{52C7}', '\0'),
    ('\u{FA77}', '\u{52FA}', '\0'), ('\u{FA78}', '\u{559D}', '\0'), ('\u{FA79}', '\u{5555}', '\0'),
    ('\u{FA7A}', '\u{5599}', '\0'), ('\u{FA7B}', '\u{55E2}', '\0'), ('\u{FA7C}', '\u{585A}', '\0'),
    ('\u{FA7D}', '\u{58B3}', '\0'), ('\u{FA7E}', '\u{5944}', '\0'), ('\u{FA7F}', '\u{5954}', '\0'),
    ('\u{FA80}', '\u{5A62}', '\0'), ('\u{FA81}', '\u{5B28}', '\0'), ('\u{FA82}', '\u{5ED2}', '\0'),
    ('\u{FA83}', '\u{5ED9}', '\0'), ('\u{FA84}', '\u{5F69}', '\0'), ('\u{FA85}', '\u{5FAD}', '\0'),
    ('\u{FA86}', '\u{60D8}', '\0'), ('\u{FA87}', '\u{614E}', '\0'), ('\u{FA88}', '\u{6108}', '\0'),
    ('\u{FA89}', '\u{618E}', '\0'), ('\u{FA8A}', '\u{6160}', '\0'), ('\u{FA8B}', '\u{61F2}', '\0'),
    ('\u{FA8C}', '\u{6234}', '\0'), ('\u{FA8D}', '\u{63C4}', '\0'), ('\u{FA8E}', '\u{641C}', '\0'),
    ('\u{FA8F}', '\u{6452}', '\0'), ('\u{FA90}', '\u{6556}', '\0'), ('\u{FA91}', '\u{6674}', '\0'),
    ('\u{FA92}', '\u{6717}', '\0'), ('\u{FA93}', '\u{671B}', '\0'), ('\u{FA94}', '\u{6756}', '\0'),
    ('\u{FA95}', '\u{6B79}', '\0'), ('\u{FA96}', '\u{6BBA}', '\0'), ('\u{FA97}', '\u{6D41}', '\0'),
    ('\u{FA98}', '\u{6EDB}', '\0'), ('\u{FA99}', '\u{6ECB}', '\0'), ('\u{FA9A}', '\u{6F22}', '\0'),
    ('\u{FA9B}', '\u{701E}', '\0'), ('\u{FA9C}', '\u{716E}', '\0'), ('\u{FA9D}', '\u{77A7}', '\0'),
    ('\u{FA9E}', '\u{7235}', '\0'), ('\u{FA9F}', '\u{72AF}', '\0'), ('\u{FAA0}', '\u{732A}', '\0'),
    ('\u{FAA1}', '\u{7471}', '\0'), ('\u{FAA2}', '\u{7506}', '\0'), ('\u{FAA3}', '\u{753B}', '\0'),
    ('\u{FAA4}', '\u{761D}', '\0'), ('\u{FAA5}', '\u{761F}', '\0'), ('\u{FAA6}', '\u{76CA}', '\0'),
    ('\u{FAA7}', '\u{76DB}', '\0'), ('\u{FAA8}', '\u{76F4}', '\0'), ('\u{FAA9}', '\u{774A}', '\0'),
    ('\u{FAAA}', '\u{7740}', '\0'), ('\u{FAAB}', '\u{78CC}', '\0'), ('\u{FAAC}', '\u{7AB1}', '\0'),
    ('\u{FAAD}', '\u{7BC0}', '\0'), ('\u{FAAE}', '\u{7C7B}', '\0'), ('\u{FAAF}', '\u{7D5B}', '\0'),
    ('\u{FAB0}', '\u{7DF4}', '\0'), ('\u{FAB1}', '\u{7F3E}', '\0'), ('\u{FAB2}', '\u{8005}', '\0'),
    ('\u{FAB3}', '\u{8352}', '\0'), ('\u{FAB4}', '\u{83EF}', '\0'), ('\u{FAB5}', '\u{8779}', '\0'),
    ('\u{FAB6}', '\u{8941}', '\0'), ('\u{FAB7}', '\u{8986}', '\0'), ('\u{FAB8}', '\u{8996}', '\0'),
    ('\u{FAB9}', '\u{8ABF}', '\0'), ('\u{FABA}', '\u{8AF8}', '\0'), ('\u{FABB}', '\u{8ACB}', '\0'),
    ('\u{FABC}', '\u{8B01}', '\0'), ('\u{FABD}', '\u{8AFE}', '\0'), ('\u{FABE}', '\u{8AED}', '\0'),
    ('\u{FABF}', '\u{8B39}', '\0'), ('\u{FAC0}', '\u{8B8A}', '\0'), ('\u{FAC1}', '\u{8D08}', '\0'),
    ('\u{FAC2}', '\u{8F38}', '\0'), ('\u{FAC3}', '\u{9072}', '\0'), ('\u{FAC4}', '\u{9199}', '\0'),
    ('\u{FAC5}', '\u{9276}', '\0'), ('\u{FAC6}', '\u{967C}', '\0'), ('\u{FAC7}', '\u{96E3}', '\0'),
    ('\u{FAC8}', '\u{9756}', '\0'), ('\u{FAC9}', '\u{97DB}', '\0'), ('\u{FACA}', '\u{97FF}', '\0'),
    ('\u{FACB}', '\u{980B}', '\0'), ('\u{FACC}', '\u{983B}', '\0'), ('\u{FACD}', '\u{9B12}', '\0'),
    ('\u{FACE}', '\u{9F9C}', '\0'), ('\u{FACF}', '\u{2284A}', '\0'), ('\u{FAD0}', '\u{22844}', '\0'),
    ('\u{FAD1}', '\u{233D5}', '\0'), ('\u{FAD2}', '\u{3B9D}', '\0'), ('\u{FAD3}', '\u{4018}', '\0'),
    ('\u{FAD4}', '\u{4039}', '\0'), ('\u{FAD5}', '\u{25249}', '\0'), ('\u{FAD6}', '\u{25CD0}', '\0'),
    ('\u{FAD7}', '\u{27ED3}', '\0'), ('\u{FAD8}', '\u{9F43}', '\0'), ('\u{FAD9}', '\u{9F8E}', '\0'),
    ('\u{FB1D}', '\u{05D9}', '\u{05B4}'), ('\u{FB1F}', '\u{05F2}', '\u{05B7}'), ('\u{FB2A}', '\u{05E9}', '\u{05C1}'),
    ('\u{FB2B}', '\u{05E9}', '\u{05C2}'), ('\u{FB2C}', '\u{FB49}', '\u{05C1}'), ('\u{FB2D}', '\u{FB49}', '\u{05C2}'),
    ('\u{FB2E}', '\u{05D0}', '\u{05B7}'), ('\u{FB2F}', '\u{05D0}', '\u{05B8}'), ('\u{FB30}', '\u{05D0}', '\u{05BC}'),
    ('\u{FB31}', '\u{05D1}', '\u{05BC}'), ('\u{FB32}', '\u{05D2}', '\u{05BC}'), ('\u{FB33}', '\u{05D3}', '\u{05BC}'),
    ('\u{FB34}', '\u{05D4}', '\u{05BC}'), ('\u{FB35}', '\u{05D5}', '\u{05BC}'), ('\u{FB36}', '\u{05D6}', '\u{05BC}'),
    ('\u{FB38}', '\u{05D8}', '\u{05BC}'), ('\u{FB39}', '\u{05D9}', '\u{05BC}'), ('\u{FB3A}', '\u{05DA}', '\u{05BC}'),
    ('\u{FB3B}', '\u{05DB}', '\u{05BC}'), ('\u{FB3C}', '\u{05DC}', '\u{05BC}'), ('\u{FB3E}', '\u{05DE}', '\u{05BC}'),
    ('\u{FB40}', '\u{05E0}', '\u{05BC}'), ('\u{FB41}', '\u{05E1}', '\u{05BC}'), ('\u{FB43}', '\u{05E3}', '\u{05BC}'),
    ('\u{FB44}', '\u{05E4}', '\u{05BC}'), ('\u{FB46}', '\u{05E6}', '\u{05BC}'), ('\u{FB47}', '\u{05E7}', '\u{05BC}'),
    ('\u{FB48}', '\u{05E8}', '\u{05BC}'), ('\u{FB49}', '\u{05E9}', '\u{05BC}'), ('\u{FB4A}', '\u{05EA}', '\u{05BC}'),
    ('\u{FB4B}', '\u{05D5}', '\u{05B9}'), ('\u{FB4C}', '\u{05D1}', '\u{05BF}'), ('\u{FB4D}', '\u{05DB}', '\u{05BF}'),
    ('\u{FB4E}', '\u{05E4}', '\u{05BF}'),
];

/// Canonical mappings of the supplementary characters.
#[verifier::opaque]
pub const DECOMP_HIGH: [(char, char, char); 568] = [
    ('\u{1109A}', '\u{11099}', '\u{110BA}'), ('\u{1109C}', '\u{1109B}', '\u{110BA}'), ('\u{110AB}', '\u{110A5}', '\u{110BA}'),
    ('\u{1112E}', '\u{11131}', '\u{11127}'), ('\u{1112F}', '\u{11132}', '\u{11127}'), ('\u{1134B}', '\u{11347}', '\u{1133E}'),
    ('\u{1134C}', '\u{11347}', '\u{11357}'), ('\u{114BB}', '\u{114B9}', '\u{114BA}'), ('\u{114BC}', '\u{114B9}', '\u{114B0}'),
    ('\u{114BE}', '\u{114B9}', '\u{114BD}'), ('\u{115BA}', '\u{115B8}', '\u{115AF}'), ('\u{115BB}', '\u{115B9}', '\u{115AF}'),
    ('\u{11938}', '\u{11935}', '\u{11930}'), ('\u{1D15E}', '\u{1D157}', '\u{1D165}'), ('\u{1D15F}', '\u{1D158}', '\u{1D165}'),
    ('\u{1D160}', '\u{1D15F}', '\u{1D16E}'), ('\u{1D161}', '\u{1D15F}', '\u{1D16F}'), ('\u{1D162}', '\u{1D15F}', '\u{1D170}'),
    ('\u{1D163}', '\u{1D15F}', '\u{1D171}'), ('\u{1D164}', '\u{1D15F}', '\u{1D172}'), ('\u{1D1BB}', '\u{1D1B9}', '\u{1D165}'),
    ('\u{1D1BC}', '\u{1D1BA}', '\u{1D165}'), ('\u{1D1BD}', '\u{1D1BB}', '\u{1D16E}'), ('\u{1D1BE}', '\u{1D1BC}', '\u{1D16E}'),
    ('\u{1D1BF}', '\u{1D1BB}', '\u{1D16F}'), ('\u{1D1C0}', '\u{1D1BC}', '\u{1D16F}'), ('\u{2F800}', '\u{4E3D}', '\0'),
    ('\u{2F801}', '\u{4E38}', '\0'), ('\u{2F802}', '\u{4E41}', '\0'), ('\u{2F803}', '\u{20122}', '\0'),
    ('\u{2F804}', '\u{4F60}', '\0'), ('\u{2F805}', '\u{4FAE}', '\0'), ('\u{2F806}', '\u{4FBB}', '\0'),
    ('\u{2F807}', '\u{5002}', '\0'), ('\u{2F808}', '\u{507A}', '\0'), ('\u{2F809}', '\u{5099}', '\0'),
    ('\u{2F80A}', '\u{50E7}', '\0'), ('\u{2F80B}', '\u{50CF}', '\0'), ('\u{2F80C}', '\u{349E}', '\0'),
    ('\u{2F80D}', '\u{2063A}', '\0'), ('\u{2F80E}', '\u{514D}', '\0'), ('\u{2F80F}', '\u{5154}', '\0'),
    ('\u{2F810}', '\u{5164}', '\0'), ('\u{2F811}', '\u{5177}', '\0'), ('\u{2F812}', '\u{2051C}', '\0'),
    ('\u{2F813}', '\u{34B9}', '\0'), ('\u{2F814}', '\u{5167}', '\0'), ('\u{2F815}', '\u{518D}', '\0'),
    ('\u{2F816}', '\u{2054B}', '\0'), ('\u{2F817}', '\u{5197}', '\0'), ('\u{2F818}', '\u{51A4}', '\0'),
    ('\u{2F819}', '\u{4ECC}', '\0'), ('\u{2F81A}', '\u{51AC}', '\0'), ('\u{2F81B}', '\u{51B5}', '\0'),
    ('\u{2F81C}', '\u{291DF}', '\0'), ('\u{2F81D}', '\u{51F5}', '\0'), ('\u{2F81E}', '\u{5203}', '\0'),
    ('\u{2F81F}', '\u{34DF}', '\0'), ('\u{2F820}', '\u{523B}', '\0'), ('\u{2F821}', '\u{5246}', '\0'),
    ('\u{2F822}', '\u{5272}', '\0'), ('\u{2F823}', '\u{5277}', '\0'), ('\u{2F824}', '\u{3515}', '\0'),
    ('\u{2F825}', '\u{52C7}', '\0'), ('\u{2F826}', '\u{52C9}', '\0'), ('\u{2F827}', '\u{52E4}', '\0'),
    ('\u{2F828}', '\u{52FA}', '\0'), ('\u{2F829}', '\u{5305}', '\0'), ('\u{2F82A}', '\u{5306}', '\0'),
    ('\u{2F82B}', '\u{5317}', '\0'), ('\u{2F82C}', '\u{5349}', '\0'), ('\u{2F82D}', '\u{5351}', '\0'),
    ('\u{2F82E}', '\u{535A}', '\0'), ('\u{2F82F}', '\u{5373}', '\0'), ('\u{2F830}', '\u{537D}', '\0'),
    ('\u{2F831}', '\u{537F}', '\0'), ('\u{2F832}', '\u{537F}', '\0'), ('\u{2F833}', '\u{537F}', '\0'),
    ('\u{2F834}', '\u{20A2C}', '\0'), ('\u{2F835}', '\u{7070}', '\0'), ('\u{2F836}', '\u{53CA}', '\0'),
    ('\u{2F837}', '\u{53DF}', '\0'), ('\u{2F838}', '\u{20B63}', '\0'), ('\u{2F839}', '\u{53EB}', '\0'),
    ('\u{2F83A}', '\u{53F1}', '\0'), ('\u{2F83B}', '\u{5406}', '\0'), ('\u{2F83C}', '\u{549E}', '\0'),
    ('\u{2F83D}', '\u{5438}', '\0'), ('\u{2F83E}', '\u{5448}', '\0'), ('\u{2F83F}', '\u{5468}', '\0'),
    ('\u{2F840}', '\u{54A2}', '\0'), ('\u{2F841}', '\u{54F6}', '\0'), ('\u{2F842}', '\u{5510}', '\0'),
    ('\u{2F843}', '\u{5553}', '\0'), ('\u{2F844}', '\u{5563}', '\0'), ('\u{2F845}', '\u{5584}', '\0'),
    ('\u{2F846}', '\u{5584}', '\0'), ('\u{2F847}', '\u{5599}', '\0'), ('\u{2F848}', '\u{55AB}', '\0'),
    ('\u{2F849}', '\u{55B3}', '\0'), ('\u{2F84A}', '\u{55C2}', '\0'), ('\u{2F84B}', '\u{5716}', '\0'),
    ('\u{2F84C}', '\u{5606}', '\0'), ('\u{2F84D}', '\u{5717}', '\0'), ('\u{2F84E}', '\u{5651}', '\0'),
    ('\u{2F84F}', '\u{5674}', '\0'), ('\u{2F850}', '\u{5207}', '\0'), ('\u{2F851}', '\u{58EE}', '\0'),
    ('\u{2F852}', '\u{57CE}', '\0'), ('\u{2F853}', '\u{57F4}', '\0'), ('\u{2F854}', '\u{580D}', '\0'),
    ('\u{2F855}', '\u{578B}', '\0'), ('\u{2F856}', '\u{5832}', '\0'), ('\u{2F857}', '\u{5831}', '\0'),
    ('\u{2F858}', '\u{58AC}', '\0'), ('\u{2F859}', '\u{214E4}', '\0'), ('\u{2F85A}', '\u{58F2}', '\0'),
    ('\u{2F85B}', '\u{58F7}', '\0'), ('\u{2F85C}', '\u{5906}', '\0'), ('\u{2F85D}', '\u{591A}', '\0'),
    ('\u{2F85E}', '\u{5922}', '\0'), ('\u{2F85F}', '\u{5962}', '\0'), ('\u{2F860}', '\u{216A8}', '\0'),
    ('\u{2F861}', '\u{216EA}', '\0'), ('\u{2F862}', '\u{59EC}', '\0'), ('\u{2F863}', '\u{5A1B}', '\0'),
    ('\u{2F864}', '\u{5A27}', '\0'), ('\u{2F865}', '\u{59D8}', '\0'), ('\u{2F866}', '\u{5A66}', '\0'),
    ('\u{2F867}', '\u{36EE}', '\0'), ('\u{2F868}', '\u{36FC}', '\0'), ('\u{2F869}', '\u{5B08}', '\0'),
    ('\u{2F86A}', '\u{5B3E}', '\0'), ('\u{2F86B}', '\u{5B3E}', '\0'), ('\u{2F86C}', '\u{219C8}', '\0'),
    ('\u{2F86D}', '\u{5BC3}', '\0'), ('\u{2F86E}', '\u{5BD8}', '\0'), ('\u{2F86F}', '\u{5BE7}', '\0'),
    ('\u{2F870}', '\u{5BF3}', '\0'), ('\u{2F871}', '\u{21B18}', '\0'), ('\u{2F872}', '\u{5BFF}', '\0'),
    ('\u{2F873}', '\u{5C06}', '\0'), ('\u{2F874}', '\u{5F53}', '\0'), ('\u{2F875}', '\u{5C22}', '\0'),
    ('\u{2F876}', '\u{3781}', '\0'), ('\u{2F877}', '\u{5C60}', '\0'), ('\u{2F878}', '\u{5C6E}', '\0'),
    ('\u{2F879}', '\u{5CC0}', '\0'), ('\u{2F87A}', '\u{5C8D}', '\0'), ('\u{2F87B}', '\u{21DE4}', '\0'),
    ('\u{2F87C}', '\u{5D43}', '\0'), ('\u{2F87D}', '\u{21DE6}', '\0'), ('\u{2F87E}', '\u{5D6E}', '\0'),
    ('\u{2F87F}', '\u{5D6B}', '\0'), ('\u{2F880}', '\u{5D7C}', '\0'), ('\u{2F881}', '\u{5DE1}', '\0'),
    ('\u{2F882}', '\u{5DE2}', '\0'), ('\u{2F883}', '\u{382F}', '\0'), ('\u{2F884}', '\u{5DFD}', '\0'),
    ('\u{2F885}', '\u{5E28}', '\0'), ('\u{2F886}', '\u{5E3D}', '\0'), ('\u{2F887}', '\u{5E69}', '\0'),
    ('\u{2F888}', '\u{3862}', '\0'), ('\u{2F889}', '\u{22183}', '\0'), ('\u{2F88A}', '\u{387C}', '\0'),
    ('\u{2F88B}', '\u{5EB0}', '\0'), ('\u{2F88C}', '\u{5EB3}', '\0'), ('\u{2F88D}', '\u{5EB6}', '\0'),
    ('\u{2F88E}', '\u{5ECA}', '\0'), ('\u{2F88F}', '\u{2A392}', '\0'), ('\u{2F890}', '\u{5EFE}', '\0'),
    ('\u{2F891}', '\u{22331}', '\0'), ('\u{2F892}', '\u{22331}', '\0'), ('\u{2F893}', '\u{8201}', '\0'),
    ('\u{2F894}', '\u{5F22}', '\0'), ('\u{2F895}', '\u{5F22}', '\0'), ('\u{2F896}', '\u{38C7}', '\0'),
    ('\u{2F897}', '\u{232B8}', '\0'), ('\u{2F898}', '\u{261DA}', '\0'), ('\u{2F899}', '\u{5F62}', '\0'),
    ('\u{2F89A}', '\u{5F6B}', '\0'), ('\u{2F89B}', '\u{38E3}', '\0'), ('\u{2F89C}', '\u{5F9A}', '\0'),
    ('\u{2F89D}', '\u{5FCD}', '\0'), ('\u{2F89E}', '\u{5FD7}', '\0'), ('\u{2F89F}', '\u{5FF9}', '\0'),
    ('\u{2F8A0}', '\u{6081}', '\0'), ('\u{2F8A1}', '\u{393A}', '\0'), ('\u{2F8A2}', '\u{391C}', '\0'),
    ('\u{2F8A3}', '\u{6094}', '\0'), ('\u{2F8A4}', '\u{226D4}', '\0'), ('\u{2F8A5}', '\u{60C7}', '\0'),
    ('\u{2F8A6}', '\u{6148}', '\0'), ('\u{2F8A7}', '\u{614C}', '\0'), ('\u{2F8A8}', '\u{614E}', '\0'),
    ('\u{2F8A9}', '\u{614C}', '\0'), ('\u{2F8AA}', '\u{617A}', '\0'), ('\u{2F8AB}', '\u{618E}', '\0'),
    ('\u{2F8AC}', '\u{61B2}', '\0'), ('\u{2F8AD}', '\u{61A4}', '\0'), ('\u{2F8AE}', '\u{61AF}', '\0'),
    ('\u{2F8AF}', '\u{61DE}', '\0'), ('\u{2F8B0}', '\u{61F2}', '\0'), ('\u{2F8B1}', '\u{61F6}', '\0'),
    ('\u{2F8B2}', '\u{6210}', '\0'), ('\u{2F8B3}', '\u{621B}', '\0'), ('\u{2F8B4}', '\u{625D}', '\0'),
    ('\u{2F8B5}', '\u{62B1}', '\0'), ('\u{2F8B6}', '\u{62D4}', '\0'), ('\u{2F8B7}', '\u{6350}', '\0'),
    ('\u{2F8B8}', '\u{22B0C}', '\0'), ('\u{2F8B9}', '\u{633D}', '\0'), ('\u{2F8BA}', '\u{62FC}', '\0'),
    ('\u{2F8BB}', '\u{6368}', '\0'), ('\u{2F8BC}', '\u{6383}', '\0'), ('\u{2F8BD}', '\u{63E4}', '\0'),
    ('\u{2F8BE}', '\u{22BF1}', '\0'), ('\u{2F8BF}', '\u{6422}', '\0'), ('\u{2F8C0}', '\u{63C5}', '\0'),
    ('\u{2F8C1}', '\u{63A9}', '\0'), ('\u{2F8C2}', '\u{3A2E}', '\0'), ('\u{2F8C3}', '\u{6469}', '\0'),
    ('\u{2F8C4}', '\u{647E}', '\0'), ('\u{2F8C5}', '\u{649D}', '\0'), ('\u{2F8C6}', '\u{6477}', '\0'),
    ('\u{2F8C7}', '\u{3A6C}', '\0'), ('\u{2F8C8}', '\u{654F}', '\0'), ('\u{2F8C9}', '\u{656C}', '\0'),
    ('\u{2F8CA}', '\u{2300A}', '\0'), ('\u{2F8CB}', '\u{65E3}', '\0'), ('\u{2F8CC}', '\u{66F8}', '\0'),
    ('\u{2F8CD}', '\u{6649}', '\0'), ('\u{2F8CE}', '\u{3B19}', '\0'), ('\u{2F8CF}', '\u{6691}', '\0'),
    ('\u{2F8D0}', '\u{3B08}', '\0'), ('\u{2F8D1}', '\u{3AE4}', '\0'), ('\u{2F8D2}', '\u{5192}', '\0'),
    ('\u{2F8D3}', '\u{5195}', '\0'), ('\u{2F8D4}', '\u{6700}', '\0'), ('\u{2F8D5}', '\u{669C}', '\0'),
    ('\u{2F8D6}', '\u{80AD}', '\0'), ('\u{2F8D7}', '\u{43D9}', '\0'), ('\u{2F8D8}', '\u{6717}', '\0'),
    ('\u{2F8D9}', '\u{671B}', '\0'), ('\u{2F8DA}', '\u{6721}', '\0'), ('\u{2F8DB}', '\u{675E}', '\0'),
    ('\u{2F8DC}', '\u{6753}', '\0'), ('\u{2F8DD}', '\u{233C3}', '\0'), ('\u{2F8DE}', '\u{3B49}', '\0'),
    ('\u{2F8DF}', '\u{67FA}', '\0'), ('\u{2F8E0}', '\u{6785}', '\0'), ('\u{2F8E1}', '\u{6852}', '\0'),
    ('\u{2F8E2}', '\u{6885}', '\0'), ('\u{2F8E3}', '\u{2346D}', '\0'), ('\u{2F8E4}', '\u{688E}', '\0'),
    ('\u{2F8E5}', '\u{681F}', '\0'), ('\u{2F8E6}', '\u{6914}', '\0'), ('\u{2F8E7}', '\u{3B9D}', '\0'),
    ('\u{2F8E8}', '\u{6942}', '\0'), ('\u{2F8E9}', '\u{69A3}', '\0'), ('\u{2F8EA}', '\u{69EA}', '\0'),
    ('\u{2F8EB}', '\u{6AA8}', '\0'), ('\u{2F8EC}', '\u{236A3}', '\0'), ('\u{2F8ED}', '\u{6ADB}', '\0'),
    ('\u{2F8EE}', '\u{3C18}', '\0'), ('\u{2F8EF}', '\u{6B21}', '\0'), ('\u{2F8F0}', '\u{238A7}', '\0'),
    ('\u{2F8F1}', '\u{6B54}', '\0'), ('\u{2F8F2}', '\u{3C4E}', '\0'), ('\u{2F8F3}', '\u{6B72}', '\0'),
    ('\u{2F8F4}', '\u{6B9F}', '\0'), ('\u{2F8F5}', '\u{6BBA}', '\0'), ('\u{2F8F6}', '\u{6BBB}', '\0'),
    ('\u{2F8F7}', '\u{23A8D}', '\0'), ('\u{2F8F8}', '\u{21D0B}', '\0'), ('\u{2F8F9}', '\u{23AFA}', '\0'),
    ('\u{2F8FA}', '\u{6C4E}', '\0'), ('\u{2F8FB}', '\u{23CBC}', '\0'), ('\u{2F8FC}', '\u{6CBF}', '\0'),
    ('\u{2F8FD}', '\u{6CCD}', '\0'), ('\u{2F8FE}', '\u{6C67}', '\0'), ('\u{2F8FF}', '\u{6D16}', '\0'),
    ('\u{2F900}', '\u{6D3E}', '\0'), ('\u{2F901}', '\u{6D77}', '\0'), ('\u{2F902}', '\u{6D41}', '\0'),
    ('\u{2F903}', '\u{6D69}', '\0'), ('\u{2F904}', '\u{6D78}', '\0'), ('\u{2F905}', '\u{6D85}', '\0'),
    ('\u{2F906}', '\u{23D1E}', '\0'), ('\u{2F907}', '\u{6D34}', '\0'), ('\u{2F908}', '\u{6E2F}', '\0'),
    ('\u{2F909}', '\u{6E6E}', '\0'), ('\u{2F90A}', '\u{3D33}', '\0'), ('\u{2F90B}', '\u{6ECB}', '\0'),
    ('\u{2F90C}', '\u{6EC7}', '\0'), ('\u{2F90D}', '\u{23ED1}', '\0'), ('\u{2F90E}', '\u{6DF9}', '\0'),
    ('\u{2F90F}', '\u{6F6E}', '\0'), ('\u{2F910}', '\u{23F5E}', '\0'), ('\u{2F911}', '\u{23F8E}', '\0'),
    ('\u{2F912}', '\u{6FC6}', '\0'), ('\u{2F913}', '\u{7039}', '\0'), ('\u{2F914}', '\u{701E}', '\0'),
    ('\u{2F915}', '\u{701B}', '\0'), ('\u{2F916}', '\u{3D96}', '\0'), ('\u{2F917}', '\u{704A}', '\0'),
    ('\u{2F918}', '\u{707D}', '\0'), ('\u{2F919}', '\u{7077}', '\0'), ('\u{2F91A}', '\u{70AD}', '\0'),
    ('\u{2F91B}', '\u{20525}', '\0'), ('\u{2F91C}', '\u{7145}', '\0'), ('\u{2F91D}', '\u{24263}', '\0'),
    ('\u{2F91E}', '\u{719C}', '\0'), ('\u{2F91F}', '\u{243AB}', '\0'), ('\u{2F920}', '\u{7228}', '\0'),
    ('\u{2F921}', '\u{7235}', '\0'), ('\u{2F922}', '\u{7250}', '\0'), ('\u{2F923}', '\u{24608}', '\0'),
    ('\u{2F924}', '\u{7280}', '\0'), ('\u{2F925}', '\u{7295}', '\0'), ('\u{2F926}', '\u{24735}', '\0'),
    ('\u{2F927}', '\u{24814}', '\0'), ('\u{2F928}', '\u{737A}', '\0'), ('\u{2F929}', '\u{738B}', '\0'),
    ('\u{2F92A}', '\u{3EAC}', '\0'), ('\u{2F92B}', '\u{73A5}', '\0'), ('\u{2F92C}', '\u{3EB8}', '\0'),
    ('\u{2F92D}', '\u{3EB8}', '\0'), ('\u{2F92E}', '\u{7447}', '\0'), ('\u{2F92F}', '\u{745C}', '\0'),
    ('\u{2F930}', '\u{7471}', '\0'), ('\u{2F931}', '\u{7485}', '\0'), ('\u{2F932}', '\u{74CA}', '\0'),
    ('\u{2F933}', '\u{3F1B}', '\0'), ('\u{2F934}', '\u{7524}', '\0'), ('\u{2F935}', '\u{24C36}', '\0'),
    ('\u{2F936}', '\u{753E}', '\0'), ('\u{2F937}', '\u{24C92}', '\0'), ('\u{2F938}', '\u{7570}', '\0'),
    ('\u{2F939}', '\u{2219F}', '\0'), ('\u{2F93A}', '\u{7610}', '\0'), ('\u{2F93B}', '\u{24FA1}', '\0'),
    ('\u{2F93C}', '\u{24FB8}', '\0'), ('\u{2F93D}', '\u{25044}', '\0'), ('\u{2F93E}', '\u{3FFC}', '\0'),
    ('\u{2F93F}', '\u{4008}', '\0'), ('\u{2F940}', '\u{76F4}', '\0'), ('\u{2F941}', '\u{250F3}', '\0'),
    ('\u{2F942}', '\u{250F2}', '\0'), ('\u{2F943}', '\u{25119}', '\0'), ('\u{2F944}', '\u{25133}', '\0'),
    ('\u{2F945}', '\u{771E}', '\0'), ('\u{2F946}', '\u{771F}', '\0'), ('\u{2F947}', '\u{771F}', '\0'),
    ('\u{2F948}', '\u{774A}', '\0'), ('\u{2F949}', '\u{4039}', '\0'), ('\u{2F94A}', '\u{778B}', '\0'),
    ('\u{2F94B}', '\u{4046}', '\0'), ('\u{2F94C}', '\u{4096}', '\0'), ('\u{2F94D}', '\u{2541D}', '\0'),
    ('\u{2F94E}', '\u{784E}', '\0'), ('\u{2F94F}', '\u{788C}', '\0'), ('\u{2F950}', '\u{78CC}', '\0'),
    ('\u{2F951}', '\u{40E3}', '\0'), ('\u{2F952}', '\u{25626}', '\0'), ('\u{2F953}', '\u{7956}', '\0'),
    ('\u{2F954}', '\u{2569A}', '\0'), ('\u{2F955}', '\u{256C5}', '\0'), ('\u{2F956}', '\u{798F}', '\0'),
    ('\u{2F957}', '\u{79EB}', '\0'), ('\u{2F958}', '\u{412F}', '\0'), ('\u{2F959}', '\u{7A40}', '\0'),
    ('\u{2F95A}', '\u{7A4A}', '\0'), ('\u{2F95B}', '\u{7A4F}', '\0'), ('\u{2F95C}', '\u{2597C}', '\0'),
    ('\u{2F95D}', '\u{25AA7}', '\0'), ('\u{2F95E}', '\u{25AA7}', '\0'), ('\u{2F95F}', '\u{7AEE}', '\0'),
    ('\u{2F960}', '\u{4202}', '\0'), ('\u{2F961}', '\u{25BAB}', '\0'), ('\u{2F962}', '\u{7BC6}', '\0'),
    ('\u{2F963}', '\u{7BC9}', '\0'), ('\u{2F964}', '\u{4227}', '\0'), ('\u{2F965}', '\u{25C80}', '\0'),
    ('\u{2F966}', '\u{7CD2}', '\0'), ('\u{2F967}', '\u{42A0}', '\0'), ('\u{2F968}', '\u{7CE8}', '\0'),
    ('\u{2F969}', '\u{7CE3}', '\0'), ('\u{2F96A}', '\u{7D00}', '\0'), ('\u{2F96B}', '\u{25F86}', '\0'),
    ('\u{2F96C}', '\u{7D63}', '\0'), ('\u{2F96D}', '\u{4301}', '\0'), ('\u{2F96E}', '\u{7DC7}', '\0'),
    ('\u{2F96F}', '\u{7E02}', '\0'), ('\u{2F970}', '\u{7E45}', '\0'), ('\u{2F971}', '\u{4334}', '\0'),
    ('\u{2F972}', '\u{26228}', '\0'), ('\u{2F973}', '\u{26247}', '\0'), ('\u{2F974}', '\u{4359}', '\0'),
    ('\u{2F975}', '\u{262D9}', '\0'), ('\u{2F976}', '\u{7F7A}', '\0'), ('\u{2F977}', '\u{2633E}', '\0'),
    ('\u{2F978}', '\u{7F95}', '\0'), ('\u{2F979}', '\u{7FFA}', '\0'), ('\u{2F97A}', '\u{8005}', '\0'),
    ('\u{2F97B}', '\u{264DA}', '\0'), ('\u{2F97C}', '\u{26523}', '\0'), ('\u{2F97D}', '\u{8060}', '\0'),
    ('\u{2F97E}', '\u{265A8}', '\0'), ('\u{2F97F}', '\u{8070}', '\0'), ('\u{2F980}', '\u{2335F}', '\0'),
    ('\u{2F981}', '\u{43D5}', '\0'), ('\u{2F982}', '\u{80B2}', '\0'), ('\u{2F983}', '\u{8103}', '\0'),
    ('\u{2F984}', '\u{440B}', '\0'), ('\u{2F985}', '\u{813E}', '\0'), ('\u{2F986}', '\u{5AB5}', '\0'),
    ('\u{2F987}', '\u{267A7}', '\0'), ('\u{2F988}', '\u{267B5}', '\0'), ('\u{2F989}', '\u{23393}', '\0'),
    ('\u{2F98A}', '\u{2339C}', '\0'), ('\u{2F98B}', '\u{8201}', '\0'), ('\u{2F98C}', '\u{8204}', '\0'),
    ('\u{2F98D}', '\u{8F9E}', '\0'), ('\u{2F98E}', '\u{446B}', '\0'), ('\u{2F98F}', '\u{8291}', '\0'),
    ('\u{2F990}', '\u{828B}', '\0'), ('\u{2F991}', '\u{829D}', '\0'), ('\u{2F992}', '\u{52B3}', '\0'),
    ('\u{2F993}', '\u{82B1}', '\0'), ('\u{2F994}', '\u{82B3}', '\0'), ('\u{2F995}', '\u{82BD}', '\0'),
    ('\u{2F996}', '\u{82E6}', '\0'), ('\u{2F997}', '\u{26B3C}', '\0'), ('\u{2F998}', '\u{82E5}', '\0'),
    ('\u{2F999}', '\u{831D}', '\0'), ('\u{2F99A}', '\u{8363}', '\0'), ('\u{2F99B}', '\u{83AD}', '\0'),
    ('\u{2F99C}', '\u{8323}', '\0'), ('\u{2F99D}', '\u{83BD}', '\0'), ('\u{2F99E}', '\u{83E7}', '\0'),
    ('\u{2F99F}', '\u{8457}', '\0'), ('\u{2F9A0}', '\u{8353}', '\0'), ('\u{2F9A1}', '\u{83CA}', '\0'),
    ('\u{2F9A2}', '\u{83CC}', '\0'), ('\u{2F9A3}', '\u{83DC}', '\0'), ('\u{2F9A4}', '\u{26C36}', '\0'),
    ('\u{2F9A5}', '\u{26D6B}', '\0'), ('\u{2F9A6}', '\u{26CD5}', '\0'), ('\u{2F9A7}', '\u{452B}', '\0'),
    ('\u{2F9A8}', '\u{84F1}', '\0'), ('\u{2F9A9}', '\u{84F3}', '\0'), ('\u{2F9AA}', '\u{8516}', '\0'),
    ('\u{2F9AB}', '\u{273CA}', '\0'), ('\u{2F9AC}', '\u{8564}', '\0'), ('\u{2F9AD}', '\u{26F2C}', '\0'),
    ('\u{2F9AE}', '\u{455D}', '\0'), ('\u{2F9AF}', '\u{4561}', '\0'), ('\u{2F9B0}', '\u{26FB1}', '\0'),
    ('\u{2F9B1}', '\u{270D2}', '\0'), ('\u{2F9B2}', '\u{456B}', '\0'), ('\u{2F9B3}', '\u{8650}', '\0'),
    ('\u{2F9B4}', '\u{865C}', '\0'), ('\u{2F9B5}', '\u{8667}', '\0'), ('\u{2F9B6}', '\u{8669}', '\0'),
    ('\u{2F9B7}', '\u{86A9}', '\0'), ('\u{2F9B8}', '\u{8688}', '\0'), ('\u{2F9B9}', '\u{870E}', '\0'),
    ('\u{2F9BA}', '\u{86E2}', '\0'), ('\u{2F9BB}', '\u{8779}', '\0'), ('\u{2F9BC}', '\u{8728}', '\0'),
    ('\u{2F9BD}', '\u{876B}', '\0'), ('\u{2F9BE}', '\u{8786}', '\0'), ('\u{2F9BF}', '\u{45D7}', '\0'),
    ('\u{2F9C0}', '\u{87E1}', '\0'), ('\u{2F9C1}', '\u{8801}', '\0'), ('\u{2F9C2}', '\u{45F9}', '\0'),
    ('\u{2F9C3}', '\u{8860}', '\0'), ('\u{2F9C4}', '\u{8863}', '\0'), ('\u{2F9C5}', '\u{27667}', '\0'),
    ('\u{2F9C6}', '\u{88D7}', '\0'), ('\u{2F9C7}', '\u{88DE}', '\0'), ('\u{2F9C8}', '\u{4635}', '\0'),
    ('\u{2F9C9}', '\u{88FA}', '\0'), ('\u{2F9CA}', '\u{34BB}', '\0'), ('\u{2F9CB}', '\u{278AE}', '\0'),
    ('\u{2F9CC}', '\u{27966}', '\0'), ('\u{2F9CD}', '\u{46BE}', '\0'), ('\u{2F9CE}', '\u{46C7}', '\0'),
    ('\u{2F9CF}', '\u{8AA0}', '\0'), ('\u{2F9D0}', '\u{8AED}', '\0'), ('\u{2F9D1}', '\u{8B8A}', '\0'),
    ('\u{2F9D2}', '\u{8C55}', '\0'), ('\u{2F9D3}', '\u{27CA8}', '\0'), ('\u{2F9D4}', '\u{8CAB}', '\0'),
    ('\u{2F9D5}', '\u{8CC1}', '\0'), ('\u{2F9D6}', '\u{8D1B}', '\0'), ('\u{2F9D7}', '\u{8D77}', '\0'),
    ('\u{2F9D8}', '\u{27F2F}', '\0'), ('\u{2F9D9}', '\u{20804}', '\0'), ('\u{2F9DA}', '\u{8DCB}', '\0'),
    ('\u{2F9DB}', '\u{8DBC}', '\0'), ('\u{2F9DC}', '\u{8DF0}', '\0'), ('\u{2F9DD}', '\u{208DE}', '\0'),
    ('\u{2F9DE}', '\u{8ED4}', '\0'), ('\u{2F9DF}', '\u{8F38}', '\0'), ('\u{2F9E0}', '\u{285D2}', '\0'),
    ('\u{2F9E1}', '\u{285ED}', '\0'), ('\u{2F9E2}', '\u{9094}', '\0'), ('\u{2F9E3}', '\u{90F1}', '\0'),
    ('\u{2F9E4}', '\u{9111}', '\0'), ('\u{2F9E5}', '\u{2872E}', '\0'), ('\u{2F9E6}', '\u{911B}', '\0'),
    ('\u{2F9E7}', '\u{9238}', '\0'), ('\u{2F9E8}', '\u{92D7}', '\0'), ('\u{2F9E9}', '\u{92D8}', '\0'),
    ('\u{2F9EA}', '\u{927C}', '\0'), ('\u{2F9EB}', '\u{93F9}', '\0'), ('\u{2F9EC}', '\u{9415}', '\0'),
    ('\u{2F9ED}', '\u{28BFA}', '\0'), ('\u{2F9EE}', '\u{958B}', '\0'), ('\u{2F9EF}', '\u{4995}', '\0'),
    ('\u{2F9F0}', '\u{95B7}', '\0'), ('\u{2F9F1}', '\u{28D77}', '\0'), ('\u{2F9F2}', '\u{49E6}', '\0'),
    ('\u{2F9F3}', '\u{96C3}', '\0'), ('\u{2F9F4}', '\u{5DB2}', '\0'), ('\u{2F9F5}', '\u{9723}', '\0'),
    ('\u{2F9F6}', '\u{29145}', '\0'), ('\u{2F9F7}', '\u{2921A}', '\0'), ('\u{2F9F8}', '\u{4A6E}', '\0'),
    ('\u{2F9F9}', '\u{4A76}', '\0'), ('\u{2F9FA}', '\u{97E0}', '\0'), ('\u{2F9FB}', '\u{2940A}', '\0'),
    ('\u{2F9FC}', '\u{4AB2}', '\0'), ('\u{2F9FD}', '\u{29496}', '\0'), ('\u{2F9FE}', '\u{980B}', '\0'),
    ('\u{2F9FF}', '\u{980B}', '\0'), ('\u{2FA00}', '\u{9829}', '\0'), ('\u{2FA01}', '\u{295B6}', '\0'),
    ('\u{2FA02}', '\u{98E2}', '\0'), ('\u{2FA03}', '\u{4B33}', '\0'), ('\u{2FA04}', '\u{9929}', '\0'),
    ('\u{2FA05}', '\u{99A7}', '\0'), ('\u{2FA06}', '\u{99C2}', '\0'), ('\u{2FA07}', '\u{99FE}', '\0'),
    ('\u{2FA08}', '\u{4BCE}', '\0'), ('\u{2FA09}', '\u{29B30}', '\0'), ('\u{2FA0A}', '\u{9B12}', '\0'),
    ('\u{2FA0B}', '\u{9C40}', '\0'), ('\u{2FA0C}', '\u{9CFD}', '\0'), ('\u{2FA0D}', '\u{4CCE}', '\0'),
    ('\u{2FA0E}', '\u{4CED}', '\0'), ('\u{2FA0F}', '\u{9D67}', '\0'), ('\u{2FA10}', '\u{2A0CE}', '\0'),
    ('\u{2FA11}', '\u{4CF8}', '\0'), ('\u{2FA12}', '\u{2A105}', '\0'), ('\u{2FA13}', '\u{2A20E}', '\0'),
    ('\u{2FA14}', '\u{2A291}', '\0'), ('\u{2FA15}', '\u{9EBB}', '\0'), ('\u{2FA16}', '\u{4D56}', '\0'),
    ('\u{2FA17}', '\u{9EF9}', '\0'), ('\u{2FA18}', '\u{9EFE}', '\0'), ('\u{2FA19}', '\u{9F05}', '\0'),
    ('\u{2FA1A}', '\u{9F0F}', '\0'), ('\u{2FA1B}', '\u{9F16}', '\0'), ('\u{2FA1C}', '\u{9F3B}', '\0'),
    ('\u{2FA1D}', '\u{2A600}', '\0'),
];

/// Row numbers of the primary composites, counted through the three mapping
/// tables in turn, in ascending order of the row's last two columns.
#[verifier::opaque]
pub const COMPOSE: [u16; 941] = [
    912, 909, 913, 0, 1, 2, 3, 53, 55, 238, 4, 572, 5, 165, 208, 210,
    570, 415, 57, 417, 419, 421, 59, 61, 63, 65, 6, 425, 67, 427, 431, 433,
    429, 7, 8, 9, 598, 69, 71, 73, 10, 596, 77, 212, 214, 594, 240, 75,
    439, 441, 445, 198, 79, 447, 81, 83, 187, 85, 87, 449, 453, 236, 451, 455,
    457, 11, 12, 13, 89, 91, 93, 97, 14, 610, 167, 216, 218, 612, 95, 459,
    98, 463, 189, 465, 100, 467, 102, 106, 469, 104, 475, 473, 477, 479, 481, 200,
    108, 15, 483, 112, 485, 110, 489, 487, 16, 17, 18, 19, 114, 116, 246, 20,
    616, 118, 169, 220, 222, 161, 614, 191, 499, 501, 120, 503, 124, 224, 226, 505,
    122, 509, 126, 128, 511, 132, 513, 232, 130, 521, 136, 523, 234, 134, 527, 525,
    21, 22, 23, 138, 140, 142, 24, 640, 144, 146, 171, 228, 230, 163, 638, 529,
    148, 533, 531, 539, 541, 543, 545, 150, 549, 547, 551, 553, 555, 652, 25, 152,
    658, 250, 557, 154, 656, 654, 155, 559, 157, 159, 561, 563, 26, 27, 28, 29,
    54, 56, 239, 30, 573, 31, 166, 209, 211, 571, 416, 58, 418, 420, 422, 60,
    62, 64, 66, 32, 426, 68, 428, 432, 434, 430, 33, 34, 35, 599, 70, 72,
    74, 36, 597, 78, 213, 215, 595, 241, 76, 440, 442, 446, 199, 80, 448, 82,
    84, 188, 86, 88, 450, 454, 237, 452, 456, 458, 565, 37, 38, 39, 90, 92,
    94, 40, 611, 168, 217, 219, 613, 96, 460, 99, 197, 464, 190, 466, 101, 468,
    103, 107, 470, 105, 476, 474, 478, 480, 482, 201, 109, 41, 484, 113, 486, 111,
    490, 488, 42, 43, 44, 45, 115, 117, 247, 46, 617, 119, 170, 221, 223, 162,
    615, 192, 500, 502, 121, 504, 125, 225, 227, 506, 123, 510, 127, 129, 512, 133,
    514, 233, 131, 522, 566, 137, 524, 235, 135, 528, 526, 47, 48, 49, 139, 141,
    143, 50, 641, 145, 147, 172, 229, 231, 164, 639, 530, 149, 534, 532, 540, 542,
    544, 546, 151, 550, 548, 567, 552, 554, 556, 653, 51, 153, 659, 251, 558, 52,
    657, 568, 655, 156, 560, 158, 160, 562, 564, 875, 258, 835, 576, 574, 580, 578,
    181, 202, 204, 185, 423, 602, 600, 606, 604, 461, 620, 618, 624, 622, 491, 244,
    493, 242, 206, 179, 175, 173, 177, 577, 575, 581, 579, 182, 203, 205, 186, 424,
    603, 601, 607, 605, 462, 621, 619, 625, 623, 492, 245, 494, 243, 207, 180, 176,
    174, 178, 586, 584, 590, 588, 587, 585, 591, 589, 435, 437, 436, 438, 495, 497,
    496, 498, 515, 516, 517, 518, 535, 536, 537, 538, 569, 630, 628, 634, 632, 636,
    631, 629, 635, 633, 637, 644, 642, 648, 646, 650, 645, 643, 649, 647, 651, 195,
    193, 194, 183, 184, 443, 444, 248, 249, 196, 831, 259, 830, 829, 668, 669, 833,
    841, 261, 682, 683, 843, 262, 696, 697, 845, 857, 263, 856, 855, 268, 712, 713,
    883, 264, 726, 727, 874, 872, 265, 871, 870, 269, 740, 885, 266, 752, 753, 887,
    826, 838, 760, 270, 823, 822, 660, 661, 827, 825, 762, 271, 676, 677, 764, 272,
    688, 689, 839, 837, 766, 273, 850, 849, 275, 704, 705, 853, 768, 277, 720, 721,
    866, 867, 770, 278, 863, 862, 276, 732, 733, 868, 772, 279, 744, 745, 881, 879,
    851, 267, 854, 864, 274, 869, 880, 280, 281, 285, 302, 304, 284, 282, 306, 283,
    300, 310, 312, 287, 314, 289, 316, 286, 318, 324, 288, 326, 328, 330, 332, 322,
    303, 305, 293, 291, 307, 292, 301, 311, 313, 296, 315, 290, 317, 295, 319, 325,
    297, 327, 329, 331, 333, 323, 294, 298, 299, 308, 309, 320, 321, 334, 335, 337,
    336, 338, 340, 341, 339, 342, 343, 344, 353, 354, 365, 364, 366, 369, 370, 372,
    371, 373, 374, 377, 375, 376, 378, 379, 381, 380, 382, 383, 385, 384, 403, 404,
    405, 406, 407, 408, 409, 410, 411, 412, 413, 414, 471, 472, 507, 508, 519, 520,
    582, 592, 583, 593, 608, 609, 626, 627, 662, 664, 666, 774, 663, 665, 667, 775,
    776, 777, 778, 779, 780, 781, 670, 672, 674, 782, 671, 673, 675, 783, 784, 785,
    786, 787, 788, 789, 678, 680, 679, 681, 684, 686, 685, 687, 690, 692, 694, 790,
    691, 693, 695, 791, 792, 793, 794, 795, 796, 797, 698, 700, 702, 798, 699, 701,
    703, 799, 800, 801, 802, 803, 804, 805, 706, 708, 710, 707, 709, 711, 714, 716,
    718, 715, 717, 719, 722, 724, 723, 725, 728, 730, 729, 731, 734, 736, 738, 735,
    737, 739, 741, 742, 743, 746, 748, 750, 806, 747, 749, 751, 807, 808, 809, 810,
    811, 812, 813, 754, 756, 758, 814, 755, 757, 759, 815, 816, 817, 818, 819, 820,
    821, 824, 836, 878, 828, 846, 847, 848, 840, 882, 859, 860, 861, 894, 895, 896,
    897, 899, 898, 900, 901, 902, 903, 904, 905, 906, 907, 908, 911, 910, 914, 915,
    916, 917, 918, 919, 920, 921, 930, 931, 922, 923, 924, 925, 932, 933, 926, 927,
    928, 929, 934, 935, 936, 937, 966, 941, 942, 943, 944, 945, 946, 947, 948, 949,
    950, 951, 952, 953, 954, 955, 956, 957, 958, 959, 960, 961, 962, 963, 964, 965,
    967, 993, 968, 969, 970, 971, 972, 973, 974, 975, 976, 977, 978, 979, 980, 981,
    982, 983, 984, 985, 986, 987, 988, 989, 990, 991, 992, 994, 995, 996, 997, 998,
    1493, 1494, 1495, 1496, 1497, 1498, 1499, 1501, 1500, 1502, 1503, 1504, 1505,
];

/// Ranges `(first, last, class)` of characters with a non-zero canonical
/// combining class, in ascending order.
#[verifier::opaque]
pub const CCC: [(char, char, u8); 382] = [
    ('\u{0300}', '\u{0314}', 230), ('\u{0315}', '\u{0315}', 232), ('\u{0316}', '\u{0319}', 220),
    ('\u{031A}', '\u{031A}', 232), ('\u{031B}', '\u{031B}', 216), ('\u{031C}', '\u{0320}', 220),
    ('\u{0321}', '\u{0322}', 202), ('\u{0323}', '\u{0326}', 220), ('\u{0327}', '\u{0328}', 202),
    ('\u{0329}', '\u{0333}', 220), ('\u{0334}', '\u{0338}', 1), ('\u{0339}', '\u{033C}', 220),
    ('\u{033D}', '\u{0344}', 230), ('\u{0345}', '\u{0345}', 240), ('\u{0346}', '\u{0346}', 230),
    ('\u{0347}', '\u{0349}', 220), ('\u{034A}', '\u{034C}', 230), ('\u{034D}', '\u{034E}', 220),
    ('\u{0350}', '\u{0352}', 230), ('\u{0353}', '\u{0356}', 220), ('\u{0357}', '\u{0357}', 230),
    ('\u{0358}', '\u{0358}', 232), ('\u{0359}', '\u{035A}', 220), ('\u{035B}', '\u{035B}', 230),
    ('\u{035C}', '\u{035C}', 233), ('\u{035D}', '\u{035E}', 234), ('\u{035F}', '\u{035F}', 233),
    ('\u{0360}', '\u{0361}', 234), ('\u{0362}', '\u{0362}', 233), ('\u{0363}', '\u{036F}', 230),
    ('\u{0483}', '\u{0487}', 230), ('\u{0591}', '\u{0591}', 220), ('\u{0592}', '\u{0595}', 230),
    ('\u{0596}', '\u{0596}', 220), ('\u{0597}', '\u{0599}', 230), ('\u{059A}', '\u{059A}', 222),
    ('\u{059B}', '\u{059B}', 220), ('\u{059C}', '\u{05A1}', 230), ('\u{05A2}', '\u{05A7}', 220),
    ('\u{05A8}', '\u{05A9}', 230), ('\u{05AA}', '\u{05AA}', 220), ('\u{05AB}', '\u{05AC}', 230),
    ('\u{05AD}', '\u{05AD}', 222), ('\u{05AE}', '\u{05AE}', 228), ('\u{05AF}', '\u{05AF}', 230),
    ('\u{05B0}', '\u{05B0}', 10), ('\u{05B1}', '\u{05B1}', 11), ('\u{05B2}', '\u{05B2}', 12),
    ('\u{05B3}', '\u{05B3}', 13), ('\u{05B4}', '\u{05B4}', 14), ('\u{05B5}', '\u{05B5}', 15),
    ('\u{05B6}', '\u{05B6}', 16), ('\u{05B7}', '\u{05B7}', 17), ('\u{05B8}', '\u{05B8}', 18),
    ('\u{05B9}', '\u{05BA}', 19), ('\u{05BB}', '\u{05BB}', 20), ('\u{05BC}', '\u{05BC}', 21),
    ('\u{05BD}', '\u{05BD}', 22), ('\u{05BF}', '\u{05BF}', 23), ('\u{05C1}', '\u{05C1}', 24),
    ('\u{05C2}', '\u{05C2}', 25), ('\u{05C4}', '\u{05C4}', 230), ('\u{05C5}', '\u{05C5}', 220),
    ('\u{05C7}', '\u{05C7}', 18), ('\u{0610}', '\u{0617}', 230), ('\u{0618}', '\u{0618}', 30),
    ('\u{0619}', '\u{0619}', 31), ('\u{061A}', '\u{061A}', 32), ('\u{064B}', '\u{064B}', 27),
    ('\u{064C}', '\u{064C}', 28), ('\u{064D}', '\u{064D}', 29), ('\u{064E}', '\u{064E}', 30),
    ('\u{064F}', '\u{064F}', 31), ('\u{0650}', '\u{0650}', 32), ('\u{0651}', '\u{0651}', 33),
    ('\u{0652}', '\u{0652}', 34), ('\u{0653}', '\u{0654}', 230), ('\u{0655}', '\u{0656}', 220),
    ('\u{0657}', '\u{065B}', 230), ('\u{065C}', '\u{065C}', 220), ('\u{065D}', '\u{065E}', 230),
    ('\u{065F}', '\u{065F}', 220), ('\u{0670}', '\u{0670}', 35), ('\u{06D6}', '\u{06DC}', 230),
    ('\u{06DF}', '\u{06E2}', 230), ('\u{06E3}', '\u{06E3}', 220), ('\u{06E4}', '\u{06E4}', 230),
    ('\u{06E7}', '\u{06E8}', 230), ('\u{06EA}', '\u{06EA}', 220), ('\u{06EB}', '\u{06EC}', 230),
    ('\u{06ED}', '\u{06ED}', 220), ('\u{0711}', '\u{0711}', 36), ('\u{0730}', '\u{0730}', 230),
    ('\u{0731}', '\u{0731}', 220), ('\u{0732}', '\u{0733}', 230), ('\u{0734}', '\u{0734}', 220),
    ('\u{0735}', '\u{0736}', 230), ('\u{0737}', '\u{0739}', 220), ('\u{073A}', '\u{073A}', 230),
    ('\u{073B}', '\u{073C}', 220), ('\u{073D}', '\u{073D}', 230), ('\u{073E}', '\u{073E}', 220),
    ('\u{073F}', '\u{0741}', 230), ('\u{0742}', '\u{0742}', 220), ('\u{0743}', '\u{0743}', 230),
    ('\u{0744}', '\u{0744}', 220), ('\u{0745}', '\u{0745}', 230), ('\u{0746}', '\u{0746}', 220),
    ('\u{0747}', '\u{0747}', 230), ('\u{0748}', '\u{0748}', 220), ('\u{0749}', '\u{074A}', 230),
    ('\u{07EB}', '\u{07F1}', 230), ('\u{07F2}', '\u{07F2}', 220), ('\u{07F3}', '\u{07F3}', 230),
    ('\u{07FD}', '\u{07FD}', 220), ('\u{0816}', '\u{0819}', 230), ('\u{081B}', '\u{0823}', 230),
    ('\u{0825}', '\u{0827}', 230), ('\u{0829}', '\u{082D}', 230), ('\u{0859}', '\u{085B}', 220),
    ('\u{0898}', '\u{0898}', 230), ('\u{0899}', '\u{089B}', 220), ('\u{089C}', '\u{089F}', 230),
    ('\u{08CA}', '\u{08CE}', 230), ('\u{08CF}', '\u{08D3}', 220), ('\u{08D4}', '\u{08E1}', 230),
    ('\u{08E3}', '\u{08E3}', 220), ('\u{08E4}', '\u{08E5}', 230), ('\u{08E6}', '\u{08E6}', 220),
    ('\u{08E7}', '\u{08E8}', 230), ('\u{08E9}', '\u{08E9}', 220), ('\u{08EA}', '\u{08EC}', 230),
    ('\u{08ED}', '\u{08EF}', 220), ('\u{08F0}', '\u{08F0}', 27), ('\u{08F1}', '\u{08F1}', 28),
    ('\u{08F2}', '\u{08F2}', 29), ('\u{08F3}', '\u{08F5}', 230), ('\u{08F6}', '\u{08F6}', 220),
    ('\u{08F7}', '\u{08F8}', 230), ('\u{08F9}', '\u{08FA}', 220), ('\u{08FB}', '\u{08FF}', 230),
    ('\u{093C}', '\u{093C}', 7), ('\u{094D}', '\u{094D}', 9), ('\u{0951}', '\u{0951}', 230),
    ('\u{0952}', '\u{0952}', 220), ('\u{0953}', '\u{0954}', 230), ('\u{09BC}', '\u{09BC}', 7),
    ('\u{09CD}', '\u{09CD}', 9), ('\u{09FE}', '\u{09FE}', 230), ('\u{0A3C}', '\u{0A3C}', 7),
    ('\u{0A4D}', '\u{0A4D}', 9), ('\u{0ABC}', '\u{0ABC}', 7), ('\u{0ACD}', '\u{0ACD}', 9),
    ('\u{0B3C}', '\u{0B3C}', 7), ('\u{0B4D}', '\u{0B4D}', 9), ('\u{0BCD}', '\u{0BCD}', 9),
    ('\u{0C3C}', '\u{0C3C}', 7), ('\u{0C4D}', '\u{0C4D}', 9), ('\u{0C55}', '\u{0C55}', 84),
    ('\u{0C56}', '\u{0C56}', 91), ('\u{0CBC}', '\u{0CBC}', 7), ('\u{0CCD}', '\u{0CCD}', 9),
    ('\u{0D3B}', '\u{0D3C}', 9), ('\u{0D4D}', '\u{0D4D}', 9), ('\u{0DCA}', '\u{0DCA}', 9),
    ('\u{0E38}', '\u{0E39}', 103), ('\u{0E3A}', '\u{0E3A}', 9), ('\u{0E48}', '\u{0E4B}', 107),
    ('\u{0EB8}', '\u{0EB9}', 118), ('\u{0EBA}', '\u{0EBA}', 9), ('\u{0EC8}', '\u{0ECB}', 122),
    ('\u{0F18}', '\u{0F19}', 220), ('\u{0F35}', '\u{0F35}', 220), ('\u{0F37}', '\u{0F37}', 220),
    ('\u{0F39}', '\u{0F39}', 216), ('\u{0F71}', '\u{0F71}', 129), ('\u{0F72}', '\u{0F72}', 130),
    ('\u{0F74}', '\u{0F74}', 132), ('\u{0F7A}', '\u{0F7D}', 130), ('\u{0F80}', '\u{0F80}', 130),
    ('\u{0F82}', '\u{0F83}', 230), ('\u{0F84}', '\u{0F84}', 9), ('\u{0F86}', '\u{0F87}', 230),
    ('\u{0FC6}', '\u{0FC6}', 220), ('\u{1037}', '\u{1037}', 7), ('\u{1039}', '\u{103A}', 9),
    ('\u{108D}', '\u{108D}', 220), ('\u{135D}', '\u{135F}', 230), ('\u{1714}', '\u{1715}', 9),
    ('\u{1734}', '\u{1734}', 9), ('\u{17D2}', '\u{17D2}', 9), ('\u{17DD}', '\u{17DD}', 230),
    ('\u{18A9}', '\u{18A9}', 228), ('\u{1939}', '\u{1939}', 222), ('\u{193A}', '\u{193A}', 230),
    ('\u{193B}', '\u{193B}', 220), ('\u{1A17}', '\u{1A17}', 230), ('\u{1A18}', '\u{1A18}', 220),
    ('\u{1A60}', '\u{1A60}', 9), ('\u{1A75}', '\u{1A7C}', 230), ('\u{1A7F}', '\u{1A7F}', 220),
    ('\u{1AB0}', '\u{1AB4}', 230), ('\u{1AB5}', '\u{1ABA}', 220), ('\u{1ABB}', '\u{1ABC}', 230),
    ('\u{1ABD}', '\u{1ABD}', 220), ('\u{1ABF}', '\u{1AC0}', 220), ('\u{1AC1}', '\u{1AC2}', 230),
    ('\u{1AC3}', '\u{1AC4}', 220), ('\u{1AC5}', '\u{1AC9}', 230), ('\u{1ACA}', '\u{1ACA}', 220),
    ('\u{1ACB}', '\u{1ACE}', 230), ('\u{1B34}', '\u{1B34}', 7), ('\u{1B44}', '\u{1B44}', 9),
    ('\u{1B6B}', '\u{1B6B}', 230), ('\u{1B6C}', '\u{1B6C}', 220), ('\u{1B6D}', '\u{1B73}', 230),
    ('\u{1BAA}', '\u{1BAB}', 9), ('\u{1BE6}', '\u{1BE6}', 7), ('\u{1BF2}', '\u{1BF3}', 9),
    ('\u{1C37}', '\u{1C37}', 7), ('\u{1CD0}', '\u{1CD2}', 230), ('\u{1CD4}', '\u{1CD4}', 1),
    ('\u{1CD5}', '\u{1CD9}', 220), ('\u{1CDA}', '\u{1CDB}', 230), ('\u{1CDC}', '\u{1CDF}', 220),
    ('\u{1CE0}', '\u{1CE0}', 230), ('\u{1CE2}', '\u{1CE8}', 1), ('\u{1CED}', '\u{1CED}', 220),
    ('\u{1CF4}', '\u{1CF4}', 230), ('\u{1CF8}', '\u{1CF9}', 230), ('\u{1DC0}', '\u{1DC1}', 230),
    ('\u{1DC2}', '\u{1DC2}', 220), ('\u{1DC3}', '\u{1DC9}', 230), ('\u{1DCA}', '\u{1DCA}', 220),
    ('\u{1DCB}', '\u{1DCC}', 230), ('\u{1DCD}', '\u{1DCD}', 234), ('\u{1DCE}', '\u{1DCE}', 214),
    ('\u{1DCF}', '\u{1DCF}', 220), ('\u{1DD0}', '\u{1DD0}', 202), ('\u{1DD1}', '\u{1DF5}', 230),
    ('\u{1DF6}', '\u{1DF6}', 232), ('\u{1DF7}', '\u{1DF8}', 228), ('\u{1DF9}', '\u{1DF9}', 220),
    ('\u{1DFA}', '\u{1DFA}', 218), ('\u{1DFB}', '\u{1DFB}', 230), ('\u{1DFC}', '\u{1DFC}', 233),
    ('\u{1DFD}', '\u{1DFD}', 220), ('\u{1DFE}', '\u{1DFE}', 230), ('\u{1DFF}', '\u{1DFF}', 220),
    ('\u{20D0}', '\u{20D1}', 230), ('\u{20D2}', '\u{20D3}', 1), ('\u{20D4}', '\u{20D7}', 230),
    ('\u{20D8}', '\u{20DA}', 1), ('\u{20DB}', '\u{20DC}', 230), ('\u{20E1}', '\u{20E1}', 230),
    ('\u{20E5}', '\u{20E6}', 1), ('\u{20E7}', '\u{20E7}', 230), ('\u{20E8}', '\u{20E8}', 220),
    ('\u{20E9}', '\u{20E9}', 230), ('\u{20EA}', '\u{20EB}', 1), ('\u{20EC}', '\u{20EF}', 220),
    ('\u{20F0}', '\u{20F0}', 230), ('\u{2CEF}', '\u{2CF1}', 230), ('\u{2D7F}', '\u{2D7F}', 9),
    ('\u{2DE0}', '\u{2DFF}', 230), ('\u{302A}', '\u{302A}', 218), ('\u{302B}', '\u{302B}', 228),
    ('\u{302C}', '\u{302C}', 232), ('\u{302D}', '\u{302D}', 222), ('\u{302E}', '\u{302F}', 224),
    ('\u{3099}', '\u{309A}', 8), ('\u{A66F}', '\u{A66F}', 230), ('\u{A674}', '\u{A67D}', 230),
    ('\u{A69E}', '\u{A69F}', 230), ('\u{A6F0}', '\u{A6F1}', 230), ('\u{A806}', '\u{A806}', 9),
    ('\u{A82C}', '\u{A82C}', 9), ('\u{A8C4}', '\u{A8C4}', 9), ('\u{A8E0}', '\u{A8F1}', 230),
    ('\u{A92B}', '\u{A92D}', 220), ('\u{A953}', '\u{A953}', 9), ('\u{A9B3}', '\u{A9B3}', 7),
    ('\u{A9C0}', '\u{A9C0}', 9), ('\u{AAB0}', '\u{AAB0}', 230), ('\u{AAB2}', '\u{AAB3}', 230),
    ('\u{AAB4}', '\u{AAB4}', 220), ('\u{AAB7}', '\u{AAB8}', 230), ('\u{AABE}', '\u{AABF}', 230),
    ('\u{AAC1}', '\u{AAC1}', 230), ('\u{AAF6}', '\u{AAF6}', 9), ('\u{ABED}', '\u{ABED}', 9),
    ('\u{FB1E}', '\u{FB1E}', 26), ('\u{FE20}', '\u{FE26}', 230), ('\u{FE27}', '\u{FE2D}', 220),
    ('\u{FE2E}', '\u{FE2F}', 230), ('\u{101FD}', '\u{101FD}', 220), ('\u{102E0}', '\u{102E0}', 220),
    ('\u{10376}', '\u{1037A}', 230), ('\u{10A0D}', '\u{10A0D}', 220), ('\u{10A0F}', '\u{10A0F}', 230),
    ('\u{10A38}', '\u{10A38}', 230), ('\u{10A39}', '\u{10A39}', 1), ('\u{10A3A}', '\u{10A3A}', 220),
    ('\u{10A3F}', '\u{10A3F}', 9), ('\u{10AE5}', '\u{10AE5}', 230), ('\u{10AE6}', '\u{10AE6}', 220),
    ('\u{10D24}', '\u{10D27}', 230), ('\u{10EAB}', '\u{10EAC}', 230), ('\u{10F46}', '\u{10F47}', 220),
    ('\u{10F48}', '\u{10F4A}', 230), ('\u{10F4B}', '\u{10F4B}', 220), ('\u{10F4C}', '\u{10F4C}', 230),
    ('\u{10F4D}', '\u{10F50}', 220), ('\u{10F82}', '\u{10F82}', 230), ('\u{10F83}', '\u{10F83}', 220),
    ('\u{10F84}', '\u{10F84}', 230), ('\u{10F85}', '\u{10F85}', 220), ('\u{11046}', '\u{11046}', 9),
    ('\u{11070}', '\u{11070}', 9), ('\u{1107F}', '\u{1107F}', 9), ('\u{110B9}', '\u{110B9}', 9),
    ('\u{110BA}', '\u{110BA}', 7), ('\u{11100}', '\u{11102}', 230), ('\u{11133}', '\u{11134}', 9),
    ('\u{11173}', '\u{11173}', 7), ('\u{111C0}', '\u{111C0}', 9), ('\u{111CA}', '\u{111CA}', 7),
    ('\u{11235}', '\u{11235}', 9), ('\u{11236}', '\u{11236}', 7), ('\u{112E9}', '\u{112E9}', 7),
    ('\u{112EA}', '\u{112EA}', 9), ('\u{1133B}', '\u{1133C}', 7), ('\u{1134D}', '\u{1134D}', 9),
    ('\u{11366}', '\u{1136C}', 230), ('\u{11370}', '\u{11374}', 230), ('\u{11442}', '\u{11442}', 9),
    ('\u{11446}', '\u{11446}', 7), ('\u{1145E}', '\u{1145E}', 230), ('\u{114C2}', '\u{114C2}', 9),
    ('\u{114C3}', '\u{114C3}', 7), ('\u{115BF}', '\u{115BF}', 9), ('\u{115C0}', '\u{115C0}', 7),
    ('\u{1163F}', '\u{1163F}', 9), ('\u{116B6}', '\u{116B6}', 9), ('\u{116B7}', '\u{116B7}', 7),
    ('\u{1172B}', '\u{1172B}', 9), ('\u{11839}', '\u{11839}', 9), ('\u{1183A}', '\u{1183A}', 7),
    ('\u{1193D}', '\u{1193E}', 9), ('\u{11943}', '\u{11943}', 7), ('\u{119E0}', '\u{119E0}', 9),
    ('\u{11A34}', '\u{11A34}', 9), ('\u{11A47}', '\u{11A47}', 9), ('\u{11A99}', '\u{11A99}', 9),
    ('\u{11C3F}', '\u{11C3F}', 9), ('\u{11D42}', '\u{11D42}', 7), ('\u{11D44}', '\u{11D45}', 9),
    ('\u{11D97}', '\u{11D97}', 9), ('\u{16AF0}', '\u{16AF4}', 1), ('\u{16B30}', '\u{16B36}', 230),
    ('\u{16FF0}', '\u{16FF1}', 6), ('\u{1BC9E}', '\u{1BC9E}', 1), ('\u{1D165}', '\u{1D166}', 216),
    ('\u{1D167}', '\u{1D169}', 1), ('\u{1D16D}', '\u{1D16D}', 226), ('\u{1D16E}', '\u{1D172}', 216),
    ('\u{1D17B}', '\u{1D182}', 220), ('\u{1D185}', '\u{1D189}', 230), ('\u{1D18A}', '\u{1D18B}', 220),
    ('\u{1D1AA}', '\u{1D1AD}', 230), ('\u{1D242}', '\u{1D244}', 230), ('\u{1E000}', '\u{1E006}', 230),
    ('\u{1E008}', '\u{1E018}', 230), ('\u{1E01B}', '\u{1E021}', 230), ('\u{1E023}', '\u{1E024}', 230),
    ('\u{1E026}', '\u{1E02A}', 230), ('\u{1E130}', '\u{1E136}', 230), ('\u{1E2AE}', '\u{1E2AE}', 230),
    ('\u{1E2EC}', '\u{1E2EF}', 230), ('\u{1E8D0}', '\u{1E8D6}', 220), ('\u{1E944}', '\u{1E949}', 230),
    ('\u{1E94A}', '\u{1E94A}', 7),
];

} // verus!
