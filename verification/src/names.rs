//! The fixed table of the 148 CSS named colors (the 147 standard keywords
//! plus `rebeccapurple`), each mapping to its canonical six-digit hex string.
//!
//! The table is split into parts only to keep each function small.

use vstd::prelude::*;

use crate::text::chars_eq_str;

verus! {

/// Part of the named-color table.
pub open spec fn named_hex_a(s: Seq<char>) -> Option<Seq<char>> {
    if s == "black"@ {
        Some("#000000"@)
    } else if s == "silver"@ {
        Some("#c0c0c0"@)
    } else if s == "gray"@ {
        Some("#808080"@)
    } else if s == "white"@ {
        Some("#ffffff"@)
    } else if s == "maroon"@ {
        Some("#800000"@)
    } else if s == "red"@ {
        Some("#ff0000"@)
    } else if s == "purple"@ {
        Some("#800080"@)
    } else if s == "fuchsia"@ {
        Some("#ff00ff"@)
    } else if s == "green"@ {
        Some("#008000"@)
    } else if s == "lime"@ {
        Some("#00ff00"@)
    } else if s == "olive"@ {
        Some("#808000"@)
    } else if s == "yellow"@ {
        Some("#ffff00"@)
    } else if s == "navy"@ {
        Some("#000080"@)
    } else if s == "blue"@ {
        Some("#0000ff"@)
    } else if s == "teal"@ {
        Some("#008080"@)
    } else if s == "aqua"@ {
        Some("#00ffff"@)
    } else if s == "orange"@ {
        Some("#ffa500"@)
    } else if s == "aliceblue"@ {
        Some("#f0f8ff"@)
    } else if s == "antiquewhite"@ {
        Some("#faebd7"@)
    } else {
        None
    }
}

/// Looks a token up in this part of the table.
pub fn lookup_a(v: &Vec<char>) -> (r: Option<&'static str>)
    ensures
        named_hex_a(v@) matches Some(h) ==> (r matches Some(e) && e@ == h),
        named_hex_a(v@) is None ==> r is None,
{
    if chars_eq_str(v, "black") {
        Some("#000000")
    } else if chars_eq_str(v, "silver") {
        Some("#c0c0c0")
    } else if chars_eq_str(v, "gray") {
        Some("#808080")
    } else if chars_eq_str(v, "white") {
        Some("#ffffff")
    } else if chars_eq_str(v, "maroon") {
        Some("#800000")
    } else if chars_eq_str(v, "red") {
        Some("#ff0000")
    } else if chars_eq_str(v, "purple") {
        Some("#800080")
    } else if chars_eq_str(v, "fuchsia") {
        Some("#ff00ff")
    } else if chars_eq_str(v, "green") {
        Some("#008000")
    } else if chars_eq_str(v, "lime") {
        Some("#00ff00")
    } else if chars_eq_str(v, "olive") {
        Some("#808000")
    } else if chars_eq_str(v, "yellow") {
        Some("#ffff00")
    } else if chars_eq_str(v, "navy") {
        Some("#000080")
    } else if chars_eq_str(v, "blue") {
        Some("#0000ff")
    } else if chars_eq_str(v, "teal") {
        Some("#008080")
    } else if chars_eq_str(v, "aqua") {
        Some("#00ffff")
    } else if chars_eq_str(v, "orange") {
        Some("#ffa500")
    } else if chars_eq_str(v, "aliceblue") {
        Some("#f0f8ff")
    } else if chars_eq_str(v, "antiquewhite") {
        Some("#faebd7")
    } else {
        None
    }
}

/// Every hex string in this part of the table is seven characters long
/// and begins with `#`.
pub proof fn lemma_named_hex_a_wf(s: Seq<char>)
    ensures
        named_hex_a(s) matches Some(h) ==> h.len() == 7 && h[0] == '#',
{
    reveal_strlit("#000000");
    reveal_strlit("#c0c0c0");
    reveal_strlit("#808080");
    reveal_strlit("#ffffff");
    reveal_strlit("#800000");
    reveal_strlit("#ff0000");
    reveal_strlit("#800080");
    reveal_strlit("#ff00ff");
    reveal_strlit("#008000");
    reveal_strlit("#00ff00");
    reveal_strlit("#808000");
    reveal_strlit("#ffff00");
    reveal_strlit("#000080");
    reveal_strlit("#0000ff");
    reveal_strlit("#008080");
    reveal_strlit("#00ffff");
    reveal_strlit("#ffa500");
    reveal_strlit("#f0f8ff");
    reveal_strlit("#faebd7");
}

/// No keyword in this part of the table begins with `#`.
pub proof fn lemma_named_hex_a_hash(s: Seq<char>)
    requires
        s.len() > 0,
        s[0] == '#',
    ensures
        named_hex_a(s) is None,
{
    reveal_strlit("black");
    reveal_strlit("silver");
    reveal_strlit("gray");
    reveal_strlit("white");
    reveal_strlit("maroon");
    reveal_strlit("red");
    reveal_strlit("purple");
    reveal_strlit("fuchsia");
    reveal_strlit("green");
    reveal_strlit("lime");
    reveal_strlit("olive");
    reveal_strlit("yellow");
    reveal_strlit("navy");
    reveal_strlit("blue");
    reveal_strlit("teal");
    reveal_strlit("aqua");
    reveal_strlit("orange");
    reveal_strlit("aliceblue");
    reveal_strlit("antiquewhite");
}

/// Part of the named-color table.
pub open spec fn named_hex_b(s: Seq<char>) -> Option<Seq<char>> {
    if s == "aquamarine"@ {
        Some("#7fffd4"@)
    } else if s == "azure"@ {
        Some("#f0ffff"@)
    } else if s == "beige"@ {
        Some("#f5f5dc"@)
    } else if s == "bisque"@ {
        Some("#ffe4c4"@)
    } else if s == "blanchedalmond"@ {
        Some("#ffebcd"@)
    } else if s == "blueviolet"@ {
        Some("#8a2be2"@)
    } else if s == "brown"@ {
        Some("#a52a2a"@)
    } else if s == "burlywood"@ {
        Some("#deb887"@)
    } else if s == "cadetblue"@ {
        Some("#5f9ea0"@)
    } else if s == "chartreuse"@ {
        Some("#7fff00"@)
    } else if s == "chocolate"@ {
        Some("#d2691e"@)
    } else if s == "coral"@ {
        Some("#ff7f50"@)
    } else if s == "cornflowerblue"@ {
        Some("#6495ed"@)
    } else if s == "cornsilk"@ {
        Some("#fff8dc"@)
    } else if s == "crimson"@ {
        Some("#dc143c"@)
    } else if s == "cyan"@ {
        Some("#00ffff"@)
    } else if s == "darkblue"@ {
        Some("#00008b"@)
    } else if s == "darkcyan"@ {
        Some("#008b8b"@)
    } else if s == "darkgoldenrod"@ {
        Some("#b8860b"@)
    } else {
        None
    }
}

/// Looks a token up in this part of the table.
pub fn lookup_b(v: &Vec<char>) -> (r: Option<&'static str>)
    ensures
        named_hex_b(v@) matches Some(h) ==> (r matches Some(e) && e@ == h),
        named_hex_b(v@) is None ==> r is None,
{
    if chars_eq_str(v, "aquamarine") {
        Some("#7fffd4")
    } else if chars_eq_str(v, "azure") {
        Some("#f0ffff")
    } else if chars_eq_str(v, "beige") {
        Some("#f5f5dc")
    } else if chars_eq_str(v, "bisque") {
        Some("#ffe4c4")
    } else if chars_eq_str(v, "blanchedalmond") {
        Some("#ffebcd")
    } else if chars_eq_str(v, "blueviolet") {
        Some("#8a2be2")
    } else if chars_eq_str(v, "brown") {
        Some("#a52a2a")
    } else if chars_eq_str(v, "burlywood") {
        Some("#deb887")
    } else if chars_eq_str(v, "cadetblue") {
        Some("#5f9ea0")
    } else if chars_eq_str(v, "chartreuse") {
        Some("#7fff00")
    } else if chars_eq_str(v, "chocolate") {
        Some("#d2691e")
    } else if chars_eq_str(v, "coral") {
        Some("#ff7f50")
    } else if chars_eq_str(v, "cornflowerblue") {
        Some("#6495ed")
    } else if chars_eq_str(v, "cornsilk") {
        Some("#fff8dc")
    } else if chars_eq_str(v, "crimson") {
        Some("#dc143c")
    } else if chars_eq_str(v, "cyan") {
        Some("#00ffff")
    } else if chars_eq_str(v, "darkblue") {
        Some("#00008b")
    } else if chars_eq_str(v, "darkcyan") {
        Some("#008b8b")
    } else if chars_eq_str(v, "darkgoldenrod") {
        Some("#b8860b")
    } else {
        None
    }
}

/// Every hex string in this part of the table is seven characters long
/// and begins with `#`.
pub proof fn lemma_named_hex_b_wf(s: Seq<char>)
    ensures
        named_hex_b(s) matches Some(h) ==> h.len() == 7 && h[0] == '#',
{
    reveal_strlit("#7fffd4");
    reveal_strlit("#f0ffff");
    reveal_strlit("#f5f5dc");
    reveal_strlit("#ffe4c4");
    reveal_strlit("#ffebcd");
    reveal_strlit("#8a2be2");
    reveal_strlit("#a52a2a");
    reveal_strlit("#deb887");
    reveal_strlit("#5f9ea0");
    reveal_strlit("#7fff00");
    reveal_strlit("#d2691e");
    reveal_strlit("#ff7f50");
    reveal_strlit("#6495ed");
    reveal_strlit("#fff8dc");
    reveal_strlit("#dc143c");
    reveal_strlit("#00ffff");
    reveal_strlit("#00008b");
    reveal_strlit("#008b8b");
    reveal_strlit("#b8860b");
}

/// No keyword in this part of the table begins with `#`.
pub proof fn lemma_named_hex_b_hash(s: Seq<char>)
    requires
        s.len() > 0,
        s[0] == '#',
    ensures
        named_hex_b(s) is None,
{
    reveal_strlit("aquamarine");
    reveal_strlit("azure");
    reveal_strlit("beige");
    reveal_strlit("bisque");
    reveal_strlit("blanchedalmond");
    reveal_strlit("blueviolet");
    reveal_strlit("brown");
    reveal_strlit("burlywood");
    reveal_strlit("cadetblue");
    reveal_strlit("chartreuse");
    reveal_strlit("chocolate");
    reveal_strlit("coral");
    reveal_strlit("cornflowerblue");
    reveal_strlit("cornsilk");
    reveal_strlit("crimson");
    reveal_strlit("cyan");
    reveal_strlit("darkblue");
    reveal_strlit("darkcyan");
    reveal_strlit("darkgoldenrod");
}

/// Part of the named-color table.
pub open spec fn named_hex_c(s: Seq<char>) -> Option<Seq<char>> {
    if s == "darkgray"@ {
        Some("#a9a9a9"@)
    } else if s == "darkgreen"@ {
        Some("#006400"@)
    } else if s == "darkgrey"@ {
        Some("#a9a9a9"@)
    } else if s == "darkkhaki"@ {
        Some("#bdb76b"@)
    } else if s == "darkmagenta"@ {
        Some("#8b008b"@)
    } else if s == "darkolivegreen"@ {
        Some("#556b2f"@)
    } else if s == "darkorange"@ {
        Some("#ff8c00"@)
    } else if s == "darkorchid"@ {
        Some("#9932cc"@)
    } else if s == "darkred"@ {
        Some("#8b0000"@)
    } else if s == "darksalmon"@ {
        Some("#e9967a"@)
    } else if s == "darkseagreen"@ {
        Some("#8fbc8f"@)
    } else if s == "darkslateblue"@ {
        Some("#483d8b"@)
    } else if s == "darkslategray"@ {
        Some("#2f4f4f"@)
    } else if s == "darkslategrey"@ {
        Some("#2f4f4f"@)
    } else if s == "darkturquoise"@ {
        Some("#00ced1"@)
    } else if s == "darkviolet"@ {
        Some("#9400d3"@)
    } else if s == "deeppink"@ {
        Some("#ff1493"@)
    } else if s == "deepskyblue"@ {
        Some("#00bfff"@)
    } else if s == "dimgray"@ {
        Some("#696969"@)
    } else {
        None
    }
}

/// Looks a token up in this part of the table.
pub fn lookup_c(v: &Vec<char>) -> (r: Option<&'static str>)
    ensures
        named_hex_c(v@) matches Some(h) ==> (r matches Some(e) && e@ == h),
        named_hex_c(v@) is None ==> r is None,
{
    if chars_eq_str(v, "darkgray") {
        Some("#a9a9a9")
    } else if chars_eq_str(v, "darkgreen") {
        Some("#006400")
    } else if chars_eq_str(v, "darkgrey") {
        Some("#a9a9a9")
    } else if chars_eq_str(v, "darkkhaki") {
        Some("#bdb76b")
    } else if chars_eq_str(v, "darkmagenta") {
        Some("#8b008b")
    } else if chars_eq_str(v, "darkolivegreen") {
        Some("#556b2f")
    } else if chars_eq_str(v, "darkorange") {
        Some("#ff8c00")
    } else if chars_eq_str(v, "darkorchid") {
        Some("#9932cc")
    } else if chars_eq_str(v, "darkred") {
        Some("#8b0000")
    } else if chars_eq_str(v, "darksalmon") {
        Some("#e9967a")
    } else if chars_eq_str(v, "darkseagreen") {
        Some("#8fbc8f")
    } else if chars_eq_str(v, "darkslateblue") {
        Some("#483d8b")
    } else if chars_eq_str(v, "darkslategray") {
        Some("#2f4f4f")
    } else if chars_eq_str(v, "darkslategrey") {
        Some("#2f4f4f")
    } else if chars_eq_str(v, "darkturquoise") {
        Some("#00ced1")
    } else if chars_eq_str(v, "darkviolet") {
        Some("#9400d3")
    } else if chars_eq_str(v, "deeppink") {
        Some("#ff1493")
    } else if chars_eq_str(v, "deepskyblue") {
        Some("#00bfff")
    } else if chars_eq_str(v, "dimgray") {
        Some("#696969")
    } else {
        None
    }
}

/// Every hex string in this part of the table is seven characters long
/// and begins with `#`.
pub proof fn lemma_named_hex_c_wf(s: Seq<char>)
    ensures
        named_hex_c(s) matches Some(h) ==> h.len() == 7 && h[0] == '#',
{
    reveal_strlit("#a9a9a9");
    reveal_strlit("#006400");
    reveal_strlit("#a9a9a9");
    reveal_strlit("#bdb76b");
    reveal_strlit("#8b008b");
    reveal_strlit("#556b2f");
    reveal_strlit("#ff8c00");
    reveal_strlit("#9932cc");
    reveal_strlit("#8b0000");
    reveal_strlit("#e9967a");
    reveal_strlit("#8fbc8f");
    reveal_strlit("#483d8b");
    reveal_strlit("#2f4f4f");
    reveal_strlit("#2f4f4f");
    reveal_strlit("#00ced1");
    reveal_strlit("#9400d3");
    reveal_strlit("#ff1493");
    reveal_strlit("#00bfff");
    reveal_strlit("#696969");
}

/// No keyword in this part of the table begins with `#`.
pub proof fn lemma_named_hex_c_hash(s: Seq<char>)
    requires
        s.len() > 0,
        s[0] == '#',
    ensures
        named_hex_c(s) is None,
{
    reveal_strlit("darkgray");
    reveal_strlit("darkgreen");
    reveal_strlit("darkgrey");
    reveal_strlit("darkkhaki");
    reveal_strlit("darkmagenta");
    reveal_strlit("darkolivegreen");
    reveal_strlit("darkorange");
    reveal_strlit("darkorchid");
    reveal_strlit("darkred");
    reveal_strlit("darksalmon");
    reveal_strlit("darkseagreen");
    reveal_strlit("darkslateblue");
    reveal_strlit("darkslategray");
    reveal_strlit("darkslategrey");
    reveal_strlit("darkturquoise");
    reveal_strlit("darkviolet");
    reveal_strlit("deeppink");
    reveal_strlit("deepskyblue");
    reveal_strlit("dimgray");
}

/// Part of the named-color table.
pub open spec fn named_hex_d(s: Seq<char>) -> Option<Seq<char>> {
    if s == "dimgrey"@ {
        Some("#696969"@)
    } else if s == "dodgerblue"@ {
        Some("#1e90ff"@)
    } else if s == "firebrick"@ {
        Some("#b22222"@)
    } else if s == "floralwhite"@ {
        Some("#fffaf0"@)
    } else if s == "forestgreen"@ {
        Some("#228b22"@)
    } else if s == "gainsboro"@ {
        Some("#dcdcdc"@)
    } else if s == "ghostwhite"@ {
        Some("#f8f8ff"@)
    } else if s == "gold"@ {
        Some("#ffd700"@)
    } else if s == "goldenrod"@ {
        Some("#daa520"@)
    } else if s == "greenyellow"@ {
        Some("#adff2f"@)
    } else if s == "grey"@ {
        Some("#808080"@)
    } else if s == "honeydew"@ {
        Some("#f0fff0"@)
    } else if s == "hotpink"@ {
        Some("#ff69b4"@)
    } else if s == "indianred"@ {
        Some("#cd5c5c"@)
    } else if s == "indigo"@ {
        Some("#4b0082"@)
    } else if s == "ivory"@ {
        Some("#fffff0"@)
    } else if s == "khaki"@ {
        Some("#f0e68c"@)
    } else if s == "lavender"@ {
        Some("#e6e6fa"@)
    } else if s == "lavenderblush"@ {
        Some("#fff0f5"@)
    } else {
        None
    }
}

/// Looks a token up in this part of the table.
pub fn lookup_d(v: &Vec<char>) -> (r: Option<&'static str>)
    ensures
        named_hex_d(v@) matches Some(h) ==> (r matches Some(e) && e@ == h),
        named_hex_d(v@) is None ==> r is None,
{
    if chars_eq_str(v, "dimgrey") {
        Some("#696969")
    } else if chars_eq_str(v, "dodgerblue") {
        Some("#1e90ff")
    } else if chars_eq_str(v, "firebrick") {
        Some("#b22222")
    } else if chars_eq_str(v, "floralwhite") {
        Some("#fffaf0")
    } else if chars_eq_str(v, "forestgreen") {
        Some("#228b22")
    } else if chars_eq_str(v, "gainsboro") {
        Some("#dcdcdc")
    } else if chars_eq_str(v, "ghostwhite") {
        Some("#f8f8ff")
    } else if chars_eq_str(v, "gold") {
        Some("#ffd700")
    } else if chars_eq_str(v, "goldenrod") {
        Some("#daa520")
    } else if chars_eq_str(v, "greenyellow") {
        Some("#adff2f")
    } else if chars_eq_str(v, "grey") {
        Some("#808080")
    } else if chars_eq_str(v, "honeydew") {
        Some("#f0fff0")
    } else if chars_eq_str(v, "hotpink") {
        Some("#ff69b4")
    } else if chars_eq_str(v, "indianred") {
        Some("#cd5c5c")
    } else if chars_eq_str(v, "indigo") {
        Some("#4b0082")
    } else if chars_eq_str(v, "ivory") {
        Some("#fffff0")
    } else if chars_eq_str(v, "khaki") {
        Some("#f0e68c")
    } else if chars_eq_str(v, "lavender") {
        Some("#e6e6fa")
    } else if chars_eq_str(v, "lavenderblush") {
        Some("#fff0f5")
    } else {
        None
    }
}

/// Every hex string in this part of the table is seven characters long
/// and begins with `#`.
pub proof fn lemma_named_hex_d_wf(s: Seq<char>)
    ensures
        named_hex_d(s) matches Some(h) ==> h.len() == 7 && h[0] == '#',
{
    reveal_strlit("#696969");
    reveal_strlit("#1e90ff");
    reveal_strlit("#b22222");
    reveal_strlit("#fffaf0");
    reveal_strlit("#228b22");
    reveal_strlit("#dcdcdc");
    reveal_strlit("#f8f8ff");
    reveal_strlit("#ffd700");
    reveal_strlit("#daa520");
    reveal_strlit("#adff2f");
    reveal_strlit("#808080");
    reveal_strlit("#f0fff0");
    reveal_strlit("#ff69b4");
    reveal_strlit("#cd5c5c");
    reveal_strlit("#4b0082");
    reveal_strlit("#fffff0");
    reveal_strlit("#f0e68c");
    reveal_strlit("#e6e6fa");
    reveal_strlit("#fff0f5");
}

/// No keyword in this part of the table begins with `#`.
pub proof fn lemma_named_hex_d_hash(s: Seq<char>)
    requires
        s.len() > 0,
        s[0] == '#',
    ensures
        named_hex_d(s) is None,
{
    reveal_strlit("dimgrey");
    reveal_strlit("dodgerblue");
    reveal_strlit("firebrick");
    reveal_strlit("floralwhite");
    reveal_strlit("forestgreen");
    reveal_strlit("gainsboro");
    reveal_strlit("ghostwhite");
    reveal_strlit("gold");
    reveal_strlit("goldenrod");
    reveal_strlit("greenyellow");
    reveal_strlit("grey");
    reveal_strlit("honeydew");
    reveal_strlit("hotpink");
    reveal_strlit("indianred");
    reveal_strlit("indigo");
    reveal_strlit("ivory");
    reveal_strlit("khaki");
    reveal_strlit("lavender");
    reveal_strlit("lavenderblush");
}

/// Part of the named-color table.
pub open spec fn named_hex_e(s: Seq<char>) -> Option<Seq<char>> {
    if s == "lawngreen"@ {
        Some("#7cfc00"@)
    } else if s == "lemonchiffon"@ {
        Some("#fffacd"@)
    } else if s == "lightblue"@ {
        Some("#add8e6"@)
    } else if s == "lightcoral"@ {
        Some("#f08080"@)
    } else if s == "lightcyan"@ {
        Some("#e0ffff"@)
    } else if s == "lightgoldenrodyellow"@ {
        Some("#fafad2"@)
    } else if s == "lightgray"@ {
        Some("#d3d3d3"@)
    } else if s == "lightgreen"@ {
        Some("#90ee90"@)
    } else if s == "lightgrey"@ {
        Some("#d3d3d3"@)
    } else if s == "lightpink"@ {
        Some("#ffb6c1"@)
    } else if s == "lightsalmon"@ {
        Some("#ffa07a"@)
    } else if s == "lightseagreen"@ {
        Some("#20b2aa"@)
    } else if s == "lightskyblue"@ {
        Some("#87cefa"@)
    } else if s == "lightslategray"@ {
        Some("#778899"@)
    } else if s == "lightslategrey"@ {
        Some("#778899"@)
    } else if s == "lightsteelblue"@ {
        Some("#b0c4de"@)
    } else if s == "lightyellow"@ {
        Some("#ffffe0"@)
    } else if s == "limegreen"@ {
        Some("#32cd32"@)
    } else {
        None
    }
}

/// Looks a token up in this part of the table.
pub fn lookup_e(v: &Vec<char>) -> (r: Option<&'static str>)
    ensures
        named_hex_e(v@) matches Some(h) ==> (r matches Some(e) && e@ == h),
        named_hex_e(v@) is None ==> r is None,
{
    if chars_eq_str(v, "lawngreen") {
        Some("#7cfc00")
    } else if chars_eq_str(v, "lemonchiffon") {
        Some("#fffacd")
    } else if chars_eq_str(v, "lightblue") {
        Some("#add8e6")
    } else if chars_eq_str(v, "lightcoral") {
        Some("#f08080")
    } else if chars_eq_str(v, "lightcyan") {
        Some("#e0ffff")
    } else if chars_eq_str(v, "lightgoldenrodyellow") {
        Some("#fafad2")
    } else if chars_eq_str(v, "lightgray") {
        Some("#d3d3d3")
    } else if chars_eq_str(v, "lightgreen") {
        Some("#90ee90")
    } else if chars_eq_str(v, "lightgrey") {
        Some("#d3d3d3")
    } else if chars_eq_str(v, "lightpink") {
        Some("#ffb6c1")
    } else if chars_eq_str(v, "lightsalmon") {
        Some("#ffa07a")
    } else if chars_eq_str(v, "lightseagreen") {
        Some("#20b2aa")
    } else if chars_eq_str(v, "lightskyblue") {
        Some("#87cefa")
    } else if chars_eq_str(v, "lightslategray") {
        Some("#778899")
    } else if chars_eq_str(v, "lightslategrey") {
        Some("#778899")
    } else if chars_eq_str(v, "lightsteelblue") {
        Some("#b0c4de")
    } else if chars_eq_str(v, "lightyellow") {
        Some("#ffffe0")
    } else if chars_eq_str(v, "limegreen") {
        Some("#32cd32")
    } else {
        None
    }
}

/// Every hex string in this part of the table is seven characters long
/// and begins with `#`.
pub proof fn lemma_named_hex_e_wf(s: Seq<char>)
    ensures
        named_hex_e(s) matches Some(h) ==> h.len() == 7 && h[0] == '#',
{
    reveal_strlit("#7cfc00");
    reveal_strlit("#fffacd");
    reveal_strlit("#add8e6");
    reveal_strlit("#f08080");
    reveal_strlit("#e0ffff");
    reveal_strlit("#fafad2");
    reveal_strlit("#d3d3d3");
    reveal_strlit("#90ee90");
    reveal_strlit("#d3d3d3");
    reveal_strlit("#ffb6c1");
    reveal_strlit("#ffa07a");
    reveal_strlit("#20b2aa");
    reveal_strlit("#87cefa");
    reveal_strlit("#778899");
    reveal_strlit("#778899");
    reveal_strlit("#b0c4de");
    reveal_strlit("#ffffe0");
    reveal_strlit("#32cd32");
}

/// No keyword in this part of the table begins with `#`.
pub proof fn lemma_named_hex_e_hash(s: Seq<char>)
    requires
        s.len() > 0,
        s[0] == '#',
    ensures
        named_hex_e(s) is None,
{
    reveal_strlit("lawngreen");
    reveal_strlit("lemonchiffon");
    reveal_strlit("lightblue");
    reveal_strlit("lightcoral");
    reveal_strlit("lightcyan");
    reveal_strlit("lightgoldenrodyellow");
    reveal_strlit("lightgray");
    reveal_strlit("lightgreen");
    reveal_strlit("lightgrey");
    reveal_strlit("lightpink");
    reveal_strlit("lightsalmon");
    reveal_strlit("lightseagreen");
    reveal_strlit("lightskyblue");
    reveal_strlit("lightslategray");
    reveal_strlit("lightslategrey");
    reveal_strlit("lightsteelblue");
    reveal_strlit("lightyellow");
    reveal_strlit("limegreen");
}

/// Part of the named-color table.
pub open spec fn named_hex_f(s: Seq<char>) -> Option<Seq<char>> {
    if s == "linen"@ {
        Some("#faf0e6"@)
    } else if s == "magenta"@ {
        Some("#ff00ff"@)
    } else if s == "mediumaquamarine"@ {
        Some("#66cdaa"@)
    } else if s == "mediumblue"@ {
        Some("#0000cd"@)
    } else if s == "mediumorchid"@ {
        Some("#ba55d3"@)
    } else if s == "mediumpurple"@ {
        Some("#9370db"@)
    } else if s == "mediumseagreen"@ {
        Some("#3cb371"@)
    } else if s == "mediumslateblue"@ {
        Some("#7b68ee"@)
    } else if s == "mediumspringgreen"@ {
        Some("#00fa9a"@)
    } else if s == "mediumturquoise"@ {
        Some("#48d1cc"@)
    } else if s == "mediumvioletred"@ {
        Some("#c71585"@)
    } else if s == "midnightblue"@ {
        Some("#191970"@)
    } else if s == "mintcream"@ {
        Some("#f5fffa"@)
    } else if s == "mistyrose"@ {
        Some("#ffe4e1"@)
    } else if s == "moccasin"@ {
        Some("#ffe4b5"@)
    } else if s == "navajowhite"@ {
        Some("#ffdead"@)
    } else if s == "oldlace"@ {
        Some("#fdf5e6"@)
    } else if s == "olivedrab"@ {
        Some("#6b8e23"@)
    } else {
        None
    }
}

/// Looks a token up in this part of the table.
pub fn lookup_f(v: &Vec<char>) -> (r: Option<&'static str>)
    ensures
        named_hex_f(v@) matches Some(h) ==> (r matches Some(e) && e@ == h),
        named_hex_f(v@) is None ==> r is None,
{
    if chars_eq_str(v, "linen") {
        Some("#faf0e6")
    } else if chars_eq_str(v, "magenta") {
        Some("#ff00ff")
    } else if chars_eq_str(v, "mediumaquamarine") {
        Some("#66cdaa")
    } else if chars_eq_str(v, "mediumblue") {
        Some("#0000cd")
    } else if chars_eq_str(v, "mediumorchid") {
        Some("#ba55d3")
    } else if chars_eq_str(v, "mediumpurple") {
        Some("#9370db")
    } else if chars_eq_str(v, "mediumseagreen") {
        Some("#3cb371")
    } else if chars_eq_str(v, "mediumslateblue") {
        Some("#7b68ee")
    } else if chars_eq_str(v, "mediumspringgreen") {
        Some("#00fa9a")
    } else if chars_eq_str(v, "mediumturquoise") {
        Some("#48d1cc")
    } else if chars_eq_str(v, "mediumvioletred") {
        Some("#c71585")
    } else if chars_eq_str(v, "midnightblue") {
        Some("#191970")
    } else if chars_eq_str(v, "mintcream") {
        Some("#f5fffa")
    } else if chars_eq_str(v, "mistyrose") {
        Some("#ffe4e1")
    } else if chars_eq_str(v, "moccasin") {
        Some("#ffe4b5")
    } else if chars_eq_str(v, "navajowhite") {
        Some("#ffdead")
    } else if chars_eq_str(v, "oldlace") {
        Some("#fdf5e6")
    } else if chars_eq_str(v, "olivedrab") {
        Some("#6b8e23")
    } else {
        None
    }
}

/// Every hex string in this part of the table is seven characters long
/// and begins with `#`.
pub proof fn lemma_named_hex_f_wf(s: Seq<char>)
    ensures
        named_hex_f(s) matches Some(h) ==> h.len() == 7 && h[0] == '#',
{
    reveal_strlit("#faf0e6");
    reveal_strlit("#ff00ff");
    reveal_strlit("#66cdaa");
    reveal_strlit("#0000cd");
    reveal_strlit("#ba55d3");
    reveal_strlit("#9370db");
    reveal_strlit("#3cb371");
    reveal_strlit("#7b68ee");
    reveal_strlit("#00fa9a");
    reveal_strlit("#48d1cc");
    reveal_strlit("#c71585");
    reveal_strlit("#191970");
    reveal_strlit("#f5fffa");
    reveal_strlit("#ffe4e1");
    reveal_strlit("#ffe4b5");
    reveal_strlit("#ffdead");
    reveal_strlit("#fdf5e6");
    reveal_strlit("#6b8e23");
}

/// No keyword in this part of the table begins with `#`.
pub proof fn lemma_named_hex_f_hash(s: Seq<char>)
    requires
        s.len() > 0,
        s[0] == '#',
    ensures
        named_hex_f(s) is None,
{
    reveal_strlit("linen");
    reveal_strlit("magenta");
    reveal_strlit("mediumaquamarine");
    reveal_strlit("mediumblue");
    reveal_strlit("mediumorchid");
    reveal_strlit("mediumpurple");
    reveal_strlit("mediumseagreen");
    reveal_strlit("mediumslateblue");
    reveal_strlit("mediumspringgreen");
    reveal_strlit("mediumturquoise");
    reveal_strlit("mediumvioletred");
    reveal_strlit("midnightblue");
    reveal_strlit("mintcream");
    reveal_strlit("mistyrose");
    reveal_strlit("moccasin");
    reveal_strlit("navajowhite");
    reveal_strlit("oldlace");
    reveal_strlit("olivedrab");
}

/// Part of the named-color table.
pub open spec fn named_hex_g(s: Seq<char>) -> Option<Seq<char>> {
    if s == "orangered"@ {
        Some("#ff4500"@)
    } else if s == "orchid"@ {
        Some("#da70d6"@)
    } else if s == "palegoldenrod"@ {
        Some("#eee8aa"@)
    } else if s == "palegreen"@ {
        Some("#98fb98"@)
    } else if s == "paleturquoise"@ {
        Some("#afeeee"@)
    } else if s == "palevioletred"@ {
        Some("#db7093"@)
    } else if s == "papayawhip"@ {
        Some("#ffefd5"@)
    } else if s == "peachpuff"@ {
        Some("#ffdab9"@)
    } else if s == "peru"@ {
        Some("#cd853f"@)
    } else if s == "pink"@ {
        Some("#ffc0cb"@)
    } else if s == "plum"@ {
        Some("#dda0dd"@)
    } else if s == "powderblue"@ {
        Some("#b0e0e6"@)
    } else if s == "rosybrown"@ {
        Some("#bc8f8f"@)
    } else if s == "royalblue"@ {
        Some("#4169e1"@)
    } else if s == "saddlebrown"@ {
        Some("#8b4513"@)
    } else if s == "salmon"@ {
        Some("#fa8072"@)
    } else if s == "sandybrown"@ {
        Some("#f4a460"@)
    } else if s == "seagreen"@ {
        Some("#2e8b57"@)
    } else {
        None
    }
}

/// Looks a token up in this part of the table.
pub fn lookup_g(v: &Vec<char>) -> (r: Option<&'static str>)
    ensures
        named_hex_g(v@) matches Some(h) ==> (r matches Some(e) && e@ == h),
        named_hex_g(v@) is None ==> r is None,
{
    if chars_eq_str(v, "orangered") {
        Some("#ff4500")
    } else if chars_eq_str(v, "orchid") {
        Some("#da70d6")
    } else if chars_eq_str(v, "palegoldenrod") {
        Some("#eee8aa")
    } else if chars_eq_str(v, "palegreen") {
        Some("#98fb98")
    } else if chars_eq_str(v, "paleturquoise") {
        Some("#afeeee")
    } else if chars_eq_str(v, "palevioletred") {
        Some("#db7093")
    } else if chars_eq_str(v, "papayawhip") {
        Some("#ffefd5")
    } else if chars_eq_str(v, "peachpuff") {
        Some("#ffdab9")
    } else if chars_eq_str(v, "peru") {
        Some("#cd853f")
    } else if chars_eq_str(v, "pink") {
        Some("#ffc0cb")
    } else if chars_eq_str(v, "plum") {
        Some("#dda0dd")
    } else if chars_eq_str(v, "powderblue") {
        Some("#b0e0e6")
    } else if chars_eq_str(v, "rosybrown") {
        Some("#bc8f8f")
    } else if chars_eq_str(v, "royalblue") {
        Some("#4169e1")
    } else if chars_eq_str(v, "saddlebrown") {
        Some("#8b4513")
    } else if chars_eq_str(v, "salmon") {
        Some("#fa8072")
    } else if chars_eq_str(v, "sandybrown") {
        Some("#f4a460")
    } else if chars_eq_str(v, "seagreen") {
        Some("#2e8b57")
    } else {
        None
    }
}

/// Every hex string in this part of the table is seven characters long
/// and begins with `#`.
pub proof fn lemma_named_hex_g_wf(s: Seq<char>)
    ensures
        named_hex_g(s) matches Some(h) ==> h.len() == 7 && h[0] == '#',
{
    reveal_strlit("#ff4500");
    reveal_strlit("#da70d6");
    reveal_strlit("#eee8aa");
    reveal_strlit("#98fb98");
    reveal_strlit("#afeeee");
    reveal_strlit("#db7093");
    reveal_strlit("#ffefd5");
    reveal_strlit("#ffdab9");
    reveal_strlit("#cd853f");
    reveal_strlit("#ffc0cb");
    reveal_strlit("#dda0dd");
    reveal_strlit("#b0e0e6");
    reveal_strlit("#bc8f8f");
    reveal_strlit("#4169e1");
    reveal_strlit("#8b4513");
    reveal_strlit("#fa8072");
    reveal_strlit("#f4a460");
    reveal_strlit("#2e8b57");
}

/// No keyword in this part of the table begins with `#`.
pub proof fn lemma_named_hex_g_hash(s: Seq<char>)
    requires
        s.len() > 0,
        s[0] == '#',
    ensures
        named_hex_g(s) is None,
{
    reveal_strlit("orangered");
    reveal_strlit("orchid");
    reveal_strlit("palegoldenrod");
    reveal_strlit("palegreen");
    reveal_strlit("paleturquoise");
    reveal_strlit("palevioletred");
    reveal_strlit("papayawhip");
    reveal_strlit("peachpuff");
    reveal_strlit("peru");
    reveal_strlit("pink");
    reveal_strlit("plum");
    reveal_strlit("powderblue");
    reveal_strlit("rosybrown");
    reveal_strlit("royalblue");
    reveal_strlit("saddlebrown");
    reveal_strlit("salmon");
    reveal_strlit("sandybrown");
    reveal_strlit("seagreen");
}

/// Part of the named-color table.
pub open spec fn named_hex_h(s: Seq<char>) -> Option<Seq<char>> {
    if s == "seashell"@ {
        Some("#fff5ee"@)
    } else if s == "sienna"@ {
        Some("#a0522d"@)
    } else if s == "skyblue"@ {
        Some("#87ceeb"@)
    } else if s == "slateblue"@ {
        Some("#6a5acd"@)
    } else if s == "slategray"@ {
        Some("#708090"@)
    } else if s == "slategrey"@ {
        Some("#708090"@)
    } else if s == "snow"@ {
        Some("#fffafa"@)
    } else if s == "springgreen"@ {
        Some("#00ff7f"@)
    } else if s == "steelblue"@ {
        Some("#4682b4"@)
    } else if s == "tan"@ {
        Some("#d2b48c"@)
    } else if s == "thistle"@ {
        Some("#d8bfd8"@)
    } else if s == "tomato"@ {
        Some("#ff6347"@)
    } else if s == "turquoise"@ {
        Some("#40e0d0"@)
    } else if s == "violet"@ {
        Some("#ee82ee"@)
    } else if s == "wheat"@ {
        Some("#f5deb3"@)
    } else if s == "whitesmoke"@ {
        Some("#f5f5f5"@)
    } else if s == "yellowgreen"@ {
        Some("#9acd32"@)
    } else if s == "rebeccapurple"@ {
        Some("#663399"@)
    } else {
        None
    }
}

/// Looks a token up in this part of the table.
pub fn lookup_h(v: &Vec<char>) -> (r: Option<&'static str>)
    ensures
        named_hex_h(v@) matches Some(h) ==> (r matches Some(e) && e@ == h),
        named_hex_h(v@) is None ==> r is None,
{
    if chars_eq_str(v, "seashell") {
        Some("#fff5ee")
    } else if chars_eq_str(v, "sienna") {
        Some("#a0522d")
    } else if chars_eq_str(v, "skyblue") {
        Some("#87ceeb")
    } else if chars_eq_str(v, "slateblue") {
        Some("#6a5acd")
    } else if chars_eq_str(v, "slategray") {
        Some("#708090")
    } else if chars_eq_str(v, "slategrey") {
        Some("#708090")
    } else if chars_eq_str(v, "snow") {
        Some("#fffafa")
    } else if chars_eq_str(v, "springgreen") {
        Some("#00ff7f")
    } else if chars_eq_str(v, "steelblue") {
        Some("#4682b4")
    } else if chars_eq_str(v, "tan") {
        Some("#d2b48c")
    } else if chars_eq_str(v, "thistle") {
        Some("#d8bfd8")
    } else if chars_eq_str(v, "tomato") {
        Some("#ff6347")
    } else if chars_eq_str(v, "turquoise") {
        Some("#40e0d0")
    } else if chars_eq_str(v, "violet") {
        Some("#ee82ee")
    } else if chars_eq_str(v, "wheat") {
        Some("#f5deb3")
    } else if chars_eq_str(v, "whitesmoke") {
        Some("#f5f5f5")
    } else if chars_eq_str(v, "yellowgreen") {
        Some("#9acd32")
    } else if chars_eq_str(v, "rebeccapurple") {
        Some("#663399")
    } else {
        None
    }
}

/// Every hex string in this part of the table is seven characters long
/// and begins with `#`.
pub proof fn lemma_named_hex_h_wf(s: Seq<char>)
    ensures
        named_hex_h(s) matches Some(h) ==> h.len() == 7 && h[0] == '#',
{
    reveal_strlit("#fff5ee");
    reveal_strlit("#a0522d");
    reveal_strlit("#87ceeb");
    reveal_strlit("#6a5acd");
    reveal_strlit("#708090");
    reveal_strlit("#708090");
    reveal_strlit("#fffafa");
    reveal_strlit("#00ff7f");
    reveal_strlit("#4682b4");
    reveal_strlit("#d2b48c");
    reveal_strlit("#d8bfd8");
    reveal_strlit("#ff6347");
    reveal_strlit("#40e0d0");
    reveal_strlit("#ee82ee");
    reveal_strlit("#f5deb3");
    reveal_strlit("#f5f5f5");
    reveal_strlit("#9acd32");
    reveal_strlit("#663399");
}

/// No keyword in this part of the table begins with `#`.
pub proof fn lemma_named_hex_h_hash(s: Seq<char>)
    requires
        s.len() > 0,
        s[0] == '#',
    ensures
        named_hex_h(s) is None,
{
    reveal_strlit("seashell");
    reveal_strlit("sienna");
    reveal_strlit("skyblue");
    reveal_strlit("slateblue");
    reveal_strlit("slategray");
    reveal_strlit("slategrey");
    reveal_strlit("snow");
    reveal_strlit("springgreen");
    reveal_strlit("steelblue");
    reveal_strlit("tan");
    reveal_strlit("thistle");
    reveal_strlit("tomato");
    reveal_strlit("turquoise");
    reveal_strlit("violet");
    reveal_strlit("wheat");
    reveal_strlit("whitesmoke");
    reveal_strlit("yellowgreen");
    reveal_strlit("rebeccapurple");
}

/// The whole named-color table: keyword to canonical hex string.
pub open spec fn named_hex(s: Seq<char>) -> Option<Seq<char>> {
    if named_hex_a(s) is Some { named_hex_a(s) } else { if named_hex_b(s) is Some { named_hex_b(s) } else { if named_hex_c(s) is Some { named_hex_c(s) } else { if named_hex_d(s) is Some { named_hex_d(s) } else { if named_hex_e(s) is Some { named_hex_e(s) } else { if named_hex_f(s) is Some { named_hex_f(s) } else { if named_hex_g(s) is Some { named_hex_g(s) } else { named_hex_h(s) }}}}}}}
}

/// Looks a token up in the whole table.
pub fn named_lookup(v: &Vec<char>) -> (r: Option<&'static str>)
    ensures
        named_hex(v@) matches Some(h) ==> (r matches Some(e) && e@ == h),
        named_hex(v@) is None ==> r is None,
{
    let ra = lookup_a(v);
    if ra.is_some() {
        return ra;
    }
    let rb = lookup_b(v);
    if rb.is_some() {
        return rb;
    }
    let rc = lookup_c(v);
    if rc.is_some() {
        return rc;
    }
    let rd = lookup_d(v);
    if rd.is_some() {
        return rd;
    }
    let re = lookup_e(v);
    if re.is_some() {
        return re;
    }
    let rf = lookup_f(v);
    if rf.is_some() {
        return rf;
    }
    let rg = lookup_g(v);
    if rg.is_some() {
        return rg;
    }
    let rh = lookup_h(v);
    if rh.is_some() {
        return rh;
    }
    None
}

/// Every hex string of the table is seven characters long and begins
/// with `#`.
pub proof fn lemma_named_hex_wf(s: Seq<char>)
    ensures
        named_hex(s) matches Some(h) ==> h.len() == 7 && h[0] == '#',
{
    lemma_named_hex_a_wf(s);
    lemma_named_hex_b_wf(s);
    lemma_named_hex_c_wf(s);
    lemma_named_hex_d_wf(s);
    lemma_named_hex_e_wf(s);
    lemma_named_hex_f_wf(s);
    lemma_named_hex_g_wf(s);
    lemma_named_hex_h_wf(s);
}

/// A token that begins with `#` is never a keyword of the table.
pub proof fn lemma_named_hex_hash(s: Seq<char>)
    requires
        s.len() > 0,
        s[0] == '#',
    ensures
        named_hex(s) is None,
{
    lemma_named_hex_a_hash(s);
    lemma_named_hex_b_hash(s);
    lemma_named_hex_c_hash(s);
    lemma_named_hex_d_hash(s);
    lemma_named_hex_e_hash(s);
    lemma_named_hex_f_hash(s);
    lemma_named_hex_g_hash(s);
    lemma_named_hex_h_hash(s);
}

} // verus!
