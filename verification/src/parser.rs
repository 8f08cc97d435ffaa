//! The scanning parser: a single forward pass with one-character lookahead
//! and no backtracking.

use vstd::prelude::*;

use crate::color::{classify_v, Color, NumberFault};
use crate::num::is_digit;
use crate::selector::{Selector, SelectorView, SimpleSelector, SimpleSelectorView};
use crate::structs::{
    translate_length, translate_length_v, Declaration, DeclarationView, Rule, RuleView,
    sheet_text, Stylesheet, StylesheetView, Value, ValueView,
};
use crate::text::{
    chars_eq_str, chars_to_string, is_whitespace, is_ws, lemma_scan_end, lower, lower_vec,
    scan_end,
    str_to_chars, trim_chars, trim_ws, vec_sub, ws_pred,
};

verus! {

/// Position after the white space starting at `i`.
pub open spec fn ws_end(s: Seq<char>, i: int) -> int {
    scan_end(s, i, ws_pred())
}

/// Identifier characters may start with a letter, a non-ASCII character or
/// an underscore ...
pub open spec fn valid_start_ident(c: char) -> bool {
    is_letter_s(c) || is_non_ascii_s(c) || c == '_'
}

/// ... and continue with those, digits and hyphens.
pub open spec fn valid_ident(c: char) -> bool {
    valid_start_ident(c) || is_digit(c) || c == '-'
}

/// An ASCII letter.
pub open spec fn is_letter_s(c: char) -> bool {
    is_upper_letter_s(c) || is_lower_letter_s(c)
}

/// An ASCII capital letter.
pub open spec fn is_upper_letter_s(c: char) -> bool {
    'A' <= c && c <= 'Z'
}

/// An ASCII small letter.
pub open spec fn is_lower_letter_s(c: char) -> bool {
    'a' <= c && c <= 'z'
}

/// A character outside the ASCII range.
pub open spec fn is_non_ascii_s(c: char) -> bool {
    c >= '\u{80}'
}

/// The identifier-character predicate as a value.
pub open spec fn ident_pred() -> spec_fn(char) -> bool {
    |c: char| valid_ident(c)
}

/// Position after the identifier starting at `i` (which is `i` itself when
/// no identifier starts there).
pub open spec fn ident_end(s: Seq<char>, i: int) -> int {
    if 0 <= i < s.len() && valid_start_ident(s[i]) {
        scan_end(s, i, ident_pred())
    } else {
        i
    }
}

/// The identifier starting at `i`, lower-cased (empty when none starts
/// there).
pub open spec fn ident_at(s: Seq<char>, i: int) -> Seq<char> {
    if 0 <= i <= s.len() {
        lower(s.subrange(i, ident_end(s, i)))
    } else {
        Seq::empty()
    }
}

/// An identifier read as an id: `None` when empty.
pub open spec fn id_at(s: Seq<char>, i: int) -> Option<Seq<char>> {
    if ident_at(s, i).len() > 0 {
        Some(ident_at(s, i))
    } else {
        None
    }
}

/// The comment machine's inner scan, entered just before the opening `*`:
/// it consumes one character, then possibly a `*`, then one more, stopping
/// when that last character is `/`; after the close it skips white space
/// and re-enters the machine if a `/` follows. An unterminated comment
/// consumes the rest of the input.
pub open spec fn comment_scan(s: Seq<char>, p: int) -> int
    decreases s.len() - p, 0int,
    via comment_scan_decreases
{
    if !(0 <= p < s.len()) {
        s.len() as int
    } else {
        let p1 = p + 1;
        let p2 = if p1 < s.len() && s[p1] == '*' {
            p1 + 1
        } else {
            p1
        };
        if p2 >= s.len() {
            s.len() as int
        } else if s[p2] == '/' {
            let w = ws_end(s, p2 + 1);
            if w < s.len() && s[w] == '/' {
                comments_end(s, w)
            } else {
                w
            }
        } else {
            comment_scan(s, p2 + 1)
        }
    }
}

/// Position after a run of comments starting at `i`: a leading `/` is
/// consumed even when no `*` follows it.
pub open spec fn comments_end(s: Seq<char>, i: int) -> int
    decreases s.len() - i, 1int,
    via comments_end_decreases
{
    if !(0 <= i <= s.len()) {
        i
    } else {
        let i1 = if i < s.len() && s[i] == '/' {
            i + 1
        } else {
            i
        };
        if i1 < s.len() && s[i1] == '*' {
            comment_scan(s, i1)
        } else {
            i1
        }
    }
}

#[via_fn]
proof fn comment_scan_decreases(s: Seq<char>, p: int) {
    if 0 <= p < s.len() {
        let p1 = p + 1;
        let p2 = if p1 < s.len() && s[p1] == '*' {
            p1 + 1
        } else {
            p1
        };
        if p2 < s.len() && s[p2] == '/' {
            lemma_scan_end(s, p2 + 1, ws_pred());
        }
    }
}

#[via_fn]
proof fn comments_end_decreases(s: Seq<char>, i: int) {
}

/// The scan both stays in place or moves forward, and stays inside the
/// input.
pub proof fn lemma_comments_end_bounds(s: Seq<char>, i: int)
    requires
        0 <= i <= s.len(),
    ensures
        i <= comments_end(s, i) <= s.len(),
    decreases s.len() - i, 1int,
{
    let i1 = if i < s.len() && s[i] == '/' {
        i + 1
    } else {
        i
    };
    if i1 < s.len() && s[i1] == '*' {
        lemma_comment_scan_bounds(s, i1);
    }
}

/// Bounds for the inner comment scan.
pub proof fn lemma_comment_scan_bounds(s: Seq<char>, p: int)
    requires
        0 <= p <= s.len(),
    ensures
        p <= comment_scan(s, p) <= s.len(),
    decreases s.len() - p, 0int,
{
    if p < s.len() {
        let p1 = p + 1;
        let p2 = if p1 < s.len() && s[p1] == '*' {
            p1 + 1
        } else {
            p1
        };
        if p2 >= s.len() {
        } else if s[p2] == '/' {
            lemma_scan_end(s, p2 + 1, ws_pred());
            let w = ws_end(s, p2 + 1);
            if w < s.len() && s[w] == '/' {
                lemma_comments_end_bounds(s, w);
            }
        } else {
            lemma_comment_scan_bounds(s, p2 + 1);
        }
    }
}

/// State carried through a simple selector's character loop: the id seen so
/// far, whether ids are suppressed (after a duplicate), and the classes.
pub ghost struct SelScanState {
    pub id: Option<Seq<char>>,
    pub multiple_ids: bool,
    pub classes: Seq<Seq<char>>,
}

/// The simple-selector loop: runs until a comma, an opening brace, white
/// space or the end of input. A `#` captures an id, unless one was already
/// seen — then both are discarded and further ids are suppressed; a `.`
/// captures a class (empty class names are dropped); any other character
/// run is skipped up to the next comma or brace.
pub open spec fn sel_scan(s: Seq<char>, p: int, st: SelScanState) -> (SelScanState, int)
    decreases s.len() - p,
    via sel_scan_decreases
{
    if !(0 <= p < s.len()) || s[p] == ',' || s[p] == '{' || is_ws(s[p]) {
        (st, p)
    } else if s[p] == '#' {
        if st.id is Some || st.multiple_ids {
            sel_scan(
                s,
                ident_end(s, p + 1),
                SelScanState { id: None, multiple_ids: true, classes: st.classes },
            )
        } else {
            sel_scan(
                s,
                ident_end(s, p + 1),
                SelScanState { id: id_at(s, p + 1), multiple_ids: false, classes: st.classes },
            )
        }
    } else if s[p] == '.' {
        let cls = ident_at(s, p + 1);
        sel_scan(
            s,
            ident_end(s, p + 1),
            SelScanState {
                id: st.id,
                multiple_ids: st.multiple_ids,
                classes: if cls.len() > 0 {
                    st.classes.push(cls)
                } else {
                    st.classes
                },
            },
        )
    } else {
        (st, scan_end(s, p, non_sel_delim_pred()))
    }
}

/// Characters that are not a comma or an opening brace.
pub open spec fn non_sel_delim_pred() -> spec_fn(char) -> bool {
    |c: char| c != ',' && c != '{'
}

#[via_fn]
proof fn sel_scan_decreases(s: Seq<char>, p: int, st: SelScanState) {
    if 0 <= p < s.len() && s[p] != ',' && s[p] != '{' && !is_ws(s[p]) {
        if s[p] == '#' || s[p] == '.' {
            lemma_ident_end_bounds(s, p + 1);
        }
    }
}

/// Bounds for [`ident_end`].
pub proof fn lemma_ident_end_bounds(s: Seq<char>, i: int)
    requires
        0 <= i <= s.len(),
    ensures
        i <= ident_end(s, i) <= s.len(),
{
    if i < s.len() && valid_start_ident(s[i]) {
        lemma_scan_end(s, i, ident_pred());
    }
}

/// Bounds for [`sel_scan`].
pub proof fn lemma_sel_scan_bounds(s: Seq<char>, p: int, st: SelScanState)
    requires
        0 <= p <= s.len(),
    ensures
        p <= sel_scan(s, p, st).1 <= s.len(),
    decreases s.len() - p,
{
    if !(0 <= p < s.len()) || s[p] == ',' || s[p] == '{' || is_ws(s[p]) {
    } else if s[p] == '#' || s[p] == '.' {
        lemma_ident_end_bounds(s, p + 1);
        let q = ident_end(s, p + 1);
        if s[p] == '#' {
            if st.id is Some || st.multiple_ids {
                lemma_sel_scan_bounds(
                    s,
                    q,
                    SelScanState { id: None, multiple_ids: true, classes: st.classes },
                );
            } else {
                lemma_sel_scan_bounds(
                    s,
                    q,
                    SelScanState { id: id_at(s, p + 1), multiple_ids: false, classes: st.classes },
                );
            }
        } else {
            let cls = ident_at(s, p + 1);
            lemma_sel_scan_bounds(
                s,
                q,
                SelScanState {
                    id: st.id,
                    multiple_ids: st.multiple_ids,
                    classes: if cls.len() > 0 {
                        st.classes.push(cls)
                    } else {
                        st.classes
                    },
                },
            );
        }
    } else {
        lemma_scan_end(s, p, non_sel_delim_pred());
    }
}

/// One selector: leading white space, an optional tag identifier, then the
/// simple-selector loop. A simple selector with nothing captured is
/// discarded, leaving the empty selector.
pub open spec fn parse_selector_v(s: Seq<char>, i: int) -> (SelectorView, int)
    recommends
        0 <= i <= s.len(),
{
    let w = ws_end(s, i);
    let tag: Option<Seq<char>> = if w < s.len() && valid_start_ident(s[w]) {
        Some(ident_at(s, w))
    } else {
        None
    };
    let p0 = if w < s.len() && valid_start_ident(s[w]) {
        ident_end(s, w)
    } else {
        w
    };
    let r = sel_scan(s, p0, SelScanState { id: None, multiple_ids: false, classes: Seq::empty() });
    let ss = SimpleSelectorView { tag_name: tag, id: r.0.id, classes: r.0.classes };
    if ss == SimpleSelectorView::empty() {
        (SelectorView::empty(), r.1)
    } else {
        (SelectorView { simple: seq![ss], combinators: Seq::empty() }, r.1)
    }
}

/// Bounds for [`parse_selector_v`], with strict progress except on a comma,
/// a brace or the end of input.
pub proof fn lemma_parse_selector_bounds(s: Seq<char>, i: int)
    requires
        0 <= i <= s.len(),
    ensures
        i <= parse_selector_v(s, i).1 <= s.len(),
        i < s.len() && s[i] != ',' && s[i] != '{' ==> parse_selector_v(s, i).1 > i,
{
    lemma_scan_end(s, i, ws_pred());
    let w = ws_end(s, i);
    lemma_ident_end_bounds(s, w);
    let p0 = if w < s.len() && valid_start_ident(s[w]) {
        ident_end(s, w)
    } else {
        w
    };
    lemma_sel_scan_bounds(
        s,
        p0,
        SelScanState { id: None, multiple_ids: false, classes: Seq::empty() },
    );
    if i < s.len() && s[i] != ',' && s[i] != '{' {
        if is_ws(s[i]) {
            assert(w > i);
        } else if valid_start_ident(s[i]) {
            assert(w == i);
            lemma_scan_end(s, i, ident_pred());
            assert(ident_end(s, i) > i);
        } else {
            assert(w == i && p0 == i);
            // the selector loop runs at least one step
            if s[i] == '#' || s[i] == '.' {
                lemma_ident_end_bounds(s, i + 1);
                lemma_sel_scan_bounds(
                    s,
                    ident_end(s, i + 1),
                    SelScanState {
                        id: id_at(s, i + 1),
                        multiple_ids: false,
                        classes: Seq::empty(),
                    },
                );
                lemma_sel_scan_bounds(
                    s,
                    ident_end(s, i + 1),
                    SelScanState { id: None, multiple_ids: true, classes: Seq::empty() },
                );
                let cls = ident_at(s, i + 1);
                lemma_sel_scan_bounds(
                    s,
                    ident_end(s, i + 1),
                    SelScanState {
                        id: None,
                        multiple_ids: false,
                        classes: if cls.len() > 0 {
                            Seq::empty().push(cls)
                        } else {
                            Seq::empty()
                        },
                    },
                );
            } else {
                lemma_scan_end(s, i, non_sel_delim_pred());
            }
        }
    }
}

/// The selector list: selectors separated by optional white space and
/// commas, until an opening brace (which is consumed) or the end of input.
/// Empty selectors are not retained.
pub open spec fn sels_scan(s: Seq<char>, p: int, acc: Seq<SelectorView>) -> (Seq<SelectorView>, int)
    decreases s.len() - p,
    via sels_scan_decreases
{
    if !(0 <= p < s.len()) || s[p] == '{' {
        (acc, p)
    } else {
        let r = parse_selector_v(s, p);
        let acc2 = if r.0 != SelectorView::empty() {
            acc.push(r.0)
        } else {
            acc
        };
        let w = ws_end(s, r.1);
        let p2 = if w < s.len() && s[w] == ',' {
            w + 1
        } else {
            w
        };
        sels_scan(s, p2, acc2)
    }
}

#[via_fn]
proof fn sels_scan_decreases(s: Seq<char>, p: int, acc: Seq<SelectorView>) {
    if 0 <= p < s.len() && s[p] != '{' {
        lemma_sels_progress(s, p);
    }
}

/// One round of the selector-list loop strictly advances.
pub proof fn lemma_sels_progress(s: Seq<char>, p: int)
    requires
        0 <= p < s.len(),
        s[p] != '{',
    ensures
        ({
            let r = parse_selector_v(s, p);
            let w = ws_end(s, r.1);
            let p2 = if w < s.len() && s[w] == ',' {
                w + 1
            } else {
                w
            };
            p < p2 <= s.len()
        }),
{
    lemma_parse_selector_bounds(s, p);
    let r = parse_selector_v(s, p);
    lemma_scan_end(s, r.1, ws_pred());
    let w = ws_end(s, r.1);
    if s[p] == ',' {
        // the selector consumes nothing, but the comma is then consumed
        assert(r.1 == p);
        assert(w == p);
    }
}

/// Bounds for [`sels_scan`].
pub proof fn lemma_sels_scan_bounds(s: Seq<char>, p: int, acc: Seq<SelectorView>)
    requires
        0 <= p <= s.len(),
    ensures
        p <= sels_scan(s, p, acc).1 <= s.len(),
    decreases s.len() - p,
{
    if !(0 <= p < s.len()) || s[p] == '{' {
    } else {
        let r = parse_selector_v(s, p);
        let acc2 = if r.0 != SelectorView::empty() {
            acc.push(r.0)
        } else {
            acc
        };
        let w = ws_end(s, r.1);
        let p2 = if w < s.len() && s[w] == ',' {
            w + 1
        } else {
            w
        };
        lemma_sels_progress(s, p);
        lemma_sels_scan_bounds(s, p2, acc2);
    }
}

/// The whole selector-list production, including the final consumed brace
/// (or nothing at the end of input).
pub open spec fn parse_selectors_v(s: Seq<char>, i: int) -> (Seq<SelectorView>, int) {
    let r = sels_scan(s, i, Seq::empty());
    if r.1 < s.len() {
        (r.0, r.1 + 1)
    } else {
        (r.0, r.1)
    }
}

/// Bounds for [`parse_selectors_v`]: it stays inside the input and, on a
/// non-empty rest, strictly advances.
pub proof fn lemma_parse_selectors_bounds(s: Seq<char>, i: int)
    requires
        0 <= i <= s.len(),
    ensures
        i <= parse_selectors_v(s, i).1 <= s.len(),
        i < s.len() ==> parse_selectors_v(s, i).1 >= i + 1,
{
    lemma_sels_scan_bounds(s, i, Seq::empty());
    if i < s.len() {
        let r = sels_scan(s, i, Seq::empty());
        if s[i] == '{' {
            assert(r.1 == i);
        } else {
            lemma_sels_progress(s, i);
            let r0 = parse_selector_v(s, i);
            let w = ws_end(s, r0.1);
            let p2 = if w < s.len() && s[w] == ',' {
                w + 1
            } else {
                w
            };
            let acc2 = if r0.0 != SelectorView::empty() {
                Seq::<SelectorView>::empty().push(r0.0)
            } else {
                Seq::<SelectorView>::empty()
            };
            lemma_sels_scan_bounds(s, p2, acc2);
            assert(r == sels_scan(s, p2, acc2));
        }
    }
}

/// Characters that are not a colon, for reading a property name.
pub open spec fn non_colon_pred() -> spec_fn(char) -> bool {
    |c: char| c != ':'
}

/// Characters that may stand in a value token: anything but a semicolon, a
/// newline or a closing brace.
pub open spec fn non_val_end_pred() -> spec_fn(char) -> bool {
    |c: char| c != ';' && c != '\n' && c != '}'
}

/// The color-valued properties.
pub open spec fn is_color_property(p: Seq<char>) -> bool {
    p == "background-color"@ || p == "border-color"@ || p == "color"@
}

/// The length-valued properties.
pub open spec fn is_length_property(p: Seq<char>) -> bool {
    p == "margin-right"@ || p == "margin-bottom"@ || p == "margin-left"@ || p == "margin-top"@
        || p == "padding-right"@ || p == "padding-bottom"@ || p == "padding-left"@
        || p == "padding-top"@ || p == "border-right-width"@ || p == "border-bottom-width"@
        || p == "border-left-width"@ || p == "border-top-width"@ || p == "height"@
        || p == "width"@
}

/// A declaration's value, classified by its property name; `None` is the
/// numeric fault of the color classifier.
pub open spec fn classified_value(prop: Seq<char>, val: Seq<char>) -> Option<ValueView> {
    if is_color_property(prop) {
        match classify_v(val) {
            Option::Some(cv) => Some(ValueView::Color(cv)),
            Option::None => None,
        }
    } else if is_length_property(prop) {
        Some(translate_length_v(val))
    } else {
        Some(ValueView::Other(val))
    }
}

/// The declaration-list loop, up to (but not consuming) the closing brace:
/// white space and comments, the property up to a colon, the value up to a
/// semicolon, newline or closing brace, both lower-cased; a declaration is
/// kept when a semicolon follows, or when only white space stands between
/// it and the closing brace.
pub open spec fn decls_scan(s: Seq<char>, p: int, acc: Seq<DeclarationView>) -> Option<
    (Seq<DeclarationView>, int),
>
    decreases s.len() - p,
    via decls_scan_decreases
{
    if !(0 <= p < s.len()) || s[p] == '}' {
        Some((acc, p))
    } else {
        let c0 = comments_end(s, ws_end(s, p));
        let pe = scan_end(s, c0, non_colon_pred());
        let prop = lower(s.subrange(c0, pe));
        let p1 = if pe < s.len() {
            pe + 1
        } else {
            pe
        };
        let w1 = ws_end(s, p1);
        let ve = scan_end(s, w1, non_val_end_pred());
        let val = lower(s.subrange(w1, ve));
        match classified_value(prop, val) {
            Option::None => None,
            Option::Some(v) => {
                let d = DeclarationView { property: prop, value: v };
                let semi = ve < s.len() && s[ve] == ';';
                let p2 = if semi {
                    ve + 1
                } else {
                    ws_end(s, ve)
                };
                let keep = semi || (p2 < s.len() && s[p2] == '}');
                let acc2 = if keep {
                    acc.push(d)
                } else {
                    acc
                };
                let p3 = comments_end(s, ws_end(s, p2));
                decls_scan(s, p3, acc2)
            },
        }
    }
}

#[via_fn]
proof fn decls_scan_decreases(s: Seq<char>, p: int, acc: Seq<DeclarationView>) {
    if 0 <= p < s.len() && s[p] != '}' {
        lemma_decls_progress(s, p);
    }
}

/// One round of the declaration loop advances (or reaches the end).
pub proof fn lemma_decls_progress(s: Seq<char>, p: int)
    requires
        0 <= p < s.len(),
        s[p] != '}',
    ensures
        ({
            let c0 = comments_end(s, ws_end(s, p));
            let pe = scan_end(s, c0, non_colon_pred());
            let p1 = if pe < s.len() {
                pe + 1
            } else {
                pe
            };
            let w1 = ws_end(s, p1);
            let ve = scan_end(s, w1, non_val_end_pred());
            let semi = ve < s.len() && s[ve] == ';';
            let p2 = if semi {
                ve + 1
            } else {
                ws_end(s, ve)
            };
            let p3 = comments_end(s, ws_end(s, p2));
            p < p3 <= s.len() || p3 == s.len()
        }),
{
    lemma_scan_end(s, p, ws_pred());
    lemma_comments_end_bounds(s, ws_end(s, p));
    let c0 = comments_end(s, ws_end(s, p));
    lemma_scan_end(s, c0, non_colon_pred());
    let pe = scan_end(s, c0, non_colon_pred());
    let p1 = if pe < s.len() {
        pe + 1
    } else {
        pe
    };
    lemma_scan_end(s, p1, ws_pred());
    let w1 = ws_end(s, p1);
    lemma_scan_end(s, w1, non_val_end_pred());
    let ve = scan_end(s, w1, non_val_end_pred());
    let semi = ve < s.len() && s[ve] == ';';
    let p2 = if semi {
        ve + 1
    } else {
        ws_end(s, ve)
    };
    lemma_scan_end(s, ve, ws_pred());
    lemma_scan_end(s, p2, ws_pred());
    lemma_comments_end_bounds(s, ws_end(s, p2));
}

/// Bounds for [`decls_scan`].
pub proof fn lemma_decls_scan_bounds(s: Seq<char>, p: int, acc: Seq<DeclarationView>)
    requires
        0 <= p <= s.len(),
    ensures
        decls_scan(s, p, acc) matches Some(r) ==> p <= r.1 <= s.len(),
    decreases s.len() - p,
{
    if !(0 <= p < s.len()) || s[p] == '}' {
    } else {
        lemma_decls_progress(s, p);
        let c0 = comments_end(s, ws_end(s, p));
        let pe = scan_end(s, c0, non_colon_pred());
        let prop = lower(s.subrange(c0, pe));
        let p1 = if pe < s.len() {
            pe + 1
        } else {
            pe
        };
        let w1 = ws_end(s, p1);
        let ve = scan_end(s, w1, non_val_end_pred());
        let val = lower(s.subrange(w1, ve));
        match classified_value(prop, val) {
            Option::None => {},
            Option::Some(v) => {
                let d = DeclarationView { property: prop, value: v };
                let semi = ve < s.len() && s[ve] == ';';
                let p2 = if semi {
                    ve + 1
                } else {
                    ws_end(s, ve)
                };
                let keep = semi || (p2 < s.len() && s[p2] == '}');
                let acc2 = if keep {
                    acc.push(d)
                } else {
                    acc
                };
                let p3 = comments_end(s, ws_end(s, p2));
                lemma_decls_scan_bounds(s, p3, acc2);
            },
        }
    }
}

/// The whole declaration-list production, including the final consumed
/// closing brace (or nothing at the end of input).
pub open spec fn parse_declarations_v(s: Seq<char>, i: int) -> Option<(Seq<DeclarationView>, int)> {
    match decls_scan(s, i, Seq::empty()) {
        Option::None => None,
        Option::Some(r) => if r.1 < s.len() {
            Some((r.0, r.1 + 1))
        } else {
            Some((r.0, r.1))
        },
    }
}

/// Bounds for [`parse_declarations_v`].
pub proof fn lemma_parse_declarations_bounds(s: Seq<char>, i: int)
    requires
        0 <= i <= s.len(),
    ensures
        parse_declarations_v(s, i) matches Some(r) ==> i <= r.1 <= s.len(),
        i < s.len() && parse_declarations_v(s, i) is Some ==> parse_declarations_v(s, i).unwrap().1
            >= i + 1,
{
    lemma_decls_scan_bounds(s, i, Seq::empty());
    if i < s.len() {
        if decls_scan(s, i, Seq::empty()) is Some {
            let r = decls_scan(s, i, Seq::empty()).unwrap();
            if r.1 == i {
                assert(r.1 < s.len());
            }
        }
    }
}

/// The top-level production: rules until the input is exhausted, each made
/// of leading white space and comments, a selector list and a declaration
/// list. `None` is the numeric fault.
pub open spec fn sheet_scan(s: Seq<char>, p: int) -> Option<Seq<RuleView>>
    decreases s.len() - p,
    via sheet_scan_decreases
{
    if !(0 <= p < s.len()) {
        Some(Seq::empty())
    } else {
        let c = comments_end(s, ws_end(s, p));
        let sr = parse_selectors_v(s, c);
        match parse_declarations_v(s, sr.1) {
            Option::None => None,
            Option::Some(dr) => match sheet_scan(s, dr.1) {
                Option::None => None,
                Option::Some(rest) => Some(
                    seq![RuleView { selectors: sr.0, declarations: dr.0 }] + rest,
                ),
            },
        }
    }
}

#[via_fn]
proof fn sheet_scan_decreases(s: Seq<char>, p: int) {
    if 0 <= p < s.len() {
        lemma_sheet_progress(s, p);
    }
}

/// An ASCII capital letter.
pub fn is_upper_letter(c: char) -> (b: bool)
    ensures
        b == is_upper_letter_s(c),
{
    c >= 'A' && c <= 'Z'
}

/// An ASCII small letter.
pub fn is_lower_letter(c: char) -> (b: bool)
    ensures
        b == is_lower_letter_s(c),
{
    c >= 'a' && c <= 'z'
}

/// An ASCII letter.
pub fn is_letter(c: char) -> (b: bool)
    ensures
        b == is_letter_s(c),
{
    is_upper_letter(c) || is_lower_letter(c)
}

/// A character outside the ASCII range.
pub fn is_non_ascii(c: char) -> (b: bool)
    ensures
        b == is_non_ascii_s(c),
{
    c >= '\u{0080}'
}

/// A character an identifier may start with.
pub fn is_valid_start_ident(c: char) -> (b: bool)
    ensures
        b == valid_start_ident(c),
{
    is_letter(c) || is_non_ascii(c) || c == '_'
}

/// A character an identifier may continue with.
pub fn is_valid_ident(c: char) -> (b: bool)
    ensures
        b == valid_ident(c),
{
    is_valid_start_ident(c) || ('0' <= c && c <= '9') || c == '-'
}

/// The parser's cursor: the characters of the input and the position of the
/// next character to read.
pub struct CssParser {
    pub chars: Vec<char>,
    pub pos: usize,
}

impl CssParser {
    /// The cursor stays within the input.
    pub open spec fn wf(&self) -> bool {
        self.pos <= self.chars@.len()
    }

    /// A fresh cursor at the start of the given text.
    pub fn new(full_css: &str) -> (p: CssParser)
        ensures
            p.wf(),
            p.chars@ == full_css@,
            p.pos == 0,
    {
        CssParser { chars: str_to_chars(full_css), pos: 0 }
    }

    /// The next character, if any input remains.
    pub fn peek(&self) -> (r: Option<char>)
        requires
            self.wf(),
        ensures
            self.pos < self.chars@.len() ==> r == Some(self.chars@[self.pos as int]),
            self.pos == self.chars@.len() ==> r is None,
    {
        if self.pos < self.chars.len() {
            Some(self.chars[self.pos])
        } else {
            None
        }
    }

    /// The input not yet consumed.
    pub fn remaining(&self) -> (r: String)
        requires
            self.wf(),
        ensures
            r@ == self.chars@.skip(self.pos as int),
    {
        let v = vec_sub(&self.chars, self.pos, self.chars.len());
        proof {
            assert(v@ =~= self.chars@.skip(self.pos as int));
        }
        chars_to_string(&v)
    }

    /// Consumes characters while they satisfy the condition, returning them.
    fn consume_while<F: Fn(char) -> bool>(&mut self, condition: F, Ghost(p): Ghost<
        spec_fn(char) -> bool,
    >) -> (r: Vec<char>)
        requires
            old(self).wf(),
            forall|c: char| #[trigger] condition.requires((c,)),
            forall|c: char, b: bool| condition.ensures((c,), b) ==> b == p(c),
        ensures
            final(self).wf(),
            final(self).chars == old(self).chars,
            final(self).pos as int == scan_end(old(self).chars@, old(self).pos as int, p),
            r@ == old(self).chars@.subrange(old(self).pos as int, final(self).pos as int),
    {
        let mut result: Vec<char> = Vec::new();
        let ghost s = self.chars@;
        let ghost i0 = self.pos as int;
        while self.pos < self.chars.len() && condition(self.chars[self.pos])
            invariant
                self.chars == old(self).chars,
                s == self.chars@,
                i0 <= self.pos as int <= s.len(),
                scan_end(s, i0, p) == scan_end(s, self.pos as int, p),
                result@.len() == self.pos - i0,
                forall|j: int| 0 <= j < result@.len() ==> result@[j] == s[i0 + j],
                forall|c: char| #[trigger] condition.requires((c,)),
                forall|c: char, b: bool| condition.ensures((c,), b) ==> b == p(c),
            decreases s.len() - self.pos,
        {
            proof {
                let cur = self.pos as int;
                assert(0 <= cur < s.len());
                assert(p(s[cur]));
                assert(scan_end(s, cur, p) == scan_end(s, cur + 1, p));
            }
            result.push(self.chars[self.pos]);
            self.pos = self.pos + 1;
        }
        proof {
            if self.pos < self.chars.len() {
                assert(!p(s[self.pos as int]));
            }
            assert(scan_end(s, self.pos as int, p) == self.pos as int);
            assert(result@ =~= s.subrange(i0, self.pos as int));
        }
        result
    }

    /// Consumes white space.
    fn skip_whitespace(&mut self)
        requires
            old(self).wf(),
        ensures
            final(self).wf(),
            final(self).chars == old(self).chars,
            final(self).pos as int == ws_end(old(self).chars@, old(self).pos as int),
    {
        let cond = |c: char| -> (b: bool)
            ensures
                b == is_ws(c),
            {
                is_whitespace(c)
            };
        let _ = self.consume_while(cond, Ghost(ws_pred()));
    }

    /// Skips one run of comments, as [`comments_end`] describes it: a
    /// leading `/` is consumed even without a `*` after it, and after each
    /// closed comment any white space and a following comment are skipped
    /// too. An unterminated comment consumes the rest of the input.
    pub fn consume_comments(&mut self)
        requires
            old(self).wf(),
        ensures
            final(self).wf(),
            final(self).chars == old(self).chars,
            final(self).pos as int == comments_end(old(self).chars@, old(self).pos as int),
        decreases old(self).chars@.len() - old(self).pos,
    {
        let ghost s = self.chars@;
        let ghost i0 = self.pos as int;
        let n = self.chars.len();
        if self.pos < n && self.chars[self.pos] == '/' {
            self.pos = self.pos + 1;
        }
        if self.pos < n && self.chars[self.pos] == '*' {
            let ghost entry = self.pos as int;
            proof {
                assert(comments_end(s, i0) == comment_scan(s, entry));
            }
            let mut p = self.pos;
            loop
                invariant
                    self.chars == old(self).chars,
                    s == self.chars@,
                    n == s.len(),
                    i0 == old(self).pos as int,
                    0 <= i0 <= entry <= p as int <= n,
                    self.pos as int == entry,
                    entry < n,
                    comment_scan(s, p as int) == comment_scan(s, entry),
                    comments_end(s, i0) == comment_scan(s, entry),
                decreases n - p,
            {
                let ghost p_it = p as int;
                if p >= n {
                    proof {
                        assert(comment_scan(s, p_it) == s.len() as int);
                    }
                    self.pos = n;
                    return ;
                }
                p = p + 1;
                if p < n && self.chars[p] == '*' {
                    p = p + 1;
                }
                let ghost p2 = p as int;
                proof {
                    assert(p2 == (if p_it + 1 < s.len() && s[p_it + 1] == '*' {
                        p_it + 2
                    } else {
                        p_it + 1
                    }));
                }
                if p >= n {
                    proof {
                        assert(comment_scan(s, p_it) == s.len() as int);
                    }
                    self.pos = n;
                    return ;
                }
                let c = self.chars[p];
                p = p + 1;
                if c == '/' {
                    proof {
                        lemma_scan_end(s, p2 + 1, ws_pred());
                        assert(comment_scan(s, p_it) == (if ws_end(s, p2 + 1) < s.len() && s[ws_end(
                            s,
                            p2 + 1,
                        )] == '/' {
                            comments_end(s, ws_end(s, p2 + 1))
                        } else {
                            ws_end(s, p2 + 1)
                        }));
                    }
                    self.pos = p;
                    self.skip_whitespace();
                    proof {
                        assert(self.pos as int == ws_end(s, p2 + 1));
                    }
                    if self.pos < n && self.chars[self.pos] == '/' {
                        proof {
                            assert(self.pos as int >= p2 + 1 > p_it >= entry >= i0);
                        }
                        self.consume_comments();
                    }
                    return ;
                }
                proof {
                    assert(comment_scan(s, p_it) == comment_scan(s, p2 + 1));
                }
            }
        }
    }

    /// Reads an identifier (possibly empty), lower-cased.
    pub fn parse_identifier(&mut self) -> (r: String)
        requires
            old(self).wf(),
        ensures
            final(self).wf(),
            final(self).chars == old(self).chars,
            final(self).pos as int == ident_end(old(self).chars@, old(self).pos as int),
            r@ == ident_at(old(self).chars@, old(self).pos as int),
    {
        let mut ident: Vec<char> = Vec::new();
        if self.pos < self.chars.len() && is_valid_start_ident(self.chars[self.pos]) {
            let cond = |c: char| -> (b: bool)
                ensures
                    b == valid_ident(c),
                {
                    is_valid_ident(c)
                };
            ident = self.consume_while(cond, Ghost(ident_pred()));
        } else {
            proof {
                assert(old(self).chars@.subrange(old(self).pos as int, old(self).pos as int)
                    =~= Seq::<char>::empty());
                assert(lower(Seq::<char>::empty()) =~= Seq::<char>::empty());
            }
        }
        chars_to_string(&lower_vec(&ident))
    }

    /// Reads an identifier as an id: `None` when it is empty.
    pub fn parse_id(&mut self) -> (r: Option<String>)
        requires
            old(self).wf(),
        ensures
            final(self).wf(),
            final(self).chars == old(self).chars,
            final(self).pos as int == ident_end(old(self).chars@, old(self).pos as int),
            r.deep_view() == id_at(old(self).chars@, old(self).pos as int),
    {
        let ident = self.parse_identifier();
        if ident.as_str().unicode_len() > 0 {
            Some(ident)
        } else {
            None
        }
    }

    /// Reads one selector, as [`parse_selector_v`] describes it.
    #[verifier::loop_isolation(false)]
    pub fn parse_selector(&mut self) -> (r: Selector)
        requires
            old(self).wf(),
        ensures
            final(self).wf(),
            final(self).chars == old(self).chars,
            r@ == parse_selector_v(old(self).chars@, old(self).pos as int).0,
            final(self).pos as int == parse_selector_v(old(self).chars@, old(self).pos as int).1,
    {
        let ghost s = self.chars@;
        let ghost i0 = self.pos as int;
        self.skip_whitespace();
        let mut tag_name: Option<String> = None;
        if self.pos < self.chars.len() && is_valid_start_ident(self.chars[self.pos]) {
            tag_name = Some(self.parse_identifier());
        }
        let ghost p0 = self.pos as int;
        let ghost init = SelScanState { id: None, multiple_ids: false, classes: Seq::empty() };
        let mut id: Option<String> = None;
        let mut multiple_ids = false;
        let mut classes: Vec<String> = Vec::new();
        proof {
            assert(classes.deep_view() =~= Seq::<Seq<char>>::empty());
        }
        let n = self.chars.len();
        while self.pos < n && self.chars[self.pos] != ',' && self.chars[self.pos] != '{'
            && !is_whitespace(self.chars[self.pos])
            invariant
                self.wf(),
                self.chars == old(self).chars,
                sel_scan(
                    s,
                    self.pos as int,
                    SelScanState {
                        id: id.deep_view(),
                        multiple_ids: multiple_ids,
                        classes: classes.deep_view(),
                    },
                ) == sel_scan(s, p0, init),
            decreases n - self.pos,
        {
            let ghost p_it = self.pos as int;
            let ghost st_it = SelScanState {
                id: id.deep_view(),
                multiple_ids: multiple_ids,
                classes: classes.deep_view(),
            };
            let c = self.chars[self.pos];
            if c == '#' {
                proof {
                    lemma_ident_end_bounds(s, p_it + 1);
                }
                self.pos = self.pos + 1;
                if id.is_some() || multiple_ids {
                    id = None;
                    multiple_ids = true;
                    let _ = self.parse_id();
                    proof {
                        assert(sel_scan(s, p_it, st_it) == sel_scan(
                            s,
                            ident_end(s, p_it + 1),
                            SelScanState {
                                id: None,
                                multiple_ids: true,
                                classes: st_it.classes,
                            },
                        ));
                    }
                } else {
                    id = self.parse_id();
                    proof {
                        assert(sel_scan(s, p_it, st_it) == sel_scan(
                            s,
                            ident_end(s, p_it + 1),
                            SelScanState {
                                id: id_at(s, p_it + 1),
                                multiple_ids: false,
                                classes: st_it.classes,
                            },
                        ));
                    }
                }
            } else if c == '.' {
                proof {
                    lemma_ident_end_bounds(s, p_it + 1);
                }
                self.pos = self.pos + 1;
                let class_name = self.parse_identifier();
                let ghost cls = ident_at(s, p_it + 1);
                if class_name.as_str().unicode_len() > 0 {
                    let ghost old_classes = classes.deep_view();
                    classes.push(class_name);
                    proof {
                        assert(classes.deep_view() =~= old_classes.push(cls));
                    }
                }
                proof {
                    assert(sel_scan(s, p_it, st_it) == sel_scan(
                        s,
                        ident_end(s, p_it + 1),
                        SelScanState {
                            id: st_it.id,
                            multiple_ids: st_it.multiple_ids,
                            classes: if cls.len() > 0 {
                                st_it.classes.push(cls)
                            } else {
                                st_it.classes
                            },
                        },
                    ));
                }
            } else {
                let cond = |ch: char| -> (b: bool)
                    ensures
                        b == (ch != ',' && ch != '{'),
                    {
                        ch != ',' && ch != '{'
                    };
                let _ = self.consume_while(cond, Ghost(non_sel_delim_pred()));
                proof {
                    lemma_scan_end(s, p_it, non_sel_delim_pred());
                    assert(non_sel_delim_pred()(s[p_it]));
                    assert(scan_end(s, p_it, non_sel_delim_pred()) == scan_end(
                        s,
                        p_it + 1,
                        non_sel_delim_pred(),
                    ));
                    lemma_scan_end(s, p_it + 1, non_sel_delim_pred());
                    assert(sel_scan(s, p_it, st_it) == (st_it, scan_end(
                        s,
                        p_it,
                        non_sel_delim_pred(),
                    )));
                }
            }
        }
        proof {
            let st_fin = SelScanState {
                id: id.deep_view(),
                multiple_ids: multiple_ids,
                classes: classes.deep_view(),
            };
            assert(sel_scan(s, self.pos as int, st_fin) == (st_fin, self.pos as int));
        }
        let empty = tag_name.is_none() && id.is_none() && classes.len() == 0;
        if empty {
            proof {
                assert(classes.deep_view() =~= Seq::<Seq<char>>::empty());
            }
            let r = Selector { simple: Vec::new(), combinators: Vec::new() };
            proof {
                assert(r@.simple =~= Seq::<SimpleSelectorView>::empty());
                assert(r@.combinators =~= Seq::<char>::empty());
                assert(r@ == SelectorView::empty());
            }
            r
        } else {
            let ss = SimpleSelector { tag_name, id, classes };
            let mut simple: Vec<SimpleSelector> = Vec::new();
            simple.push(ss);
            let r = Selector { simple, combinators: Vec::new() };
            proof {
                let ssv = SimpleSelectorView {
                    tag_name: r.simple@[0].tag_name.deep_view(),
                    id: r.simple@[0].id.deep_view(),
                    classes: r.simple@[0].classes.deep_view(),
                };
                assert(ssv != SimpleSelectorView::empty());
                assert(r@.simple =~= seq![ssv]);
                assert(r@.combinators =~= Seq::<char>::empty());
            }
            r
        }
    }

    /// Reads the selector list of a rule, as [`parse_selectors_v`] describes
    /// it, consuming the final opening brace.
    #[verifier::loop_isolation(false)]
    fn parse_selectors(&mut self) -> (r: Vec<Selector>)
        requires
            old(self).wf(),
        ensures
            final(self).wf(),
            final(self).chars == old(self).chars,
            r@.map_values(|x: Selector| x@) == parse_selectors_v(
                old(self).chars@,
                old(self).pos as int,
            ).0,
            final(self).pos as int == parse_selectors_v(old(self).chars@, old(self).pos as int).1,
    {
        let ghost s = self.chars@;
        let ghost i0 = self.pos as int;
        let mut selectors: Vec<Selector> = Vec::new();
        proof {
            assert(selectors@.map_values(|x: Selector| x@) =~= Seq::<SelectorView>::empty());
        }
        let n = self.chars.len();
        while self.pos < n && self.chars[self.pos] != '{'
            invariant
                self.wf(),
                self.chars == old(self).chars,
                sels_scan(s, self.pos as int, selectors@.map_values(|x: Selector| x@))
                    == sels_scan(s, i0, Seq::empty()),
            decreases n - self.pos,
        {
            let ghost p_it = self.pos as int;
            let ghost acc_it = selectors@.map_values(|x: Selector| x@);
            proof {
                lemma_sels_progress(s, p_it);
            }
            let selector = self.parse_selector();
            if selector.simple.len() > 0 || selector.combinators.len() > 0 {
                let ghost old_acc = selectors@.map_values(|x: Selector| x@);
                proof {
                    if selector.simple@.len() > 0 {
                        assert(selector@.simple.len() > 0);
                    } else {
                        assert(selector@.combinators.len() > 0);
                    }
                    assert(selector@ != SelectorView::empty());
                }
                selectors.push(selector);
                proof {
                    assert(selectors@.map_values(|x: Selector| x@) =~= old_acc.push(selector@));
                }
            } else {
                proof {
                    assert(selector@.simple =~= Seq::<SimpleSelectorView>::empty());
                    assert(selector@.combinators =~= Seq::<char>::empty());
                    assert(selector@ == SelectorView::empty());
                }
            }
            self.skip_whitespace();
            if self.pos < n && self.chars[self.pos] == ',' {
                self.pos = self.pos + 1;
            }
        }
        proof {
            assert(sels_scan(s, self.pos as int, selectors@.map_values(|x: Selector| x@)) == (
            selectors@.map_values(|x: Selector| x@),
            self.pos as int,
            ));
        }
        if self.pos < self.chars.len() {
            self.pos = self.pos + 1;
        }
        selectors
    }

    /// Reads the declaration list of a rule, as [`parse_declarations_v`]
    /// describes it, consuming the final closing brace; `Err` is the color
    /// classifier's numeric fault.
    #[verifier::loop_isolation(false)]
    fn parse_declarations(&mut self) -> (r: Result<Vec<Declaration>, NumberFault>)
        requires
            old(self).wf(),
        ensures
            final(self).wf(),
            final(self).chars == old(self).chars,
            parse_declarations_v(old(self).chars@, old(self).pos as int) matches Some(rr) ==> (
            r matches Ok(ds) && ds@.map_values(|d: Declaration| d@) == rr.0
                && final(self).pos as int == rr.1),
            (parse_declarations_v(old(self).chars@, old(self).pos as int) is None) ==> r is Err,
    {
        let ghost s = self.chars@;
        let ghost i0 = self.pos as int;
        let mut declarations: Vec<Declaration> = Vec::new();
        proof {
            assert(declarations@.map_values(|d: Declaration| d@)
                =~= Seq::<DeclarationView>::empty());
        }
        let n = self.chars.len();
        while self.pos < n && self.chars[self.pos] != '}'
            invariant
                self.wf(),
                self.chars == old(self).chars,
                decls_scan(s, self.pos as int, declarations@.map_values(|d: Declaration| d@))
                    == decls_scan(s, i0, Seq::empty()),
            decreases n - self.pos,
        {
            let ghost p_it = self.pos as int;
            let ghost acc_it = declarations@.map_values(|d: Declaration| d@);
            proof {
                lemma_decls_progress(s, p_it);
            }
            self.skip_whitespace();
            self.consume_comments();
            let ghost c0 = self.pos as int;
            let prop_cond = |ch: char| -> (b: bool)
                ensures
                    b == (ch != ':'),
                {
                    ch != ':'
                };
            let prop_raw = self.consume_while(prop_cond, Ghost(non_colon_pred()));
            let property_chars = lower_vec(&prop_raw);
            let ghost prop = lower(s.subrange(c0, scan_end(s, c0, non_colon_pred())));
            proof {
                assert(property_chars@ == prop);
            }
            if self.pos < n {
                self.pos = self.pos + 1;
            }
            self.skip_whitespace();
            let ghost w1 = self.pos as int;
            let val_cond = |ch: char| -> (b: bool)
                ensures
                    b == (ch != ';' && ch != '\n' && ch != '}'),
                {
                    ch != ';' && ch != '\n' && ch != '}'
                };
            let val_raw = self.consume_while(val_cond, Ghost(non_val_end_pred()));
            let value_chars = lower_vec(&val_raw);
            let ghost val = lower(s.subrange(w1, scan_end(s, w1, non_val_end_pred())));
            proof {
                assert(value_chars@ == val);
            }
            let value_str = chars_to_string(&value_chars);
            let value_enum: Value = if chars_eq_str(&property_chars, "background-color")
                || chars_eq_str(&property_chars, "border-color") || chars_eq_str(
                &property_chars,
                "color",
            ) {
                match Color::new(value_str.as_str()) {
                    Ok(c) => Value::Color(c),
                    Err(f) => {
                        proof {
                            assert(classified_value(prop, val) is None);
                            assert(decls_scan(s, p_it, acc_it) is None);
                        }
                        return Err(f);
                    },
                }
            } else if chars_eq_str(&property_chars, "margin-right") || chars_eq_str(
                &property_chars,
                "margin-bottom",
            ) || chars_eq_str(&property_chars, "margin-left") || chars_eq_str(
                &property_chars,
                "margin-top",
            ) || chars_eq_str(&property_chars, "padding-right") || chars_eq_str(
                &property_chars,
                "padding-bottom",
            ) || chars_eq_str(&property_chars, "padding-left") || chars_eq_str(
                &property_chars,
                "padding-top",
            ) || chars_eq_str(&property_chars, "border-right-width") || chars_eq_str(
                &property_chars,
                "border-bottom-width",
            ) || chars_eq_str(&property_chars, "border-left-width") || chars_eq_str(
                &property_chars,
                "border-top-width",
            ) || chars_eq_str(&property_chars, "height") || chars_eq_str(
                &property_chars,
                "width",
            ) {
                translate_length(value_str.as_str())
            } else {
                Value::Other(value_str)
            };
            proof {
                assert(classified_value(prop, val) == Some(value_enum@));
            }
            let declaration = Declaration::new(chars_to_string(&property_chars), value_enum);
            let ghost d = DeclarationView { property: prop, value: declaration@.value };
            proof {
                assert(declaration@ == d);
            }
            let ghost ve = self.pos as int;
            let mut kept = false;
            if self.pos < n && self.chars[self.pos] == ';' {
                kept = true;
                self.pos = self.pos + 1;
            } else {
                self.skip_whitespace();
                if self.pos < n && self.chars[self.pos] == '}' {
                    kept = true;
                }
            }
            let ghost p2 = self.pos as int;
            if kept {
                let ghost old_acc = declarations@.map_values(|d2: Declaration| d2@);
                declarations.push(declaration);
                proof {
                    assert(declarations@.map_values(|d2: Declaration| d2@)
                        =~= old_acc.push(d));
                }
            }
            self.skip_whitespace();
            self.consume_comments();
            proof {
                let semi = ve < s.len() && s[ve] == ';';
                assert(p2 == (if semi {
                    ve + 1
                } else {
                    ws_end(s, ve)
                }));
                let keep = semi || (p2 < s.len() && s[p2] == '}');
                assert(kept == keep);
                assert(decls_scan(s, p_it, acc_it) == decls_scan(
                    s,
                    comments_end(s, ws_end(s, p2)),
                    if keep {
                        acc_it.push(d)
                    } else {
                        acc_it
                    },
                ));
            }
        }
        proof {
            let accv = declarations@.map_values(|d: Declaration| d@);
            assert(decls_scan(s, self.pos as int, accv) == Some((accv, self.pos as int)));
        }
        if self.pos < self.chars.len() {
            self.pos = self.pos + 1;
        }
        Ok(declarations)
    }

    /// Parses the whole input into a stylesheet, as [`sheet_scan`] describes
    /// it; `Err` is the numeric fault, which aborts the whole parse.
    #[verifier::loop_isolation(false)]
    pub fn parse_stylesheet(&mut self) -> (r: Result<Stylesheet, NumberFault>)
        requires
            old(self).wf(),
        ensures
            final(self).chars == old(self).chars,
            sheet_scan(old(self).chars@, old(self).pos as int) matches Some(rules) ==> (
            r matches Ok(st) && st@.rules == rules),
            (sheet_scan(old(self).chars@, old(self).pos as int) is None) ==> r is Err,
    {
        let ghost s = self.chars@;
        let ghost i0 = self.pos as int;
        let mut rules: Vec<Rule> = Vec::new();
        proof {
            assert(rules@.map_values(|x: Rule| x@) =~= Seq::<RuleView>::empty());
        }
        let n = self.chars.len();
        while self.pos < n
            invariant
                self.wf(),
                self.chars == old(self).chars,
                (sheet_scan(s, self.pos as int) matches Some(rest) ==> sheet_scan(s, i0) == Some(
                    rules@.map_values(|x: Rule| x@) + rest,
                )),
                (sheet_scan(s, self.pos as int) is None ==> sheet_scan(s, i0) is None),
            decreases n - self.pos,
        {
            let ghost p_it = self.pos as int;
            let ghost acc_it = rules@.map_values(|x: Rule| x@);
            proof {
                lemma_sheet_progress(s, p_it);
            }
            self.skip_whitespace();
            self.consume_comments();
            let selectors = self.parse_selectors();
            let styles = match self.parse_declarations() {
                Ok(d) => d,
                Err(f) => {
                    proof {
                        assert(sheet_scan(s, p_it) is None);
                    }
                    return Err(f);
                },
            };
            let rule = Rule::new(selectors, styles);
            let ghost rv = RuleView {
                selectors: selectors@.map_values(|x: Selector| x@),
                declarations: styles@.map_values(|d: Declaration| d@),
            };
            proof {
                assert(rule@ == rv);
                if sheet_scan(s, self.pos as int) is Some {
                    let rest = sheet_scan(s, self.pos as int).unwrap();
                    assert(sheet_scan(s, p_it) == Some(seq![rv] + rest));
                    assert(acc_it + (seq![rv] + rest) =~= acc_it.push(rv) + rest);
                }
            }
            let ghost old_acc = rules@.map_values(|x: Rule| x@);
            rules.push(rule);
            proof {
                assert(rules@.map_values(|x: Rule| x@) =~= old_acc.push(rv));
            }
        }
        proof {
            assert(sheet_scan(s, self.pos as int) == Some(Seq::<RuleView>::empty()));
            let accv = rules@.map_values(|x: Rule| x@);
            assert(accv + Seq::<RuleView>::empty() =~= accv);
        }
        Ok(Stylesheet::new(rules))
    }
}

/// Parses a whole document: the input is trimmed of surrounding white space
/// and scanned into a stylesheet. `Err` is the numeric fault of the color
/// classifier, which aborts the whole parse with no partial result.
pub fn parse(content: &str) -> (r: Result<Stylesheet, NumberFault>)
    ensures
        sheet_scan(trim_ws(content@), 0) matches Some(rules) ==> (r matches Ok(st) && st@.rules
            == rules),
        (sheet_scan(trim_ws(content@), 0) is None) ==> r is Err,
{
    let cs = str_to_chars(content);
    let mut parser = CssParser { chars: trim_chars(&cs), pos: 0 };
    parser.parse_stylesheet()
}

/// Renders a stylesheet back to canonical text.
pub fn stringify(styles: Stylesheet) -> (r: String)
    ensures
        r@ == sheet_text(styles@),
{
    styles.text()
}

/// One top-level round strictly advances (or reaches the end).
pub proof fn lemma_sheet_progress(s: Seq<char>, p: int)
    requires
        0 <= p < s.len(),
    ensures
        ({
            let c = comments_end(s, ws_end(s, p));
            let sr = parse_selectors_v(s, c);
            parse_declarations_v(s, sr.1) matches Some(dr) ==> p < dr.1 <= s.len()
        }),
{
    lemma_scan_end(s, p, ws_pred());
    lemma_comments_end_bounds(s, ws_end(s, p));
    let c = comments_end(s, ws_end(s, p));
    lemma_parse_selectors_bounds(s, c);
    let sr = parse_selectors_v(s, c);
    lemma_parse_declarations_bounds(s, sr.1);
    if parse_declarations_v(s, sr.1) is Some {
        let dr = parse_declarations_v(s, sr.1).unwrap();
        if c < s.len() {
            assert(sr.1 >= c + 1);
        } else {
            assert(sr.1 == s.len());
            assert(dr.1 == s.len());
        }
    }
}

} // verus!
