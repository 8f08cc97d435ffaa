//! Laws of the classifier, stated and proved once for all inputs.

use vstd::prelude::*;

use crate::color::{classify_v, none_view, rgba_of_hex6};
use crate::names::{lemma_named_hex_hash, lemma_named_hex_wf, named_hex};
use crate::parser::{
    classified_value, comment_scan, comments_end, decls_scan, id_at, ident_at, ident_end,
    ident_pred, is_color_property, is_length_property, non_colon_pred, non_val_end_pred,
    parse_declarations_v, parse_selector_v, sel_scan, SelScanState, valid_ident,
    valid_start_ident, ws_end,
};
use crate::selector::{SelectorView, SimpleSelectorView};
use crate::structs::{
    classes_text, decl_text, decls_text, disp_join, selector_text, simple_selector_text, unit_of,
    unit_text, value_text, DeclarationView, Unit, ValueView,
};
use crate::text::{is_ws, lc, lemma_scan_end, lemma_scan_end_unique, lower, starts_with, ws_pred};

verus! {

/// A name as the parser retains it: non-empty, starting with an
/// identifier-start character, made of identifier characters, each already
/// lower case.
pub open spec fn lc_ident(t: Seq<char>) -> bool {
    &&& t.len() > 0
    &&& valid_start_ident(t[0])
    &&& forall|k: int| 0 <= k < t.len() ==> valid_ident(#[trigger] t[k]) && lc(t[k]) == t[k]
}

/// Lower-casing a string of already-lower-case characters changes nothing.
proof fn lemma_lower_fixed(t: Seq<char>)
    requires
        forall|k: int| 0 <= k < t.len() ==> lc(#[trigger] t[k]) == t[k],
    ensures
        lower(t) == t,
{
    assert(lower(t) =~= t);
}

/// An identifier embedded in a larger text, followed by a non-identifier
/// character (or the end), scans to exactly its own end.
proof fn lemma_ident_embedded(s: Seq<char>, i: int, t: Seq<char>)
    requires
        0 <= i,
        i + t.len() <= s.len(),
        s.subrange(i, i + t.len()) == t,
        lc_ident(t),
        i + t.len() < s.len() ==> !valid_ident(s[i + t.len()]),
    ensures
        ident_end(s, i) == i + t.len(),
        ident_at(s, i) == t,
{
    assert(s[i] == t[0]);
    assert forall|k: int| i <= k < i + t.len() implies ident_pred()(s[k]) by {
        assert(s[k] == t[k - i]);
    }
    lemma_scan_end_unique(s, i, ident_pred(), i + t.len());
    lemma_lower_fixed(t);
    assert(ident_at(s, i) == lower(s.subrange(i, i + t.len())));
}

/// The inner comment machine, started anywhere inside a plain comment (one
/// whose body holds no `*` and no `/`), stops exactly after the closing
/// `*/`, then skips white space and a following comment run.
proof fn lemma_comment_scan_plain(s: Seq<char>, p: int, j: int)
    requires
        0 <= p <= j,
        j + 1 < s.len(),
        forall|k: int| p < k < j ==> s[k] != '*' && s[k] != '/',
        s[j] == '*',
        s[j + 1] == '/',
    ensures
        comment_scan(s, p) == ({
            let w = ws_end(s, j + 2);
            if w < s.len() && s[w] == '/' {
                comments_end(s, w)
            } else {
                w
            }
        }),
    decreases j - p,
{
    let p1 = p + 1;
    if p1 < j {
        lemma_comment_scan_plain(s, p + 2, j);
    }
}

/// [`classes_text`] taken apart at the front: a dot, the first class, and
/// the rest.
proof fn lemma_classes_text_front(cs: Seq<Seq<char>>)
    requires
        cs.len() > 0,
    ensures
        classes_text(cs) == seq!['.'] + cs[0] + classes_text(cs.skip(1)),
    decreases cs.len(),
{
    reveal_strlit(".");
    assert("."@ =~= seq!['.']);
    if cs.len() == 1 {
        assert(cs.drop_last().len() == 0);
        assert(classes_text(cs.drop_last()) == Seq::<char>::empty());
        assert(cs.skip(1).len() == 0);
        assert(classes_text(cs) == classes_text(cs.drop_last()) + "."@ + cs.last());
        assert(classes_text(cs) =~= seq!['.'] + cs[0] + classes_text(cs.skip(1)));
    } else {
        lemma_classes_text_front(cs.drop_last());
        assert(cs.drop_last()[0] == cs[0]);
        assert(cs.drop_last().skip(1) =~= cs.skip(1).drop_last());
        assert(cs.skip(1).last() == cs.last());
        assert(classes_text(cs) == classes_text(cs.drop_last()) + "."@ + cs.last());
        assert(classes_text(cs.skip(1)) == classes_text(cs.skip(1).drop_last()) + "."@ + cs.skip(
            1,
        ).last());
        assert(classes_text(cs) =~= seq!['.'] + cs[0] + classes_text(cs.skip(1)));
    }
}

/// The simple-selector loop, standing where a rendered class list begins
/// and running to the end of the text, appends exactly those classes.
proof fn lemma_sel_scan_classes(s: Seq<char>, q: int, cs: Seq<Seq<char>>, st: SelScanState)
    requires
        0 <= q <= s.len(),
        s.subrange(q, s.len() as int) == classes_text(cs),
        forall|k: int| 0 <= k < cs.len() ==> lc_ident(#[trigger] cs[k]),
    ensures
        sel_scan(s, q, st) == (
            SelScanState { id: st.id, multiple_ids: st.multiple_ids, classes: st.classes + cs },
            s.len() as int,
        ),
    decreases cs.len(),
{
    if cs.len() == 0 {
        assert(classes_text(cs).len() == 0);
        assert(q == s.len());
        assert(st.classes + cs =~= st.classes);
    } else {
        lemma_classes_text_front(cs);
        let c0 = cs[0];
        let rest = cs.skip(1);
        let tail = s.subrange(q, s.len() as int);
        let whole = seq!['.'] + c0 + classes_text(rest);
        assert(tail == whole);
        assert(tail.len() == 1 + c0.len() + classes_text(rest).len());
        assert(q + 1 + c0.len() <= s.len());
        assert(s[q] == tail[0]);
        assert(whole[0] == '.');
        assert(!is_ws('.'));
        // the first class follows the dot, ended by the next dot or the end
        assert forall|k: int| 0 <= k < c0.len() implies s[q + 1 + k] == c0[k] by {
            assert(tail[1 + k] == s[q + 1 + k]);
            assert(whole[1 + k] == c0[k]);
        }
        assert(s.subrange(q + 1, q + 1 + c0.len()) =~= c0);
        if q + 1 + c0.len() < s.len() {
            assert(s[q + 1 + c0.len()] == tail[1 + c0.len() as int]);
            assert(whole[1 + c0.len() as int] == classes_text(rest)[0]);
            assert(classes_text(rest).len() > 0);
            assert(rest.len() > 0);
            lemma_classes_text_front(rest);
            assert(classes_text(rest)[0] == (seq!['.'] + rest[0] + classes_text(rest.skip(1)))[0]);
            assert(s[q + 1 + c0.len()] == '.');
            assert(!valid_ident('.'));
        }
        lemma_ident_embedded(s, q + 1, c0);
        let q2 = q + 1 + c0.len();
        assert forall|j: int| 0 <= j < classes_text(rest).len() implies s.subrange(
            q2 as int,
            s.len() as int,
        )[j] == classes_text(rest)[j] by {
            assert(tail[1 + c0.len() + j] == s[q + 1 + c0.len() + j]);
            assert(whole[1 + c0.len() + j] == classes_text(rest)[j]);
        }
        assert(s.subrange(q2 as int, s.len() as int) =~= classes_text(rest));
        let st2 = SelScanState {
            id: st.id,
            multiple_ids: st.multiple_ids,
            classes: st.classes.push(c0),
        };
        lemma_sel_scan_classes(s, q2 as int, rest, st2);
        assert(st.classes.push(c0) + rest =~= st.classes + cs);
        assert(sel_scan(s, q, st) == sel_scan(s, ident_end(s, q + 1), st2));
    }
}

/// A simple selector as the parser retains it: tag name, id and classes,
/// where present, are lower-case identifiers, the tag does not begin with
/// white space (the parser reads it after skipping white space), and at
/// least one of the three is present.
pub open spec fn wf_simple_selector(ss: SimpleSelectorView) -> bool {
    &&& (ss.tag_name matches Some(t) ==> lc_ident(t) && !is_ws(t[0]))
    &&& (ss.id matches Some(t) ==> lc_ident(t))
    &&& (forall|k: int| 0 <= k < ss.classes.len() ==> lc_ident(#[trigger] ss.classes[k]))
    &&& ss != SimpleSelectorView::empty()
}

/// One direction of the parse–serialize round trip, for one record: parsing
/// the rendered text of a well-formed simple selector yields exactly the
/// selector holding it, with the whole text consumed.
pub proof fn simple_selector_round_trip(ss: SimpleSelectorView)
    requires
        wf_simple_selector(ss),
    ensures
        parse_selector_v(simple_selector_text(ss), 0) == (
            SelectorView { simple: seq![ss], combinators: Seq::<char>::empty() },
            simple_selector_text(ss).len() as int,
        ),
{
    reveal_strlit("#");
    reveal_strlit(".");
    let s = simple_selector_text(ss);
    let n = s.len() as int;
    let tagp: Seq<char> = match ss.tag_name {
        Option::Some(t) => t,
        Option::None => Seq::empty(),
    };
    let idp: Seq<char> = match ss.id {
        Option::Some(t) => "#"@ + t,
        Option::None => Seq::empty(),
    };
    let ct = classes_text(ss.classes);
    assert(s == tagp + idp + ct);
    if ss.classes.len() > 0 {
        lemma_classes_text_front(ss.classes);
        assert(ct[0] == '.');
        assert(ct.len() > 0);
    } else {
        assert(ct.len() == 0);
    }
    let p0: int = tagp.len() as int;
    let q: int = p0 + idp.len();
    // the text is not empty, and does not begin with white space
    if ss.tag_name is Some {
        assert(s[0] == tagp[0]);
        assert(!is_ws(s[0]));
    } else if ss.id is Some {
        assert(s[0] == idp[0]);
        assert(s[0] == '#');
        assert(!is_ws('#'));
    } else {
        if ss.classes.len() == 0 {
            assert(ss.classes =~= Seq::<Seq<char>>::empty());
            assert(ss == SimpleSelectorView::empty());
        }
        assert(ss.classes.len() > 0);
        assert(s[0] == ct[0]);
        assert(!is_ws('.'));
    }
    lemma_scan_end_unique(s, 0, ws_pred(), 0);
    // the tag identifier, when present, scans to its own end
    if ss.tag_name is Some {
        let t = ss.tag_name.unwrap();
        assert(s.subrange(0, t.len() as int) =~= t);
        if p0 < n {
            if ss.id is Some {
                assert(s[p0] == idp[0]);
                assert(!valid_ident('#'));
            } else {
                assert(s[p0] == ct[p0 - q]);
                assert(s[p0] == '.');
                assert(!valid_ident('.'));
            }
        }
        lemma_ident_embedded(s, 0, t);
        assert(valid_start_ident(s[0]));
    } else {
        if ss.id is Some {
            assert(s[0] == '#');
            assert(!valid_start_ident('#'));
        } else {
            assert(s[0] == '.');
            assert(!valid_start_ident('.'));
        }
    }
    let init = SelScanState { id: None, multiple_ids: false, classes: Seq::<Seq<char>>::empty() };
    // the id, when present, scans to its own end; then the class list
    if ss.id is Some {
        let idt = ss.id.unwrap();
        assert(s[p0] == idp[0]);
        assert(s[p0] == '#');
        assert forall|k: int| 0 <= k < idt.len() implies s[p0 + 1 + k] == idt[k] by {
            assert(s[p0 + 1 + k] == idp[1 + k]);
        }
        assert(s.subrange(p0 + 1, p0 + 1 + idt.len()) =~= idt);
        if q < n {
            assert(ct.len() > 0);
            assert(ss.classes.len() > 0);
            assert(s[q] == ct[0]);
            assert(!valid_ident('.'));
        }
        lemma_ident_embedded(s, p0 + 1, idt);
        assert(id_at(s, p0 + 1) == Some(idt));
        assert forall|j: int| 0 <= j < ct.len() implies s.subrange(q, n)[j] == ct[j] by {
            assert(s[q + j] == ct[j]);
        }
        assert(s.subrange(q, n) =~= ct);
        let st1 = SelScanState { id: Some(idt), multiple_ids: false, classes: init.classes };
        lemma_sel_scan_classes(s, q, ss.classes, st1);
        assert(!is_ws('#'));
        assert(sel_scan(s, p0, init) == sel_scan(s, ident_end(s, p0 + 1), st1));
    } else {
        assert forall|j: int| 0 <= j < ct.len() implies s.subrange(p0, n)[j] == ct[j] by {
            assert(s[p0 + j] == ct[j]);
        }
        assert(s.subrange(p0, n) =~= ct);
        lemma_sel_scan_classes(s, p0, ss.classes, init);
    }
    let r = sel_scan(s, p0, init);
    assert(Seq::<Seq<char>>::empty() + ss.classes =~= ss.classes);
    assert(r.0.id == ss.id);
    assert(r.0.classes == ss.classes);
    assert(r.1 == n);
    let built = SimpleSelectorView { tag_name: ss.tag_name, id: r.0.id, classes: r.0.classes };
    assert(built == ss);
}

/// The same round trip at the selector level: a selector holding one
/// well-formed simple selector (and no combinators) renders and parses back
/// to itself.
pub proof fn selector_round_trip(ss: SimpleSelectorView)
    requires
        wf_simple_selector(ss),
    ensures
        parse_selector_v(
            selector_text((SelectorView { simple: seq![ss], combinators: Seq::<char>::empty() })),
            0,
        ).0 == (SelectorView { simple: seq![ss], combinators: Seq::<char>::empty() }),
{
    let sel = SelectorView { simple: seq![ss], combinators: Seq::<char>::empty() };
    let pieces = sel.simple.map_values(|x: SimpleSelectorView| simple_selector_text(x));
    assert(pieces =~= seq![simple_selector_text(ss)]);
    assert(pieces.drop_last() =~= Seq::<Seq<char>>::empty());
    assert(disp_join(pieces.drop_last(), ", "@) == Seq::<char>::empty());
    assert(disp_join(pieces, ", "@) == Seq::<char>::empty() + pieces.last());
    assert(selector_text(sel) =~= simple_selector_text(ss));
    simple_selector_round_trip(ss);
}

/// The serializer and the length translator agree on units: reading back
/// the suffix a unit renders as yields that unit again.
pub proof fn unit_text_round_trip(u: Unit)
    ensures
        unit_of(unit_text(u)) == u,
{
    reveal_strlit("em");
    reveal_strlit("ex");
    reveal_strlit("ch");
    reveal_strlit("rem");
    reveal_strlit("vh");
    reveal_strlit("vw");
    reveal_strlit("vmin");
    reveal_strlit("vmax");
    reveal_strlit("px");
    reveal_strlit("mm");
    reveal_strlit("q");
    reveal_strlit("cm");
    reveal_strlit("in");
    reveal_strlit("pt");
    reveal_strlit("pc");
    reveal_strlit("%");
    // materialize the distinguishing characters of the suffixes
    assert("em"@[0] == 'e' && "em"@[1] == 'm');
    assert("ex"@[0] == 'e' && "ex"@[1] == 'x');
    assert("ch"@[0] == 'c' && "ch"@[1] == 'h');
    assert("vh"@[0] == 'v' && "vh"@[1] == 'h');
    assert("vw"@[0] == 'v' && "vw"@[1] == 'w');
    assert("px"@[0] == 'p' && "px"@[1] == 'x');
    assert("mm"@[0] == 'm' && "mm"@[1] == 'm');
    assert("cm"@[0] == 'c' && "cm"@[1] == 'm');
    assert("in"@[0] == 'i' && "in"@[1] == 'n');
    assert("pt"@[0] == 'p' && "pt"@[1] == 't');
    assert("pc"@[0] == 'p' && "pc"@[1] == 'c');
    assert("vmin"@[2] == 'i' && "vmax"@[2] == 'a');
    assert("q"@[0] == 'q' && "%"@[0] == '%');
}

/// Comment elision, at the very points where the parser skips comments:
/// a plain comment block `/*...*/` (its body free of `*` and `/`) standing
/// at the scanning position is wholly consumed, and the scan continues
/// after it — past trailing white space and any further comment run. So a
/// run of white-space-separated comment blocks between tokens leaves the
/// rest of the parse exactly where it would have started without them.
pub proof fn plain_comment_elided(s: Seq<char>, i: int, j: int)
    requires
        0 <= i,
        i + 1 <= j,
        j + 1 < s.len(),
        s[i] == '/',
        s[i + 1] == '*',
        forall|k: int| i + 1 < k < j ==> s[k] != '*' && s[k] != '/',
        s[j] == '*',
        s[j + 1] == '/',
    ensures
        comments_end(s, i) == ({
            let w = ws_end(s, j + 2);
            if w < s.len() && s[w] == '/' {
                comments_end(s, w)
            } else {
                w
            }
        }),
{
    lemma_comment_scan_plain(s, i + 1, j);
}

/// Every named color classifies to exactly the channel data of its
/// canonical six-digit hex string: for a keyword `k` that the table maps to
/// `h`, `classify(k)` and `classify(h)` succeed and agree on their data.
pub proof fn named_color_matches_hex(k: Seq<char>, h: Seq<char>)
    requires
        named_hex(k) == Some(h),
    ensures
        (classify_v(k) is Some),
        (classify_v(h) is Some),
        classify_v(k).unwrap().data == classify_v(h).unwrap().data,
        classify_v(k).unwrap().data == rgba_of_hex6(h),
{
    lemma_named_hex_wf(k);
    lemma_named_hex_hash(h);
}

/// A classified color preserves its source token verbatim in `original` —
/// except for a `#`-prefixed token of unusable length, which falls back to
/// the default color and records that color's own token.
pub proof fn classify_preserves_original(s: Seq<char>)
    requires
        (classify_v(s) is Some),
        s.len() >= 4 && s[0] == '#' && named_hex(s) is None ==> (s.len() == 4 || s.len() == 5
            || s.len() == 7 || s.len() == 9),
    ensures
        classify_v(s).unwrap().original == s,
{
}

/// A structurally malformed token — too short, or a function form with too
/// few comma-separated parts — degrades to the sentinel rather than a
/// fault: if the token is shorter than four characters and is no keyword,
/// classification yields the sentinel with the original preserved.
pub proof fn short_token_yields_sentinel(s: Seq<char>)
    requires
        s.len() < 4,
        (named_hex(s) is None),
    ensures
        classify_v(s) == Some(none_view(s)),
{
}

/// A token that matches none of the color forms — no keyword, not
/// `#`-prefixed, no function form — yields the sentinel with the original
/// preserved.
pub proof fn unrecognized_token_yields_sentinel(s: Seq<char>)
    requires
        (named_hex(s) is None),
        s.len() >= 4,
        s[0] != '#',
        !starts_with(s, "rgba("@),
        !starts_with(s, "rgb("@),
        !starts_with(s, "hsla("@),
        !starts_with(s, "hsl("@),
    ensures
        classify_v(s) == Some(none_view(s)),
{
}

/// A declaration as the parser retains it when its value is classified as
/// raw text: the property holds no colon and is lower case, does not begin
/// with white space or a comment opener, and names no color- or
/// length-valued property; the value holds no semicolon, newline or closing
/// brace, is lower case, and does not begin with white space.
pub open spec fn wf_other_declaration(d: DeclarationView) -> bool {
    &&& (forall|k: int| 0 <= k < d.property.len() ==> #[trigger] d.property[k] != ':' && lc(
        d.property[k],
    ) == d.property[k])
    &&& (d.property.len() > 0 ==> !is_ws(d.property[0]) && d.property[0] != '/' && d.property[0]
        != '*')
    &&& !is_color_property(d.property)
    &&& !is_length_property(d.property)
    &&& (d.value matches ValueView::Other(v) && (forall|k: int|
        0 <= k < v.len() ==> #[trigger] v[k] != ';' && v[k] != '\n' && v[k] != '}' && lc(v[k])
            == v[k]) && (v.len() > 0 ==> !is_ws(v[0])))
}

/// One direction of the parse–serialize round trip, for one more record:
/// reading a declaration list made of one rendered raw-text declaration and
/// the closing brace yields exactly that declaration, with the whole text
/// consumed.
#[verifier::rlimit(60)]
pub proof fn other_declaration_round_trip(d: DeclarationView)
    requires
        wf_other_declaration(d),
    ensures
        parse_declarations_v(decls_text(seq![d]) + "}"@, 0) matches Some(r) && r.0 == seq![d]
            && r.1 == (decls_text(seq![d]) + "}"@).len(),
{
    reveal_strlit("    ");
    reveal_strlit(": ");
    reveal_strlit(";");
    reveal_strlit("\r\n");
    reveal_strlit("}");
    let prop = d.property;
    let v = d.value->Other_0;
    let s = decls_text(seq![d]) + "}"@;
    assert(seq![d].drop_last() =~= Seq::<DeclarationView>::empty());
    assert(decls_text(Seq::<DeclarationView>::empty()) == Seq::<char>::empty());
    assert(value_text(d.value) == v);
    let flat = "    "@ + prop + ": "@ + v + ";"@ + "\r\n"@ + "}"@;
    assert(s =~= flat);
    let a0: int = 4;
    let a1: int = a0 + prop.len();
    let a2: int = a1 + 2;
    let a3: int = a2 + v.len();
    let a4: int = a3 + 1;
    let a5: int = a4 + 2;
    let n = s.len() as int;
    assert(n == a5 + 1);
    // where each character of the rendering stands
    assert(s[0] == ' ' && s[1] == ' ' && s[2] == ' ' && s[3] == ' ');
    assert forall|k: int| 0 <= k < prop.len() implies s[a0 + k] == prop[k] by {
        assert(flat[a0 + k] == prop[k]);
    }
    assert(s[a1] == ':' && s[a1 + 1] == ' ');
    assert forall|k: int| 0 <= k < v.len() implies s[a2 + k] == v[k] by {
        assert(flat[a2 + k] == v[k]);
    }
    assert(s[a3] == ';' && s[a4] == '\r' && s[a4 + 1] == '\n' && s[a5] == '}');
    // the indent is skipped, no comment follows, and the property scans to
    // the colon
    assert(s[0] != '}');
    if prop.len() > 0 {
        assert(!is_ws(s[a0]));
    } else {
        assert(s[a0] == ':');
        assert(!is_ws(':'));
    }
    lemma_scan_end_unique(s, 0, ws_pred(), a0);
    assert(s[a0] != '/' && s[a0] != '*');
    assert(comments_end(s, a0) == a0);
    assert forall|k: int| a0 <= k < a1 implies non_colon_pred()(s[k]) by {
        assert(s[k] == prop[k - a0]);
    }
    lemma_scan_end_unique(s, a0, non_colon_pred(), a1);
    assert(s.subrange(a0, a1) =~= prop);
    lemma_lower_fixed(prop);
    // one space after the colon, then the value scans to the semicolon
    if v.len() > 0 {
        assert(!is_ws(s[a2]));
    } else {
        assert(s[a2] == ';');
        assert(!is_ws(';'));
    }
    lemma_scan_end_unique(s, a1 + 1, ws_pred(), a2);
    assert forall|k: int| a2 <= k < a3 implies non_val_end_pred()(s[k]) by {
        assert(s[k] == v[k - a2]);
    }
    lemma_scan_end_unique(s, a2, non_val_end_pred(), a3);
    assert(s.subrange(a2, a3) =~= v);
    lemma_lower_fixed(v);
    assert(classified_value(prop, v) == Some(ValueView::Other(v)));
    // the semicolon keeps the declaration; the line break leads to the brace
    assert(s[a3] == ';');
    assert(!is_ws('}'));
    lemma_scan_end_unique(s, a4, ws_pred(), a5);
    assert(comments_end(s, a5) == a5);
    assert(decls_scan(s, a5, seq![d]) == Some((seq![d], a5)));
    assert(Seq::<DeclarationView>::empty().push(
        DeclarationView { property: prop, value: ValueView::Other(v) },
    ) =~= seq![d]);
    assert(decls_scan(s, 0, Seq::<DeclarationView>::empty()) == Some((seq![d], a5)));
}

} // verus!
