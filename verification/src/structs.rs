//! The document model: stylesheet, rules, declarations and values, with
//! the length/unit translator.

use vstd::prelude::*;
use vstd::string::StringExecFns;

use crate::color::{Color, ColorView};
use crate::num::{
    all_digits, frac_digits, is_digit, digit, non_dot_pred, valid_num_body, whole_digits,
};
use crate::selector::{Selector, SelectorView, SimpleSelector, SimpleSelectorView};
use crate::text::{
    ch_pred, chars_eq_str, chars_to_string, lemma_scan_end_unique, scan_back, scan_end,
    str_to_chars, strip_trailing_chars, vec_sub,
};

verus! {

/// An ordered sequence of rules; the whole document model.
#[derive(PartialEq, Clone, Debug)]
pub struct Stylesheet {
    pub rules: Vec<Rule>,
}

/// One `selectors { declarations }` block.
#[derive(PartialEq, Clone, Debug)]
pub struct Rule {
    pub selectors: Vec<Selector>,
    pub declarations: Vec<Declaration>,
}

/// A property name (lower-cased) and its classified value.
#[derive(PartialEq, Clone, Debug)]
pub struct Declaration {
    pub property: String,
    pub value: Value,
}

/// A declaration's value, classified by the property name.
#[derive(PartialEq, Clone, Debug)]
pub enum Value {
    Color(Color),
    Length(Decimal, Unit),
    Other(String),
}

/// The closed set of length units.
#[derive(PartialEq, Eq, Structural, Clone, Copy, Debug)]
pub enum Unit {
    Em,
    Ex,
    Ch,
    Rem,
    Vh,
    Vw,
    Vmin,
    Vmax,
    Px,
    Mm,
    Q,
    Cm,
    In,
    Pt,
    Pc,
    Pct,
}

/// An exact non-negative decimal number in canonical digit form: the whole
/// part without leading zeros (just `0` for zero), the fractional part
/// without trailing zeros (empty for a whole number).
#[derive(PartialEq, Eq, Clone, Debug)]
pub struct Decimal {
    pub whole: String,
    pub frac: String,
}

/// Mathematical shape of a [`Decimal`].
pub ghost struct DecimalView {
    pub whole: Seq<char>,
    pub frac: Seq<char>,
}

impl View for Decimal {
    type V = DecimalView;

    open spec fn view(&self) -> DecimalView {
        DecimalView { whole: self.whole@, frac: self.frac@ }
    }
}

/// Mathematical shape of a [`Value`].
pub ghost enum ValueView {
    Color(ColorView),
    Length(DecimalView, Unit),
    Other(Seq<char>),
}

impl View for Value {
    type V = ValueView;

    open spec fn view(&self) -> ValueView {
        match self {
            Value::Color(c) => ValueView::Color(c@),
            Value::Length(d, u) => ValueView::Length(d@, *u),
            Value::Other(s) => ValueView::Other(s@),
        }
    }
}

/// Mathematical shape of a [`Declaration`].
pub ghost struct DeclarationView {
    pub property: Seq<char>,
    pub value: ValueView,
}

impl View for Declaration {
    type V = DeclarationView;

    open spec fn view(&self) -> DeclarationView {
        DeclarationView { property: self.property@, value: self.value@ }
    }
}

/// Mathematical shape of a [`Rule`].
pub ghost struct RuleView {
    pub selectors: Seq<SelectorView>,
    pub declarations: Seq<DeclarationView>,
}

impl View for Rule {
    type V = RuleView;

    open spec fn view(&self) -> RuleView {
        RuleView {
            selectors: self.selectors@.map_values(|s: Selector| s@),
            declarations: self.declarations@.map_values(|d: Declaration| d@),
        }
    }
}

/// Mathematical shape of a [`Stylesheet`].
pub ghost struct StylesheetView {
    pub rules: Seq<RuleView>,
}

impl View for Stylesheet {
    type V = StylesheetView;

    open spec fn view(&self) -> StylesheetView {
        StylesheetView { rules: self.rules@.map_values(|r: Rule| r@) }
    }
}

impl Stylesheet {
    pub fn new(rules: Vec<Rule>) -> (s: Stylesheet)
        ensures
            s.rules == rules,
    {
        Stylesheet { rules }
    }
}

impl Default for Stylesheet {
    fn default() -> (s: Self)
        ensures
            s@.rules =~= Seq::<RuleView>::empty(),
            s.rules@ =~= Seq::<Rule>::empty(),
    {
        Stylesheet { rules: Vec::new() }
    }
}

impl Rule {
    pub fn new(selectors: Vec<Selector>, declarations: Vec<Declaration>) -> (r: Rule)
        ensures
            r.selectors == selectors,
            r.declarations == declarations,
    {
        Rule { selectors, declarations }
    }
}

impl Default for Rule {
    fn default() -> (r: Self)
        ensures
            r.selectors@ =~= Seq::<Selector>::empty(),
            r.declarations@ =~= Seq::<Declaration>::empty(),
    {
        Rule { selectors: Vec::new(), declarations: Vec::new() }
    }
}

impl Selector {
    pub fn new(simple: Vec<SimpleSelector>, combinators: Vec<char>) -> (s: Selector)
        ensures
            s.simple == simple,
            s.combinators == combinators,
    {
        Selector { simple, combinators }
    }
}

impl Default for Selector {
    fn default() -> (s: Self)
        ensures
            s@ == SelectorView::empty(),
            s.simple@ =~= Seq::<SimpleSelector>::empty(),
            s.combinators@ =~= Seq::<char>::empty(),
    {
        let s = Selector { simple: Vec::new(), combinators: Vec::new() };
        proof {
            assert(s@.simple =~= SelectorView::empty().simple);
            assert(s@.combinators =~= SelectorView::empty().combinators);
        }
        s
    }
}

impl SimpleSelector {
    pub fn new(tag_name: Option<String>, id: Option<String>, classes: Vec<String>) -> (s:
        SimpleSelector)
        ensures
            s.tag_name == tag_name,
            s.id == id,
            s.classes == classes,
    {
        SimpleSelector { tag_name, id, classes }
    }
}

impl Default for SimpleSelector {
    fn default() -> (s: Self)
        ensures
            s@ == SimpleSelectorView::empty(),
            s.tag_name is None,
            s.id is None,
            s.classes@ =~= Seq::<String>::empty(),
    {
        let s = SimpleSelector { tag_name: None, id: None, classes: Vec::new() };
        proof {
            assert(s@.classes =~= SimpleSelectorView::empty().classes);
        }
        s
    }
}

impl Declaration {
    pub fn new(property: String, value: Value) -> (d: Declaration)
        ensures
            d.property == property,
            d.value == value,
    {
        Declaration { property, value }
    }
}

impl Default for Declaration {
    fn default() -> (d: Self)
        ensures
            d@.property =~= Seq::<char>::empty(),
            d@.value matches ValueView::Other(s) && s =~= Seq::<char>::empty(),
    {
        Declaration { property: String::new(), value: Value::Other(String::new()) }
    }
}

/// The canonical whole part: leading zeros removed, `0` if nothing is left.
pub open spec fn canon_whole(w: Seq<char>) -> Seq<char> {
    let k = scan_end(w, 0, ch_pred('0'));
    if k == w.len() {
        seq!['0']
    } else {
        w.skip(k)
    }
}

/// The canonical fractional part: trailing zeros removed.
pub open spec fn canon_frac(f: Seq<char>) -> Seq<char> {
    f.take(scan_back(f, f.len() as int, ch_pred('0')))
}

/// The zero decimal.
pub open spec fn dec_zero() -> DecimalView {
    DecimalView { whole: seq!['0'], frac: Seq::empty() }
}

/// The number of a length token: its canonical decimal value if the token
/// is a plain unsigned decimal, and zero otherwise (a failed numeric parse
/// here never faults).
pub open spec fn length_num(t: Seq<char>) -> DecimalView {
    if valid_num_body(t) {
        DecimalView { whole: canon_whole(whole_digits(t)), frac: canon_frac(frac_digits(t)) }
    } else {
        dec_zero()
    }
}

/// Characters belonging to the numeric part of a length token.
pub open spec fn numlike_pred() -> spec_fn(char) -> bool {
    |c: char| is_digit(c) || c == '.'
}

/// The unit of a length token's suffix: matched case-sensitively, with an
/// empty or unrecognized suffix falling back to pixels.
pub open spec fn unit_of(u: Seq<char>) -> Unit {
    if u == "em"@ {
        Unit::Em
    } else if u == "ex"@ {
        Unit::Ex
    } else if u == "ch"@ {
        Unit::Ch
    } else if u == "rem"@ {
        Unit::Rem
    } else if u == "vh"@ {
        Unit::Vh
    } else if u == "vw"@ {
        Unit::Vw
    } else if u == "vmin"@ {
        Unit::Vmin
    } else if u == "vmax"@ {
        Unit::Vmax
    } else if u == "px"@ || u.len() == 0 {
        Unit::Px
    } else if u == "mm"@ {
        Unit::Mm
    } else if u == "q"@ {
        Unit::Q
    } else if u == "cm"@ {
        Unit::Cm
    } else if u == "in"@ {
        Unit::In
    } else if u == "pt"@ {
        Unit::Pt
    } else if u == "pc"@ {
        Unit::Pc
    } else if u == "%"@ {
        Unit::Pct
    } else {
        Unit::Px
    }
}

/// What the length translator yields: the token split into its leading
/// digits-and-dots run and the suffix, each translated.
pub open spec fn translate_length_v(t: Seq<char>) -> ValueView {
    let k = scan_end(t, 0, numlike_pred());
    ValueView::Length(length_num(t.subrange(0, k)), unit_of(t.skip(k)))
}

impl Decimal {
    /// Builds the canonical decimal with the given whole and fractional
    /// digits, stripping leading and trailing zeros.
    pub fn new(whole: &str, frac: &str) -> (d: Decimal)
        ensures
            d@.whole == canon_whole(whole@),
            d@.frac == canon_frac(frac@),
    {
        let w = str_to_chars(whole);
        let f = str_to_chars(frac);
        Decimal {
            whole: chars_to_string(&canon_whole_chars(&w)),
            frac: chars_to_string(&strip_trailing_chars(&f, '0')),
        }
    }
}

/// Strips leading zeros, leaving `0` for an all-zero (or empty) part.
fn canon_whole_chars(w: &Vec<char>) -> (r: Vec<char>)
    ensures
        r@ == canon_whole(w@),
{
    let mut k: usize = 0;
    while k < w.len() && w[k] == '0'
        invariant
            k <= w@.len(),
            forall|j: int| 0 <= j < k ==> w@[j] == '0',
        decreases w@.len() - k,
    {
        k = k + 1;
    }
    proof {
        lemma_scan_end_unique(w@, 0, ch_pred('0'), k as int);
    }
    if k == w.len() {
        let mut r: Vec<char> = Vec::new();
        r.push('0');
        proof {
            assert(r@ =~= seq!['0']);
        }
        r
    } else {
        let r = vec_sub(w, k, w.len());
        proof {
            assert(r@ =~= w@.skip(k as int));
        }
        r
    }
}

/// Checks that every character is a decimal digit.
fn all_digits_chars(v: &Vec<char>) -> (b: bool)
    ensures
        b == all_digits(v@),
{
    let mut i: usize = 0;
    while i < v.len()
        invariant
            i <= v@.len(),
            forall|j: int| 0 <= j < i ==> is_digit(v@[j]),
        decreases v@.len() - i,
    {
        if !digit(v[i]) {
            return false;
        }
        i = i + 1;
    }
    true
}

/// Reads the number of a length token as [`length_num`] describes it.
fn parse_length_num(t: &Vec<char>) -> (d: Decimal)
    ensures
        d@ == length_num(t@),
{
    let n = t.len();
    let mut fd: usize = 0;
    while fd < n && t[fd] != '.'
        invariant
            fd <= n,
            n == t@.len(),
            forall|j: int| 0 <= j < fd ==> t@[j] != '.',
        decreases n - fd,
    {
        fd = fd + 1;
    }
    proof {
        lemma_scan_end_unique(t@, 0, non_dot_pred(), fd as int);
    }
    let whole = vec_sub(t, 0, fd);
    let frac = if fd < n {
        vec_sub(t, fd + 1, n)
    } else {
        Vec::new()
    };
    proof {
        assert(whole@ =~= whole_digits(t@));
        assert(frac@ =~= frac_digits(t@));
    }
    let valid = all_digits_chars(&whole) && all_digits_chars(&frac) && (whole.len() >= 1
        || frac.len() >= 1);
    if valid {
        Decimal {
            whole: chars_to_string(&canon_whole_chars(&whole)),
            frac: chars_to_string(&strip_trailing_chars(&frac, '0')),
        }
    } else {
        proof {
            reveal_strlit("0");
            assert("0"@ =~= seq!['0']);
        }
        Decimal { whole: String::from_str("0"), frac: String::new() }
    }
}

/// Matches a unit suffix as [`unit_of`] describes it.
fn unit_lookup(u: &Vec<char>) -> (r: Unit)
    ensures
        r == unit_of(u@),
{
    if chars_eq_str(u, "em") {
        Unit::Em
    } else if chars_eq_str(u, "ex") {
        Unit::Ex
    } else if chars_eq_str(u, "ch") {
        Unit::Ch
    } else if chars_eq_str(u, "rem") {
        Unit::Rem
    } else if chars_eq_str(u, "vh") {
        Unit::Vh
    } else if chars_eq_str(u, "vw") {
        Unit::Vw
    } else if chars_eq_str(u, "vmin") {
        Unit::Vmin
    } else if chars_eq_str(u, "vmax") {
        Unit::Vmax
    } else if chars_eq_str(u, "px") || u.len() == 0 {
        Unit::Px
    } else if chars_eq_str(u, "mm") {
        Unit::Mm
    } else if chars_eq_str(u, "q") {
        Unit::Q
    } else if chars_eq_str(u, "cm") {
        Unit::Cm
    } else if chars_eq_str(u, "in") {
        Unit::In
    } else if chars_eq_str(u, "pt") {
        Unit::Pt
    } else if chars_eq_str(u, "pc") {
        Unit::Pc
    } else if chars_eq_str(u, "%") {
        Unit::Pct
    } else {
        Unit::Px
    }
}

/// Splits a length token into its numeric part (a leading run of digits
/// and dots) and its unit suffix, translating each; the numeric parse
/// never faults, defaulting to zero.
pub fn translate_length(value: &str) -> (v: Value)
    ensures
        v@ == translate_length_v(value@),
{
    let cs = str_to_chars(value);
    let n = cs.len();
    let mut k: usize = 0;
    while k < n && (digit(cs[k]) || cs[k] == '.')
        invariant
            k <= n,
            n == cs@.len(),
            forall|j: int| 0 <= j < k ==> (is_digit(cs@[j]) || cs@[j] == '.'),
        decreases n - k,
    {
        k = k + 1;
    }
    proof {
        lemma_scan_end_unique(cs@, 0, numlike_pred(), k as int);
    }
    let num = vec_sub(&cs, 0, k);
    let unit = vec_sub(&cs, k, n);
    proof {
        assert(unit@ =~= cs@.skip(k as int));
    }
    Value::Length(parse_length_num(&num), unit_lookup(&unit))
}

/// The suffix a unit renders as (`%` for [`Unit::Pct`]).
pub open spec fn unit_text(u: Unit) -> Seq<char> {
    match u {
        Unit::Em => "em"@,
        Unit::Ex => "ex"@,
        Unit::Ch => "ch"@,
        Unit::Rem => "rem"@,
        Unit::Vh => "vh"@,
        Unit::Vw => "vw"@,
        Unit::Vmin => "vmin"@,
        Unit::Vmax => "vmax"@,
        Unit::Px => "px"@,
        Unit::Mm => "mm"@,
        Unit::Q => "q"@,
        Unit::Cm => "cm"@,
        Unit::In => "in"@,
        Unit::Pt => "pt"@,
        Unit::Pc => "pc"@,
        Unit::Pct => "%"@,
    }
}

/// How a decimal renders: the whole part, then `.` and the fractional part
/// if there is one.
pub open spec fn dec_text(d: DecimalView) -> Seq<char> {
    if d.frac.len() == 0 {
        d.whole
    } else {
        d.whole + "."@ + d.frac
    }
}

/// How a value renders: a color re-emits its preserved original text
/// verbatim; a length renders as number then unit suffix; anything else
/// renders as its stored raw text.
pub open spec fn value_text(v: ValueView) -> Seq<char> {
    match v {
        ValueView::Color(c) => c.original,
        ValueView::Length(d, u) => dec_text(d) + unit_text(u),
        ValueView::Other(s) => s,
    }
}

/// How a declaration renders: `property: value;`.
pub open spec fn decl_text(d: DeclarationView) -> Seq<char> {
    d.property + ": "@ + value_text(d.value) + ";"@
}

/// The class list of a simple selector, each name preceded by a dot.
pub open spec fn classes_text(cs: Seq<Seq<char>>) -> Seq<char>
    decreases cs.len(),
{
    if cs.len() == 0 {
        Seq::empty()
    } else {
        classes_text(cs.drop_last()) + "."@ + cs.last()
    }
}

/// How a simple selector renders: tag name, then `#id`, then the classes,
/// in that fixed order.
pub open spec fn simple_selector_text(s: SimpleSelectorView) -> Seq<char> {
    (match s.tag_name {
        Option::Some(t) => t,
        Option::None => Seq::empty(),
    }) + (match s.id {
        Option::Some(i) => "#"@ + i,
        Option::None => Seq::empty(),
    }) + classes_text(s.classes)
}

/// Pieces joined with a separator, writing the separator only when the text
/// accumulated so far is non-empty (so a leading empty piece takes no
/// separator).
pub open spec fn disp_join(pieces: Seq<Seq<char>>, sep: Seq<char>) -> Seq<char>
    decreases pieces.len(),
{
    if pieces.len() == 0 {
        Seq::empty()
    } else {
        let acc = disp_join(pieces.drop_last(), sep);
        if acc.len() > 0 {
            acc + sep + pieces.last()
        } else {
            acc + pieces.last()
        }
    }
}

/// How a selector renders: its simple selectors joined by `, `.
pub open spec fn selector_text(s: SelectorView) -> Seq<char> {
    disp_join(s.simple.map_values(|x: SimpleSelectorView| simple_selector_text(x)), ", "@)
}

/// The declaration block of a rule: each declaration indented by four
/// spaces and followed by a line break.
pub open spec fn decls_text(ds: Seq<DeclarationView>) -> Seq<char>
    decreases ds.len(),
{
    if ds.len() == 0 {
        Seq::empty()
    } else {
        decls_text(ds.drop_last()) + "    "@ + decl_text(ds.last()) + "\r\n"@
    }
}

/// How a rule renders: its selectors joined by `, `, then ` {`, a line
/// break, the declaration block, and `}`.
pub open spec fn rule_text(r: RuleView) -> Seq<char> {
    disp_join(r.selectors.map_values(|s: SelectorView| selector_text(s)), ", "@) + " {\r\n"@
        + decls_text(r.declarations) + "}"@
}

/// How a stylesheet renders: its rules joined by a blank line.
pub open spec fn sheet_text(s: StylesheetView) -> Seq<char> {
    disp_join(s.rules.map_values(|r: RuleView| rule_text(r)), "\r\n\r\n"@)
}

impl Unit {
    /// The unit's suffix as text.
    pub fn text(&self) -> (r: String)
        ensures
            r@ == unit_text(*self),
    {
        match self {
            Unit::Em => String::from_str("em"),
            Unit::Ex => String::from_str("ex"),
            Unit::Ch => String::from_str("ch"),
            Unit::Rem => String::from_str("rem"),
            Unit::Vh => String::from_str("vh"),
            Unit::Vw => String::from_str("vw"),
            Unit::Vmin => String::from_str("vmin"),
            Unit::Vmax => String::from_str("vmax"),
            Unit::Px => String::from_str("px"),
            Unit::Mm => String::from_str("mm"),
            Unit::Q => String::from_str("q"),
            Unit::Cm => String::from_str("cm"),
            Unit::In => String::from_str("in"),
            Unit::Pt => String::from_str("pt"),
            Unit::Pc => String::from_str("pc"),
            Unit::Pct => String::from_str("%"),
        }
    }
}

impl Decimal {
    /// The decimal as text.
    pub fn text(&self) -> (r: String)
        ensures
            r@ == dec_text(self@),
    {
        let mut out = self.whole.clone();
        if self.frac.as_str().unicode_len() > 0 {
            out.append(".");
            out.append(self.frac.as_str());
        }
        out
    }
}

impl Value {
    /// The value as text.
    pub fn text(&self) -> (r: String)
        ensures
            r@ == value_text(self@),
    {
        match self {
            Value::Color(c) => c.original.clone(),
            Value::Length(d, u) => {
                let mut out = d.text();
                let ut = u.text();
                out.append(ut.as_str());
                out
            },
            Value::Other(s) => s.clone(),
        }
    }
}

impl Declaration {
    /// The declaration as text: `property: value;`.
    pub fn text(&self) -> (r: String)
        ensures
            r@ == decl_text(self@),
    {
        let mut out = self.property.clone();
        out.append(": ");
        let vt = self.value.text();
        out.append(vt.as_str());
        out.append(";");
        out
    }
}

impl SimpleSelector {
    /// The simple selector as text: tag name, `#id`, classes.
    pub fn text(&self) -> (r: String)
        ensures
            r@ == simple_selector_text(self@),
    {
        let mut out = String::new();
        match &self.tag_name {
            Some(t) => {
                out.append(t.as_str());
            },
            None => {},
        }
        match &self.id {
            Some(s) => {
                out.append("#");
                out.append(s.as_str());
            },
            None => {},
        }
        let ghost head = out@;
        let mut i: usize = 0;
        while i < self.classes.len()
            invariant
                i <= self.classes@.len(),
                out@ == head + classes_text(
                    self.classes@.take(i as int).map_values(|c: String| c@),
                ),
            decreases self.classes@.len() - i,
        {
            out.append(".");
            out.append(self.classes[i].as_str());
            proof {
                let pre = self.classes@.take(i as int).map_values(|c: String| c@);
                let cur = self.classes@.take(i + 1).map_values(|c: String| c@);
                assert(cur.drop_last() =~= pre);
                assert(cur.last() == self.classes@[i as int]@);
                assert(head + classes_text(cur) =~= head + classes_text(pre) + "."@
                    + self.classes@[i as int]@);
            }
            i = i + 1;
        }
        proof {
            assert(self.classes@.take(self.classes@.len() as int) =~= self.classes@);
            assert(self.classes@.map_values(|c: String| c@) =~= self@.classes);
            assert(out@ =~= simple_selector_text(self@));
        }
        out
    }
}

impl Selector {
    /// The selector as text: its simple selectors joined by `, `.
    pub fn text(&self) -> (r: String)
        ensures
            r@ == selector_text(self@),
    {
        let mut out = String::new();
        let mut i: usize = 0;
        while i < self.simple.len()
            invariant
                i <= self.simple@.len(),
                out@ == disp_join(
                    self.simple@.take(i as int).map_values(
                        |x: SimpleSelector| simple_selector_text(x@),
                    ),
                    ", "@,
                ),
            decreases self.simple@.len() - i,
        {
            if out.as_str().unicode_len() > 0 {
                out.append(", ");
            }
            let st = self.simple[i].text();
            out.append(st.as_str());
            proof {
                let pre = self.simple@.take(i as int).map_values(
                    |x: SimpleSelector| simple_selector_text(x@),
                );
                let cur = self.simple@.take(i + 1).map_values(
                    |x: SimpleSelector| simple_selector_text(x@),
                );
                assert(cur.drop_last() =~= pre);
                assert(cur.last() == simple_selector_text(self.simple@[i as int]@));
            }
            i = i + 1;
        }
        proof {
            assert(self.simple@.take(self.simple@.len() as int) =~= self.simple@);
            assert(self.simple@.map_values(|x: SimpleSelector| simple_selector_text(x@))
                =~= self@.simple.map_values(|x: SimpleSelectorView| simple_selector_text(x)));
        }
        out
    }
}

impl Rule {
    /// The rule as text: selectors, ` {`, the declaration block, `}`.
    pub fn text(&self) -> (r: String)
        ensures
            r@ == rule_text(self@),
    {
        let mut sel = String::new();
        let mut i: usize = 0;
        while i < self.selectors.len()
            invariant
                i <= self.selectors@.len(),
                sel@ == disp_join(
                    self.selectors@.take(i as int).map_values(|x: Selector| selector_text(x@)),
                    ", "@,
                ),
            decreases self.selectors@.len() - i,
        {
            if sel.as_str().unicode_len() > 0 {
                sel.append(", ");
            }
            let st = self.selectors[i].text();
            sel.append(st.as_str());
            proof {
                let pre = self.selectors@.take(i as int).map_values(
                    |x: Selector| selector_text(x@),
                );
                let cur = self.selectors@.take(i + 1).map_values(|x: Selector| selector_text(x@));
                assert(cur.drop_last() =~= pre);
                assert(cur.last() == selector_text(self.selectors@[i as int]@));
            }
            i = i + 1;
        }
        let mut out = sel;
        out.append(" {\r\n");
        let ghost head = out@;
        let mut j: usize = 0;
        while j < self.declarations.len()
            invariant
                j <= self.declarations@.len(),
                out@ == head + decls_text(
                    self.declarations@.take(j as int).map_values(|d: Declaration| d@),
                ),
            decreases self.declarations@.len() - j,
        {
            out.append("    ");
            let dt = self.declarations[j].text();
            out.append(dt.as_str());
            out.append("\r\n");
            proof {
                let pre = self.declarations@.take(j as int).map_values(|d: Declaration| d@);
                let cur = self.declarations@.take(j + 1).map_values(|d: Declaration| d@);
                assert(cur.drop_last() =~= pre);
                assert(cur.last() == self.declarations@[j as int]@);
                assert(head + decls_text(cur) =~= head + decls_text(pre) + "    "@ + decl_text(
                    self.declarations@[j as int]@,
                ) + "\r\n"@);
            }
            j = j + 1;
        }
        out.append("}");
        proof {
            assert(self.selectors@.take(self.selectors@.len() as int) =~= self.selectors@);
            assert(self.declarations@.take(self.declarations@.len() as int)
                =~= self.declarations@);
            assert(self.selectors@.map_values(|x: Selector| selector_text(x@))
                =~= self@.selectors.map_values(|x: SelectorView| selector_text(x)));
            assert(out@ =~= rule_text(self@));
        }
        out
    }
}

impl Stylesheet {
    /// The stylesheet as text: its rules joined by a blank line.
    pub fn text(&self) -> (r: String)
        ensures
            r@ == sheet_text(self@),
    {
        let mut out = String::new();
        let mut i: usize = 0;
        while i < self.rules.len()
            invariant
                i <= self.rules@.len(),
                out@ == disp_join(
                    self.rules@.take(i as int).map_values(|x: Rule| rule_text(x@)),
                    "\r\n\r\n"@,
                ),
            decreases self.rules@.len() - i,
        {
            if out.as_str().unicode_len() > 0 {
                out.append("\r\n\r\n");
            }
            let rt = self.rules[i].text();
            out.append(rt.as_str());
            proof {
                let pre = self.rules@.take(i as int).map_values(|x: Rule| rule_text(x@));
                let cur = self.rules@.take(i + 1).map_values(|x: Rule| rule_text(x@));
                assert(cur.drop_last() =~= pre);
                assert(cur.last() == rule_text(self.rules@[i as int]@));
            }
            i = i + 1;
        }
        proof {
            assert(self.rules@.take(self.rules@.len() as int) =~= self.rules@);
            assert(self.rules@.map_values(|x: Rule| rule_text(x@))
                =~= self@.rules.map_values(|x: RuleView| rule_text(x)));
        }
        out
    }
}

} // verus!
