//! Selector part of the data model.

use vstd::prelude::*;

verus! {

/// One selector of a rule: the parser always produces exactly one simple
/// selector, but the type permits more. The combinator list is reserved and
/// stays empty.
#[derive(PartialEq, Eq, Clone, Debug)]
pub struct Selector {
    pub simple: Vec<SimpleSelector>,
    pub combinators: Vec<char>,
}

/// A simple selector: optional tag name, optional id, class list, each
/// lower-cased.
#[derive(PartialEq, Eq, Clone, Debug)]
pub struct SimpleSelector {
    /// Example: div
    pub tag_name: Option<String>,
    /// Example: #page
    pub id: Option<String>,
    /// Example: .wrapper
    pub classes: Vec<String>,
}

/// Mathematical shape of a [`SimpleSelector`].
pub ghost struct SimpleSelectorView {
    pub tag_name: Option<Seq<char>>,
    pub id: Option<Seq<char>>,
    pub classes: Seq<Seq<char>>,
}

impl SimpleSelectorView {
    /// The empty simple selector, which the parser never retains.
    pub open spec fn empty() -> SimpleSelectorView {
        SimpleSelectorView { tag_name: None, id: None, classes: Seq::empty() }
    }
}

impl View for SimpleSelector {
    type V = SimpleSelectorView;

    open spec fn view(&self) -> SimpleSelectorView {
        SimpleSelectorView {
            tag_name: self.tag_name.deep_view(),
            id: self.id.deep_view(),
            classes: self.classes.deep_view(),
        }
    }
}

/// Mathematical shape of a [`Selector`].
pub ghost struct SelectorView {
    pub simple: Seq<SimpleSelectorView>,
    pub combinators: Seq<char>,
}

impl SelectorView {
    /// The empty selector, which the parser never retains.
    pub open spec fn empty() -> SelectorView {
        SelectorView { simple: Seq::empty(), combinators: Seq::empty() }
    }
}

impl View for Selector {
    type V = SelectorView;

    open spec fn view(&self) -> SelectorView {
        SelectorView {
            simple: self.simple@.map_values(|s: SimpleSelector| s@),
            combinators: self.combinators@,
        }
    }
}

} // verus!
