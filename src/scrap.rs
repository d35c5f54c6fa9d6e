//! The document store and the selector queries run against it.
use crate::error::ScrapeError;
use scraper::{Html, Selector};
use vstd::prelude::*;

verus! {

#[verifier::external_type_specification]
#[verifier::external_body]
pub struct ExHtml(Html);

#[verifier::external_type_specification]
#[verifier::external_body]
pub struct ExSelector(Selector);

/// Whether scraper's selector parser accepts `text` as a selector group.
pub uninterp spec fn selector_accepted(text: Seq<char>) -> bool;

/// The inner HTML of each element that `selector` matches in the markup
/// `source` (parsed as a fragment when `fragment` holds), in document order.
pub uninterp spec fn selection_inner_html(
    source: Seq<char>,
    fragment: bool,
    selector: Seq<char>,
) -> Seq<Seq<char>>;

/// The HTML of each element that `selector` matches, the element's own tags
/// included, in document order.
pub uninterp spec fn selection_outer_html(
    source: Seq<char>,
    fragment: bool,
    selector: Seq<char>,
) -> Seq<Seq<char>>;

/// The value of the attribute `name` on each element that `selector`
/// matches, in document order; `None` where the element has no such
/// attribute.
pub uninterp spec fn selection_attribute(
    source: Seq<char>,
    fragment: bool,
    selector: Seq<char>,
    name: Seq<char>,
) -> Seq<Option<Seq<char>>>;

/// For each element that `scope` matches, in document order, the inner HTML
/// of each of its descendants that `selector` matches.
pub uninterp spec fn selection_grouped_inner_html(
    source: Seq<char>,
    fragment: bool,
    scope: Seq<char>,
    selector: Seq<char>,
) -> Seq<Seq<Seq<char>>>;

/// The text a document store was parsed from, and whether it was parsed as
/// a fragment rather than as a whole document.
pub struct Markup {
    pub source: Seq<char>,
    pub fragment: bool,
}

/// What a query extracts from each matched element.
#[derive(Debug, Clone, Copy, PartialEq, Eq, Structural)]
pub enum HtmlType {
    /// The markup between the element's tags.
    InnerHtml,
    /// The value of the element's `href` attribute.
    Href,
}

/// A compiled selector group, with the text it was compiled from.
///
/// Only `compile_selector` builds one, so `inner` is always what scraper's
/// parser made of `text`.
pub struct CssSelector {
    inner: Selector,
    text: Ghost<Seq<char>>,
}

impl CssSelector {
    pub closed spec fn text(&self) -> Seq<char> {
        self.text@
    }
}

/// Relies on scraper's `Selector::parse`: it succeeds exactly on the texts
/// that it accepts.
#[verifier::external_body]
fn compile_selector(text: &str) -> (r: Option<CssSelector>)
    ensures
        r is Some <==> selector_accepted(text@),
        r matches Some(s) ==> s.text() == text@,
{
    match Selector::parse(text) {
        Ok(inner) => Some(CssSelector { inner, text: Ghost(text@) }),
        Err(_) => None,
    }
}

/// The values of an attribute query when every matched element carries the
/// attribute, and `MissingAttribute` otherwise.
pub open spec fn all_present(values: Seq<Option<Seq<char>>>) -> Result<
    Seq<Seq<char>>,
    ScrapeError,
> {
    if forall|i: int| 0 <= i < values.len() ==> #[trigger] values[i] is Some {
        Ok(Seq::new(values.len(), |i: int| values[i]->0))
    } else {
        Err(ScrapeError::MissingAttribute)
    }
}

/// What a query of `sequence` in `html_type` mode gives on `markup`.
pub open spec fn query(markup: Markup, sequence: Seq<char>, html_type: HtmlType) -> Result<
    Seq<Seq<char>>,
    ScrapeError,
> {
    if !selector_accepted(sequence) {
        Err(ScrapeError::InvalidSelector)
    } else {
        match html_type {
            HtmlType::InnerHtml => Ok(
                selection_inner_html(markup.source, markup.fragment, sequence),
            ),
            HtmlType::Href => all_present(
                selection_attribute(markup.source, markup.fragment, sequence, "href"@),
            ),
        }
    }
}

/// What a query of `scope` grouped by `selector` gives on `markup`.
pub open spec fn grouped_query(markup: Markup, scope: Seq<char>, selector: Seq<char>) -> Result<
    Seq<Seq<Seq<char>>>,
    ScrapeError,
> {
    if !selector_accepted(scope) || !selector_accepted(selector) {
        Err(ScrapeError::InvalidSelector)
    } else {
        Ok(selection_grouped_inner_html(markup.source, markup.fragment, scope, selector))
    }
}

/// The views of the items of a successful result, or its error.
pub open spec fn view_all<T: View>(r: Result<Vec<T>, ScrapeError>) -> Result<
    Seq<T::V>,
    ScrapeError,
> {
    match r {
        Ok(v) => Ok(v@.map_values(|x: T| x@)),
        Err(e) => Err(e),
    }
}

/// Holds one parsed HTML document, or one fragment of one.
///
/// Only `parse_document` and `parse_fragment` build one, so `doc` is always
/// what scraper's parser made of `markup`.
pub struct Scraper {
    doc: Html,
    markup: Ghost<Markup>,
}

impl Scraper {
    pub closed spec fn markup(&self) -> Markup {
        self.markup@
    }

    /// Relies on scraper's `Html::parse_document`, which never fails: errors
    /// in the markup are recovered from as the HTML parsing rules say.
    #[verifier::external_body]
    fn parse_document(html: &str) -> (r: Scraper)
        ensures
            r.markup() == (Markup { source: html@, fragment: false }),
    {
        Scraper { doc: Html::parse_document(html), markup: Ghost(Markup { source: html@, fragment: false }) }
    }

    /// Relies on scraper's `Html::parse_fragment`, which never fails.
    #[verifier::external_body]
    pub(crate) fn parse_fragment(html: &str) -> (r: Scraper)
        ensures
            r.markup() == (Markup { source: html@, fragment: true }),
    {
        Scraper { doc: Html::parse_fragment(html), markup: Ghost(Markup { source: html@, fragment: true }) }
    }

    /// Relies on scraper's `Html::select` and `ElementRef::inner_html`.
    #[verifier::external_body]
    fn select_inner_html(&self, selector: &CssSelector) -> (r: Vec<String>)
        ensures
            r.deep_view() == selection_inner_html(
                self.markup().source,
                self.markup().fragment,
                selector.text(),
            ),
    {
        self.doc.select(&selector.inner).map(|e| e.inner_html()).collect()
    }

    /// Relies on scraper's `Html::select` and `ElementRef::html`.
    #[verifier::external_body]
    fn select_outer_html(&self, selector: &CssSelector) -> (r: Vec<String>)
        ensures
            r.deep_view() == selection_outer_html(
                self.markup().source,
                self.markup().fragment,
                selector.text(),
            ),
    {
        self.doc.select(&selector.inner).map(|e| e.html()).collect()
    }

    /// Relies on scraper's `Html::select` and `ElementRef::attr`: one value
    /// for each element that the selector matches.
    #[verifier::external_body]
    fn select_attribute(&self, selector: &CssSelector, name: &str) -> (r: Vec<Option<String>>)
        ensures
            r.deep_view() == selection_attribute(
                self.markup().source,
                self.markup().fragment,
                selector.text(),
                name@,
            ),
    {
        self.doc.select(&selector.inner).map(|e| e.attr(name).map(String::from)).collect()
    }

    /// Relies on scraper's `Html::select`, `ElementRef::select` and
    /// `ElementRef::inner_html`.
    #[verifier::external_body]
    fn select_grouped_inner_html(&self, scope: &CssSelector, selector: &CssSelector) -> (r: Vec<
        Vec<String>,
    >)
        ensures
            r.deep_view() == selection_grouped_inner_html(
                self.markup().source,
                self.markup().fragment,
                scope.text(),
                selector.text(),
            ),
    {
        self.doc.select(&scope.inner).map(
            |e| e.select(&selector.inner).map(|c| c.inner_html()).collect(),
        ).collect()
    }

    /// Parses `html` as a whole document.
    pub fn new(html: &str) -> (r: Scraper)
        ensures
            r.markup() == (Markup { source: html@, fragment: false }),
    {
        Scraper::parse_document(html)
    }

    /// Replaces the held document by `fragment` parsed on its own, so that
    /// later queries only see what it holds.
    pub fn new_fragment(&mut self, fragment: &String)
        ensures
            final(self).markup() == (Markup { source: fragment@, fragment: true }),
    {
        *self = Scraper::parse_fragment(fragment.as_str());
    }

    /// Compiles `sequence` into a selector.
    pub fn scrap(&self, sequence: &str) -> (r: Result<CssSelector, ScrapeError>)
        ensures
            r is Ok <==> selector_accepted(sequence@),
            r matches Ok(s) ==> s.text() == sequence@,
            r matches Err(e) ==> e == ScrapeError::InvalidSelector,
    {
        match compile_selector(sequence) {
            Some(s) => Ok(s),
            None => Err(ScrapeError::InvalidSelector),
        }
    }

    /// Runs the query `sequence` and extracts from each matched element, in
    /// document order, what `html_type` asks for.
    pub fn scrap_value(&self, sequence: &str, html_type: HtmlType) -> (r: Result<
        Vec<String>,
        ScrapeError,
    >)
        ensures
            view_all(r) == query(self.markup(), sequence@, html_type),
    {
        let selector = match self.scrap(sequence) {
            Ok(s) => s,
            Err(e) => return Err(e),
        };
        match html_type {
            HtmlType::InnerHtml => {
                let r = self.select_inner_html(&selector);
                assert(r@.map_values(|x: String| x@) =~= r.deep_view());
                Ok(r)
            },
            HtmlType::Href => {
                let values = self.select_attribute(&selector, "href");
                let ghost dv = values.deep_view();
                assert(query(self.markup(), sequence@, html_type) == all_present(dv));
                let mut out: Vec<String> = Vec::new();
                let mut i: usize = 0;
                while i < values.len()
                    invariant
                        i <= values.len(),
                        dv == values.deep_view(),
                        query(self.markup(), sequence@, html_type) == all_present(dv),
                        out.len() == i,
                        forall|j: int| 0 <= j < i ==> (#[trigger] dv[j]) is Some,
                        forall|j: int| 0 <= j < i ==> dv[j]->0 == (#[trigger] out@[j])@,
                    decreases values.len() - i,
                {
                    match &values[i] {
                        Some(v) => {
                            out.push(v.clone());
                        },
                        None => {
                            assert(dv[i as int] is None);
                            return Err(ScrapeError::MissingAttribute);
                        },
                    }
                    i = i + 1;
                }
                assert(out@.map_values(|x: String| x@) =~= Seq::new(
                    dv.len(),
                    |j: int| dv[j]->0,
                ));
                Ok(out)
            },
        }
    }

    /// The HTML of each element that `sequence` matches, tags included.
    pub fn scrap_outer_html(&self, sequence: &str) -> (r: Result<Vec<String>, ScrapeError>)
        ensures
            view_all(r) == (if selector_accepted(sequence@) {
                Ok(selection_outer_html(self.markup().source, self.markup().fragment, sequence@))
            } else {
                Err::<Seq<Seq<char>>, ScrapeError>(ScrapeError::InvalidSelector)
            }),
    {
        let selector = match self.scrap(sequence) {
            Ok(s) => s,
            Err(e) => return Err(e),
        };
        let r = self.select_outer_html(&selector);
        assert(r@.map_values(|x: String| x@) =~= r.deep_view());
        Ok(r)
    }

    /// For each element that `scope` matches, the inner HTML of each of its
    /// descendants that `sequence` matches.
    pub fn scrap_grouped(&self, scope: &str, sequence: &str) -> (r: Result<
        Vec<Vec<String>>,
        ScrapeError,
    >)
        ensures
            match r {
                Ok(v) => grouped_query(self.markup(), scope@, sequence@) == Ok::<
                    Seq<Seq<Seq<char>>>,
                    ScrapeError,
                >(v.deep_view()),
                Err(e) => grouped_query(self.markup(), scope@, sequence@) == Err::<
                    Seq<Seq<Seq<char>>>,
                    ScrapeError,
                >(e),
            },
    {
        let outer = match self.scrap(scope) {
            Ok(s) => s,
            Err(e) => return Err(e),
        };
        let inner = match self.scrap(sequence) {
            Ok(s) => s,
            Err(e) => return Err(e),
        };
        Ok(self.select_grouped_inner_html(&outer, &inner))
    }
}

} // verus!
