use ffvb_scraper::entity::{Competition, Department, Region, Url};
use ffvb_scraper::error::ScrapeError;
use ffvb_scraper::query;
use ffvb_scraper::scrap::{HtmlType, Scraper};
use ffvb_scraper::text::read_small_number;

#[test]
fn queries_give_matches_in_document_order() {
    let scraper = Scraper::new("<ul><li><a href=\"/a\">A</a></li><li><a href=\"/b\"><b>B</b></a></li></ul>");
    let texts = scraper.scrap_value("li a", HtmlType::InnerHtml).unwrap();
    assert_eq!(texts, vec![String::from("A"), String::from("<b>B</b>")]);
    let links = scraper.scrap_value("li a", HtmlType::Href).unwrap();
    assert_eq!(links, vec![String::from("/a"), String::from("/b")]);
}

#[test]
fn a_query_that_matches_nothing_is_empty() {
    let scraper = Scraper::new("<p>text</p>");
    assert_eq!(scraper.scrap_value("table td", HtmlType::InnerHtml), Ok(vec![]));
    assert_eq!(scraper.scrap_value("table td", HtmlType::Href), Ok(vec![]));
}

#[test]
fn an_invalid_selector_is_reported() {
    let scraper = Scraper::new("<p>text</p>");
    assert_eq!(scraper.scrap_value("td[", HtmlType::InnerHtml), Err(ScrapeError::InvalidSelector));
    assert!(scraper.scrap("td[").is_err());
    assert!(scraper.scrap("thead tr td").is_ok());
}

#[test]
fn a_missing_attribute_is_reported() {
    let scraper = Scraper::new("<a href=\"/a\">A</a><a>B</a>");
    assert_eq!(scraper.scrap_value("a", HtmlType::Href), Err(ScrapeError::MissingAttribute));
}

#[test]
fn narrowing_limits_later_queries() {
    let mut scraper = Scraper::new("<ul><li>one</li></ul><ul><li>two</li><li>three</li></ul>");
    let lists = scraper.scrap_value("ul", HtmlType::InnerHtml).unwrap();
    assert_eq!(lists.len(), 2);
    scraper.new_fragment(&lists[1]);
    let items = scraper.scrap_value("li", HtmlType::InnerHtml).unwrap();
    assert_eq!(items, vec![String::from("two"), String::from("three")]);
}

#[test]
fn outer_html_keeps_the_tags() {
    let scraper = Scraper::new("<div><span>x</span></div>");
    assert_eq!(scraper.scrap_outer_html("span"), Ok(vec![String::from("<span>x</span>")]));
}

#[test]
fn grouped_query_keeps_rows_apart() {
    let scraper = Scraper::new("<table><tr><td>a</td><td>b</td></tr><tr><td>c</td></tr></table>");
    let rows = scraper.scrap_grouped("tr", "td").unwrap();
    assert_eq!(
        rows,
        vec![vec![String::from("a"), String::from("b")], vec![String::from("c")]]
    );
}

#[test]
fn small_numbers_are_read_from_cells() {
    assert_eq!(read_small_number("3"), Some(3));
    assert_eq!(read_small_number("  25\n"), Some(25));
    assert_eq!(read_small_number("\u{a0}7\u{3000}"), Some(7));
    assert_eq!(read_small_number("+0"), Some(0));
    assert_eq!(read_small_number("255"), Some(255));
    assert_eq!(read_small_number("256"), None);
    assert_eq!(read_small_number("-1"), None);
    assert_eq!(read_small_number("3 2"), None);
    assert_eq!(read_small_number(""), None);
    assert_eq!(read_small_number("   "), None);
    assert_eq!(read_small_number("Salle"), None);
}

#[test]
fn entities_keep_their_fields() {
    let c = Competition::new("National", "http://n");
    assert_eq!(c.name(), "National");
    assert_eq!(c.url(), "http://n");
    let r = Region::new("CORSE", "http://c");
    assert_eq!(r.name(), "CORSE");
    assert_eq!(r.url(), "http://c");
    let d = Department::new("2A", "http://d");
    assert_eq!(d.name(), "2A");
    assert_eq!(d.url(), "http://d");
    let u = Url::new("http://u");
    assert_eq!(u.value(), "http://u");
}

#[test]
fn query_parameters_keep_their_fields() {
    let d = query::Department::new("http://list", "BRETAGNE");
    assert_eq!(d.url(), "http://list");
    assert_eq!(d.region(), "BRETAGNE");
    let r = query::Region::new("http://list");
    assert_eq!(r.url(), "http://list");
}
