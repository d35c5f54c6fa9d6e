use ffvb_scraper::entity::{Department, Region};
use ffvb_scraper::error::ScrapeError;
use ffvb_scraper::parse;

/// A listing page: one header cell per region, one list per region column.
fn listing(names: &[&str], lists: &[&str]) -> String {
    let mut page = String::from("<html><body><table><thead><tr>");
    for name in names {
        page.push_str(&format!("<td>{}</td>", name));
    }
    page.push_str("</tr></thead><tbody><tr>");
    for list in lists {
        page.push_str(&format!("<td><ul>{}</ul></td>", list));
    }
    page.push_str("</tr></tbody></table></body></html>");
    page
}

fn link(name: &str, url: &str) -> String {
    format!("<li><a href=\"{}\">{}</a></li>", url, name)
}

#[test]
fn regions_pair_names_with_pool_links() {
    let page = listing(
        &["BRETAGNE", "CORSE"],
        &[&link("Pool B", "https://x/b"), &link("Pool C", "https://x/c")],
    );
    let regions = parse::regions(&page).unwrap();
    assert_eq!(
        regions,
        vec![Region::new("BRETAGNE", "https://x/b"), Region::new("CORSE", "https://x/c")]
    );
}

#[test]
fn regions_stop_at_the_shorter_list() {
    let page = listing(&["BRETAGNE", "CORSE", "GUYANE"], &[&link("Pool B", "https://x/b")]);
    let regions = parse::regions(&page).unwrap();
    assert_eq!(regions, vec![Region::new("BRETAGNE", "https://x/b")]);
}

#[test]
fn regions_of_an_empty_page() {
    let regions = parse::regions("<html><body><p>nothing</p></body></html>").unwrap();
    assert!(regions.is_empty());
}

#[test]
fn regions_need_every_pool_link_to_have_an_address() {
    let page = listing(&["BRETAGNE"], &["<li><a>Pool B</a></li>"]);
    assert_eq!(parse::regions(&page), Err(ScrapeError::MissingAttribute));
}

#[test]
fn departments_of_a_region_with_several() {
    let bretagne = format!(
        "{}{}",
        link("22 Côtes d'Armor", "https://x/PTBR22"),
        link("29 Finistère", "https://x/PTBR29")
    );
    let page = listing(&["AUVERGNE", "BRETAGNE"], &[&link("01 Ain", "https://x/PTRA01"), &bretagne]);
    let departs = parse::departments(&page, "BRETAGNE").unwrap();
    assert_eq!(
        departs,
        vec![
            Department::new("22 Côtes d'Armor", "https://x/PTBR22"),
            Department::new("29 Finistère", "https://x/PTBR29"),
        ]
    );
}

#[test]
fn a_single_link_is_the_region_itself() {
    let page = listing(
        &["CORSE", "GUADELOUPE"],
        &["", &link("Ligue de Guadeloupe", "https://x/LIGU")],
    );
    let departs = parse::departments(&page, "GUADELOUPE").unwrap();
    assert_eq!(departs, vec![Department::new("GUADELOUPE", "https://x/LIGU")]);
    assert_eq!(departs[0].name(), "GUADELOUPE");
    assert_eq!(departs[0].url(), "https://x/LIGU");
}

#[test]
fn a_region_without_links_has_no_department() {
    let page = listing(&["CORSE", "GUADELOUPE"], &["", &link("Ligue", "https://x/LIGU")]);
    let departs = parse::departments(&page, "CORSE").unwrap();
    assert!(departs.is_empty());
}

#[test]
fn an_absent_region_is_reported() {
    let page = listing(&["CORSE"], &[&link("Ligue", "https://x/LICO")]);
    assert_eq!(parse::departments(&page, "BRETAGNE"), Err(ScrapeError::RegionNotFound));
}

#[test]
fn region_names_are_compared_exactly() {
    let page = listing(&["CORSE"], &[&link("Ligue", "https://x/LICO")]);
    assert_eq!(parse::departments(&page, "corse"), Err(ScrapeError::RegionNotFound));
    assert_eq!(parse::departments(&page, " CORSE"), Err(ScrapeError::RegionNotFound));
}

#[test]
fn a_region_without_a_column_is_a_structural_mismatch() {
    let page = listing(&["CORSE", "GUYANE"], &[&link("Ligue", "https://x/LICO")]);
    assert_eq!(parse::departments(&page, "GUYANE"), Err(ScrapeError::StructuralMismatch));
}
