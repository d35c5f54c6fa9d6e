//! Decoders for the competition hierarchy: competitions, their regions, and
//! the departments of a region.
use crate::constant::{
    CHAMP_DEP, CHAMP_DEP_URL, CHAMP_NAT, CHAMP_NAT_URL, CHAMP_REG, CHAMP_REG_URL,
    DEPARTMENT_LINKS, REGION_LISTS, REGION_NAMES, REGION_POOLS,
};
use crate::entity::{Competition, Department, NamedUrl, Region};
use crate::error::ScrapeError;
use crate::scrap::{query, view_all, HtmlType, Markup, Scraper};
use vstd::prelude::*;

verus! {

/// Markup parsed as a whole document.
pub open spec fn document(source: Seq<char>) -> Markup {
    Markup { source, fragment: false }
}

/// Markup parsed as a fragment.
pub open spec fn fragment(source: Seq<char>) -> Markup {
    Markup { source, fragment: true }
}

/// Pairs the i-th name with the i-th address, as far as the shorter goes.
pub open spec fn zip_links(names: Seq<Seq<char>>, urls: Seq<Seq<char>>) -> Seq<NamedUrl> {
    Seq::new(
        if names.len() <= urls.len() {
            names.len()
        } else {
            urls.len()
        },
        |i: int| NamedUrl { name: names[i], url: urls[i] },
    )
}

/// The regions that a listing page shows: the header names paired with the
/// pool links.
pub open spec fn regions_of(page: Seq<char>) -> Result<Seq<NamedUrl>, ScrapeError> {
    match query(document(page), REGION_NAMES@, HtmlType::InnerHtml) {
        Err(e) => Err(e),
        Ok(names) => match query(document(page), REGION_POOLS@, HtmlType::Href) {
            Err(e) => Err(e),
            Ok(urls) => Ok(zip_links(names, urls)),
        },
    }
}

/// The first position of `x` in `s`, where `s` contains it.
pub open spec fn first_index(s: Seq<Seq<char>>, x: Seq<char>) -> int {
    choose|i: int| 0 <= i < s.len() && s[i] == x && forall|j: int| 0 <= j < i ==> s[j] != x
}

/// The list fragment of the column headed by `region`.
pub open spec fn region_list(page: Seq<char>, region: Seq<char>) -> Result<
    Seq<char>,
    ScrapeError,
> {
    match query(document(page), REGION_NAMES@, HtmlType::InnerHtml) {
        Err(e) => Err(e),
        Ok(names) => if !names.contains(region) {
            Err(ScrapeError::RegionNotFound)
        } else {
            match query(document(page), REGION_LISTS@, HtmlType::InnerHtml) {
                Err(e) => Err(e),
                Ok(lists) => if first_index(names, region) < lists.len() {
                    Ok(lists[first_index(names, region)])
                } else {
                    Err(ScrapeError::StructuralMismatch)
                },
            }
        },
    }
}

/// A single link in a region's list is the region's own page: it is named
/// after the region.
pub open spec fn elide_single(names: Seq<Seq<char>>, region: Seq<char>) -> Seq<Seq<char>> {
    if names.len() == 1 {
        seq![region]
    } else {
        names
    }
}

/// The departments that the list fragment of `region` shows.
pub open spec fn departments_in(list: Seq<char>, region: Seq<char>) -> Result<
    Seq<NamedUrl>,
    ScrapeError,
> {
    match query(fragment(list), DEPARTMENT_LINKS@, HtmlType::InnerHtml) {
        Err(e) => Err(e),
        Ok(names) => match query(fragment(list), DEPARTMENT_LINKS@, HtmlType::Href) {
            Err(e) => Err(e),
            Ok(urls) => Ok(zip_links(elide_single(names, region), urls)),
        },
    }
}

/// The departments of `region` that a listing page shows.
pub open spec fn departments_of(page: Seq<char>, region: Seq<char>) -> Result<
    Seq<NamedUrl>,
    ScrapeError,
> {
    match region_list(page, region) {
        Err(e) => Err(e),
        Ok(list) => departments_in(list, region),
    }
}

/// The competitions that are followed. They are fixed: no page is read.
pub fn competitions() -> (r: Vec<Competition>)
    ensures
        r@.len() == 3,
        r@[0]@ == (NamedUrl { name: CHAMP_NAT@, url: CHAMP_NAT_URL@ }),
        r@[1]@ == (NamedUrl { name: CHAMP_REG@, url: CHAMP_REG_URL@ }),
        r@[2]@ == (NamedUrl { name: CHAMP_DEP@, url: CHAMP_DEP_URL@ }),
{
    let mut competitions: Vec<Competition> = Vec::new();
    competitions.push(Competition::new(CHAMP_NAT, CHAMP_NAT_URL));
    competitions.push(Competition::new(CHAMP_REG, CHAMP_REG_URL));
    competitions.push(Competition::new(CHAMP_DEP, CHAMP_DEP_URL));
    competitions
}

fn zip_regions(names: &Vec<String>, urls: &Vec<String>) -> (r: Vec<Region>)
    ensures
        r@.map_values(|x: Region| x@) == zip_links(
            names@.map_values(|s: String| s@),
            urls@.map_values(|s: String| s@),
        ),
{
    let n: usize = if names.len() <= urls.len() {
        names.len()
    } else {
        urls.len()
    };
    let mut out: Vec<Region> = Vec::new();
    let mut i: usize = 0;
    while i < n
        invariant
            i <= n,
            n <= names.len(),
            n <= urls.len(),
            n == names.len() || n == urls.len(),
            out.len() == i,
            forall|j: int|
                0 <= j < i ==> (#[trigger] out@[j])@ == (NamedUrl {
                    name: names@[j]@,
                    url: urls@[j]@,
                }),
        decreases n - i,
    {
        out.push(Region::new(names[i].as_str(), urls[i].as_str()));
        i = i + 1;
    }
    assert(out@.map_values(|x: Region| x@) =~= zip_links(
        names@.map_values(|s: String| s@),
        urls@.map_values(|s: String| s@),
    ));
    out
}

fn zip_departments(names: &Vec<String>, urls: &Vec<String>) -> (r: Vec<Department>)
    ensures
        r@.map_values(|x: Department| x@) == zip_links(
            names@.map_values(|s: String| s@),
            urls@.map_values(|s: String| s@),
        ),
{
    let n: usize = if names.len() <= urls.len() {
        names.len()
    } else {
        urls.len()
    };
    let mut out: Vec<Department> = Vec::new();
    let mut i: usize = 0;
    while i < n
        invariant
            i <= n,
            n <= names.len(),
            n <= urls.len(),
            n == names.len() || n == urls.len(),
            out.len() == i,
            forall|j: int|
                0 <= j < i ==> (#[trigger] out@[j])@ == (NamedUrl {
                    name: names@[j]@,
                    url: urls@[j]@,
                }),
        decreases n - i,
    {
        out.push(Department::new(names[i].as_str(), urls[i].as_str()));
        i = i + 1;
    }
    assert(out@.map_values(|x: Department| x@) =~= zip_links(
        names@.map_values(|s: String| s@),
        urls@.map_values(|s: String| s@),
    ));
    out
}

/// The first position of `target` among `names`.
fn position(names: &Vec<String>, target: &str) -> (r: Option<usize>)
    ensures
        r matches Some(i) ==> i < names.len() && names@[i as int]@ == target@ && forall|j: int|
            0 <= j < i ==> (#[trigger] names@[j])@ != target@,
        r is None ==> forall|j: int| 0 <= j < names.len() ==> (#[trigger] names@[j])@ != target@,
{
    let wanted: String = target.to_owned();
    let mut i: usize = 0;
    while i < names.len()
        invariant
            i <= names.len(),
            wanted@ == target@,
            forall|j: int| 0 <= j < i ==> (#[trigger] names@[j])@ != target@,
        decreases names.len() - i,
    {
        if names[i] == wanted {
            return Some(i);
        }
        i = i + 1;
    }
    None
}

/// Reads the regions of a competition from its listing page: the header
/// cells give the names and the links of the body rows the pool pages,
/// paired by position as far as the shorter list goes.
pub fn regions(page: &str) -> (r: Result<Vec<Region>, ScrapeError>)
    ensures
        view_all(r) == regions_of(page@),
{
    let scraper = Scraper::new(page);
    let names = match scraper.scrap_value(REGION_NAMES, HtmlType::InnerHtml) {
        Ok(v) => v,
        Err(e) => return Err(e),
    };
    let pools = match scraper.scrap_value(REGION_POOLS, HtmlType::Href) {
        Ok(v) => v,
        Err(e) => return Err(e),
    };
    Ok(zip_regions(&names, &pools))
}

/// Reads the departments of the region named `region` from a listing page.
///
/// The region is looked up among the header cells by exact comparison; its
/// column's list is then read on its own. A list with a single link means
/// that the region has no departments of its own: that link is the region's
/// page, and the one department produced bears the region's name.
pub fn departments(page: &str, region: &str) -> (r: Result<Vec<Department>, ScrapeError>)
    ensures
        view_all(r) == departments_of(page@, region@),
{
    let mut scraper = Scraper::new(page);
    let names = match scraper.scrap_value(REGION_NAMES, HtmlType::InnerHtml) {
        Ok(v) => v,
        Err(e) => return Err(e),
    };
    let ghost ns = names@.map_values(|s: String| s@);
    let index = match position(&names, region) {
        Some(i) => i,
        None => {
            assert(!ns.contains(region@));
            return Err(ScrapeError::RegionNotFound);
        },
    };
    proof {
        assert(ns[index as int] == region@);
        assert(ns.contains(region@));
        let k = first_index(ns, region@);
        assert(0 <= k < ns.len() && ns[k] == region@ && forall|j: int|
            0 <= j < k ==> ns[j] != region@) by {
            assert(forall|j: int| 0 <= j < index ==> ns[j] != region@);
        }
        if k < index {
            assert(names@[k]@ != region@);
        }
        if index < k {
            assert(ns[index as int] != region@);
        }
        assert(k == index);
    }
    let lists = match scraper.scrap_value(REGION_LISTS, HtmlType::InnerHtml) {
        Ok(v) => v,
        Err(e) => return Err(e),
    };
    if index >= lists.len() {
        return Err(ScrapeError::StructuralMismatch);
    }
    assert(region_list(page@, region@) == Ok::<Seq<char>, ScrapeError>(lists@[index as int]@));
    scraper.new_fragment(&lists[index]);
    let found = match scraper.scrap_value(DEPARTMENT_LINKS, HtmlType::InnerHtml) {
        Ok(v) => v,
        Err(e) => return Err(e),
    };
    let names = if found.len() == 1 {
        let single: Vec<String> = vec![region.to_owned()];
        assert(single@.map_values(|s: String| s@) =~= seq![region@]);
        single
    } else {
        found
    };
    let urls = match scraper.scrap_value(DEPARTMENT_LINKS, HtmlType::Href) {
        Ok(v) => v,
        Err(e) => return Err(e),
    };
    Ok(zip_departments(&names, &urls))
}

/// When the header names and the pool links of a listing page are read
/// without error and are as many, the page yields one region per name, in
/// order: the i-th bears the i-th name and the i-th link.
pub proof fn lemma_regions_aligned(page: Seq<char>, names: Seq<Seq<char>>, urls: Seq<Seq<char>>)
    requires
        query(document(page), REGION_NAMES@, HtmlType::InnerHtml) == Ok::<
            Seq<Seq<char>>,
            ScrapeError,
        >(names),
        query(document(page), REGION_POOLS@, HtmlType::Href) == Ok::<
            Seq<Seq<char>>,
            ScrapeError,
        >(urls),
        names.len() == urls.len(),
    ensures
        regions_of(page) matches Ok(rs) && rs.len() == names.len() && forall|i: int|
            0 <= i < rs.len() ==> #[trigger] rs[i] == (NamedUrl { name: names[i], url: urls[i] }),
{
}

/// When the list of a region holds a single link, the region has exactly
/// one department: named after the region, at that link's address.
pub proof fn lemma_single_link_is_the_region(
    page: Seq<char>,
    region: Seq<char>,
    list: Seq<char>,
    link: Seq<char>,
    href: Seq<char>,
)
    requires
        region_list(page, region) == Ok::<Seq<char>, ScrapeError>(list),
        query(fragment(list), DEPARTMENT_LINKS@, HtmlType::InnerHtml) == Ok::<
            Seq<Seq<char>>,
            ScrapeError,
        >(seq![link]),
        query(fragment(list), DEPARTMENT_LINKS@, HtmlType::Href) == Ok::<
            Seq<Seq<char>>,
            ScrapeError,
        >(seq![href]),
    ensures
        departments_of(page, region) == Ok::<Seq<NamedUrl>, ScrapeError>(
            seq![NamedUrl { name: region, url: href }],
        ),
{
    assert(zip_links(seq![region], seq![href]) =~= seq![NamedUrl { name: region, url: href }]);
}

/// When the list of a region holds no link, the region has no department.
pub proof fn lemma_no_link_no_department(page: Seq<char>, region: Seq<char>, list: Seq<char>)
    requires
        region_list(page, region) == Ok::<Seq<char>, ScrapeError>(list),
        query(fragment(list), DEPARTMENT_LINKS@, HtmlType::InnerHtml) == Ok::<
            Seq<Seq<char>>,
            ScrapeError,
        >(Seq::empty()),
        query(fragment(list), DEPARTMENT_LINKS@, HtmlType::Href) == Ok::<
            Seq<Seq<char>>,
            ScrapeError,
        >(Seq::empty()),
    ensures
        departments_of(page, region) == Ok::<Seq<NamedUrl>, ScrapeError>(Seq::empty()),
{
    assert(zip_links(Seq::empty(), Seq::empty()) =~= Seq::<NamedUrl>::empty());
}

/// A region name that the header row does not hold gives `RegionNotFound`.
pub proof fn lemma_unknown_region(page: Seq<char>, region: Seq<char>, names: Seq<Seq<char>>)
    requires
        query(document(page), REGION_NAMES@, HtmlType::InnerHtml) == Ok::<
            Seq<Seq<char>>,
            ScrapeError,
        >(names),
        !names.contains(region),
    ensures
        departments_of(page, region) == Err::<Seq<NamedUrl>, ScrapeError>(
            ScrapeError::RegionNotFound,
        ),
{
}

} // verus!
