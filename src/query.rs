//! The parameters that a caller passes to ask for a listing.
use vstd::prelude::*;

verus! {

/// Asks for the departments of one region, read from a listing page.
#[derive(Debug, PartialEq, Eq)]
pub struct Department {
    url: String,
    region: String,
}

/// The listing page's address and the region's name.
pub struct DepartmentView {
    pub url: Seq<char>,
    pub region: Seq<char>,
}

impl View for Department {
    type V = DepartmentView;

    closed spec fn view(&self) -> DepartmentView {
        DepartmentView { url: self.url@, region: self.region@ }
    }
}

impl Department {
    pub fn new(url: &str, region: &str) -> (r: Department)
        ensures
            r@ == (DepartmentView { url: url@, region: region@ }),
    {
        Department { url: url.to_owned(), region: region.to_owned() }
    }

    pub fn url(&self) -> (r: &String)
        ensures
            r@ == self@.url,
    {
        &self.url
    }

    pub fn region(&self) -> (r: &String)
        ensures
            r@ == self@.region,
    {
        &self.region
    }
}

/// Asks for the regions listed on a page.
#[derive(Debug, PartialEq, Eq)]
pub struct Region {
    url: String,
}

impl View for Region {
    type V = Seq<char>;

    closed spec fn view(&self) -> Seq<char> {
        self.url@
    }
}

impl Region {
    pub fn new(url: &str) -> (r: Region)
        ensures
            r@ == url@,
    {
        Region { url: url.to_owned() }
    }

    pub fn url(&self) -> (r: &String)
        ensures
            r@ == self@,
    {
        &self.url
    }
}

} // verus!
