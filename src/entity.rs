//! The records that the decoders produce.
use vstd::prelude::*;

verus! {

/// A name together with the address of its page.
pub struct NamedUrl {
    pub name: Seq<char>,
    pub url: Seq<char>,
}

/// A level of competition and the page listing its regions.
#[derive(Debug, PartialEq, Eq)]
pub struct Competition {
    name: String,
    url: String,
}

impl View for Competition {
    type V = NamedUrl;

    closed spec fn view(&self) -> NamedUrl {
        NamedUrl { name: self.name@, url: self.url@ }
    }
}

impl Competition {
    pub fn new(name: &str, url: &str) -> (r: Competition)
        ensures
            r@ == (NamedUrl { name: name@, url: url@ }),
    {
        Competition { name: name.to_owned(), url: url.to_owned() }
    }

    pub fn name(&self) -> (r: &String)
        ensures
            r@ == self@.name,
    {
        &self.name
    }

    pub fn url(&self) -> (r: &String)
        ensures
            r@ == self@.url,
    {
        &self.url
    }
}

/// A subdivision of a region, and the page of its pools.
#[derive(Debug, PartialEq, Eq)]
pub struct Department {
    name: String,
    url: String,
}

impl View for Department {
    type V = NamedUrl;

    closed spec fn view(&self) -> NamedUrl {
        NamedUrl { name: self.name@, url: self.url@ }
    }
}

impl Department {
    pub fn new(name: &str, url: &str) -> (r: Department)
        ensures
            r@ == (NamedUrl { name: name@, url: url@ }),
    {
        Department { name: name.to_owned(), url: url.to_owned() }
    }

    pub fn name(&self) -> (r: &String)
        ensures
            r@ == self@.name,
    {
        &self.name
    }

    pub fn url(&self) -> (r: &String)
        ensures
            r@ == self@.url,
    {
        &self.url
    }
}

/// A region of a competition, and the page of its pools.
#[derive(Debug, PartialEq, Eq)]
pub struct Region {
    name: String,
    url: String,
}

impl View for Region {
    type V = NamedUrl;

    closed spec fn view(&self) -> NamedUrl {
        NamedUrl { name: self.name@, url: self.url@ }
    }
}

impl Region {
    pub fn new(name: &str, url: &str) -> (r: Region)
        ensures
            r@ == (NamedUrl { name: name@, url: url@ }),
    {
        Region { name: name.to_owned(), url: url.to_owned() }
    }

    pub fn name(&self) -> (r: &String)
        ensures
            r@ == self@.name,
    {
        &self.name
    }

    pub fn url(&self) -> (r: &String)
        ensures
            r@ == self@.url,
    {
        &self.url
    }
}

/// An address that a caller asks to be read.
#[derive(Debug, PartialEq, Eq)]
pub struct Url {
    value: String,
}

impl View for Url {
    type V = Seq<char>;

    closed spec fn view(&self) -> Seq<char> {
        self.value@
    }
}

impl Url {
    pub fn new(value: &str) -> (r: Url)
        ensures
            r@ == value@,
    {
        Url { value: value.to_owned() }
    }

    pub fn value(&self) -> (r: &String)
        ensures
            r@ == self@,
    {
        &self.value
    }
}

} // verus!
