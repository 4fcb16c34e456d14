//! Where the measurements of a query come from, kept for the output side.

use vstd::prelude::*;

verus! {

/// The query that a set of measurements answers: its URL and the site, the
/// nodes and the metrics it asks for.
#[derive(Debug, PartialEq, Eq)]
pub struct KwollectInput {
    url: String,
    site: String,
    hostname: String,
    metrics: String,
}

/// The mathematical value of a [`KwollectInput`].
pub struct Query {
    pub url: Seq<char>,
    pub site: Seq<char>,
    pub hostname: Seq<char>,
    pub metrics: Seq<char>,
}

impl View for KwollectInput {
    type V = Query;

    closed spec fn view(&self) -> Query {
        Query {
            url: self.url@,
            site: self.site@,
            hostname: self.hostname@,
            metrics: self.metrics@,
        }
    }
}

impl KwollectInput {
    pub fn new(url: String, site: String, hostname: String, metrics: String) -> (r: KwollectInput)
        ensures
            r@ == (Query { url: url@, site: site@, hostname: hostname@, metrics: metrics@ }),
    {
        KwollectInput { url, site, hostname, metrics }
    }

    /// The URL of the query.
    pub fn url(&self) -> (r: &String)
        ensures
            r@ == self@.url,
    {
        &self.url
    }

    /// The site that was asked.
    pub fn site(&self) -> (r: &String)
        ensures
            r@ == self@.site,
    {
        &self.site
    }

    /// The nodes that were asked for.
    pub fn hostname(&self) -> (r: &String)
        ensures
            r@ == self@.hostname,
    {
        &self.hostname
    }

    /// The metrics that were asked for.
    pub fn metrics(&self) -> (r: &String)
        ensures
            r@ == self@.metrics,
    {
        &self.metrics
    }
}

} // verus!
