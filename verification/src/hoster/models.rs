//! What the pipeline works on and reports.

use vstd::prelude::*;

use crate::text;

verus! {

/// A repository to deploy.
#[derive(Debug)]
pub struct RepoAnalysis {
    pub url: String,
    pub owner: String,
    pub name: String,
}

/// What a deploy produced: the services it left running, where they answer,
/// and what went wrong.
#[derive(Debug)]
pub struct HostResult {
    pub service_names: Vec<String>,
    pub urls: Vec<String>,
    pub errors: Vec<String>,
}

/// What a deploy produced, as texts.
#[verifier::ext_equal]
pub struct ResultText {
    pub service_names: Seq<Seq<char>>,
    pub urls: Seq<Seq<char>>,
    pub errors: Seq<Seq<char>>,
}

impl View for HostResult {
    type V = ResultText;

    open spec fn view(&self) -> ResultText {
        ResultText {
            service_names: text::texts(self.service_names@),
            urls: text::texts(self.urls@),
            errors: text::texts(self.errors@),
        }
    }
}

/// A result that says nothing yet.
pub open spec fn nothing() -> ResultText {
    ResultText { service_names: Seq::empty(), urls: Seq::empty(), errors: Seq::empty() }
}

impl HostResult {
    pub fn new() -> (r: Self)
        ensures
            r@ == nothing(),
    {
        HostResult {
            service_names: text::no_texts(),
            urls: text::no_texts(),
            errors: text::no_texts(),
        }
    }
}

impl Default for HostResult {
    fn default() -> (r: Self)
        ensures
            r@ == nothing(),
    {
        HostResult::new()
    }
}

/// What the registry remembers of a deployed service.
#[derive(Debug)]
pub struct ServiceEntry {
    pub unit_name: String,
    pub project_dir: String,
    pub url: String,
    pub urls: Vec<String>,
}

} // verus!
