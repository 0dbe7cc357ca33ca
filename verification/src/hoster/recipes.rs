//! The curated services.

use vstd::prelude::*;

use crate::hoster::units::ResourceLimits;
use crate::text;

verus! {

/// One curated service, as the panel names it.
#[derive(Debug, Clone, Copy, PartialEq, Eq, Structural)]
pub enum Curated {
    Vert,
    Searxng,
    Memos,
}

impl Curated {
    /// The name the panel shows.
    pub open spec fn name(self) -> Seq<char> {
        match self {
            Curated::Vert => "VERT"@,
            Curated::Searxng => "SearXNG"@,
            Curated::Memos => "Memos"@,
        }
    }

    pub fn display_name(&self) -> (r: &'static str)
        ensures
            r@ == self.name(),
    {
        match self {
            Curated::Vert => "VERT",
            Curated::Searxng => "SearXNG",
            Curated::Memos => "Memos",
        }
    }
}

/// The curated service that lives in a repository.
pub open spec fn curated(owner: Seq<char>, name: Seq<char>) -> Option<Curated> {
    if owner == "VERT-sh"@ && name == "VERT"@ {
        Some(Curated::Vert)
    } else if owner == "searxng"@ && name == "searxng"@ {
        Some(Curated::Searxng)
    } else if owner == "usememos"@ && name == "memos"@ {
        Some(Curated::Memos)
    } else {
        None
    }
}

/// Looks a repository up among the curated services.
pub fn find_recipe(owner: &str, name: &str) -> (r: Option<Curated>)
    ensures
        r == curated(owner@, name@),
{
    if text::same(owner, "VERT-sh") && text::same(name, "VERT") {
        Some(Curated::Vert)
    } else if text::same(owner, "searxng") && text::same(name, "searxng") {
        Some(Curated::Searxng)
    } else if text::same(owner, "usememos") && text::same(name, "memos") {
        Some(Curated::Memos)
    } else {
        None
    }
}

/// How one curated service is fetched, built and run.
#[derive(Debug)]
pub struct DemoRecipe {
    pub display_name: String,
    pub description: String,
    pub language: String,
    /// The one commit that is built.
    pub commit: String,
    pub service_name: String,
    /// The preferred port.
    pub port: u16,
    /// Build tools, by the name of their program.
    pub tools: Vec<String>,
    /// Downloads, run on the host with the network.
    pub prefetch_steps: Vec<String>,
    /// Build commands, run in the sandbox without the network.
    pub pre_build: Vec<String>,
    pub build_steps: Vec<String>,
    /// How many pinned plugins are seeded before the build.
    pub plugins: usize,
    pub start_cmd: String,
    /// Does the service read a SearXNG settings file?
    pub searxng: bool,
    pub res: ResourceLimits,
}

} // verus!
