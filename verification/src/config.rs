//! The configuration that mirrors the store in a file that people edit:
//! organizations and repositories, each under its key.

use vstd::prelude::*;
use crate::model::clone_opt;
use crate::table::Table;
use crate::text::opt_text;

verus! {

/// An organization, as the configuration describes it.
#[derive(Debug)]
pub struct Organization {
    pub name: String,
    pub description: Option<String>,
}

/// The view of [`Organization`]: the same, with every string as a `Seq<char>`.
pub struct OrganizationView {
    pub name: Seq<char>,
    pub description: Option<Seq<char>>,
}

impl View for Organization {
    type V = OrganizationView;

    open spec fn view(&self) -> OrganizationView {
        OrganizationView { name: self.name@, description: opt_text(self.description) }
    }
}

impl Clone for Organization {
    fn clone(&self) -> (r: Self)
        ensures
            r == *self,
    {
        Organization { name: self.name.clone(), description: clone_opt(&self.description) }
    }
}

/// A repository, as the configuration describes it under its URL.
#[derive(Debug)]
pub struct RepositoryConfig {
    pub organization: String,
    pub name: String,
    pub description: Option<String>,
}

/// The view of [`RepositoryConfig`]: the same, with every string as a `Seq<char>`.
pub struct RepositoryConfigView {
    pub organization: Seq<char>,
    pub name: Seq<char>,
    pub description: Option<Seq<char>>,
}

impl View for RepositoryConfig {
    type V = RepositoryConfigView;

    open spec fn view(&self) -> RepositoryConfigView {
        RepositoryConfigView {
            organization: self.organization@,
            name: self.name@,
            description: opt_text(self.description),
        }
    }
}

impl Clone for RepositoryConfig {
    fn clone(&self) -> (r: Self)
        ensures
            r == *self,
    {
        RepositoryConfig {
            organization: self.organization.clone(),
            name: self.name.clone(),
            description: clone_opt(&self.description),
        }
    }
}

/// The configuration: organizations under their identifiers, repositories
/// under their URLs.
#[derive(Debug)]
pub struct Config {
    pub organizations: Table<Organization>,
    pub repositories: Table<RepositoryConfig>,
}

impl Config {
    /// The configuration that names nothing.
    pub fn new() -> (r: Self)
        ensures
            r.organizations.rows().len() == 0,
            r.repositories.rows().len() == 0,
    {
        Config { organizations: Table::new(), repositories: Table::new() }
    }
}

impl Default for Config {
    fn default() -> (r: Self)
        ensures
            r.organizations.rows().len() == 0,
            r.repositories.rows().len() == 0,
    {
        Config::new()
    }
}

} // verus!
