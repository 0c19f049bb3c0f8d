//! What the user has configured: the projects, and the project that a
//! block without one belongs to.

use vstd::prelude::*;
use crate::text::same_text;

verus! {

/// Where the application keeps its files.
#[derive(Debug)]
pub struct AppConfig {
    pub data_dir: String,
    pub config_dir: String,
}

/// What is known of one project.
#[derive(Debug)]
pub struct ProjectConfig {
    pub internal_name: String,
    pub jira_url: Option<String>,
}

impl Clone for ProjectConfig {
    fn clone(&self) -> (copy: Self)
        ensures
            copy == *self,
    {
        ProjectConfig {
            internal_name: self.internal_name.clone(),
            jira_url: match &self.jira_url {
                Some(url) => Some(url.clone()),
                None => None,
            },
        }
    }
}

/// The configuration. `projects` pairs project keys with what is known of
/// them; where a key stands twice, the first pair counts.
#[derive(Debug)]
pub struct Config {
    pub config: AppConfig,
    pub projects: Vec<(String, ProjectConfig)>,
    pub default_project_key: String,
}

/// Where the first pair with the key `key` stands, from `from` on.
pub open spec fn project_index(
    projects: Seq<(String, ProjectConfig)>,
    key: Seq<char>,
    from: int,
) -> Option<int>
    decreases projects.len() - from,
{
    if 0 <= from < projects.len() {
        if projects[from].0@ == key {
            Some(from)
        } else {
            project_index(projects, key, from + 1)
        }
    } else {
        None
    }
}

impl Default for Config {
    fn default() -> (config: Self)
        ensures
            config.projects@.len() == 0,
            config.default_project_key@.len() == 0,
    {
        Config {
            config: AppConfig { data_dir: String::new(), config_dir: String::new() },
            projects: Vec::new(),
            default_project_key: String::new(),
        }
    }
}

impl Config {
    /// What is configured for the project `key`, if anything.
    pub fn project(&self, key: &str) -> (found: Option<&ProjectConfig>)
        ensures
            match project_index(self.projects@, key@, 0) {
                Some(at) => found == Some(&self.projects@[at].1),
                None => found.is_none(),
            },
    {
        let count = self.projects.len();
        let mut at: usize = 0;
        while at < count
            invariant
                count == self.projects.len(),
                at <= count,
                project_index(self.projects@, key@, 0) == project_index(
                    self.projects@,
                    key@,
                    at as int,
                ),
            decreases count - at,
        {
            if same_text(self.projects[at].0.as_str(), key) {
                return Some(&self.projects[at].1);
            }
            at += 1;
        }
        None
    }
}

} // verus!
