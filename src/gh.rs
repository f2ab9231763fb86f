//! The pull request under review, as the host service names it.
use vstd::prelude::*;

verus! {

/// Talks to the host service through its command-line client; the calls themselves
/// are made by the program around this library.
#[derive(Clone, Copy, Debug)]
pub struct GitHub;

/// A pull request: the repository's owner and name, and its number.
#[derive(Clone, Debug)]
pub struct PullRequest {
    pub owner: String,
    pub repo: String,
    pub number: u64,
}

impl GitHub {
    /// The pull request named by its parts, once each part is known, whether given on
    /// the command line or detected.
    pub fn pull_request(owner: Option<String>, repo: Option<String>, number: Option<u64>) -> (r:
        Option<PullRequest>)
        ensures
            r is Some <==> owner is Some && repo is Some && number is Some,
            r matches Some(p) ==> Some(p.owner) == owner && Some(p.repo) == repo && Some(p.number)
                == number,
    {
        match (owner, repo, number) {
            (Some(owner), Some(repo), Some(number)) => Some(PullRequest { owner, repo, number }),
            _ => None,
        }
    }
}

} // verus!
