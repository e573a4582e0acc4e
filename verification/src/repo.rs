//! The remote repository descriptor that the rest of the crate works on.

use vstd::prelude::*;

verus! {

/// The account that owns a remote repository.
#[derive(Debug)]
pub struct Owner {
    pub login: String,
}

/// One remote repository as reported by the hosting service: enough to
/// clone it (`clone_url`), key it globally (`full_name`, unique per account
/// graph), and place it on disk (`name` and `owner`).
#[derive(Debug)]
pub struct Repo {
    pub name: String,
    pub clone_url: String,
    pub fork: bool,
    pub full_name: String,
    pub owner: Owner,
}

impl Clone for Owner {
    fn clone(&self) -> (r: Self)
        ensures
            r == *self,
    {
        Owner { login: self.login.clone() }
    }
}

impl Clone for Repo {
    fn clone(&self) -> (r: Self)
        ensures
            r == *self,
    {
        Repo {
            name: self.name.clone(),
            clone_url: self.clone_url.clone(),
            fork: self.fork,
            full_name: self.full_name.clone(),
            owner: self.owner.clone(),
        }
    }
}

} // verus!
