//! Reading facts from the tree of a branch.

use super::{Branch, CatalogReference};
use crate::encoding::{base58, base58_text};
use crate::error::TreeError;
use crate::plain::{opt_view, Plain};
use crate::revision::{empty_tree, TreeReference};
use crate::rules::Selector;
use crate::upstream::remote_of;
use vstd::prelude::*;

verus! {

/// A search for facts in the tree of a branch.
pub struct Select<'a> {
    /// The branch.
    pub branch: &'a Branch,
    /// Which facts.
    pub selector: Selector,
}

impl<'a> Select<'a> {
    /// A search of the branch.
    pub fn new(branch: &'a Branch, selector: Selector) -> (result: Select<'a>)
        ensures
            result.branch@ == branch@,
            result.selector@ == selector@,
    {
        Select { branch, selector }
    }

    /// The root of the tree that is searched.
    pub fn tree_hash(&self) -> (result: TreeReference)
        ensures
            result@ == self.branch@.tree(),
    {
        self.branch.tree()
    }

    /// The blocks that are searched.
    pub fn catalog(&self) -> (result: CatalogReference)
        ensures
            result.subject@ == self.branch@.of(),
    {
        self.branch.archive().index()
    }

    /// The remote that blocks not held here may be read from: that of the
    /// first upstream on one. The search goes on without it if it cannot be
    /// loaded.
    pub fn remote(&self) -> (result: Option<String>)
        ensures
            opt_view(result) == remote_of(self.branch@.upstreams()),
    {
        match self.branch.upstreams().remote_name() {
            Some(name) => Some(name.to_owned()),
            None => None,
        }
    }

    /// The block to look for before the search begins, so that a tree out of
    /// reach is found out at once. The empty tree has no blocks.
    pub fn probe(&self) -> (result: Option<TreeReference>)
        ensures
            match result {
                Some(root) => root@ == self.branch@.tree() && root@ != empty_tree(),
                None => self.branch@.tree() == empty_tree(),
            },
    {
        let root = self.tree_hash();
        if root.same(&TreeReference::default()) {
            None
        } else {
            Some(root)
        }
    }

    /// Goes on with whether the root was found. The search may begin where it
    /// was, and where there was none to look for.
    pub fn probed(&self, found: Result<bool, TreeError>) -> (result: Result<(), TreeError>)
        ensures
            if self.branch@.tree() == empty_tree() || found == Ok::<bool, TreeError>(true) {
                result matches Ok(())
            } else {
                match found {
                    Err(error) => result == Err::<(), TreeError>(error),
                    Ok(_) => result matches Err(error) && error.0@
                        == "Blob not found in storage: "@ + base58_text(self.branch@.tree()),
                }
            },
    {
        let root = match self.probe() {
            None => {
                return Ok(());
            },
            Some(root) => root,
        };
        match found {
            Ok(true) => Ok(()),
            Err(error) => Err(error),
            Ok(false) => {
                let mut message = "Blob not found in storage: ".to_owned();
                message.append(base58(root.hash().as_slice()).as_str());
                Err(TreeError(message))
            },
        }
    }
}

} // verus!
