//! Creating a symbolic link after synchronising.
use vstd::prelude::*;
use crate::config::ParsedLinkFileItem;
use crate::path::{
    no_parent_refs, opt_view, parent, path_parent, path_relative, path_same, plain_link_inputs,
    plain_components, relative, relative_from_dir_of,
};
use crate::text::to_owned;

verus! {

/// Links `item.dest` to `item.src`.
pub struct LinkFileTask {
    pub item: ParsedLinkFileItem,
    pub force: bool,
}

/// What a link or copy task does, given what exists.
pub enum PostSyncDecision {
    /// The source is missing: the task fails.
    SourceMissing,
    /// The destination exists and the task is not forced: nothing to do.
    Skip,
    /// Go ahead, removing the existing destination first when there is one.
    Proceed { remove_dest: bool },
}

/// The decision for a link or copy task.
pub open spec fn post_sync_decision_spec(
    src_exists: bool,
    dest_exists: bool,
    force: bool,
    d: PostSyncDecision,
) -> bool {
    if !src_exists {
        d is SourceMissing
    } else if dest_exists && !force {
        d is Skip
    } else {
        d == PostSyncDecision::Proceed { remove_dest: dest_exists }
    }
}

/// Decides a link or copy task from whether its source and destination
/// exist.
pub fn post_sync_decision(src_exists: bool, dest_exists: bool, force: bool) -> (d: PostSyncDecision)
    ensures
        post_sync_decision_spec(src_exists, dest_exists, force, d),
{
    if !src_exists {
        PostSyncDecision::SourceMissing
    } else if dest_exists && !force {
        PostSyncDecision::Skip
    } else {
        PostSyncDecision::Proceed { remove_dest: dest_exists }
    }
}

/// What the link points at: the source relative to the directory of the
/// link, or `resolved_src` where no relative path exists.
pub open spec fn link_target_spec(src: Seq<char>, dest: Seq<char>, resolved_src: Seq<char>) -> Seq<char> {
    match path_parent(dest) {
        Some(p) => match path_relative(src, p) {
            Some(t) => t,
            None => resolved_src,
        },
        None => resolved_src,
    }
}

impl LinkFileTask {
    /// A task linking `item.dest` to `item.src`, recreating an existing
    /// destination when `force`.
    pub fn new(item: ParsedLinkFileItem, force: bool) -> (r: LinkFileTask)
        ensures
            r.item == item,
            r.force == force,
    {
        LinkFileTask { item, force }
    }

    /// What the task does, given whether source and destination exist.
    pub fn decide(&self, src_exists: bool, dest_exists: bool) -> (d: PostSyncDecision)
        ensures
            post_sync_decision_spec(src_exists, dest_exists, self.force, d),
    {
        post_sync_decision(src_exists, dest_exists, self.force)
    }

    /// The target written into the link; `resolved_src` is the canonical
    /// source path (or the source path itself when it cannot be resolved).
    pub fn link_target(&self, resolved_src: &str) -> (r: String)
        ensures
            r@ == link_target_spec(self.item.src@, self.item.dest@, resolved_src@),
            plain_link_inputs(self.item.src@, self.item.dest@) ==> path_same(
                r@,
                relative_from_dir_of(self.item.src@, self.item.dest@),
            ),
    {
        proof {
            let cs = plain_components(self.item.dest@);
            assert(cs.len() > 0 && no_parent_refs(cs) ==> no_parent_refs(cs.drop_last())) by {
                if cs.len() > 0 && no_parent_refs(cs) {
                    assert forall|k: int| 0 <= k < cs.drop_last().len() implies #[trigger] cs.drop_last()[k]
                        != seq!['.', '.'] by {
                        assert(cs.drop_last()[k] == cs[k]);
                    }
                }
            }
        }
        match parent(self.item.dest.as_str()) {
            Some(p) => match relative(self.item.src.as_str(), p.as_str()) {
                Some(t) => t,
                None => to_owned(resolved_src),
            },
            None => to_owned(resolved_src),
        }
    }
}

} // verus!
