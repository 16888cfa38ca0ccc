//! Copying a file or directory after synchronising.
use vstd::prelude::*;
use crate::config::ParsedCopyFileItem;
use crate::path::{
    is_absolute, is_absolute_spec, no_parent_refs, parent, path_parent, path_relative, path_same,
    plain_components, plain_link_inputs, relative, relative_from_dir_of,
};
use crate::tasks::link_file_task::{post_sync_decision, post_sync_decision_spec, PostSyncDecision};
use crate::text::to_owned;

verus! {

/// Copies `item.src` to `item.dest`.
pub struct CopyFileTask {
    pub item: ParsedCopyFileItem,
    pub force: bool,
}

/// Where a copied symbolic link points. A relative target is kept as it is
/// (it now resolves next to the copy). An absolute target, resolved to
/// `resolved_target`, is made relative to the directory of the copy where
/// that is possible.
pub open spec fn copied_link_target_spec(
    link_target: Seq<char>,
    resolved_target: Seq<char>,
    dest: Seq<char>,
) -> Seq<char> {
    if is_absolute_spec(link_target) {
        match path_parent(dest) {
            Some(p) => match path_relative(resolved_target, p) {
                Some(t) => t,
                None => resolved_target,
            },
            None => resolved_target,
        }
    } else {
        link_target
    }
}

/// Where a copy of a symbolic link pointing at `link_target` and placed at
/// `dest` points.
pub fn copied_link_target(link_target: &str, resolved_target: &str, dest: &str) -> (r: String)
    ensures
        r@ == copied_link_target_spec(link_target@, resolved_target@, dest@),
        is_absolute_spec(link_target@) && plain_link_inputs(resolved_target@, dest@) ==> path_same(
            r@,
            relative_from_dir_of(resolved_target@, dest@),
        ),
        !is_absolute_spec(link_target@) ==> r@ == link_target@,
{
    proof {
        let cs = plain_components(dest@);
        assert(cs.len() > 0 && no_parent_refs(cs) ==> no_parent_refs(cs.drop_last())) by {
            if cs.len() > 0 && no_parent_refs(cs) {
                assert forall|k: int| 0 <= k < cs.drop_last().len() implies #[trigger] cs.drop_last()[k]
                    != seq!['.', '.'] by {
                    assert(cs.drop_last()[k] == cs[k]);
                }
            }
        }
    }
    if is_absolute(link_target) {
        match parent(dest) {
            Some(p) => match relative(resolved_target, p.as_str()) {
                Some(t) => t,
                None => to_owned(resolved_target),
            },
            None => to_owned(resolved_target),
        }
    } else {
        to_owned(link_target)
    }
}

impl CopyFileTask {
    /// A task copying `item.src` to `item.dest`, copying again over an
    /// existing destination when `force`.
    pub fn new(item: ParsedCopyFileItem, force: bool) -> (r: CopyFileTask)
        ensures
            r.item == item,
            r.force == force,
    {
        CopyFileTask { item, force }
    }

    /// What the task does, given whether source and destination exist.
    pub fn decide(&self, src_exists: bool, dest_exists: bool) -> (d: PostSyncDecision)
        ensures
            post_sync_decision_spec(src_exists, dest_exists, self.force, d),
    {
        post_sync_decision(src_exists, dest_exists, self.force)
    }
}

} // verus!
