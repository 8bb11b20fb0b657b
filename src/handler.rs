//! The resolver pool's bookkeeping around one job.

use vstd::prelude::*;

use crate::gen_handler::Item;

verus! {

/// The job with the values that it resolved to, ready for classification.
pub fn resolved_item(item: &Item, collect: Vec<String>) -> (r: Item)
    ensures
        r.sub@ == item.sub@,
        r.subdomain@ == item.subdomain@,
        r.depth == item.depth,
        r.collect == Some(collect),
{
    Item {
        sub: item.sub.clone(),
        subdomain: item.subdomain.clone(),
        depth: item.depth,
        collect: Some(collect),
    }
}

} // verus!
