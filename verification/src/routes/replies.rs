//! Replies that several handlers share.
use crate::json::{member, object, Json, JsonView};
use vstd::prelude::*;

verus! {

/// The reply of those that have nothing to tell but that it went well.
pub open spec fn all_well() -> JsonView {
    JsonView::Object(seq![("ok"@, JsonView::Bool(true))])
}

/// The reply of those that have nothing to tell but that it went well.
pub fn ok_reply() -> (r: Json)
    ensures
        r@ == all_well(),
{
    let r = object(vec![member("ok", Json::Bool(true))]);
    assert(r@->Object_0 =~= all_well()->Object_0);
    r
}

} // verus!
