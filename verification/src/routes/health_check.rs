//! The health check.

use crate::http::HttpResponse;
use crate::http::HttpResponseView;
use crate::http::STATUS_OK;
use vstd::prelude::*;

verus! {

/// The answer to a health check: all is well, and nothing more.
pub fn healt_check() -> (response: HttpResponse)
    ensures
        response@ == (HttpResponseView {
            status: STATUS_OK,
            headers: Seq::empty(),
            body: Seq::empty(),
        }),
{
    HttpResponse::empty(STATUS_OK)
}

} // verus!
