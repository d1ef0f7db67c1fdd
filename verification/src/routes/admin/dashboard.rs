//! The administrator's dashboard.

use crate::http::html_page;
use crate::http::HttpResponse;
use crate::http::HttpResponseView;
use crate::http::STATUS_INTERNAL_SERVER_ERROR;
use crate::routes::error_chain::chain_report;
use crate::routes::error_chain::error_chain_fmt;
use crate::routes::error_chain::ErrorTrace;
use crate::routes::flash::compose;
use vstd::prelude::*;
use vstd::string::*;

verus! {

/// The dashboard, up to the name of the user.
pub const DASHBOARD_PAGE_HEAD: &'static str = "<!DOCTYPE html>
<html lang=\"en\">
<head>
    <meta http-equiv=\"content-type\" content=\"text/html; charset=utf-8\">
    <title>Admin dashboard</title>
</head>
<body>
    <p>Welcome ";

/// The dashboard, from the name of the user on.
pub const DASHBOARD_PAGE_TAIL: &'static str = "!</p>
    <p>Available actions:</p>
    <ol>
        <li><a href=\"/admin/newsletter\">Send newsletter</a></li>
        <li><a href=\"/admin/password\">Change password</a></li>
        <li>
          <form name=\"logoutForm\" action=\"/admin/logout\" method=\"post\">
            <input type=\"submit\" value=\"Logout\">
        </form>
        </li>
    </ol>
</body> </html>";

/// The dashboard of the user with this name, or the error for a user whose
/// name could not be found.
pub fn admin_dashboard(username: Result<String, ErrorTrace>) -> (outcome: Result<
    HttpResponse,
    AdminDashboardError,
>)
    ensures
        match username {
            Ok(name) => outcome matches Ok(response) && response@ == html_page(
                DASHBOARD_PAGE_HEAD@ + name@ + DASHBOARD_PAGE_TAIL@,
            ),
            Err(trace) => outcome matches Err(AdminDashboardError::UnexpectedError(cause))
                && cause == trace,
        },
{
    match username {
        Ok(name) => {
            let page = compose(DASHBOARD_PAGE_HEAD, name.as_str(), DASHBOARD_PAGE_TAIL);
            Ok(HttpResponse::html(page.as_str()))
        },
        Err(trace) => Err(AdminDashboardError::UnexpectedError(trace)),
    }
}

/// Why the dashboard could not be shown.
#[derive(Clone, Debug, PartialEq, Eq)]
pub enum AdminDashboardError {
    /// Something failed underneath; the client learns no more than that.
    UnexpectedError(ErrorTrace),
}

impl AdminDashboardError {
    /// What the error says of itself.
    pub open spec fn message_spec(&self) -> Seq<char> {
        "Something went wrong"@
    }

    /// What the causes behind the error say, nearest first.
    pub open spec fn sources_spec(&self) -> Seq<Seq<char>> {
        match self {
            AdminDashboardError::UnexpectedError(trace) => seq![trace@.message] + trace@.causes,
        }
    }

    /// What the error says of itself.
    pub fn message(&self) -> (message: String)
        ensures
            message@ == self.message_spec(),
    {
        String::from_str("Something went wrong")
    }

    /// The report for the log: the message, then the chain of causes.
    pub fn report(&self) -> (report: String)
        ensures
            report@ == chain_report(self.message_spec(), self.sources_spec()),
    {
        match self {
            AdminDashboardError::UnexpectedError(trace) => {
                let chain = trace.chain();
                error_chain_fmt("Something went wrong", &chain)
            },
        }
    }

    /// The response that the client gets: a server error that gives nothing away.
    pub fn into_response(self) -> (response: HttpResponse)
        ensures
            response@ == (HttpResponseView {
                status: STATUS_INTERNAL_SERVER_ERROR,
                headers: Seq::empty(),
                body: Seq::empty(),
            }),
    {
        HttpResponse::empty(STATUS_INTERNAL_SERVER_ERROR)
    }
}

} // verus!
