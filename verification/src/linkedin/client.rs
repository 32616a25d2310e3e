//! The client that sends searches.
use vstd::prelude::*;

use crate::linkedin::url::{guest_search_url, search_address, JobsSearchParams, SearchView};

verus! {

/// What sends requests to LinkedIn, with the session that it sends them under.
pub struct LinkedInHttpClient<S> {
    pub session: Option<S>,
}

impl<S> LinkedInHttpClient<S> {
    /// Sends later requests under this session.
    pub fn update_session(&mut self, session_data: S)
        ensures
            *final(self) == (LinkedInHttpClient { session: Some(session_data) }),
    {
        self.session = Some(session_data);
    }
}

/// A request to be sent: its address, and the session to send it under.
pub struct GuestRequest<'a, S> {
    pub url: String,
    pub session: Option<&'a S>,
}

/// [`GuestRequest`] as values.
pub struct RequestView<S> {
    pub url: Seq<char>,
    pub session: Option<S>,
}

impl<'a, S> View for GuestRequest<'a, S> {
    type V = RequestView<S>;

    open spec fn view(&self) -> RequestView<S> {
        RequestView {
            url: self.url@,
            session: match self.session {
                Some(s) => Some(*s),
                None => None,
            },
        }
    }
}

/// The job search client.
pub struct LinkedInJobsApiClient<S> {
    pub client: LinkedInHttpClient<S>,
}

impl<S> LinkedInJobsApiClient<S> {
    /// A client that sends through `client`.
    pub fn new(client: LinkedInHttpClient<S>) -> (r: Self)
        ensures
            r.client == client,
    {
        LinkedInJobsApiClient { client }
    }

    /// The client once it has been given a session.
    pub open spec fn under(self, session: S) -> Self {
        LinkedInJobsApiClient { client: LinkedInHttpClient { session: Some(session) } }
    }

    /// The request of a search.
    pub open spec fn request(self, params: SearchView) -> RequestView<S> {
        RequestView { url: search_address(params), session: self.client.session }
    }

    /// Searches under this session from now on.
    pub fn update_session(&mut self, session_data: S)
        ensures
            *final(self) == old(self).under(session_data),
    {
        self.client.update_session(session_data);
    }

    /// The request of a search, under the session that the client has.
    pub fn guest_request(&self, params: &JobsSearchParams) -> (r: GuestRequest<'_, S>)
        ensures
            r@ == self.request(params@),
    {
        GuestRequest {
            url: guest_search_url(params),
            session: match &self.client.session {
                Some(s) => Some(s),
                None => None,
            },
        }
    }
}

/// A client that is given a session sends every later search under it, until it is given another,
/// and asks for the same pages as before.
pub proof fn searches_run_under_the_latest_session<S>(
    client: LinkedInJobsApiClient<S>,
    earlier: S,
    session: S,
    params: SearchView,
)
    ensures
        client.under(session).request(params).session == Some(session),
        client.under(session).request(params).url == client.request(params).url,
        client.under(earlier).under(session) == client.under(session),
{
}

} // verus!
