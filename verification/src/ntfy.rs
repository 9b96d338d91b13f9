//! Push notifications through a topic of ntfy.sh.

use vstd::prelude::*;
use vstd::string::StringExecFns;
use crate::http::{Header, PostRequest, PostRequestView, header_views};

verus! {

/// The request that publishes `message` to `topic`: the message goes as
/// plain text to the topic's address.
pub open spec fn notification_request(topic: Seq<char>, message: Seq<char>) -> PostRequestView {
    PostRequestView {
        url: "https://ntfy.sh/"@ + topic,
        headers: seq![("Content-Type"@, "text/plain"@)],
        body: message,
        follow_redirects: true,
    }
}

/// Describes the request that publishes `message` to `topic`.
pub fn notification(topic: &str, message: &str) -> (request: PostRequest)
    ensures
        request@ == notification_request(topic@, message@),
{
    let mut headers: Vec<Header> = Vec::new();
    headers.push(Header::new("Content-Type", "text/plain"));
    assert(header_views(headers@) == seq![("Content-Type"@, "text/plain"@)]);
    PostRequest {
        url: "https://ntfy.sh/".to_owned().concat(topic),
        headers,
        body: message.to_owned(),
        follow_redirects: true,
    }
}

} // verus!
