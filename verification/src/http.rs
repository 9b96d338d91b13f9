//! Requests as plain data: the library says what to send, a caller sends it.

use vstd::prelude::*;

verus! {

/// One header line of a request.
#[derive(Debug, PartialEq)]
pub struct Header {
    pub name: String,
    pub value: String,
}

impl View for Header {
    type V = (Seq<char>, Seq<char>);

    open spec fn view(&self) -> (Seq<char>, Seq<char>) {
        (self.name@, self.value@)
    }
}

/// An HTTP `POST`: where it goes, its headers in order, and its body.
#[derive(Debug, PartialEq)]
pub struct PostRequest {
    pub url: String,
    pub headers: Vec<Header>,
    pub body: String,
    /// Whether a redirect may be followed. Where it is `false`, a redirect
    /// is an answer like any other.
    pub follow_redirects: bool,
}

/// The mathematical content of a [`PostRequest`].
pub struct PostRequestView {
    pub url: Seq<char>,
    pub headers: Seq<(Seq<char>, Seq<char>)>,
    pub body: Seq<char>,
    pub follow_redirects: bool,
}

/// The content of each header of `headers`, in order.
pub open spec fn header_views(headers: Seq<Header>) -> Seq<(Seq<char>, Seq<char>)> {
    headers.map_values(|header: Header| header@)
}

impl View for PostRequest {
    type V = PostRequestView;

    open spec fn view(&self) -> PostRequestView {
        PostRequestView {
            url: self.url@,
            headers: header_views(self.headers@),
            body: self.body@,
            follow_redirects: self.follow_redirects,
        }
    }
}

impl Header {
    pub fn new(name: &str, value: &str) -> (header: Header)
        ensures
            header@ == (name@, value@),
    {
        Header { name: name.to_owned(), value: value.to_owned() }
    }
}

} // verus!
