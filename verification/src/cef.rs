//! What a target says about itself: the directory of its tabs.

use vstd::prelude::*;

verus! {

/// One record of the directory that a target serves at `/json`.
#[derive(Debug, Clone, PartialEq, Eq)]
pub struct WebContent {
    description: String,
    devtools_frontend_url: String,
    id: String,
    title: String,
    url: String,
    web_socket_debugger_url: String,
}

/// The texts of a directory record.
pub struct WebContentView {
    pub description: Seq<char>,
    pub devtools_frontend_url: Seq<char>,
    pub id: Seq<char>,
    pub title: Seq<char>,
    pub url: Seq<char>,
    pub web_socket_debugger_url: Seq<char>,
}

impl View for WebContent {
    type V = WebContentView;

    closed spec fn view(&self) -> WebContentView {
        WebContentView {
            description: self.description@,
            devtools_frontend_url: self.devtools_frontend_url@,
            id: self.id@,
            title: self.title@,
            url: self.url@,
            web_socket_debugger_url: self.web_socket_debugger_url@,
        }
    }
}

impl WebContent {
    /// A record with the given texts.
    pub fn new(
        description: String,
        devtools_frontend_url: String,
        id: String,
        title: String,
        url: String,
        web_socket_debugger_url: String,
    ) -> (r: Self)
        ensures
            r@ == (WebContentView {
                description: description@,
                devtools_frontend_url: devtools_frontend_url@,
                id: id@,
                title: title@,
                url: url@,
                web_socket_debugger_url: web_socket_debugger_url@,
            }),
    {
        WebContent { description, devtools_frontend_url, id, title, url, web_socket_debugger_url }
    }

    /// Get id
    pub fn id(&self) -> (r: &str)
        ensures
            r@ == self@.id,
    {
        self.id.as_str()
    }

    /// Get title
    pub fn title(&self) -> (r: &str)
        ensures
            r@ == self@.title,
    {
        self.title.as_str()
    }

    /// Get url
    pub fn url(&self) -> (r: &str)
        ensures
            r@ == self@.url,
    {
        self.url.as_str()
    }

    /// Get websocket debugger url
    pub fn debug_url(&self) -> (r: &str)
        ensures
            r@ == self@.web_socket_debugger_url,
    {
        self.web_socket_debugger_url.as_str()
    }
}

} // verus!
