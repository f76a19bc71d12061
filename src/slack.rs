use vstd::prelude::*;

verus! {

/// Endpoint that adds an emoji or an alias.
pub const ADD_ENDPOINT: &'static str = "emoji.add";

/// Endpoint that lists the workspace's emoji page by page.
pub const LIST_ENDPOINT: &'static str = "emoji.list";

/// The address and credential of one workspace's API.
#[derive(Debug, Clone)]
pub struct SlackClient {
    pub token: String,
    pub base_url: String,
}

/// The API base URL of a workspace.
pub open spec fn base_url_of(workspace: Seq<char>) -> Seq<char> {
    "https://"@ + workspace + ".slack.com/api"@
}

impl SlackClient {
    pub fn new(token: String, workspace: &str) -> (r: SlackClient)
        ensures
            r.token@ == token@,
            r.base_url@ == base_url_of(workspace@),
    {
        let base_url = String::from_str("https://").concat(workspace).concat(".slack.com/api");
        SlackClient { token, base_url }
    }

    /// The URL of an API endpoint.
    pub fn generate_url(&self, endpoint: &str) -> (r: String)
        ensures
            r@ == self.base_url@ + "/"@ + endpoint@,
    {
        self.base_url.clone().concat("/").concat(endpoint)
    }
}

} // verus!
