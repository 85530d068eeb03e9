//! The WARP clients that are told apart, and how each is reconnected.
use vstd::prelude::*;

use crate::text;

verus! {

/// A WARP client.
#[derive(Debug, Clone, Copy, PartialEq, Eq, PartialOrd, Ord, Structural)]
pub enum WarpClient {
    WarpOfficial,
    WarpWg,
    WarpGo,
}

impl WarpClient {
    /// The name of the client.
    pub open spec fn name(self) -> Seq<char> {
        match self {
            WarpClient::WarpOfficial => "warp-official"@,
            WarpClient::WarpWg => "warp-wg"@,
            WarpClient::WarpGo => "warp-go"@,
        }
    }

    /// The name of the client.
    pub fn to_string(&self) -> (r: String)
        ensures
            r@ == self.name(),
    {
        match self {
            WarpClient::WarpOfficial => "warp-official".to_owned(),
            WarpClient::WarpWg => "warp-wg".to_owned(),
            WarpClient::WarpGo => "warp-go".to_owned(),
        }
    }

    /// The commands that reconnect the client, in order.
    pub open spec fn commands(self) -> Seq<Seq<char>> {
        match self {
            WarpClient::WarpOfficial => seq![
                "warp-cli --accept-tos disconnect"@,
                "warp-cli --accept-tos connect"@,
            ],
            WarpClient::WarpWg => seq!["warp o"@, "warp o"@],
            WarpClient::WarpGo => seq!["warp-go o"@, "warp-go o"@],
        }
    }
}

/// The commands that reconnect a client, in order.
pub fn default_reconnect_commands(client: WarpClient) -> (r: Vec<String>)
    ensures
        text::texts(r@) == client.commands(),
{
    let r: Vec<String> = match client {
        WarpClient::WarpOfficial => vec![
            "warp-cli --accept-tos disconnect".to_owned(),
            "warp-cli --accept-tos connect".to_owned(),
        ],
        WarpClient::WarpWg => vec!["warp o".to_owned(), "warp o".to_owned()],
        WarpClient::WarpGo => vec!["warp-go o".to_owned(), "warp-go o".to_owned()],
    };
    assert(text::texts(r@) =~= client.commands());
    r
}

/// Each client has its name, and two commands: the first takes its connection down, the second
/// brings it up again.
pub proof fn clients_are_told_apart()
    ensures
        WarpClient::WarpOfficial.name() == "warp-official"@,
        WarpClient::WarpWg.name() == "warp-wg"@,
        WarpClient::WarpGo.name() == "warp-go"@,
        WarpClient::WarpOfficial.commands() == seq![
            "warp-cli --accept-tos disconnect"@,
            "warp-cli --accept-tos connect"@,
        ],
        WarpClient::WarpWg.commands() == seq!["warp o"@, "warp o"@],
        WarpClient::WarpGo.commands() == seq!["warp-go o"@, "warp-go o"@],
{
}

} // verus!
