//! The clusters that blocks can be replayed from.

use solana_clock::UnixTimestamp;
use vstd::prelude::*;

verus! {

/// When the Solana main network started, in seconds since the Unix epoch.
pub const SOLANA_NETWORK_CREATION_TIME: i64 = 1584368940;

/// A cluster with a public RPC endpoint.
#[derive(Debug, Clone)]
pub enum Network {
    EclipseTestnet,
    EclipseMainnet,
    SolanaTestnet,
    SolanaMainnet,
}

impl Network {
    /// The name by which the network is written and read.
    pub open spec fn spec_name(self) -> Seq<char> {
        match self {
            Network::EclipseTestnet => "eclipse-testnet"@,
            Network::EclipseMainnet => "eclipse-mainnet"@,
            Network::SolanaTestnet => "solana-testnet"@,
            Network::SolanaMainnet => "solana-mainnet"@,
        }
    }

    /// The address of the network's RPC endpoint.
    pub open spec fn spec_rpc_url(self) -> Seq<char> {
        match self {
            Network::EclipseTestnet => "https://testnet.dev2.eclipsenetwork.xyz/"@,
            Network::EclipseMainnet => "https://mainnetbeta-rpc.eclipse.xyz/"@,
            Network::SolanaTestnet => "https://api.testnet.solana.com"@,
            Network::SolanaMainnet => "https://api.mainnet-beta.solana.com"@,
        }
    }

    /// The address from which the network's latest snapshot is served.
    pub open spec fn spec_snapshot_url(self) -> Seq<char> {
        match self {
            Network::EclipseTestnet => "https://testnet.dev2.eclipsenetwork.xyz/snapshot.tar.bz2"@,
            Network::EclipseMainnet => "https://mainnetbeta-rpc.eclipse.xyz/snapshot.tar.bz2"@,
            Network::SolanaTestnet => "https://api.testnet.solana.com/snapshot.tar.bz2"@,
            Network::SolanaMainnet => "https://api.mainnet-beta.solana.com/snapshot.tar.bz2"@,
        }
    }

    /// When the network started, where that is known: the start of the Eclipse
    /// main network is not.
    pub open spec fn spec_creation_time(self) -> Option<int> {
        match self {
            Network::EclipseTestnet => Some(1712572914),
            Network::EclipseMainnet => None,
            Network::SolanaTestnet => Some(1580834132),
            Network::SolanaMainnet => Some(1584368940),
        }
    }

    /// Whether reading a text comes to this result: the network that the text
    /// names, or, where it names none, a message that quotes it.
    pub open spec fn is_reading(text: Seq<char>, result: Result<Network, String>) -> bool {
        match result {
            Ok(found) => forall|other: Network| #[trigger]
                other.spec_name() == text <==> other == found,
            Err(message) => {
                &&& forall|other: Network| #[trigger] other.spec_name() != text
                &&& message@ == "Unknown Network: "@ + text
            },
        }
    }

    /// When the network started, in seconds since the Unix epoch.
    pub fn creation_time(&self) -> (time: UnixTimestamp)
        requires
            self.spec_creation_time() is Some,
        ensures
            self.spec_creation_time() == Some(time as int),
    {
        match self {
            Network::EclipseTestnet => 1712572914,
            Network::SolanaTestnet => 1580834132,
            Network::EclipseMainnet => vstd::pervasive::unreached(),
            Network::SolanaMainnet => 1584368940,
        }
    }

    /// The address of the network's RPC endpoint.
    pub fn rpc_url(&self) -> (url: &str)
        ensures
            url@ == self.spec_rpc_url(),
    {
        match self {
            Network::EclipseTestnet => "https://testnet.dev2.eclipsenetwork.xyz/",
            Network::EclipseMainnet => "https://mainnetbeta-rpc.eclipse.xyz/",
            Network::SolanaTestnet => "https://api.testnet.solana.com",
            Network::SolanaMainnet => "https://api.mainnet-beta.solana.com",
        }
    }

    /// The address from which the network's latest snapshot is served.
    pub fn snapshot_url(&self) -> (url: &str)
        ensures
            url@ == self.spec_snapshot_url(),
    {
        match self {
            Network::EclipseTestnet => "https://testnet.dev2.eclipsenetwork.xyz/snapshot.tar.bz2",
            Network::EclipseMainnet => "https://mainnetbeta-rpc.eclipse.xyz/snapshot.tar.bz2",
            Network::SolanaTestnet => "https://api.testnet.solana.com/snapshot.tar.bz2",
            Network::SolanaMainnet => "https://api.mainnet-beta.solana.com/snapshot.tar.bz2",
        }
    }

    /// The name by which the network is written and read.
    pub fn to_string(&self) -> (name: String)
        ensures
            name@ == self.spec_name(),
    {
        match self {
            Network::EclipseTestnet => "eclipse-testnet".to_owned(),
            Network::EclipseMainnet => "eclipse-mainnet".to_owned(),
            Network::SolanaTestnet => "solana-testnet".to_owned(),
            Network::SolanaMainnet => "solana-mainnet".to_owned(),
        }
    }

    /// Reads a network by its name. Any other text is refused with a message
    /// that quotes it.
    pub fn parse(s: &str) -> (network: Result<Network, String>)
        ensures
            Network::is_reading(s@, network),
    {
        proof {
            assert forall|a: Network, b: Network|
                #[trigger] a.spec_name() == #[trigger] b.spec_name() implies a == b by {
                names_identify_networks(a, b);
            }
        }
        let name: String = s.to_owned();
        if name == "eclipse-testnet".to_owned() {
            assert(Network::EclipseTestnet.spec_name() == s@);
            Ok(Network::EclipseTestnet)
        } else if name == "eclipse-mainnet".to_owned() {
            assert(Network::EclipseMainnet.spec_name() == s@);
            Ok(Network::EclipseMainnet)
        } else if name == "solana-testnet".to_owned() {
            assert(Network::SolanaTestnet.spec_name() == s@);
            Ok(Network::SolanaTestnet)
        } else if name == "solana-mainnet".to_owned() {
            assert(Network::SolanaMainnet.spec_name() == s@);
            Ok(Network::SolanaMainnet)
        } else {
            let mut message: String = "Unknown Network: ".to_owned();
            message.append(s);
            Err(message)
        }
    }
}

impl Default for Network {
    fn default() -> (network: Self)
        ensures
            network == Network::SolanaMainnet,
    {
        Network::SolanaMainnet
    }
}

impl std::str::FromStr for Network {
    type Err = String;

    fn from_str(s: &str) -> (network: Result<Self, Self::Err>)
        ensures
            Network::is_reading(s@, network),
    {
        Network::parse(s)
    }
}

/// No two networks share a name, so reading the name of a network gives that
/// network back and nothing else.
pub proof fn names_identify_networks(a: Network, b: Network)
    ensures
        a.spec_name() == b.spec_name() ==> a == b,
{
    reveal_strlit("eclipse-testnet");
    reveal_strlit("eclipse-mainnet");
    reveal_strlit("solana-testnet");
    reveal_strlit("solana-mainnet");
    // The cluster is told apart by the length, its kind by the first letter
    // after the hyphen.
    if a.spec_name() == b.spec_name() {
        assert(a.spec_name()[7] == b.spec_name()[7]);
        assert(a.spec_name()[8] == b.spec_name()[8]);
    }
}

/// The snapshot of every network is the file `snapshot.tar.bz2` at the root of
/// its RPC endpoint.
pub proof fn snapshots_are_served_by_the_rpc_endpoint(network: Network)
    ensures
        ({
            let root = network.spec_rpc_url();
            let slash = if root.last() == '/' { ""@ } else { "/"@ };
            network.spec_snapshot_url() == root + slash + "snapshot.tar.bz2"@
        }),
{
    reveal_strlit("");
    reveal_strlit("/");
    reveal_strlit("snapshot.tar.bz2");
    reveal_strlit("https://testnet.dev2.eclipsenetwork.xyz/");
    reveal_strlit("https://mainnetbeta-rpc.eclipse.xyz/");
    reveal_strlit("https://api.testnet.solana.com");
    reveal_strlit("https://api.mainnet-beta.solana.com");
    reveal_strlit("https://testnet.dev2.eclipsenetwork.xyz/snapshot.tar.bz2");
    reveal_strlit("https://mainnetbeta-rpc.eclipse.xyz/snapshot.tar.bz2");
    reveal_strlit("https://api.testnet.solana.com/snapshot.tar.bz2");
    reveal_strlit("https://api.mainnet-beta.solana.com/snapshot.tar.bz2");
    let root = network.spec_rpc_url();
    let slash = if root.last() == '/' { ""@ } else { "/"@ };
    assert(network.spec_snapshot_url() =~= root + slash + "snapshot.tar.bz2"@);
}

/// The constant for the Solana main network agrees with the network's own
/// creation time.
pub proof fn solana_creation_time_agrees()
    ensures
        Network::SolanaMainnet.spec_creation_time() == Some(SOLANA_NETWORK_CREATION_TIME as int),
{
}

/// Exactly four texts are read as networks, and no two as the same one. Any other
/// text is quoted in the message that refuses it.
pub proof fn exactly_four_names_are_read(text: Seq<char>, result: Result<Network, String>)
    requires
        Network::is_reading(text, result),
    ensures
        result == Ok::<Network, String>(Network::EclipseTestnet) <==> text == "eclipse-testnet"@,
        result == Ok::<Network, String>(Network::EclipseMainnet) <==> text == "eclipse-mainnet"@,
        result == Ok::<Network, String>(Network::SolanaTestnet) <==> text == "solana-testnet"@,
        result == Ok::<Network, String>(Network::SolanaMainnet) <==> text == "solana-mainnet"@,
        result matches Err(message) ==> message@ == "Unknown Network: "@ + text,
{
    assert forall|a: Network, b: Network|
        #[trigger] a.spec_name() == #[trigger] b.spec_name() implies a == b by {
        names_identify_networks(a, b);
    }
    assert(Network::EclipseTestnet.spec_name() == "eclipse-testnet"@);
    assert(Network::EclipseMainnet.spec_name() == "eclipse-mainnet"@);
    assert(Network::SolanaTestnet.spec_name() == "solana-testnet"@);
    assert(Network::SolanaMainnet.spec_name() == "solana-mainnet"@);
}

/// A network is written as the name by which it is read: reading what was written
/// gives the network back.
pub proof fn names_are_read_back(network: Network, result: Result<Network, String>)
    requires
        Network::is_reading(network.spec_name(), result),
    ensures
        result == Ok::<Network, String>(network),
{
}

} // verus!
