use solana_banking_bench_historical::{Network, SOLANA_NETWORK_CREATION_TIME};
use std::str::FromStr;

fn all() -> Vec<Network> {
    vec![
        Network::EclipseTestnet,
        Network::EclipseMainnet,
        Network::SolanaTestnet,
        Network::SolanaMainnet,
    ]
}

#[test]
fn names_read_back() {
    let names = ["eclipse-testnet", "eclipse-mainnet", "solana-testnet", "solana-mainnet"];
    for (network, name) in all().iter().zip(names.iter()) {
        assert_eq!(&network.to_string(), name);
        assert_eq!(Network::from_str(name).unwrap().to_string(), *name);
        assert_eq!(Network::parse(name).unwrap().to_string(), *name);
    }
}

#[test]
fn unknown_names_are_refused() {
    assert_eq!(Network::from_str("devnet").unwrap_err(), "Unknown Network: devnet");
    assert_eq!(Network::parse("").unwrap_err(), "Unknown Network: ");
    assert_eq!(
        Network::parse("Solana-Mainnet").unwrap_err(),
        "Unknown Network: Solana-Mainnet"
    );
}

#[test]
fn rpc_urls() {
    let urls: Vec<String> = all().iter().map(|n| n.rpc_url().to_string()).collect();
    assert_eq!(
        urls,
        vec![
            "https://testnet.dev2.eclipsenetwork.xyz/",
            "https://mainnetbeta-rpc.eclipse.xyz/",
            "https://api.testnet.solana.com",
            "https://api.mainnet-beta.solana.com",
        ]
    );
}

#[test]
fn snapshot_urls_extend_rpc_urls() {
    let urls: Vec<String> = all().iter().map(|n| n.snapshot_url().to_string()).collect();
    assert_eq!(
        urls,
        vec![
            "https://testnet.dev2.eclipsenetwork.xyz/snapshot.tar.bz2",
            "https://mainnetbeta-rpc.eclipse.xyz/snapshot.tar.bz2",
            "https://api.testnet.solana.com/snapshot.tar.bz2",
            "https://api.mainnet-beta.solana.com/snapshot.tar.bz2",
        ]
    );
    for network in all() {
        let root = network.rpc_url().trim_end_matches('/');
        assert_eq!(network.snapshot_url(), format!("{}/snapshot.tar.bz2", root));
    }
}

#[test]
fn creation_times() {
    assert_eq!(Network::EclipseTestnet.creation_time(), 1712572914);
    assert_eq!(Network::SolanaTestnet.creation_time(), 1580834132);
    assert_eq!(Network::SolanaMainnet.creation_time(), 1584368940);
    assert_eq!(Network::SolanaMainnet.creation_time(), SOLANA_NETWORK_CREATION_TIME);
}

#[test]
fn default_network_is_solana_mainnet() {
    assert!(matches!(Network::default(), Network::SolanaMainnet));
}
