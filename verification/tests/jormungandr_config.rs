use jormungandr::fragment::FragmentId;
use jormungandr::testing::jcli_transaction_commands::LinearFee;
use jormungandr::testing::jormungandr_config::{
    Block0Configuration, BlockchainConfiguration, Fragment, Output, UTxOInfo,
};
use jormungandr::testing::JormungandrParams;
use jormungandr::text::{read_u16, split_at_each};

fn fees(constant: u64) -> Block0Configuration {
    Block0Configuration {
        blockchain_configuration: BlockchainConfiguration {
            linear_fees: LinearFee { constant, coefficient: 2, certificate: 3 },
        },
    }
}

fn params() -> JormungandrParams<u32> {
    JormungandrParams::new(
        7,
        String::from("/tmp/node.yaml"),
        String::from("/tmp/block0.bin"),
        String::from("ab01"),
        vec![String::from("/tmp/secret1.yaml"), String::from("/tmp/secret2.yaml")],
        fees(10),
        true,
        String::from("/tmp/node.log"),
    )
}

fn tx(n: u8) -> FragmentId {
    FragmentId::from_bytes([n; 32])
}

fn output(address: &str, value: u64) -> Output {
    Output { address: String::from(address), value }
}

fn chars(text: &str) -> Vec<char> {
    text.chars().collect()
}

#[test]
fn params_give_back_what_they_were_made_from() {
    let mut params = params();
    assert_eq!(*params.node_config(), 7);
    assert_eq!(params.node_config_path(), "/tmp/node.yaml");
    assert_eq!(params.genesis_block_path(), "/tmp/block0.bin");
    assert_eq!(params.genesis_block_hash(), "ab01");
    assert_eq!(
        *params.secret_model_paths(),
        vec![String::from("/tmp/secret1.yaml"), String::from("/tmp/secret2.yaml")]
    );
    assert_eq!(*params.block0_configuration(), fees(10));
    assert!(params.rewards_history());
    assert_eq!(params.log_file_path(), "/tmp/node.log");
    assert_eq!(params.fees(), LinearFee { constant: 10, coefficient: 2, certificate: 3 });
    *params.node_config_mut() = 8;
    *params.block0_configuration_mut() = fees(11);
    assert_eq!(*params.node_config(), 8);
    assert_eq!(params.fees().constant, 11);
    assert_eq!(params.genesis_block_hash(), "ab01");
}

#[test]
fn rest_uri_of_socket_address() {
    assert_eq!(params().rest_uri("127.0.0.1:8443"), "http://127.0.0.1:8443/api");
}

#[test]
fn split_keeps_empty_parts() {
    assert_eq!(split_at_each("", '/'), vec![chars("")]);
    assert_eq!(split_at_each("a", '/'), vec![chars("a")]);
    assert_eq!(split_at_each("/a//b/", '/'), vec![chars(""), chars("a"), chars(""), chars("b"), chars("")]);
    let expected: Vec<Vec<char>> = "/ip4/127.0.0.1/tcp/80".split('/').map(chars).collect();
    assert_eq!(split_at_each("/ip4/127.0.0.1/tcp/80", '/'), expected);
}

#[test]
fn numbers_below_two_to_the_sixteenth() {
    assert_eq!(read_u16(&chars("0")), Some(0));
    assert_eq!(read_u16(&chars("007")), Some(7));
    assert_eq!(read_u16(&chars("65535")), Some(65535));
    assert_eq!(read_u16(&chars("65536")), None);
    assert_eq!(read_u16(&chars("4294967296")), None);
    assert_eq!(read_u16(&chars("99999999999999999999")), None);
    assert_eq!(read_u16(&chars("")), None);
    assert_eq!(read_u16(&chars("12a")), None);
    assert_eq!(read_u16(&chars("-1")), None);
}

#[test]
fn listen_port_of_address() {
    let params = params();
    assert_eq!(params.get_p2p_listen_port("/ip4/127.0.0.1/tcp/8080"), 8080);
    assert_eq!(params.find_p2p_listen_port("/ip4/127.0.0.1/tcp/8080"), Some(8080));
    assert_eq!(params.find_p2p_listen_port("/ip4/10.0.0.1/tcp/+17"), Some(17));
    assert_eq!(params.find_p2p_listen_port("/ip4/10.0.0.1/tcp/65535/p2p/x"), Some(65535));
    assert_eq!(params.find_p2p_listen_port("/ip4/127.0.0.1/udp/8080"), None);
    assert_eq!(params.find_p2p_listen_port("/ip4/127.0.0.1/tcp"), None);
    assert_eq!(params.find_p2p_listen_port("/ip4/127.0.0.1/tcp/"), None);
    assert_eq!(params.find_p2p_listen_port("/ip4/127.0.0.1/tcp/+"), None);
    assert_eq!(params.find_p2p_listen_port("/ip4/127.0.0.1/tcp/65536"), None);
    assert_eq!(params.find_p2p_listen_port("ip4/127.0.0.1/tcp/8080"), None);
    assert_eq!(params.find_p2p_listen_port(""), None);
}

#[test]
fn local_address_names_its_port() {
    let params = params();
    for port in [0u16, 9, 10, 8080, 65535] {
        let address = JormungandrParams::<u32>::local_p2p_address(port);
        assert_eq!(address, format!("/ip4/127.0.0.1/tcp/{}", port));
        assert_eq!(params.get_p2p_listen_port(&address), port);
    }
}

#[test]
fn utxos_of_first_block() {
    let fragments = vec![
        Fragment::Other { id: tx(1) },
        Fragment::Transaction { id: tx(2), outputs: vec![output("alice", 5), output("bob", 6)] },
        Fragment::Transaction { id: tx(3), outputs: vec![] },
        Fragment::Transaction { id: tx(4), outputs: vec![output("alice", 7)] },
    ];
    let utxos = params().block0_utxo(&fragments);
    assert_eq!(
        utxos,
        vec![
            UTxOInfo {
                transaction_id: tx(2),
                index_in_transaction: 0,
                address: String::from("alice"),
                associated_fund: 5,
            },
            UTxOInfo {
                transaction_id: tx(2),
                index_in_transaction: 1,
                address: String::from("bob"),
                associated_fund: 6,
            },
            UTxOInfo {
                transaction_id: tx(4),
                index_in_transaction: 0,
                address: String::from("alice"),
                associated_fund: 7,
            },
        ]
    );
    assert!(params().block0_utxo(&vec![]).is_empty());
}

#[test]
fn place_of_an_output_wraps_after_255() {
    let outputs: Vec<Output> = (0..258).map(|n| output("carol", n)).collect();
    let utxos = params().block0_utxo(&vec![Fragment::Transaction { id: tx(9), outputs }]);
    assert_eq!(utxos.len(), 258);
    assert_eq!(utxos[255].index_in_transaction, 255);
    assert_eq!(utxos[256].index_in_transaction, 0);
    assert_eq!(utxos[257].index_in_transaction, 1);
    assert_eq!(utxos[257].associated_fund, 257);
}

#[test]
fn utxo_for_address_is_the_first_match() {
    let params = params();
    let utxos = params.block0_utxo(&vec![
        Fragment::Transaction { id: tx(2), outputs: vec![output("alice", 5), output("bob", 6)] },
        Fragment::Transaction { id: tx(4), outputs: vec![output("bob", 7)] },
    ]);
    let found = params.block0_utxo_for_address(&utxos, "bob");
    assert_eq!(found.transaction_id, tx(2));
    assert_eq!(found.index_in_transaction, 1);
    assert_eq!(found.associated_fund, 6);
    assert_eq!(params.find_utxo_for_address(&utxos, "bob"), Some(found));
    assert_eq!(params.find_utxo_for_address(&utxos, "dave"), None);
    assert_eq!(params.find_utxo_for_address(&vec![], "bob"), None);
}
