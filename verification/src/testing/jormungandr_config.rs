//! The parameters that a node under test is started with, and what tests
//! read off them.

use super::jcli_transaction_commands::LinearFee;
use crate::fragment::log::FragmentId;
use crate::text::{
    all_digits, decimal, digits_value, is_digit, law_decimal_reads_back,
    law_split_begins_new_part, law_split_grows_last_part, parts, read_u16, split, split_at_each,
    to_decimal,
};
use vstd::prelude::*;
use vstd::string::StringExecFns;

verus! {

/// The settings of the chain that the first block fixes, as far as tests
/// read them.
#[derive(Clone, Copy, Debug, PartialEq, Eq)]
pub struct BlockchainConfiguration {
    pub linear_fees: LinearFee,
}

/// What the first block of the chain is made from, as far as tests read it.
#[derive(Clone, Copy, Debug, PartialEq, Eq)]
pub struct Block0Configuration {
    pub blockchain_configuration: BlockchainConfiguration,
}

/// One output of a transaction: who receives, and how much.
#[derive(Debug, PartialEq, Eq)]
pub struct Output {
    pub address: String,
    pub value: u64,
}

/// A fragment of a block, as far as its outputs are concerned.
#[derive(Debug, PartialEq, Eq)]
pub enum Fragment {
    /// A transaction with its outputs in their order.
    Transaction { id: FragmentId, outputs: Vec<Output> },
    /// Any fragment that is not a plain transaction.
    Other { id: FragmentId },
}

/// An output of a transaction that can be spent: the transaction, the place
/// of the output in it, the receiver and the amount.
#[derive(Debug, PartialEq, Eq)]
pub struct UTxOInfo {
    pub transaction_id: FragmentId,
    pub index_in_transaction: u8,
    pub address: String,
    pub associated_fund: u64,
}

impl Clone for UTxOInfo {
    fn clone(&self) -> (copy: Self)
        ensures
            copy == *self,
    {
        UTxOInfo {
            transaction_id: self.transaction_id,
            index_in_transaction: self.index_in_transaction,
            address: self.address.clone(),
            associated_fund: self.associated_fund,
        }
    }
}

/// The spendable outputs of one transaction, in their order. The place of an
/// output is kept in one byte, so that it starts again at 0 after 255.
pub open spec fn utxos_of_outputs(id: FragmentId, outputs: Seq<Output>) -> Seq<UTxOInfo> {
    Seq::new(
        outputs.len(),
        |i: int|
            UTxOInfo {
                transaction_id: id,
                index_in_transaction: (i % 256) as u8,
                address: outputs[i].address,
                associated_fund: outputs[i].value,
            },
    )
}

/// The spendable outputs of one fragment: those of a transaction, and none
/// of any other fragment.
pub open spec fn utxos_of_fragment(fragment: Fragment) -> Seq<UTxOInfo> {
    match fragment {
        Fragment::Transaction { id, outputs } => utxos_of_outputs(id, outputs@),
        Fragment::Other { id } => Seq::empty(),
    }
}

/// The spendable outputs of the fragments, in the order of the fragments.
pub open spec fn utxos_of(fragments: Seq<Fragment>) -> Seq<UTxOInfo>
    decreases fragments.len(),
{
    if fragments.len() == 0 {
        Seq::empty()
    } else {
        utxos_of(fragments.drop_last()) + utxos_of_fragment(fragments.last())
    }
}

/// Whether some output goes to the address.
pub open spec fn pays_to(utxos: Seq<UTxOInfo>, address: Seq<char>) -> bool {
    exists|i: int| 0 <= i < utxos.len() && (#[trigger] utxos[i]).address@ == address
}

/// The part of a port's text that holds the digits: a plus sign in front is
/// left out.
pub open spec fn port_digits(text: Seq<char>) -> Seq<char> {
    if text.len() > 0 && text[0] == '+' {
        text.drop_first()
    } else {
        text
    }
}

/// The port that a listen address of the form `/ip4/<host>/tcp/<port>`
/// names: of the parts between the slashes the fourth is `tcp`, and the
/// fifth is a number below `2^16` in base 10. An address of another form
/// names none.
pub open spec fn listen_port(address: Seq<char>) -> Option<u16> {
    let tokens = split(address, '/');
    if tokens.len() > 4 && tokens[3] == "tcp"@ && port_digits(tokens[4]).len() > 0 && all_digits(
        port_digits(tokens[4]),
    ) && digits_value(port_digits(tokens[4])) <= u16::MAX {
        Some(digits_value(port_digits(tokens[4])) as u16)
    } else {
        None
    }
}

/// The listen address on this machine with a port names that port.
pub proof fn law_local_address_names_its_port(port: u16)
    ensures
        listen_port("/ip4/127.0.0.1/tcp/"@ + decimal(port as nat)) == Some(port),
{
    reveal_strlit("/ip4/127.0.0.1/tcp/");
    reveal_strlit("ip4");
    reveal_strlit("127.0.0.1");
    reveal_strlit("tcp");
    let none = Seq::<char>::empty();
    let number = decimal(port as nat);
    law_decimal_reads_back(port as nat);
    assert forall|i: int| 0 <= i < number.len() implies number[i] != '/' by {
        assert(is_digit(number[i]));
    }
    assert(is_digit(number[0]));

    let s1 = none.push('/');
    law_split_begins_new_part(none, '/');
    assert(split(s1, '/') =~= seq![none, none]);

    let s2 = s1 + "ip4"@;
    law_split_grows_last_part(s1, "ip4"@, '/');
    assert(none + "ip4"@ =~= "ip4"@);
    assert(split(s2, '/') =~= seq![none, "ip4"@]);

    let s3 = s2.push('/');
    law_split_begins_new_part(s2, '/');
    assert(split(s3, '/') =~= seq![none, "ip4"@, none]);

    let s4 = s3 + "127.0.0.1"@;
    law_split_grows_last_part(s3, "127.0.0.1"@, '/');
    assert(none + "127.0.0.1"@ =~= "127.0.0.1"@);
    assert(split(s4, '/') =~= seq![none, "ip4"@, "127.0.0.1"@]);

    let s5 = s4.push('/');
    law_split_begins_new_part(s4, '/');
    assert(split(s5, '/') =~= seq![none, "ip4"@, "127.0.0.1"@, none]);

    let s6 = s5 + "tcp"@;
    law_split_grows_last_part(s5, "tcp"@, '/');
    assert(none + "tcp"@ =~= "tcp"@);
    assert(split(s6, '/') =~= seq![none, "ip4"@, "127.0.0.1"@, "tcp"@]);

    let s7 = s6.push('/');
    law_split_begins_new_part(s6, '/');
    assert(split(s7, '/') =~= seq![none, "ip4"@, "127.0.0.1"@, "tcp"@, none]);
    assert(s7 =~= "/ip4/127.0.0.1/tcp/"@);

    law_split_grows_last_part(s7, number, '/');
    assert(none + number =~= number);
    assert(split(s7 + number, '/') =~= seq![none, "ip4"@, "127.0.0.1"@, "tcp"@, number]);
    assert(port_digits(number) == number);
}

/// The address of the REST interface as a URI.
pub open spec fn rest_uri_text(rest_socket_addr: Seq<char>) -> Seq<char> {
    "http://"@ + rest_socket_addr + "/api"@
}

/// The parameters that a node under test is started with. `Conf` is the
/// node's configuration, which is carried along and not looked into.
#[derive(Debug, Clone)]
pub struct JormungandrParams<Conf> {
    node_config: Conf,
    node_config_path: String,
    genesis_block_path: String,
    genesis_block_hash: String,
    secret_model_paths: Vec<String>,
    block0_configuration: Block0Configuration,
    rewards_history: bool,
    log_file_path: String,
}

/// What the parameters hold.
pub struct JormungandrParamsView<Conf> {
    pub node_config: Conf,
    pub node_config_path: Seq<char>,
    pub genesis_block_path: Seq<char>,
    pub genesis_block_hash: Seq<char>,
    pub secret_model_paths: Seq<String>,
    pub block0_configuration: Block0Configuration,
    pub rewards_history: bool,
    pub log_file_path: Seq<char>,
}

impl<Conf> View for JormungandrParams<Conf> {
    type V = JormungandrParamsView<Conf>;

    closed spec fn view(&self) -> JormungandrParamsView<Conf> {
        JormungandrParamsView {
            node_config: self.node_config,
            node_config_path: self.node_config_path@,
            genesis_block_path: self.genesis_block_path@,
            genesis_block_hash: self.genesis_block_hash@,
            secret_model_paths: self.secret_model_paths@,
            block0_configuration: self.block0_configuration,
            rewards_history: self.rewards_history,
            log_file_path: self.log_file_path@,
        }
    }
}

impl<Conf> JormungandrParams<Conf> {
    pub fn new(
        node_config: Conf,
        node_config_path: String,
        genesis_block_path: String,
        genesis_block_hash: String,
        secret_model_paths: Vec<String>,
        block0_configuration: Block0Configuration,
        rewards_history: bool,
        log_file_path: String,
    ) -> (params: Self)
        ensures
            params@ == (JormungandrParamsView {
                node_config,
                node_config_path: node_config_path@,
                genesis_block_path: genesis_block_path@,
                genesis_block_hash: genesis_block_hash@,
                secret_model_paths: secret_model_paths@,
                block0_configuration,
                rewards_history,
                log_file_path: log_file_path@,
            }),
    {
        JormungandrParams {
            node_config,
            node_config_path,
            genesis_block_path,
            genesis_block_hash,
            secret_model_paths,
            block0_configuration,
            rewards_history,
            log_file_path,
        }
    }

    pub fn block0_configuration(&self) -> (configuration: &Block0Configuration)
        ensures
            *configuration == self@.block0_configuration,
    {
        &self.block0_configuration
    }

    /// The settings of the first block, to change them. Nothing else changes.
    pub fn block0_configuration_mut(&mut self) -> (configuration: &mut Block0Configuration)
        ensures
            *configuration == old(self)@.block0_configuration,
            final(self)@ == (JormungandrParamsView {
                block0_configuration: *final(configuration),
                ..old(self)@
            }),
    {
        &mut self.block0_configuration
    }

    pub fn genesis_block_path(&self) -> (path: &str)
        ensures
            path@ == self@.genesis_block_path,
    {
        self.genesis_block_path.as_str()
    }

    pub fn genesis_block_hash(&self) -> (hash: &str)
        ensures
            hash@ == self@.genesis_block_hash,
    {
        self.genesis_block_hash.as_str()
    }

    pub fn node_config_path(&self) -> (path: &str)
        ensures
            path@ == self@.node_config_path,
    {
        self.node_config_path.as_str()
    }

    pub fn rewards_history(&self) -> (kept: bool)
        ensures
            kept == self@.rewards_history,
    {
        self.rewards_history
    }

    pub fn log_file_path(&self) -> (path: &str)
        ensures
            path@ == self@.log_file_path,
    {
        self.log_file_path.as_str()
    }

    pub fn secret_model_paths(&self) -> (paths: &Vec<String>)
        ensures
            paths@ == self@.secret_model_paths,
    {
        &self.secret_model_paths
    }

    pub fn node_config(&self) -> (config: &Conf)
        ensures
            *config == self@.node_config,
    {
        &self.node_config
    }

    /// The node's configuration, to change it. Nothing else changes.
    pub fn node_config_mut(&mut self) -> (config: &mut Conf)
        ensures
            *config == old(self)@.node_config,
            final(self)@ == (JormungandrParamsView { node_config: *final(config), ..old(self)@ }),
    {
        &mut self.node_config
    }

    /// The fees that the first block fixes.
    pub fn fees(&self) -> (fees: LinearFee)
        ensures
            fees == self@.block0_configuration.blockchain_configuration.linear_fees,
    {
        self.block0_configuration.blockchain_configuration.linear_fees
    }

    /// The URI of the node's REST interface, given the socket address that
    /// the node's configuration names for it.
    pub fn rest_uri(&self, rest_socket_addr: &str) -> (uri: String)
        ensures
            uri@ == rest_uri_text(rest_socket_addr@),
    {
        let mut uri = String::from_str("http://");
        uri.append(rest_socket_addr);
        uri.append("/api");
        uri
    }

    /// The port in the listen address that the node's configuration names, or
    /// nothing where the address is not of the form `/ip4/<host>/tcp/<port>`.
    pub fn find_p2p_listen_port(&self, p2p_listen_address: &str) -> (port: Option<u16>)
        ensures
            port == listen_port(p2p_listen_address@),
    {
        let tokens = split_at_each(p2p_listen_address, '/');
        if tokens.len() <= 4 {
            return None;
        }
        assert(parts(tokens@)[3] == tokens@[3]@);
        assert(parts(tokens@)[4] == tokens@[4]@);
        proof {
            reveal_strlit("tcp");
        }
        let kind = &tokens[3];
        if kind.len() != 3 || kind[0] != 't' || kind[1] != 'c' || kind[2] != 'p' {
            assert(kind@ != "tcp"@);
            return None;
        }
        assert(kind@ =~= "tcp"@);
        let text = &tokens[4];
        let mut digits: Vec<char> = Vec::new();
        let start: usize = if text.len() > 0 && text[0] == '+' {
            1
        } else {
            0
        };
        let mut i: usize = start;
        assert(port_digits(text@).take(0) =~= Seq::<char>::empty());
        while i < text.len()
            invariant
                start <= i <= text@.len(),
                start == (if text@.len() > 0 && text@[0] == '+' {
                    1usize
                } else {
                    0usize
                }),
                digits@ == port_digits(text@).take(i - start),
            decreases text@.len() - i,
        {
            digits.push(text[i]);
            i += 1;
            assert(digits@ =~= port_digits(text@).take(i - start));
        }
        assert(digits@ =~= port_digits(text@));
        read_u16(&digits)
    }

    /// The port in the listen address that the node's configuration names.
    pub fn get_p2p_listen_port(&self, p2p_listen_address: &str) -> (port: u16)
        requires
            listen_port(p2p_listen_address@).is_some(),
        ensures
            port == listen_port(p2p_listen_address@).unwrap(),
    {
        self.find_p2p_listen_port(p2p_listen_address).unwrap()
    }

    /// The listen address on this machine with the given port.
    pub fn local_p2p_address(port: u16) -> (address: String)
        ensures
            address@ == "/ip4/127.0.0.1/tcp/"@ + decimal(port as nat),
    {
        let mut address = String::from_str("/ip4/127.0.0.1/tcp/");
        address.append(to_decimal(port as u64).as_str());
        address
    }

    /// The outputs that the fragments of the first block make spendable, in
    /// the order of the fragments and of their outputs.
    pub fn block0_utxo(&self, fragments: &Vec<Fragment>) -> (utxos: Vec<UTxOInfo>)
        ensures
            utxos@ == utxos_of(fragments@),
    {
        let mut utxos: Vec<UTxOInfo> = Vec::new();
        let mut i: usize = 0;
        assert(fragments@.take(0) =~= Seq::<Fragment>::empty());
        while i < fragments.len()
            invariant
                i <= fragments@.len(),
                utxos@ == utxos_of(fragments@.take(i as int)),
            decreases fragments@.len() - i,
        {
            let ghost before = utxos@;
            proof {
                assert(fragments@.take(i + 1).drop_last() =~= fragments@.take(i as int));
                assert(fragments@.take(i + 1).last() == fragments@[i as int]);
            }
            match &fragments[i] {
                Fragment::Transaction { id, outputs } => {
                    let mut index: usize = 0;
                    while index < outputs.len()
                        invariant
                            index <= outputs@.len(),
                            utxos@ == before + utxos_of_outputs(*id, outputs@).take(index as int),
                        decreases outputs@.len() - index,
                    {
                        utxos.push(
                            UTxOInfo {
                                transaction_id: *id,
                                index_in_transaction: (index % 256) as u8,
                                address: outputs[index].address.clone(),
                                associated_fund: outputs[index].value,
                            },
                        );
                        index += 1;
                        assert(utxos@ =~= before + utxos_of_outputs(*id, outputs@).take(
                            index as int,
                        ));
                    }
                    assert(utxos_of_outputs(*id, outputs@).take(outputs@.len() as int)
                        =~= utxos_of_outputs(*id, outputs@));
                },
                Fragment::Other { id } => {
                    assert(utxos@ =~= before + Seq::<UTxOInfo>::empty());
                },
            }
            i += 1;
        }
        assert(fragments@.take(i as int) =~= fragments@);
        utxos
    }

    /// The first of the outputs that goes to the address, if there is one.
    pub fn find_utxo_for_address(&self, utxos: &Vec<UTxOInfo>, address: &str) -> (utxo: Option<
        UTxOInfo,
    >)
        ensures
            utxo.is_some() == pays_to(utxos@, address@),
            utxo.is_some() ==> exists|at: int|
                0 <= at < utxos@.len() && utxo.unwrap() == #[trigger] utxos@[at]
                    && utxos@[at].address@ == address@ && !pays_to(utxos@.take(at), address@),
    {
        let wanted = String::from_str(address);
        let mut i: usize = 0;
        while i < utxos.len()
            invariant
                i <= utxos@.len(),
                wanted@ == address@,
                !pays_to(utxos@.take(i as int), address@),
            decreases utxos@.len() - i,
        {
            if utxos[i].address == wanted {
                return Some(utxos[i].clone());
            }
            proof {
                if pays_to(utxos@.take(i + 1), address@) {
                    let k = choose|k: int|
                        0 <= k < i + 1 && (#[trigger] utxos@.take(i + 1)[k]).address@ == address@;
                    if k < i {
                        assert(utxos@.take(i as int)[k].address@ == address@);
                    }
                }
            }
            i += 1;
        }
        proof {
            assert(utxos@.take(i as int) =~= utxos@);
        }
        None
    }

    /// The first of the outputs that goes to the address.
    pub fn block0_utxo_for_address(&self, utxos: &Vec<UTxOInfo>, address: &str) -> (utxo: UTxOInfo)
        requires
            pays_to(utxos@, address@),
        ensures
            exists|at: int|
                0 <= at < utxos@.len() && utxo == #[trigger] utxos@[at] && utxos@[at].address@
                    == address@ && !pays_to(utxos@.take(at), address@),
    {
        self.find_utxo_for_address(utxos, address).unwrap()
    }
}

} // verus!
