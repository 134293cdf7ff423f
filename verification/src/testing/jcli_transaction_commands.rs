//! The command lines of the client's `transaction` commands.
//!
//! Each function gives the arguments that follow the name of the program, in
//! their order. Whoever starts the program adds its path and hands the
//! arguments on as they are.

use crate::text::{decimal, to_decimal};
use vstd::prelude::*;
use vstd::string::StringExecFns;

verus! {

/// The fees of a transaction: a constant, a coefficient for each input and
/// output, and a fee for each certificate.
#[derive(Clone, Copy, Debug, PartialEq, Eq)]
pub struct LinearFee {
    pub constant: u64,
    pub coefficient: u64,
    pub certificate: u64,
}

/// What a list of arguments says: the text of each, in the same order.
pub open spec fn texts(args: Seq<String>) -> Seq<Seq<char>> {
    Seq::new(args.len(), |i: int| args[i]@)
}

/// The spending counter that a witness is made for: the given one, or 0.
pub open spec fn spending_counter(given: Option<u32>) -> nat {
    match given {
        Some(value) => value as nat,
        None => 0,
    }
}

/// Adds one argument at the end.
fn push_arg(args: &mut Vec<String>, text: &str)
    ensures
        texts(final(args)@) == texts(old(args)@).push(text@),
{
    args.push(String::from_str(text));
    assert(texts(args@) =~= texts(old(args)@).push(text@));
}

/// Adds a number at the end, written in base 10.
fn push_number(args: &mut Vec<String>, number: u64)
    ensures
        texts(final(args)@) == texts(old(args)@).push(decimal(number as nat)),
{
    args.push(to_decimal(number));
    assert(texts(args@) =~= texts(old(args)@).push(decimal(number as nat)));
}

/// Builds the arguments of the client's `transaction` commands.
#[derive(Default, Debug)]
pub struct TransactionCommands {}

impl TransactionCommands {
    pub fn new() -> (commands: TransactionCommands)
        ensures
            commands == (TransactionCommands {  }),
    {
        TransactionCommands {  }
    }

    /// The command that makes a new, empty transaction in the staging file.
    pub fn get_new_transaction_command(&self, staging_file: &str) -> (args: Vec<String>)
        ensures
            texts(args@) == seq![
                "transaction"@,
                "new"@,
                "--staging"@,
                staging_file@,
            ],
    {
        let mut args: Vec<String> = Vec::new();
        push_arg(&mut args, "transaction");
        push_arg(&mut args, "new");
        push_arg(&mut args, "--staging");
        push_arg(&mut args, staging_file);
        assert(texts(args@) =~= seq![
                "transaction"@,
                "new"@,
                "--staging"@,
                staging_file@,
        ]);
        args
    }

    /// The command that adds as input the output `tx_index` of the transaction
    /// `tx_id`, worth `amount`.
    pub fn get_add_input_command(
        &self,
        tx_id: &str,
        tx_index: u8,
        amount: &str,
        staging_file: &str,
    ) -> (args: Vec<String>)
        ensures
            texts(args@) == seq![
                "transaction"@,
                "add-input"@,
                tx_id@,
                decimal(tx_index as nat),
                amount@,
                "--staging"@,
                staging_file@,
            ],
    {
        let mut args: Vec<String> = Vec::new();
        push_arg(&mut args, "transaction");
        push_arg(&mut args, "add-input");
        push_arg(&mut args, tx_id);
        push_number(&mut args, tx_index as u64);
        push_arg(&mut args, amount);
        push_arg(&mut args, "--staging");
        push_arg(&mut args, staging_file);
        assert(texts(args@) =~= seq![
                "transaction"@,
                "add-input"@,
                tx_id@,
                decimal(tx_index as nat),
                amount@,
                "--staging"@,
                staging_file@,
        ]);
        args
    }

    /// The command that adds as input `amount` from the account at
    /// `account_addr`.
    pub fn get_add_account_command(
        &self,
        account_addr: &str,
        amount: &str,
        staging_file: &str,
    ) -> (args: Vec<String>)
        ensures
            texts(args@) == seq![
                "transaction"@,
                "add-account"@,
                account_addr@,
                amount@,
                "--staging"@,
                staging_file@,
            ],
    {
        let mut args: Vec<String> = Vec::new();
        push_arg(&mut args, "transaction");
        push_arg(&mut args, "add-account");
        push_arg(&mut args, account_addr);
        push_arg(&mut args, amount);
        push_arg(&mut args, "--staging");
        push_arg(&mut args, staging_file);
        assert(texts(args@) =~= seq![
                "transaction"@,
                "add-account"@,
                account_addr@,
                amount@,
                "--staging"@,
                staging_file@,
        ]);
        args
    }

    /// The command that adds a certificate to the transaction.
    pub fn get_add_certificate_command(
        &self,
        certificate: &str,
        staging_file: &str,
    ) -> (args: Vec<String>)
        ensures
            texts(args@) == seq![
                "transaction"@,
                "add-certificate"@,
                certificate@,
                "--staging"@,
                staging_file@,
            ],
    {
        let mut args: Vec<String> = Vec::new();
        push_arg(&mut args, "transaction");
        push_arg(&mut args, "add-certificate");
        push_arg(&mut args, certificate);
        push_arg(&mut args, "--staging");
        push_arg(&mut args, staging_file);
        assert(texts(args@) =~= seq![
                "transaction"@,
                "add-certificate"@,
                certificate@,
                "--staging"@,
                staging_file@,
        ]);
        args
    }

    /// The command that adds an output of `amount` to the address `addr`.
    pub fn get_add_output_command(
        &self,
        addr: &str,
        amount: &str,
        staging_file: &str,
    ) -> (args: Vec<String>)
        ensures
            texts(args@) == seq![
                "transaction"@,
                "add-output"@,
                addr@,
                amount@,
                "--staging"@,
                staging_file@,
            ],
    {
        let mut args: Vec<String> = Vec::new();
        push_arg(&mut args, "transaction");
        push_arg(&mut args, "add-output");
        push_arg(&mut args, addr);
        push_arg(&mut args, amount);
        push_arg(&mut args, "--staging");
        push_arg(&mut args, staging_file);
        assert(texts(args@) =~= seq![
                "transaction"@,
                "add-output"@,
                addr@,
                amount@,
                "--staging"@,
                staging_file@,
        ]);
        args
    }

    /// The command that finalizes the transaction as it stands.
    pub fn get_finalize_command(&self, staging_file: &str) -> (args: Vec<String>)
        ensures
            texts(args@) == seq![
                "transaction"@,
                "finalize"@,
                "--staging"@,
                staging_file@,
            ],
    {
        let mut args: Vec<String> = Vec::new();
        push_arg(&mut args, "transaction");
        push_arg(&mut args, "finalize");
        push_arg(&mut args, "--staging");
        push_arg(&mut args, staging_file);
        assert(texts(args@) =~= seq![
                "transaction"@,
                "finalize"@,
                "--staging"@,
                staging_file@,
        ]);
        args
    }

    /// The command that finalizes the transaction with the given fees, the
    /// change going to `address`.
    pub fn get_finalize_with_fee_command(
        &self,
        address: &str,
        linear_fees: &LinearFee,
        staging_file: &str,
    ) -> (args: Vec<String>)
        ensures
            texts(args@) == seq![
                "transaction"@,
                "finalize"@,
                address@,
                "--fee-certificate"@,
                decimal(linear_fees.certificate as nat),
                "--fee-coefficient"@,
                decimal(linear_fees.coefficient as nat),
                "--fee-constant"@,
                decimal(linear_fees.constant as nat),
                "--staging"@,
                staging_file@,
            ],
    {
        let mut args: Vec<String> = Vec::new();
        push_arg(&mut args, "transaction");
        push_arg(&mut args, "finalize");
        push_arg(&mut args, address);
        push_arg(&mut args, "--fee-certificate");
        push_number(&mut args, linear_fees.certificate);
        push_arg(&mut args, "--fee-coefficient");
        push_number(&mut args, linear_fees.coefficient);
        push_arg(&mut args, "--fee-constant");
        push_number(&mut args, linear_fees.constant);
        push_arg(&mut args, "--staging");
        push_arg(&mut args, staging_file);
        assert(texts(args@) =~= seq![
                "transaction"@,
                "finalize"@,
                address@,
                "--fee-certificate"@,
                decimal(linear_fees.certificate as nat),
                "--fee-coefficient"@,
                decimal(linear_fees.coefficient as nat),
                "--fee-constant"@,
                decimal(linear_fees.constant as nat),
                "--staging"@,
                staging_file@,
        ]);
        args
    }

    /// The command that makes a witness for the transaction `tx_id`. The
    /// spending counter of the account is 0 where none is given.
    pub fn get_make_witness_command(
        &self,
        block0_hash: &str,
        tx_id: &str,
        addr_type: &str,
        spending_account_counter: Option<u32>,
        witness_file: &str,
        witness_key: &str,
    ) -> (args: Vec<String>)
        ensures
            texts(args@) == seq![
                "transaction"@,
                "make-witness"@,
                "--genesis-block-hash"@,
                block0_hash@,
                "--type"@,
                addr_type@,
                tx_id@,
                witness_file@,
                "--account-spending-counter"@,
                decimal(spending_counter(spending_account_counter)),
                witness_key@,
            ],
    {
        let counter: u32 = match spending_account_counter {
            Some(value) => value,
            None => 0,
        };
        let mut args: Vec<String> = Vec::new();
        push_arg(&mut args, "transaction");
        push_arg(&mut args, "make-witness");
        push_arg(&mut args, "--genesis-block-hash");
        push_arg(&mut args, block0_hash);
        push_arg(&mut args, "--type");
        push_arg(&mut args, addr_type);
        push_arg(&mut args, tx_id);
        push_arg(&mut args, witness_file);
        push_arg(&mut args, "--account-spending-counter");
        push_number(&mut args, counter as u64);
        push_arg(&mut args, witness_key);
        assert(texts(args@) =~= seq![
                "transaction"@,
                "make-witness"@,
                "--genesis-block-hash"@,
                block0_hash@,
                "--type"@,
                addr_type@,
                tx_id@,
                witness_file@,
                "--account-spending-counter"@,
                decimal(spending_counter(spending_account_counter)),
                witness_key@,
        ]);
        args
    }

    /// The command that adds the witness in `witness_file` to the transaction.
    pub fn get_add_witness_command(
        &self,
        witness_file: &str,
        staging_file: &str,
    ) -> (args: Vec<String>)
        ensures
            texts(args@) == seq![
                "transaction"@,
                "add-witness"@,
                witness_file@,
                "--staging"@,
                staging_file@,
            ],
    {
        let mut args: Vec<String> = Vec::new();
        push_arg(&mut args, "transaction");
        push_arg(&mut args, "add-witness");
        push_arg(&mut args, witness_file);
        push_arg(&mut args, "--staging");
        push_arg(&mut args, staging_file);
        assert(texts(args@) =~= seq![
                "transaction"@,
                "add-witness"@,
                witness_file@,
                "--staging"@,
                staging_file@,
        ]);
        args
    }

    /// The command that seals the transaction.
    pub fn get_seal_command(&self, staging_file: &str) -> (args: Vec<String>)
        ensures
            texts(args@) == seq![
                "transaction"@,
                "seal"@,
                "--staging"@,
                staging_file@,
            ],
    {
        let mut args: Vec<String> = Vec::new();
        push_arg(&mut args, "transaction");
        push_arg(&mut args, "seal");
        push_arg(&mut args, "--staging");
        push_arg(&mut args, staging_file);
        assert(texts(args@) =~= seq![
                "transaction"@,
                "seal"@,
                "--staging"@,
                staging_file@,
        ]);
        args
    }

    /// The command that authenticates the transaction with the key in
    /// `signing_key`.
    pub fn get_auth_command(&self, signing_key: &str, staging_file: &str) -> (args: Vec<String>)
        ensures
            texts(args@) == seq![
                "transaction"@,
                "auth"@,
                "--staging"@,
                staging_file@,
                "--key"@,
                signing_key@,
            ],
    {
        let mut args: Vec<String> = Vec::new();
        push_arg(&mut args, "transaction");
        push_arg(&mut args, "auth");
        push_arg(&mut args, "--staging");
        push_arg(&mut args, staging_file);
        push_arg(&mut args, "--key");
        push_arg(&mut args, signing_key);
        assert(texts(args@) =~= seq![
                "transaction"@,
                "auth"@,
                "--staging"@,
                staging_file@,
                "--key"@,
                signing_key@,
        ]);
        args
    }

    /// The command that writes the transaction out as a message.
    pub fn get_transaction_message_to_command(&self, staging_file: &str) -> (args: Vec<String>)
        ensures
            texts(args@) == seq![
                "transaction"@,
                "to-message"@,
                "--staging"@,
                staging_file@,
            ],
    {
        let mut args: Vec<String> = Vec::new();
        push_arg(&mut args, "transaction");
        push_arg(&mut args, "to-message");
        push_arg(&mut args, "--staging");
        push_arg(&mut args, staging_file);
        assert(texts(args@) =~= seq![
                "transaction"@,
                "to-message"@,
                "--staging"@,
                staging_file@,
        ]);
        args
    }

    /// The command that prints the data that a witness signs, which holds the
    /// id of the transaction.
    pub fn get_transaction_id_command(&self, staging_file: &str) -> (args: Vec<String>)
        ensures
            texts(args@) == seq![
                "transaction"@,
                "data-for-witness"@,
                "--staging"@,
                staging_file@,
            ],
    {
        let mut args: Vec<String> = Vec::new();
        push_arg(&mut args, "transaction");
        push_arg(&mut args, "data-for-witness");
        push_arg(&mut args, "--staging");
        push_arg(&mut args, staging_file);
        assert(texts(args@) =~= seq![
                "transaction"@,
                "data-for-witness"@,
                "--staging"@,
                staging_file@,
        ]);
        args
    }

    /// The command that prints what the transaction holds, in the given
    /// format.
    pub fn get_transaction_info_command(
        &self,
        format: &str,
        staging_file: &str,
    ) -> (args: Vec<String>)
        ensures
            texts(args@) == seq![
                "transaction"@,
                "info"@,
                "--format"@,
                format@,
                "--staging"@,
                staging_file@,
            ],
    {
        let mut args: Vec<String> = Vec::new();
        push_arg(&mut args, "transaction");
        push_arg(&mut args, "info");
        push_arg(&mut args, "--format");
        push_arg(&mut args, format);
        push_arg(&mut args, "--staging");
        push_arg(&mut args, staging_file);
        assert(texts(args@) =~= seq![
                "transaction"@,
                "info"@,
                "--format"@,
                format@,
                "--staging"@,
                staging_file@,
        ]);
        args
    }
}

} // verus!
