use jormungandr::testing::jcli_transaction_commands::LinearFee;
use jormungandr::testing::{Explorer, TransactionCommands};
use jormungandr::text::to_decimal;

#[test]
fn decimal_text() {
    assert_eq!(to_decimal(0), "0");
    assert_eq!(to_decimal(7), "7");
    assert_eq!(to_decimal(10), "10");
    assert_eq!(to_decimal(1905), "1905");
    assert_eq!(to_decimal(u64::MAX), "18446744073709551615");
}

#[test]
fn explorer_keeps_its_address() {
    assert_eq!(Explorer::new(String::from("127.0.0.1:8443")).address(), "127.0.0.1:8443");
    assert_eq!(Explorer::new(String::new()).address(), "");
}

#[test]
fn new_transaction() {
    let commands = TransactionCommands::new();
    assert_eq!(
        commands.get_new_transaction_command("tx.staging"),
        vec!["transaction", "new", "--staging", "tx.staging"]
    );
}

#[test]
fn add_input() {
    let commands = TransactionCommands::new();
    assert_eq!(
        commands.get_add_input_command("f00d", 255, "100", "tx.staging"),
        vec!["transaction", "add-input", "f00d", "255", "100", "--staging", "tx.staging"]
    );
}

#[test]
fn add_account_certificate_and_output() {
    let commands = TransactionCommands::new();
    assert_eq!(
        commands.get_add_account_command("ca1q", "42", "s"),
        vec!["transaction", "add-account", "ca1q", "42", "--staging", "s"]
    );
    assert_eq!(
        commands.get_add_certificate_command("cert1", "s"),
        vec!["transaction", "add-certificate", "cert1", "--staging", "s"]
    );
    assert_eq!(
        commands.get_add_output_command("ca1q", "42", "s"),
        vec!["transaction", "add-output", "ca1q", "42", "--staging", "s"]
    );
}

#[test]
fn finalize() {
    let commands = TransactionCommands::new();
    assert_eq!(
        commands.get_finalize_command("s"),
        vec!["transaction", "finalize", "--staging", "s"]
    );
    let fees = LinearFee { constant: 3, coefficient: 20, certificate: 100 };
    assert_eq!(
        commands.get_finalize_with_fee_command("ca1q", &fees, "s"),
        vec![
            "transaction",
            "finalize",
            "ca1q",
            "--fee-certificate",
            "100",
            "--fee-coefficient",
            "20",
            "--fee-constant",
            "3",
            "--staging",
            "s",
        ]
    );
}

#[test]
fn make_witness() {
    let commands = TransactionCommands::new();
    assert_eq!(
        commands.get_make_witness_command("b0", "tx1", "account", Some(17), "w.file", "k.file"),
        vec![
            "transaction",
            "make-witness",
            "--genesis-block-hash",
            "b0",
            "--type",
            "account",
            "tx1",
            "w.file",
            "--account-spending-counter",
            "17",
            "k.file",
        ]
    );
    let without = commands.get_make_witness_command("b0", "tx1", "utxo", None, "w", "k");
    assert_eq!(without[9], "0");
}

#[test]
fn witness_seal_auth_and_output_commands() {
    let commands = TransactionCommands::new();
    assert_eq!(
        commands.get_add_witness_command("w", "s"),
        vec!["transaction", "add-witness", "w", "--staging", "s"]
    );
    assert_eq!(commands.get_seal_command("s"), vec!["transaction", "seal", "--staging", "s"]);
    assert_eq!(
        commands.get_auth_command("key", "s"),
        vec!["transaction", "auth", "--staging", "s", "--key", "key"]
    );
    assert_eq!(
        commands.get_transaction_message_to_command("s"),
        vec!["transaction", "to-message", "--staging", "s"]
    );
    assert_eq!(
        commands.get_transaction_id_command("s"),
        vec!["transaction", "data-for-witness", "--staging", "s"]
    );
    assert_eq!(
        commands.get_transaction_info_command("{id}", "s"),
        vec!["transaction", "info", "--format", "{id}", "--staging", "s"]
    );
}
