use heimdallr::address::{IpAddress, SocketAddress};
use heimdallr::client::{ClientOptions, InitError};
use heimdallr::networking::{ClientRegistrationPkt, DaemonPkt, DaemonPktType};
use heimdallr::text::{parse_u32, same_text};

fn args(list: &[&str]) -> Vec<String> {
    list.iter().map(|s| s.to_string()).collect()
}

#[test]
fn full_command_line_is_read() {
    let options = ClientOptions::parse(&args(&[
        "prog", "-p", "part", "-j", "4", "-n", "node1", "--interface", "eth0",
    ]))
    .unwrap();
    assert_eq!(options.job, "prog");
    assert_eq!(options.partition, "part");
    assert_eq!(options.size, 4);
    assert_eq!(options.node, "node1");
    assert_eq!(options.interface, "eth0");
    assert!(options.cmd_args.is_empty());
    assert!(options.is_complete());
}

#[test]
fn long_flags_and_job_name_are_read() {
    let options = ClientOptions::parse(&args(&[
        "prog", "--partition", "p", "--jobs", "2", "--node", "n", "--job-name", "solver",
    ]))
    .unwrap();
    assert_eq!(options.job, "solver");
    assert_eq!(options.partition, "p");
    assert_eq!(options.size, 2);
    assert_eq!(options.node, "n");
}

#[test]
fn everything_behind_args_goes_to_the_program() {
    let options = ClientOptions::parse(&args(&[
        "prog", "-p", "p", "--args", "-j", "9", "--node", "x",
    ]))
    .unwrap();
    assert_eq!(options.cmd_args, args(&["-j", "9", "--node", "x"]));
    assert_eq!(options.size, 0);
    assert_eq!(options.node, "");
    assert!(!options.is_complete());
}

#[test]
fn last_value_of_a_flag_wins_and_strangers_are_passed_over() {
    let options =
        ClientOptions::parse(&args(&["prog", "what", "-p", "a", "-p", "b", "-j", "1", "-j", "3"]))
            .unwrap();
    assert_eq!(options.partition, "b");
    assert_eq!(options.size, 3);
}

#[test]
fn a_flag_takes_the_next_argument_even_if_it_looks_like_a_flag() {
    let options = ClientOptions::parse(&args(&["prog", "-p", "-n", "x"])).unwrap();
    assert_eq!(options.partition, "-n");
    assert_eq!(options.node, "");
}

#[test]
fn empty_command_line_gives_empty_options() {
    let options = ClientOptions::parse(&Vec::new()).unwrap();
    assert_eq!(options.job, "");
    assert!(!options.is_complete());
    let only_name = ClientOptions::parse(&args(&["prog"])).unwrap();
    assert_eq!(only_name.job, "prog");
    assert!(!only_name.is_complete());
}

#[test]
fn a_flag_without_value_is_an_error() {
    assert_eq!(ClientOptions::parse(&args(&["prog", "-p"])), Err(InitError::Partition));
    assert_eq!(ClientOptions::parse(&args(&["prog", "--partition"])), Err(InitError::Partition));
    assert_eq!(ClientOptions::parse(&args(&["prog", "-j"])), Err(InitError::JobCount));
    assert_eq!(ClientOptions::parse(&args(&["prog", "--jobs"])), Err(InitError::JobCount));
    assert_eq!(ClientOptions::parse(&args(&["prog", "-n"])), Err(InitError::Node));
    assert_eq!(ClientOptions::parse(&args(&["prog", "--node"])), Err(InitError::Node));
    assert_eq!(ClientOptions::parse(&args(&["prog", "--job-name"])), Err(InitError::JobName));
    assert_eq!(ClientOptions::parse(&args(&["prog", "--interface"])), Err(InitError::Interface));
}

#[test]
fn a_job_count_that_is_no_number_is_an_error() {
    assert_eq!(
        ClientOptions::parse(&args(&["prog", "-j", "four"])),
        Err(InitError::JobCountNotANumber)
    );
    assert_eq!(
        ClientOptions::parse(&args(&["prog", "-j", "4294967296"])),
        Err(InitError::JobCountNotANumber)
    );
}

#[test]
fn error_messages_are_worded() {
    assert_eq!(InitError::Partition.message(), "Error in partition argument.");
    assert_eq!(InitError::JobCount.message(), "Error in setting job count.");
    assert_eq!(InitError::Node.message(), "Error in setting node.");
    assert_eq!(InitError::JobName.message(), "Error in setting job-name.");
    assert_eq!(InitError::Interface.message(), "No valid network interface name given.");
    assert_eq!(InitError::JobCountNotANumber.message(), "Job count is not a number.");
}

#[test]
fn completeness_needs_partition_node_and_count() {
    let complete = ClientOptions::parse(&args(&["p", "-p", "a", "-n", "b", "-j", "1"])).unwrap();
    assert!(complete.is_complete());
    let no_partition = ClientOptions::parse(&args(&["p", "-n", "b", "-j", "1"])).unwrap();
    assert!(!no_partition.is_complete());
    let no_node = ClientOptions::parse(&args(&["p", "-p", "a", "-j", "1"])).unwrap();
    assert!(!no_node.is_complete());
    let zero = ClientOptions::parse(&args(&["p", "-p", "a", "-n", "b", "-j", "0"])).unwrap();
    assert!(!zero.is_complete());
}

#[test]
fn node_file_lies_under_the_config_home() {
    let options = ClientOptions::parse(&args(&["p", "-p", "part", "-n", "node1", "-j", "1"])).unwrap();
    assert_eq!(
        options.node_file(None, Some("/home/u".to_string())),
        Some("/home/u/.config/heimdallr/part/node1".to_string())
    );
    assert_eq!(
        options.node_file(Some("/etc/xdg".to_string()), Some("/home/u".to_string())),
        Some("/etc/xdg/heimdallr/part/node1".to_string())
    );
    assert_eq!(options.node_file(None, None), None);
}

#[test]
fn registration_request_carries_job_size_and_listener() {
    let options = ClientOptions::parse(&args(&["solver", "-p", "a", "-n", "b", "-j", "3"])).unwrap();
    let listener = SocketAddress::new(IpAddress::V4(0xc0a8_0001), 40000);
    assert_eq!(
        options.registration(listener),
        DaemonPkt {
            job: "solver".to_string(),
            pkt: DaemonPktType::ClientRegistration(ClientRegistrationPkt {
                job: "solver".to_string(),
                size: 3,
                listener_addr: listener,
            }),
        }
    );
}

#[test]
fn numbers_are_read_like_the_standard_library_reads_them() {
    for text in [
        "0", "7", "42", "007", "+5", "4294967295", "4294967296", "99999999999", "", "+", "-1",
        "1 ", " 1", "1a", "a1", "+-1", "++1", "1+", "٣", "4_000", "0x10",
    ] {
        assert_eq!(parse_u32(text), text.parse::<u32>().ok(), "reading {:?}", text);
    }
    assert_eq!(parse_u32("25000"), Some(25000));
    assert_eq!(parse_u32("4294967295"), Some(u32::MAX));
    assert_eq!(parse_u32("4294967296"), None);
}

#[test]
fn same_text_compares_characters() {
    assert!(same_text("--args", "--args"));
    assert!(!same_text("--args", "--arg"));
    assert!(same_text("", ""));
}
