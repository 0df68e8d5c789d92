use heimdallr::address::{IpAddress, SocketAddress};
use heimdallr::config::{
    config_home, descriptor_path, partition_dir, select_ip, DaemonConfig, NetworkInterface,
};
use heimdallr::coordinator::daemon::{parse_args, ArgError, Daemon, PartitionFile, DAEMON_PORT};

fn args(list: &[&str]) -> Vec<String> {
    list.iter().map(|s| s.to_string()).collect()
}

fn interface(name: &str, ips: &[u32]) -> NetworkInterface {
    NetworkInterface { name: name.to_string(), ips: ips.iter().map(|ip| IpAddress::V4(*ip)).collect() }
}

#[test]
fn daemon_command_line_is_read() {
    assert_eq!(
        parse_args(&args(&["heimdallrd", "-p", "part", "-n", "node1", "--interface", "eth0"])),
        Ok(("node1".to_string(), "part".to_string(), "eth0".to_string()))
    );
    assert_eq!(
        parse_args(&args(&["heimdallrd", "--name", "a", "--partition", "b"])),
        Ok(("a".to_string(), "b".to_string(), String::new()))
    );
    assert_eq!(
        parse_args(&args(&["heimdallrd", "-n", "a", "-n", "b"])),
        Ok(("b".to_string(), String::new(), String::new()))
    );
}

#[test]
fn daemon_command_line_may_be_empty() {
    assert_eq!(parse_args(&Vec::new()), Ok((String::new(), String::new(), String::new())));
    assert_eq!(parse_args(&args(&["heimdallrd"])), Ok((String::new(), String::new(), String::new())));
}

#[test]
fn daemon_flags_need_values() {
    assert_eq!(parse_args(&args(&["d", "-p"])), Err(ArgError::Partition));
    assert_eq!(parse_args(&args(&["d", "--partition"])), Err(ArgError::Partition));
    assert_eq!(parse_args(&args(&["d", "-n"])), Err(ArgError::Name));
    assert_eq!(parse_args(&args(&["d", "--name"])), Err(ArgError::Name));
    assert_eq!(parse_args(&args(&["d", "-p", "x", "--interface"])), Err(ArgError::Interface));
}

#[test]
fn daemon_refuses_unknown_arguments() {
    assert_eq!(parse_args(&args(&["d", "--jobs", "4"])), Err(ArgError::Unknown));
    assert_eq!(parse_args(&args(&["d", "-p", "x", "stray"])), Err(ArgError::Unknown));
}

#[test]
fn daemon_error_messages_are_worded() {
    assert_eq!(ArgError::Partition.message(), "No valid partition name given.");
    assert_eq!(ArgError::Name.message(), "No valid daemon name given.");
    assert_eq!(ArgError::Interface.message(), "No valid network interface name given.");
    assert_eq!(ArgError::Unknown.message(), "Unknown argument error.");
}

#[test]
fn listening_address_defaults_to_the_local_one() {
    let interfaces = vec![interface("lo", &[0x7f00_0001]), interface("eth0", &[0xc0a8_0005])];
    assert_eq!(select_ip(Some(IpAddress::V4(0x0a00_0001)), "", &interfaces), Some(IpAddress::V4(0x0a00_0001)));
    assert_eq!(select_ip(None, "", &interfaces), Some(IpAddress::V4(0)));
    assert_eq!(select_ip(None, "", &Vec::new()), Some(IpAddress::unspecified()));
}

#[test]
fn named_interface_overrides_the_local_address() {
    let interfaces = vec![
        interface("lo", &[0x7f00_0001]),
        interface("eth0", &[0xc0a8_0005, 0xc0a8_0006]),
        interface("eth1", &[0xc0a8_0105]),
    ];
    assert_eq!(
        select_ip(Some(IpAddress::V4(0x0a00_0001)), "eth0", &interfaces),
        Some(IpAddress::V4(0xc0a8_0005))
    );
    assert_eq!(
        select_ip(Some(IpAddress::V4(0x0a00_0001)), "wlan0", &interfaces),
        Some(IpAddress::V4(0x0a00_0001))
    );
    assert_eq!(select_ip(None, "wlan0", &interfaces), Some(IpAddress::V4(0)));
}

#[test]
fn last_interface_of_the_name_wins() {
    let interfaces = vec![interface("eth0", &[1]), interface("lo", &[2]), interface("eth0", &[3])];
    assert_eq!(select_ip(None, "eth0", &interfaces), Some(IpAddress::V4(3)));
}

#[test]
fn named_interface_without_address_gives_none() {
    let interfaces = vec![interface("eth0", &[]), interface("eth0", &[3])];
    assert_eq!(select_ip(None, "eth0", &interfaces), None);
    let later = vec![interface("eth0", &[3]), interface("eth0", &[])];
    assert_eq!(select_ip(Some(IpAddress::V4(9)), "eth0", &later), None);
    assert_eq!(select_ip(None, "", &interfaces), Some(IpAddress::V4(0)));
    assert_eq!(select_ip(None, "lo", &interfaces), Some(IpAddress::V4(0)));
}

#[test]
fn daemon_listens_on_its_port() {
    assert_eq!(DAEMON_PORT, 4664);
    let daemon = Daemon::new("node1", "part", "", Some(IpAddress::V4(0x0a00_0001)), &Vec::new()).unwrap();
    assert_eq!(
        daemon,
        Daemon {
            name: "node1".to_string(),
            partition: "part".to_string(),
            client_listener_addr: SocketAddress::new(IpAddress::V4(0x0a00_0001), 4664),
        }
    );
    let on_interface =
        Daemon::new("n", "p", "eth0", None, &vec![interface("eth0", &[0xc0a8_0005])]).unwrap();
    assert_eq!(on_interface.client_listener_addr, SocketAddress::new(IpAddress::V4(0xc0a8_0005), 4664));
    assert_eq!(Daemon::new("n", "p", "eth0", None, &vec![interface("eth0", &[])]), None);
}

#[test]
fn config_home_prefers_the_named_directory() {
    assert_eq!(
        config_home(Some("/xdg".to_string()), Some("/home/u".to_string())),
        Some("/xdg".to_string())
    );
    assert_eq!(config_home(Some("/xdg".to_string()), None), Some("/xdg".to_string()));
    assert_eq!(config_home(None, Some("/home/u".to_string())), Some("/home/u/.config".to_string()));
    assert_eq!(config_home(None, None), None);
}

#[test]
fn descriptor_paths_are_composed() {
    assert_eq!(partition_dir("/home/u/.config", "part"), "/home/u/.config/heimdallr/part");
    assert_eq!(descriptor_path("/home/u/.config", "part", "node1"), "/home/u/.config/heimdallr/part/node1");
    assert_eq!(descriptor_path("", "", ""), "/heimdallr//");
}

#[test]
fn daemon_config_keeps_its_fields() {
    let client = SocketAddress::new(IpAddress::V4(1), 4664);
    let daemon = SocketAddress::new(IpAddress::V6(2), 4665);
    assert_eq!(
        DaemonConfig::new("node1", "part", client, daemon),
        DaemonConfig {
            name: "node1".to_string(),
            partition: "part".to_string(),
            client_addr: client,
            daemon_addr: daemon,
        }
    );
}

#[test]
fn partition_file_describes_the_daemon() {
    let daemon = Daemon::new("node1", "part", "", Some(IpAddress::V4(7)), &Vec::new()).unwrap();
    let listen = SocketAddress::new(IpAddress::V4(7), 4664);
    assert_eq!(
        daemon.create_partition_file(None, Some("/home/u".to_string())),
        Some(PartitionFile {
            dir: "/home/u/.config/heimdallr/part".to_string(),
            path: "/home/u/.config/heimdallr/part/node1".to_string(),
            config: DaemonConfig::new("node1", "part", listen, listen),
        })
    );
    assert_eq!(
        daemon.create_partition_file(Some("/xdg".to_string()), None).unwrap().path,
        "/xdg/heimdallr/part/node1"
    );
    assert_eq!(daemon.create_partition_file(None, None), None);
}
