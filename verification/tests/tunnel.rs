use rx11::tunnel::{manual_tunnel_port, next_port_wait_ms, ssh_tunnel_args};

#[test]
fn ssh_arguments() {
    let args = ssh_tunnel_args("host", 22, Some("me"), 7000, 17001, Some("/k"));
    assert_eq!(
        args,
        vec![
            "-N", "-T", "-o", "ExitOnForwardFailure=yes", "-o", "BatchMode=yes", "-o",
            "StrictHostKeyChecking=accept-new", "-o", "ServerAliveInterval=15", "-o",
            "ServerAliveCountMax=3", "-L", "127.0.0.1:17001:127.0.0.1:7000", "-i", "/k", "-p",
            "22", "me@host",
        ]
    );
    let args = ssh_tunnel_args("h", 2222, None, 7000, 40000, None);
    assert_eq!(&args[13..], &["127.0.0.1:40000:127.0.0.1:7000", "-p", "2222", "h"]);
}

#[test]
fn tunnel_ports_and_waits() {
    assert_eq!(manual_tunnel_port(0), 17000);
    assert_eq!(manual_tunnel_port(5), 17005);
    assert_eq!(manual_tunnel_port(60000), 65535);
    assert_eq!(next_port_wait_ms(50), 100);
    assert_eq!(next_port_wait_ms(400), 500);
}
