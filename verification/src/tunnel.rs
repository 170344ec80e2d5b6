//! The SSH tunnel: the arguments of the `ssh` command that forwards a local port to the
//! remote relay, and the local port it uses.

use vstd::prelude::*;

use crate::stats::string_views;
use crate::text::{decimal_string, spec_decimal};

verus! {

/// The first local port of the tunnels for chosen displays; display `N` uses this plus `N`.
pub const MANUAL_TUNNEL_BASE_PORT: u16 = 17000;

/// The `ssh` arguments, without the optional parts.
pub open spec fn ssh_fixed_args(remote_relay_port: u16, local_bind_port: u16) -> Seq<Seq<char>> {
    seq![
        "-N"@,
        "-T"@,
        "-o"@,
        "ExitOnForwardFailure=yes"@,
        "-o"@,
        "BatchMode=yes"@,
        "-o"@,
        "StrictHostKeyChecking=accept-new"@,
        "-o"@,
        "ServerAliveInterval=15"@,
        "-o"@,
        "ServerAliveCountMax=3"@,
        "-L"@,
        "127.0.0.1:"@ + spec_decimal(local_bind_port as nat) + ":127.0.0.1:"@ + spec_decimal(
            remote_relay_port as nat,
        ),
    ]
}

/// The arguments of the `ssh` command that forwards local port `local_bind_port` to the
/// relay's port on the remote host, without a terminal or a command, failing where the
/// forward fails, never asking for a password, accepting a host key seen for the first
/// time, and checking every 15 seconds that the server is alive.
pub open spec fn spec_ssh_args(
    host: Seq<char>,
    port: u16,
    user: Option<Seq<char>>,
    remote_relay_port: u16,
    local_bind_port: u16,
    identity_file: Option<Seq<char>>,
) -> Seq<Seq<char>> {
    let base = ssh_fixed_args(remote_relay_port, local_bind_port);
    let with_identity = match identity_file {
        Some(i) => base + seq!["-i"@, i],
        None => base,
    };
    let target = match user {
        Some(u) => u + "@"@ + host,
        None => host,
    };
    with_identity + seq!["-p"@, spec_decimal(port as nat), target]
}

pub open spec fn opt_view(o: Option<&str>) -> Option<Seq<char>> {
    match o {
        Some(s) => Some(s@),
        None => None,
    }
}

fn push_str(v: &mut Vec<String>, s: &str)
    ensures
        string_views(final(v)@) == string_views(old(v)@).push(s@),
{
    v.push(s.to_owned());
    assert(string_views(v@) =~= string_views(old(v)@).push(s@));
}

fn push_string(v: &mut Vec<String>, s: String)
    ensures
        string_views(final(v)@) == string_views(old(v)@).push(s@),
{
    v.push(s);
    assert(string_views(v@) =~= string_views(old(v)@).push(s@));
}

/// The arguments of the `ssh` command for the tunnel.
pub fn ssh_tunnel_args(
    host: &str,
    port: u16,
    user: Option<&str>,
    remote_relay_port: u16,
    local_bind_port: u16,
    identity_file: Option<&str>,
) -> (args: Vec<String>)
    ensures
        string_views(args@) == spec_ssh_args(
            host@,
            port,
            opt_view(user),
            remote_relay_port,
            local_bind_port,
            opt_view(identity_file),
        ),
{
    let mut args: Vec<String> = Vec::new();
    push_str(&mut args, "-N");
    push_str(&mut args, "-T");
    push_str(&mut args, "-o");
    push_str(&mut args, "ExitOnForwardFailure=yes");
    push_str(&mut args, "-o");
    push_str(&mut args, "BatchMode=yes");
    push_str(&mut args, "-o");
    push_str(&mut args, "StrictHostKeyChecking=accept-new");
    push_str(&mut args, "-o");
    push_str(&mut args, "ServerAliveInterval=15");
    push_str(&mut args, "-o");
    push_str(&mut args, "ServerAliveCountMax=3");
    push_str(&mut args, "-L");
    let mut forward = "127.0.0.1:".to_owned();
    forward.append(decimal_string(local_bind_port as u64).as_str());
    forward.append(":127.0.0.1:");
    forward.append(decimal_string(remote_relay_port as u64).as_str());
    push_string(&mut args, forward);
    let ghost base = string_views(args@);
    assert(base =~= ssh_fixed_args(remote_relay_port, local_bind_port));
    match identity_file {
        Some(id) => {
            push_str(&mut args, "-i");
            push_str(&mut args, id);
        },
        None => {},
    }
    let ghost with_identity = string_views(args@);
    assert(with_identity =~= match opt_view(identity_file) {
        Some(i) => base + seq!["-i"@, i],
        None => base,
    });
    push_str(&mut args, "-p");
    push_string(&mut args, decimal_string(port as u64));
    let target = match user {
        Some(u) => {
            let mut t = u.to_owned();
            t.append("@");
            t.append(host);
            t
        },
        None => host.to_owned(),
    };
    push_string(&mut args, target);
    proof {
        assert(string_views(args@) =~= spec_ssh_args(
            host@,
            port,
            opt_view(user),
            remote_relay_port,
            local_bind_port,
            opt_view(identity_file),
        ));
    }
    args
}

/// The local port of the tunnel for a chosen display: 17000 plus the display, saturating.
pub fn manual_tunnel_port(display: u16) -> (p: u16)
    ensures
        p == (if MANUAL_TUNNEL_BASE_PORT + display > u16::MAX {
            u16::MAX as int
        } else {
            MANUAL_TUNNEL_BASE_PORT + display
        }),
{
    if display > u16::MAX - MANUAL_TUNNEL_BASE_PORT {
        u16::MAX
    } else {
        MANUAL_TUNNEL_BASE_PORT + display
    }
}

/// The pause before the next look at whether the tunnel's port is open: twice the last
/// one, up to half a second.
pub fn next_port_wait_ms(delay_ms: u64) -> (r: u64)
    ensures
        r == (if 2 * delay_ms < 500 { 2 * delay_ms } else { 500 }),
{
    if delay_ms < 250 {
        delay_ms * 2
    } else {
        500
    }
}

} // verus!
