//! The network of a VM on its host.
//!
//! A networked VM has a tap device on the shared bridge, a MAC and an IP. They are its identity on
//! the network and stay with it when it moves, so that a client's connection follows it.

use vstd::prelude::*;

use crate::hostd::api;
use crate::hostd::api::lossy_text;
use crate::text;
use crate::text::{decimal_of, padded_of, parse_number, split_on, trimmed};

verus! {

/// The bridge that the taps are attached to.
pub const BRIDGE: &'static str = "br-sw";

/// The guests' gateway, which is the bridge's own address.
pub const GATEWAY: &'static str = "10.200.0.1";

/// The guests' netmask.
pub const NETMASK: &'static str = "255.255.255.0";

/// Why a VM's network could not be set up.
#[derive(Debug, PartialEq, Eq)]
pub enum NetError {
    /// An `ip` command failed.
    Command {
        /// The command line.
        cmd: String,
        /// What it said.
        detail: String,
    },
    /// There is no address for a VM of this index.
    OutOfRange(u32),
    /// The VM's place could not be announced.
    Announce(String),
}

impl NetError {
    /// The error in words.
    pub open spec fn words(&self) -> Seq<char> {
        match *self {
            NetError::Command { cmd, detail } => "`"@ + cmd@ + "` failed: "@ + detail@,
            NetError::OutOfRange(idx) => "vm network index "@ + text::decimal(idx as nat)
                + " out of range (max 252)"@,
            NetError::Announce(detail) => "gratuitous ARP announce failed: "@ + detail@,
        }
    }

    /// The error in words.
    pub fn to_text(&self) -> (out: String)
        ensures
            out@ == self.words(),
    {
        match self {
            NetError::Command { cmd, detail } => {
                let mut out = "`".to_owned();
                out.append(cmd);
                out.append("` failed: ");
                out.append(detail);
                out
            },
            NetError::OutOfRange(idx) => {
                let mut out = "vm network index ".to_owned();
                out.append(&decimal_of(*idx as u64));
                out.append(" out of range (max 252)");
                out
            },
            NetError::Announce(detail) => {
                let mut out = "gratuitous ARP announce failed: ".to_owned();
                out.append(detail);
                out
            },
        }
    }
}

/// A VM's identity on the network.
#[derive(Clone, Debug, PartialEq, Eq)]
pub struct NetId {
    /// The tap device on the host.
    pub tap: String,
    /// The guest's MAC.
    pub mac: String,
    /// The guest's IP.
    pub ip: String,
}

/// Whether there is an address for the VM of index `idx`.
pub open spec fn assignable(idx: u32) -> bool {
    idx + 2 <= 254
}

/// The tap of the VM of index `idx`.
pub open spec fn tap_of(idx: u32) -> Seq<char> {
    "sw-tap"@ + text::decimal(idx as nat)
}

/// The MAC of the VM of index `idx`.
pub open spec fn mac_of(idx: u32) -> Seq<char> {
    "02:00:00:00:00:"@ + text::padded((idx + 2) as nat, 16, 2)
}

/// The IP of the VM of index `idx`.
pub open spec fn ip_of(idx: u32) -> Seq<char> {
    "10.200.0."@ + text::decimal((idx + 2) as nat)
}

/// The network identity of the VM of index `idx`.
pub fn create(idx: u32) -> (r: Result<NetId, NetError>)
    ensures
        match r {
            Ok(net) => {
                &&& assignable(idx)
                &&& net.tap@ == tap_of(idx)
                &&& net.mac@ == mac_of(idx)
                &&& net.ip@ == ip_of(idx)
            },
            Err(e) => !assignable(idx) && e == NetError::OutOfRange(idx),
        },
{
    if idx > 252 {
        return Err(NetError::OutOfRange(idx));
    }
    let host: u64 = idx as u64 + 2;
    let mut tap = "sw-tap".to_owned();
    tap.append(&decimal_of(idx as u64));
    let mut mac = "02:00:00:00:00:".to_owned();
    mac.append(&padded_of(host, 16, 2));
    let mut ip = "10.200.0.".to_owned();
    ip.append(&decimal_of(host));
    Ok(NetId { tap, mac, ip })
}

/// No two VMs of a host share a tap, a MAC or an IP.
pub proof fn law_identities_are_distinct(i: u32, j: u32)
    requires
        i != j,
        assignable(i),
        assignable(j),
    ensures
        tap_of(i) != tap_of(j),
        mac_of(i) != mac_of(j),
        ip_of(i) != ip_of(j),
{
    let (di, dj) = (text::decimal(i as nat), text::decimal(j as nat));
    if tap_of(i) == tap_of(j) {
        let n = "sw-tap"@.len() as int;
        assert(tap_of(i).skip(n) =~= di);
        assert(tap_of(j).skip(n) =~= dj);
        text::lemma_decimal_injective(i as nat, j as nat);
    }
    let (hi, hj) = ((i + 2) as nat, (j + 2) as nat);
    if ip_of(i) == ip_of(j) {
        let n = "10.200.0."@.len() as int;
        assert(ip_of(i).skip(n) =~= text::decimal(hi));
        assert(ip_of(j).skip(n) =~= text::decimal(hj));
        text::lemma_decimal_injective(hi, hj);
    }
    if mac_of(i) == mac_of(j) {
        let n = "02:00:00:00:00:"@.len() as int;
        assert(mac_of(i).skip(n) =~= text::padded(hi, 16, 2));
        assert(mac_of(j).skip(n) =~= text::padded(hj, 16, 2));
        text::lemma_padded_injective(hi, hj, 16, 2);
        reveal_with_fuel(text::power, 3);
        assert(text::power(16, 2) == 256);
        assert(hi % 256 == hi && hj % 256 == hj);
    }
}

// ---------------------------------------------------------------------------
// The `ip` commands
// ---------------------------------------------------------------------------

/// The views of the arguments of several commands.
pub open spec fn arg_views(commands: Seq<Vec<String>>) -> Seq<Seq<Seq<char>>> {
    commands.map_values(|c: Vec<String>| text::views(c@))
}

/// The arguments as owned strings.
fn args_of(parts: &[&str]) -> (args: Vec<String>)
    ensures
        args@.len() == parts@.len(),
        forall|i: int| 0 <= i < parts@.len() ==> (#[trigger] args@[i])@ == parts@[i]@,
{
    let mut args: Vec<String> = Vec::new();
    let mut i: usize = 0;
    while i < parts.len()
        invariant
            i <= parts@.len(),
            args@.len() == i,
            forall|j: int| 0 <= j < i ==> (#[trigger] args@[j])@ == parts@[j]@,
        decreases parts@.len() - i,
    {
        args.push(parts[i].to_owned());
        i = i + 1;
    }
    args
}

/// The `ip` commands that create the tap `name` on the bridge and bring it up, in order.
/// [`tap_step`] says what follows each.
pub fn create_tap(name: &str) -> (commands: Vec<Vec<String>>)
    ensures
        arg_views(commands@) == seq![
            seq!["tuntap"@, "add"@, name@, "mode"@, "tap"@],
            seq!["link"@, "set"@, name@, "master"@, BRIDGE@],
            seq!["link"@, "set"@, name@, "up"@],
        ],
{
    let add = args_of(&["tuntap", "add", name, "mode", "tap"]);
    let attach = args_of(&["link", "set", name, "master", BRIDGE]);
    let up = args_of(&["link", "set", name, "up"]);
    proof {
        assert(text::views(add@) =~= seq!["tuntap"@, "add"@, name@, "mode"@, "tap"@]);
        assert(text::views(attach@) =~= seq!["link"@, "set"@, name@, "master"@, BRIDGE@]);
        assert(text::views(up@) =~= seq!["link"@, "set"@, name@, "up"@]);
    }
    let mut commands: Vec<Vec<String>> = Vec::new();
    commands.push(add);
    commands.push(attach);
    commands.push(up);
    proof {
        assert(arg_views(commands@) =~= seq![
            seq!["tuntap"@, "add"@, name@, "mode"@, "tap"@],
            seq!["link"@, "set"@, name@, "master"@, BRIDGE@],
            seq!["link"@, "set"@, name@, "up"@],
        ]);
    }
    commands
}

/// How many commands create a tap.
pub const TAP_COMMANDS: usize = 3;

/// What follows where command `done` of those that create a tap, counted from zero, went as `last`
/// says: the first failure is the error and ends it, and past the last command the tap stands.
pub open spec fn after_tap_command(done: usize, last: Result<(), NetError>) -> Result<
    Option<usize>,
    NetError,
> {
    match last {
        Err(e) => Err(e),
        Ok(_) => if done + 1 == TAP_COMMANDS {
            Ok(None)
        } else {
            Ok(Some((done + 1) as usize))
        },
    }
}

/// The command to run next where command `done` of those that create a tap went as `last` says, or
/// `None` where the tap stands.
pub fn tap_step(done: usize, last: Result<(), NetError>) -> (r: Result<Option<usize>, NetError>)
    requires
        done < TAP_COMMANDS,
    ensures
        r == after_tap_command(done, last),
{
    match last {
        Err(e) => Err(e),
        Ok(()) => if done + 1 == TAP_COMMANDS {
            Ok(None)
        } else {
            Ok(Some(done + 1))
        },
    }
}

/// What the creation of a tap comes to from command `done` on, where the commands would go as
/// `results` say.
pub open spec fn tap_outcome(results: Seq<Result<(), NetError>>, done: usize) -> Result<
    (),
    NetError,
>
    decreases TAP_COMMANDS - done,
{
    if done >= TAP_COMMANDS {
        Ok(())
    } else {
        match after_tap_command(done, results[done as int]) {
            Err(e) => Err(e),
            Ok(None) => Ok(()),
            Ok(Some(next)) => tap_outcome(results, next),
        }
    }
}

/// A tap is created where all its commands succeed, and only there. Otherwise the error is that of
/// the first command that fails, whatever those after it would have done.
pub proof fn law_first_failure_stops_a_tap(results: Seq<Result<(), NetError>>)
    requires
        results.len() == TAP_COMMANDS,
    ensures
        tap_outcome(results, 0) is Ok <==> forall|i: int|
            0 <= i < results.len() ==> #[trigger] results[i] is Ok,
        forall|i: int|
            0 <= i < results.len() && (#[trigger] results[i]) is Err && (forall|j: int|
                0 <= j < i ==> #[trigger] results[j] is Ok) ==> tap_outcome(results, 0)
                == results[i],
{
    reveal_with_fuel(tap_outcome, 4);
    assert(results[0] is Ok || results[0] is Err);
    assert(results[1] is Ok || results[1] is Err);
    assert(results[2] is Ok || results[2] is Err);
}

/// The `ip` command that takes a tap down. Whether it succeeds does not matter.
pub fn destroy(tap: &str) -> (command: Vec<String>)
    ensures
        text::views(command@) == seq!["link"@, "del"@, tap@],
{
    let command = args_of(&["link", "del", tap]);
    proof {
        assert(text::views(command@) =~= seq!["link"@, "del"@, tap@]);
    }
    command
}

/// Texts with a space between them.
pub open spec fn spaced(args: Seq<Seq<char>>) -> Seq<char>
    decreases args.len(),
{
    if args.len() == 0 {
        Seq::empty()
    } else if args.len() == 1 {
        args[0]
    } else {
        spaced(args.drop_last()) + " "@ + args.last()
    }
}

/// The command line of an `ip` command.
pub fn command_line(args: &Vec<String>) -> (cmd: String)
    ensures
        cmd@ == "ip "@ + spaced(text::views(args@)),
{
    let mut cmd = "ip ".to_owned();
    let ghost all = text::views(args@);
    let mut i: usize = 0;
    proof {
        assert("ip "@ + spaced(all.take(0)) =~= "ip "@);
    }
    while i < args.len()
        invariant
            i <= args@.len(),
            all == text::views(args@),
            cmd@ == "ip "@ + spaced(all.take(i as int)),
        decreases args@.len() - i,
    {
        proof {
            assert(all.take(i + 1).drop_last() =~= all.take(i as int));
            assert(all[i as int] == args@[i as int]@);
            assert("ip "@ + spaced(all.take(i as int)) + " "@ + args@[i as int]@ =~= "ip "@ + (
            spaced(all.take(i as int)) + " "@ + args@[i as int]@));
        }
        if i > 0 {
            cmd.append(" ");
        }
        cmd.append(&args[i]);
        i = i + 1;
    }
    proof {
        assert(all.take(i as int) =~= all);
    }
    cmd
}

/// What the end of an `ip` command means: it succeeded, or it failed and this is what it said.
pub fn command_outcome(args: &Vec<String>, success: bool, stderr: &[u8]) -> (r: Result<(), NetError>)
    ensures
        match r {
            Ok(_) => success,
            Err(e) => !success && (e matches NetError::Command { cmd, detail } && cmd@ == "ip "@
                + spaced(text::views(args@)) && detail@ == text::trim(api::lossy_utf8(stderr@))),
        },
{
    if success {
        return Ok(());
    }
    let detail = trimmed(&lossy_text(stderr));
    Err(NetError::Command { cmd: command_line(args), detail })
}

/// What it means that an `ip` command could not be run.
pub fn command_not_run(args: &Vec<String>, detail: String) -> (e: NetError)
    ensures
        e matches NetError::Command { cmd, detail: d } && cmd@ == "ip "@ + spaced(
            text::views(args@),
        ) && d@ == detail@,
{
    NetError::Command { cmd: command_line(args), detail }
}

// ---------------------------------------------------------------------------
// The guest's side
// ---------------------------------------------------------------------------

/// The part of the kernel's command line that gives `eth0` the address `ip`.
pub open spec fn boot_text(ip: Seq<char>) -> Seq<char> {
    "ip="@ + ip + "::"@ + GATEWAY@ + ":"@ + NETMASK@ + "::eth0:off"@
}

/// The part of the kernel's command line that configures `eth0`.
pub fn boot_arg(net: &NetId) -> (arg: String)
    ensures
        arg@ == boot_text(net.ip@),
{
    let mut arg = "ip=".to_owned();
    arg.append(&net.ip);
    arg.append("::");
    arg.append(GATEWAY);
    arg.append(":");
    arg.append(NETMASK);
    arg.append("::eth0:off");
    arg
}

// ---------------------------------------------------------------------------
// The announcement
// ---------------------------------------------------------------------------

/// The bytes that `count` parts between separators write, each a number of base `radix`.
pub open spec fn byte_parts(s: Seq<char>, sep: char, radix: nat, count: nat) -> Option<Seq<u8>> {
    let parts = text::split(s, sep);
    if parts.len() == count && (forall|i: int|
        0 <= i < count ==> text::parse_unsigned(#[trigger] parts[i], radix, 255) is Some) {
        Some(Seq::new(count, |i: int| (text::parse_unsigned(parts[i], radix, 255)->0) as u8))
    } else {
        None
    }
}

/// Reads the bytes that `count` parts between separators write.
fn read_parts(s: &str, sep: char, radix: u8, count: usize) -> (out: Option<Vec<u8>>)
    requires
        2 <= radix <= 36,
    ensures
        match out {
            Some(v) => byte_parts(s@, sep, radix as nat, count as nat) == Some(v@),
            None => byte_parts(s@, sep, radix as nat, count as nat) is None,
        },
{
    let parts = split_on(s, sep);
    let ghost texts = text::split(s@, sep);
    proof {
        assert(text::views(parts@).len() == parts@.len());
    }
    if parts.len() != count {
        return None;
    }
    let mut out: Vec<u8> = Vec::new();
    let mut i: usize = 0;
    while i < count
        invariant
            i <= count == parts@.len(),
            2 <= radix <= 36,
            texts == text::split(s@, sep),
            texts == text::views(parts@),
            out@.len() == i,
            forall|j: int|
                0 <= j < i ==> text::parse_unsigned(#[trigger] texts[j], radix as nat, 255) == Some(
                    out@[j] as nat,
                ),
        decreases count - i,
    {
        proof {
            assert(texts[i as int] == parts@[i as int]@);
        }
        match parse_number(&parts[i], radix, 255) {
            Some(n) => {
                out.push(n as u8);
            },
            None => {
                return None;
            },
        }
        i = i + 1;
    }
    proof {
        assert(out@ =~= Seq::new(
            count as nat,
            |i: int| (text::parse_unsigned(texts[i], radix as nat, 255)->0) as u8,
        ));
    }
    Some(out)
}

/// The bytes of a MAC.
pub open spec fn mac_bytes(s: Seq<char>) -> Option<Seq<u8>> {
    byte_parts(s, ':', 16, 6)
}

/// The bytes of an IPv4 address.
pub open spec fn ipv4_bytes(s: Seq<char>) -> Option<Seq<u8>> {
    byte_parts(s, '.', 10, 4)
}

/// Reads a MAC.
pub fn parse_mac(s: &str) -> (r: Result<[u8; 6], NetError>)
    ensures
        match r {
            Ok(mac) => mac_bytes(s@) == Some(mac@),
            Err(e) => mac_bytes(s@) is None && (e matches NetError::Announce(detail) && detail@
                == "bad mac "@ + s@),
        },
{
    match read_parts(s, ':', 16, 6) {
        Some(v) => {
            let mac: [u8; 6] = [v[0], v[1], v[2], v[3], v[4], v[5]];
            proof {
                assert(mac@ =~= v@);
            }
            Ok(mac)
        },
        None => {
            let mut detail = "bad mac ".to_owned();
            detail.append(s);
            Err(NetError::Announce(detail))
        },
    }
}

/// Reads an IPv4 address.
pub fn parse_ipv4(s: &str) -> (r: Result<[u8; 4], NetError>)
    ensures
        match r {
            Ok(ip) => ipv4_bytes(s@) == Some(ip@),
            Err(e) => ipv4_bytes(s@) is None && (e matches NetError::Announce(detail) && detail@
                == "bad ip "@ + s@),
        },
{
    match read_parts(s, '.', 10, 4) {
        Some(v) => {
            let ip: [u8; 4] = [v[0], v[1], v[2], v[3]];
            proof {
                assert(ip@ =~= v@);
            }
            Ok(ip)
        },
        None => {
            let mut detail = "bad ip ".to_owned();
            detail.append(s);
            Err(NetError::Announce(detail))
        },
    }
}

/// The Ethernet frame of a gratuitous ARP request: broadcast by `mac`, asking for `ip` on behalf of
/// `ip` itself.
pub open spec fn arp_frame(mac: Seq<u8>, ip: Seq<u8>) -> Seq<u8> {
    seq![0xffu8, 0xff, 0xff, 0xff, 0xff, 0xff] + mac + seq![
        0x08u8, 0x06, 0x00, 0x01, 0x08, 0x00, 6, 4, 0x00, 0x01,
    ] + mac + ip + seq![0u8, 0, 0, 0, 0, 0] + ip
}

/// The frame that announces a VM's place: broadcast on the bridge after a restore, it makes every
/// host learn at once where the VM's MAC is now.
pub fn announce(net: &NetId) -> (r: Result<[u8; 42], NetError>)
    ensures
        match r {
            Ok(frame) => {
                &&& mac_bytes(net.mac@) is Some
                &&& ipv4_bytes(net.ip@) is Some
                &&& frame@ == arp_frame(mac_bytes(net.mac@)->0, ipv4_bytes(net.ip@)->0)
            },
            Err(e) => e matches NetError::Announce(detail) && if mac_bytes(net.mac@) is None {
                detail@ == "bad mac "@ + net.mac@
            } else {
                ipv4_bytes(net.ip@) is None && detail@ == "bad ip "@ + net.ip@
            },
        },
{
    let m = match parse_mac(&net.mac) {
        Ok(mac) => mac,
        Err(e) => {
            return Err(e);
        },
    };
    let p = match parse_ipv4(&net.ip) {
        Ok(ip) => ip,
        Err(e) => {
            return Err(e);
        },
    };
    let frame: [u8; 42] = [
        0xff, 0xff, 0xff, 0xff, 0xff, 0xff,
        m[0], m[1], m[2], m[3], m[4], m[5],
        0x08, 0x06, 0x00, 0x01, 0x08, 0x00, 6, 4, 0x00, 0x01,
        m[0], m[1], m[2], m[3], m[4], m[5],
        p[0], p[1], p[2], p[3],
        0, 0, 0, 0, 0, 0,
        p[0], p[1], p[2], p[3],
    ];
    proof {
        assert(frame@ =~= arp_frame(m@, p@));
    }
    Ok(frame)
}

/// An announcement is heard by everyone and speaks of one VM only: it is broadcast from the VM's MAC,
/// names that MAC as the sender's, and the VM's IP both as the sender's and as the one asked for.
pub proof fn law_announcement_is_gratuitous(mac: Seq<u8>, ip: Seq<u8>)
    requires
        mac.len() == 6,
        ip.len() == 4,
    ensures
        arp_frame(mac, ip).len() == 42,
        forall|i: int| 0 <= i < 6 ==> #[trigger] arp_frame(mac, ip)[i] == 0xff,
        arp_frame(mac, ip).subrange(6, 12) == mac,
        arp_frame(mac, ip).subrange(12, 14) == seq![0x08u8, 0x06],
        arp_frame(mac, ip).subrange(20, 22) == seq![0x00u8, 0x01],
        arp_frame(mac, ip).subrange(22, 28) == mac,
        arp_frame(mac, ip).subrange(28, 32) == ip,
        arp_frame(mac, ip).subrange(38, 42) == ip,
{
    let frame = arp_frame(mac, ip);
    assert(frame.subrange(6, 12) =~= mac);
    assert(frame.subrange(12, 14) =~= seq![0x08u8, 0x06]);
    assert(frame.subrange(20, 22) =~= seq![0x00u8, 0x01]);
    assert(frame.subrange(22, 28) =~= mac);
    assert(frame.subrange(28, 32) =~= ip);
    assert(frame.subrange(38, 42) =~= ip);
}

/// A VM's address ends in a number of its own, two more than its index, and it is an address of the
/// guests' network: its other three numbers are those of the gateway.
pub proof fn law_addresses_are_of_the_network(idx: u32)
    requires
        assignable(idx),
    ensures
        ipv4_bytes(ip_of(idx)) == Some(seq![10u8, 200, 0, (idx + 2) as u8]),
{
    let host = text::decimal((idx + 2) as nat);
    let ip = ip_of(idx);
    reveal_strlit("10.200.0.");
    let (a, b, c) = (seq!['1', '0'], seq!['2', '0', '0'], seq!['0']);
    text::law_decimal_is_digits((idx + 2) as nat);
    assert(!host.contains('.')) by {
        assert forall|i: int| 0 <= i < host.len() implies host[i] != '.' by {
            assert('0' <= host[i] <= '9');
        }
    }
    let third = c.push('.') + host;
    let second = b.push('.') + third;
    assert(ip =~= a.push('.') + second);
    text::law_first_part_comes_off(a, '.', second);
    text::law_first_part_comes_off(b, '.', third);
    text::law_first_part_comes_off(c, '.', host);
    text::law_text_without_separator_is_one_part(host, '.');
    let parts = text::split(ip, '.');
    assert(parts =~= seq![a, b, c, host]);
    text::law_decimal_is_read_back((idx + 2) as nat, 255);
    reveal_with_fuel(text::digits_value, 4);
    assert(a.drop_last() =~= seq!['1']);
    assert(a.drop_last().drop_last() =~= Seq::<char>::empty());
    assert(b.drop_last() =~= seq!['2', '0']);
    assert(b.drop_last().drop_last() =~= seq!['2']);
    assert(b.drop_last().drop_last().drop_last() =~= Seq::<char>::empty());
    assert(c.drop_last() =~= Seq::<char>::empty());
    assert(text::parse_unsigned(a, 10, 255) == Some(10nat));
    assert(text::parse_unsigned(b, 10, 255) == Some(200nat));
    assert(text::parse_unsigned(c, 10, 255) == Some(0nat));
    let bytes = byte_parts(ip, '.', 10, 4);
    assert(bytes->0 =~= seq![10u8, 200, 0, (idx + 2) as u8]);
}

/// A VM's MAC is a local one that ends in the same number as its address.
pub proof fn law_macs_are_local(idx: u32)
    requires
        assignable(idx),
    ensures
        mac_bytes(mac_of(idx)) == Some(seq![2u8, 0, 0, 0, 0, (idx + 2) as u8]),
{
    let n = (idx + 2) as nat;
    let host = text::padded(n, 16, 2);
    let mac = mac_of(idx);
    reveal_strlit("02:00:00:00:00:");
    let (two, nil) = (seq!['0', '2'], seq!['0', '0']);
    text::law_padded_round_trip(n, 16, 2);
    reveal_with_fuel(text::power, 3);
    assert(text::power(16, 2) == 256);
    assert(text::digit_value(':') == 99);
    assert(text::digit_value('+') == 99);
    assert(!host.contains(':')) by {
        assert forall|i: int| 0 <= i < host.len() implies host[i] != ':' by {
            assert(text::digit_value(host[i]) < 16);
        }
    }
    let t5 = nil.push(':') + host;
    let t4 = nil.push(':') + t5;
    let t3 = nil.push(':') + t4;
    let t2 = nil.push(':') + t3;
    assert(mac =~= two.push(':') + t2);
    text::law_first_part_comes_off(two, ':', t2);
    text::law_first_part_comes_off(nil, ':', t3);
    text::law_first_part_comes_off(nil, ':', t4);
    text::law_first_part_comes_off(nil, ':', t5);
    text::law_first_part_comes_off(nil, ':', host);
    text::law_text_without_separator_is_one_part(host, ':');
    let parts = text::split(mac, ':');
    assert(parts =~= seq![two, nil, nil, nil, nil, host]);
    reveal_with_fuel(text::digits_value, 3);
    assert(two.drop_last() =~= seq!['0']);
    assert(two.drop_last().drop_last() =~= Seq::<char>::empty());
    assert(nil.drop_last() =~= seq!['0']);
    assert(text::parse_unsigned(two, 16, 255) == Some(2nat));
    assert(text::parse_unsigned(nil, 16, 255) == Some(0nat));
    assert(text::unsigned_digits(host) == host) by {
        assert(text::digit_value(host[0]) < 16);
    }
    assert(text::parse_unsigned(host, 16, 255) == Some(n));
    assert(byte_parts(mac, ':', 16, 6)->0 =~= seq![2u8, 0, 0, 0, 0, (idx + 2) as u8]);
}

/// The rest of an announcement is that of a request over Ethernet for an IPv4 address, of no one's
/// hardware.
pub proof fn law_announcement_is_a_request(mac: Seq<u8>, ip: Seq<u8>)
    requires
        mac.len() == 6,
        ip.len() == 4,
    ensures
        arp_frame(mac, ip).subrange(14, 16) == seq![0u8, 1],
        arp_frame(mac, ip).subrange(16, 18) == seq![8u8, 0],
        arp_frame(mac, ip)[18] == mac.len(),
        arp_frame(mac, ip)[19] == ip.len(),
        forall|i: int| 32 <= i < 38 ==> #[trigger] arp_frame(mac, ip)[i] == 0,
{
    let frame = arp_frame(mac, ip);
    assert(frame.subrange(14, 16) =~= seq![0u8, 1]);
    assert(frame.subrange(16, 18) =~= seq![8u8, 0]);
}

/// A command line holds its arguments in their order with one space between each two.
pub proof fn law_command_line_has_its_arguments(first: Seq<char>, rest: Seq<Seq<char>>)
    ensures
        spaced(seq![first]) == first,
        rest.len() > 0 ==> spaced(seq![first] + rest) == first + " "@ + spaced(rest),
        spaced(Seq::empty()) == Seq::<char>::empty(),
    decreases rest.len(),
{
    if rest.len() == 1 {
        let both = seq![first] + rest;
        assert(both.drop_last() =~= seq![first]);
        assert(both.last() == rest[0]);
    } else if rest.len() > 1 {
        let init = rest.drop_last();
        law_command_line_has_its_arguments(first, init);
        let both = seq![first] + rest;
        assert(both.drop_last() =~= seq![first] + init);
        assert(both.last() == rest.last());
        assert(spaced(both) =~= first + " "@ + spaced(rest));
    }
}

/// There is a VM for every address of the network that is neither the network's own, the gateway's nor
/// the broadcast one.
pub proof fn law_as_many_vms_as_addresses(idx: u32)
    ensures
        assignable(idx) <==> 1 < idx + 2 < 255,
{
}

} // verus!
