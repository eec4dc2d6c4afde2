//! A network namespace for one machine: a pair of virtual Ethernet devices
//! between the host and the namespace, a bridge inside that joins it to the TAP
//! device of the machine, and address translation on the host.
//!
//! ```text
//!   host                                  |  namespace
//!   vh... 169.254.X.1/30  <-- veth pair -->  vn... -- br... -- tap... -- machine
//!   masquerade 169.254.X.0/30             |  169.254.X.2/30 on br...
//! ```
//!
//! `X` follows from the six low bits of the identifier of the machine: nothing
//! is written down, and two machines can share a subnet.

use crate::backend::{self, args2, args3, args4, args5, args6, args8, Args, HostCommandView};
use crate::ids::{self, short_id};
use crate::plan::{self, may_run, must_run, Action, ActionView, Step, StepView, Steps};
use crate::text::{self, decimal};
use vstd::prelude::*;
use vstd::utf8;

verus! {

/// The namespace of a machine and the TAP device in it.
#[derive(Debug)]
pub struct NetnsHandle {
    pub netns: String,
    pub tap_name: String,
}

/// The third number of the subnet of a machine: a multiple of four.
pub open spec fn octet_of(id: u128) -> int {
    (id % 64) as int * 4
}

pub fn subnet_octet(id: u128) -> (r: u8)
    ensures
        r == octet_of(id),
{
    let low: u8 = (id % 64) as u8;
    low * 4
}

// ----------------------------------------------------------------------- names

/// The name of a device of a machine.
pub open spec fn named(prefix: Seq<char>, id: u128) -> Seq<char> {
    prefix + ids::short_form(id)
}

/// An address in the subnet of a machine.
pub open spec fn address(id: u128, tail: Seq<char>) -> Seq<char> {
    "169.254."@ + text::dec(octet_of(id) as nat) + tail
}

fn address_of(id: u128, tail: &str) -> (r: String)
    ensures
        r@ == address(id, tail@),
{
    let n = decimal(subnet_octet(id) as u64);
    text::cat3("169.254.", n.as_str(), tail)
}

fn name_of(prefix: &str, id: u128) -> (r: String)
    ensures
        r@ == named(prefix@, id),
{
    let short = short_id(id);
    text::cat2(prefix, short.as_str())
}

// ----------------------------------------------------------------------- steps

/// The rule that translates the addresses of a machine: `-C` looks for it, `-A`
/// adds it, `-D` drops it.
pub open spec fn nat_rule(what: Seq<char>, id: u128) -> Seq<Seq<char>> {
    seq![
        "-t"@,
        "nat"@,
        what,
        "POSTROUTING"@,
        "-s"@,
        address(id, ".0/30"@),
        "-j"@,
        "MASQUERADE"@,
    ]
}

fn nat_args(what: &str, id: u128) -> (r: Args)
    ensures
        r@ == nat_rule(what@, id),
{
    let subnet = address_of(id, ".0/30");
    args8("-t", "nat", what, "POSTROUTING", "-s", subnet.as_str(), "-j", "MASQUERADE")
}

/// Drops the rule and the namespace, and with it every device in it, as far as
/// that is possible.
pub open spec fn removal(id: u128, netns: Seq<char>) -> Seq<ActionView> {
    seq![
        ActionView::Run(HostCommandView { program: "iptables"@, args: nat_rule("-D"@, id) }),
        ActionView::Run(HostCommandView { program: "ip"@, args: seq!["netns"@, "del"@, netns] }),
    ]
}

fn removal_actions(id: u128, netns: &str) -> (r: Vec<Action>)
    ensures
        text::views(r@) == removal(id, netns@),
{
    let del = args3("netns", "del", netns);
    let mut r: Vec<Action> = Vec::new();
    r.push(Action::Run(backend::host_command("iptables", nat_args("-D", id))));
    r.push(Action::Run(backend::host_command("ip", del)));
    proof {
        assert(text::views(r@) =~= removal(id, netns@));
    }
    r
}

/// A command that has to succeed; if it fails, everything is removed.
pub open spec fn step(
    id: u128,
    program: Seq<char>,
    args: Seq<Seq<char>>,
    purpose: Seq<char>,
) -> StepView {
    StepView {
        undo: removal(id, named("eph-"@, id)),
        purpose,
        ..plan::must(program, args)
    }
}

/// An `ip` command on the host.
pub open spec fn host_step(id: u128, args: Seq<Seq<char>>, purpose: Seq<char>) -> StepView {
    step(id, "ip"@, args, purpose)
}

/// An `ip` command inside the namespace.
pub open spec fn inner_step(id: u128, args: Seq<Seq<char>>, purpose: Seq<char>) -> StepView {
    step(id, "ip"@, seq!["netns"@, "exec"@, named("eph-"@, id), "ip"@] + args, purpose)
}

/// The namespace and the pair of devices that leads into it.
pub open spec fn outer_steps(id: u128) -> Seq<StepView> {
    let netns = named("eph-"@, id);
    let veth_host = named("vh"@, id);
    let veth_ns = named("vn"@, id);
    seq![
        host_step(id, seq!["netns"@, "add"@, netns], "creating network namespace"@),
        host_step(
            id,
            seq!["link"@, "add"@, veth_host, "type"@, "veth"@, "peer"@, "name"@, veth_ns],
            "creating veth pair"@,
        ),
        host_step(
            id,
            seq!["link"@, "set"@, veth_ns, "netns"@, netns],
            "moving veth namespace-end into the namespace"@,
        ),
        host_step(
            id,
            seq!["addr"@, "add"@, address(id, ".1/30"@), "dev"@, veth_host],
            "assigning host-end veth address"@,
        ),
        host_step(id, seq!["link"@, "set"@, veth_host, "up"@], "bringing up host-end veth"@),
    ]
}

/// The bridge and the TAP device inside the namespace.
pub open spec fn device_steps(id: u128) -> Seq<StepView> {
    let veth_ns = named("vn"@, id);
    let bridge = named("br"@, id);
    let tap = named("tap"@, id);
    seq![
        inner_step(
            id,
            seq!["link"@, "set"@, "lo"@, "up"@],
            "bringing up loopback in namespace"@,
        ),
        inner_step(
            id,
            seq!["link"@, "add"@, bridge, "type"@, "bridge"@],
            "creating internal bridge in namespace"@,
        ),
        inner_step(
            id,
            seq!["link"@, "set"@, veth_ns, "master"@, bridge],
            "attaching veth namespace-end to internal bridge"@,
        ),
        inner_step(
            id,
            seq!["tuntap"@, "add"@, "dev"@, tap, "mode"@, "tap"@],
            "creating tap device in namespace"@,
        ),
    ]
}

/// The address of the TAP device, if one was asked for.
pub open spec fn mac_steps(id: u128, mac: Option<Seq<char>>) -> Seq<StepView> {
    match mac {
        Some(m) => seq![
            inner_step(
                id,
                seq!["link"@, "set"@, "dev"@, named("tap"@, id), "address"@, m],
                "setting tap MAC address"@,
            ),
        ],
        None => Seq::empty(),
    }
}

/// Everything joined and brought up, with a way out.
pub open spec fn join_steps(id: u128) -> Seq<StepView> {
    let veth_ns = named("vn"@, id);
    let bridge = named("br"@, id);
    let tap = named("tap"@, id);
    seq![
        inner_step(
            id,
            seq!["link"@, "set"@, tap, "master"@, bridge],
            "attaching tap to internal bridge"@,
        ),
        inner_step(
            id,
            seq!["addr"@, "add"@, address(id, ".2/30"@), "dev"@, bridge],
            "assigning internal bridge address"@,
        ),
        inner_step(
            id,
            seq!["link"@, "set"@, veth_ns, "up"@],
            "bringing up veth namespace-end"@,
        ),
        inner_step(id, seq!["link"@, "set"@, tap, "up"@], "bringing up tap"@),
        inner_step(id, seq!["link"@, "set"@, bridge, "up"@], "bringing up internal bridge"@),
        inner_step(
            id,
            seq!["route"@, "add"@, "default"@, "via"@, address(id, ".1"@)],
            "adding default route in namespace"@,
        ),
    ]
}

/// The host forwards and translates for the namespace. A rule that is there is
/// not added again.
pub open spec fn nat_steps(id: u128) -> Seq<StepView> {
    seq![
        step(id, "sysctl"@, seq!["-w"@, "net.ipv4.ip_forward=1"@], "enabling IP forwarding"@),
        StepView {
            unless: Some(
                ActionView::Run(
                    HostCommandView { program: "iptables"@, args: nat_rule("-C"@, id) },
                ),
            ),
            ..step(id, "iptables"@, nat_rule("-A"@, id), "adding NAT rule"@)
        },
    ]
}

pub open spec fn prepare_steps(id: u128, mac: Option<Seq<char>>) -> Seq<StepView> {
    outer_steps(id) + device_steps(id) + mac_steps(id, mac) + join_steps(id) + nat_steps(id)
}

fn new_step(id: u128, program: &str, args: Args, purpose: &str) -> (r: Step)
    ensures
        r@ == step(id, program@, args@, purpose@),
{
    let netns = name_of("eph-", id);
    let mut s = must_run(program, args);
    s.undo = removal_actions(id, netns.as_str());
    s.purpose = purpose.to_owned();
    s
}

fn outside(steps: &mut Steps, id: u128, args: Args, purpose: &str)
    ensures
        final(steps)@ == old(steps)@.push(host_step(id, args@, purpose@)),
{
    steps.put(new_step(id, "ip", args, purpose));
}

fn inside(steps: &mut Steps, id: u128, args: Args, purpose: &str)
    ensures
        final(steps)@ == old(steps)@.push(inner_step(id, args@, purpose@)),
{
    let netns = name_of("eph-", id);
    let mut full = args4("netns", "exec", netns.as_str(), "ip");
    let tail = args.done();
    full.extend(&tail);
    steps.put(new_step(id, "ip", full, purpose));
}

fn put_outer(steps: &mut Steps, id: u128)
    ensures
        final(steps)@ == old(steps)@ + outer_steps(id),
{
    let ghost before = steps@;
    let netns = name_of("eph-", id);
    let veth_host = name_of("vh", id);
    let veth_ns = name_of("vn", id);
    let host_ip = address_of(id, ".1/30");
    let ns: &str = netns.as_str();
    let vh: &str = veth_host.as_str();
    let vn: &str = veth_ns.as_str();
    outside(steps, id, args3("netns", "add", ns), "creating network namespace");
    outside(
        steps,
        id,
        args8("link", "add", vh, "type", "veth", "peer", "name", vn),
        "creating veth pair",
    );
    outside(
        steps,
        id,
        args5("link", "set", vn, "netns", ns),
        "moving veth namespace-end into the namespace",
    );
    outside(
        steps,
        id,
        args5("addr", "add", host_ip.as_str(), "dev", vh),
        "assigning host-end veth address",
    );
    outside(steps, id, args4("link", "set", vh, "up"), "bringing up host-end veth");
    proof {
        assert(steps@ =~= before + outer_steps(id));
    }
}

fn put_devices(steps: &mut Steps, id: u128)
    ensures
        final(steps)@ == old(steps)@ + device_steps(id),
{
    let ghost before = steps@;
    let veth_ns = name_of("vn", id);
    let bridge = name_of("br", id);
    let tap = name_of("tap", id);
    let br: &str = bridge.as_str();
    inside(steps, id, args4("link", "set", "lo", "up"), "bringing up loopback in namespace");
    inside(
        steps,
        id,
        args5("link", "add", br, "type", "bridge"),
        "creating internal bridge in namespace",
    );
    inside(
        steps,
        id,
        args5("link", "set", veth_ns.as_str(), "master", br),
        "attaching veth namespace-end to internal bridge",
    );
    inside(
        steps,
        id,
        args6("tuntap", "add", "dev", tap.as_str(), "mode", "tap"),
        "creating tap device in namespace",
    );
    proof {
        assert(steps@ =~= before + device_steps(id));
    }
}

fn put_mac(steps: &mut Steps, id: u128, mac: &Option<String>)
    ensures
        final(steps)@ == old(steps)@ + mac_steps(id, text::opt(*mac)),
{
    let ghost before = steps@;
    if let Some(m) = mac {
        let tap = name_of("tap", id);
        inside(
            steps,
            id,
            args6("link", "set", "dev", tap.as_str(), "address", m.as_str()),
            "setting tap MAC address",
        );
    }
    proof {
        assert(steps@ =~= before + mac_steps(id, text::opt(*mac)));
    }
}

fn put_join(steps: &mut Steps, id: u128)
    ensures
        final(steps)@ == old(steps)@ + join_steps(id),
{
    let ghost before = steps@;
    let veth_ns = name_of("vn", id);
    let bridge = name_of("br", id);
    let tap_name = name_of("tap", id);
    let ns_ip = address_of(id, ".2/30");
    let gateway = address_of(id, ".1");
    let br: &str = bridge.as_str();
    let tap: &str = tap_name.as_str();
    inside(
        steps,
        id,
        args5("link", "set", tap, "master", br),
        "attaching tap to internal bridge",
    );
    inside(
        steps,
        id,
        args5("addr", "add", ns_ip.as_str(), "dev", br),
        "assigning internal bridge address",
    );
    inside(
        steps,
        id,
        args4("link", "set", veth_ns.as_str(), "up"),
        "bringing up veth namespace-end",
    );
    inside(steps, id, args4("link", "set", tap, "up"), "bringing up tap");
    inside(steps, id, args4("link", "set", br, "up"), "bringing up internal bridge");
    inside(
        steps,
        id,
        args5("route", "add", "default", "via", gateway.as_str()),
        "adding default route in namespace",
    );
    proof {
        assert(steps@ =~= before + join_steps(id));
    }
}

fn put_nat(steps: &mut Steps, id: u128)
    ensures
        final(steps)@ == old(steps)@ + nat_steps(id),
{
    let ghost before = steps@;
    steps.put(
        new_step(id, "sysctl", args2("-w", "net.ipv4.ip_forward=1"), "enabling IP forwarding"),
    );
    let mut rule = new_step(id, "iptables", nat_args("-A", id), "adding NAT rule");
    rule.unless = Some(Action::Run(backend::host_command("iptables", nat_args("-C", id))));
    steps.put(rule);
    proof {
        assert(steps@ =~= before + nat_steps(id));
    }
}

/// What makes the namespace of a machine, and the names of what it makes.
pub fn prepare(id: u128, mac: &Option<String>) -> (r: (Vec<Step>, NetnsHandle))
    ensures
        text::views(r.0@) == prepare_steps(id, text::opt(*mac)),
        r.1.netns@ == named("eph-"@, id),
        r.1.tap_name@ == named("tap"@, id),
{
    let mut steps = Steps::new();
    put_outer(&mut steps, id);
    put_devices(&mut steps, id);
    put_mac(&mut steps, id, mac);
    put_join(&mut steps, id);
    put_nat(&mut steps, id);
    let steps = steps.done();
    proof {
        assert(text::views(steps@) =~= prepare_steps(id, text::opt(*mac)));
    }
    (steps, NetnsHandle { netns: name_of("eph-", id), tap_name: name_of("tap", id) })
}

/// What takes the namespace of a machine away again. Nothing of it has to
/// succeed.
pub fn cleanup(id: u128, netns: &str) -> (r: Vec<Step>)
    ensures
        text::views(r@) == seq![
            plan::may("iptables"@, nat_rule("-D"@, id)),
            plan::may("ip"@, seq!["netns"@, "del"@, netns@]),
        ],
{
    let mut steps = Steps::new();
    steps.put(may_run("iptables", nat_args("-D", id)));
    steps.put(may_run("ip", args3("netns", "del", netns)));
    let r = steps.done();
    proof {
        assert(text::views(r@) =~= seq![
            plan::may("iptables"@, nat_rule("-D"@, id)),
            plan::may("ip"@, seq!["netns"@, "del"@, netns@]),
        ]);
    }
    r
}

// ------------------------------------------------------------------------ laws

/// There are 64 subnets, each of four addresses, and a machine is always in the
/// same one.
pub proof fn subnets_are_aligned(id: u128, other: u128)
    ensures
        0 <= octet_of(id) <= 252,
        octet_of(id) % 4 == 0,
        octet_of(id) == octet_of(other) <==> id % 64 == other % 64,
{
}

/// The names of all devices of a machine are short enough for the kernel.
pub proof fn device_names_are_short(id: u128)
    ensures
        utf8::encode_utf8(named("vh"@, id)).len() == 10,
        utf8::encode_utf8(named("vn"@, id)).len() == 10,
        utf8::encode_utf8(named("br"@, id)).len() == 10,
        utf8::encode_utf8(named("tap"@, id)).len() == 11,
{
    reveal_strlit("vh");
    reveal_strlit("vn");
    reveal_strlit("br");
    reveal_strlit("tap");
    lemma_named_is_ascii("vh"@, id);
    lemma_named_is_ascii("vn"@, id);
    lemma_named_is_ascii("br"@, id);
    lemma_named_is_ascii("tap"@, id);
}

proof fn lemma_named_is_ascii(prefix: Seq<char>, id: u128)
    requires
        utf8::is_ascii_chars(prefix),
    ensures
        utf8::encode_utf8(named(prefix, id)).len() == prefix.len() + 8,
{
    ids::short_form_is_ascii(id);
    let name = named(prefix, id);
    assert(utf8::is_ascii_chars(name)) by {
        assert forall|i: int| 0 <= i < name.len() implies 0 <= (#[trigger] name[i]) as nat <= 127 by {
            if i >= prefix.len() {
                assert(name[i] == ids::short_form(id)[i - prefix.len()]);
            } else {
                assert(name[i] == prefix[i]);
            }
        }
    }
    utf8::is_ascii_chars_encode_utf8(name);
}

/// Whatever step fails, everything that was made is removed: every step undoes
/// the same.
pub proof fn every_failure_removes_everything(id: u128, mac: Option<Seq<char>>, i: int)
    requires
        0 <= i < prepare_steps(id, mac).len(),
    ensures
        prepare_steps(id, mac)[i].undo == removal(id, named("eph-"@, id)),
        !prepare_steps(id, mac)[i].optional,
{
}

/// The step runs `ip` inside the namespace of the machine, and has to succeed.
pub open spec fn runs_inside(s: StepView, id: u128, args: Seq<Seq<char>>) -> bool {
    plan::has_to_run(
        s,
        "ip"@,
        seq!["netns"@, "exec"@, "eph-"@ + ids::short_form(id), "ip"@] + args,
    )
}

/// First the namespace is made, then a pair of devices, one end of which is moved
/// into it; the end on the host gets the first address of the subnet and is
/// brought up.
pub proof fn a_pair_of_devices_leads_into_the_namespace(id: u128, mac: Option<Seq<char>>)
    ensures
        ({
            let steps = prepare_steps(id, mac);
            let short = ids::short_form(id);
            let subnet = "169.254."@ + text::dec(((id % 64) * 4) as nat);
            &&& plan::has_to_run(steps[0], "ip"@, seq!["netns"@, "add"@, "eph-"@ + short])
            &&& plan::has_to_run(
                steps[1],
                "ip"@,
                seq![
                    "link"@,
                    "add"@,
                    "vh"@ + short,
                    "type"@,
                    "veth"@,
                    "peer"@,
                    "name"@,
                    "vn"@ + short,
                ],
            )
            &&& plan::has_to_run(
                steps[2],
                "ip"@,
                seq!["link"@, "set"@, "vn"@ + short, "netns"@, "eph-"@ + short],
            )
            &&& plan::has_to_run(
                steps[3],
                "ip"@,
                seq!["addr"@, "add"@, subnet + ".1/30"@, "dev"@, "vh"@ + short],
            )
            &&& plan::has_to_run(steps[4], "ip"@, seq!["link"@, "set"@, "vh"@ + short, "up"@])
        }),
{
}

/// Inside the namespace a bridge joins the other end of the pair to the device of
/// the machine, which has the address of the request, if it names one.
pub proof fn a_bridge_joins_the_machine_to_the_pair(id: u128, mac: Option<Seq<char>>)
    ensures
        ({
            let steps = prepare_steps(id, mac);
            let short = ids::short_form(id);
            let m: int = if mac is Some {
                1
            } else {
                0
            };
            &&& runs_inside(steps[5], id, seq!["link"@, "set"@, "lo"@, "up"@])
            &&& runs_inside(
                steps[6],
                id,
                seq!["link"@, "add"@, "br"@ + short, "type"@, "bridge"@],
            )
            &&& runs_inside(
                steps[7],
                id,
                seq!["link"@, "set"@, "vn"@ + short, "master"@, "br"@ + short],
            )
            &&& runs_inside(
                steps[8],
                id,
                seq!["tuntap"@, "add"@, "dev"@, "tap"@ + short, "mode"@, "tap"@],
            )
            &&& mac is Some ==> runs_inside(
                steps[9],
                id,
                seq!["link"@, "set"@, "dev"@, "tap"@ + short, "address"@, mac->0],
            )
            &&& runs_inside(
                steps[9 + m],
                id,
                seq!["link"@, "set"@, "tap"@ + short, "master"@, "br"@ + short],
            )
        }),
{
}

/// The bridge gets the second address of the subnet, everything is brought up, the
/// way out leads over the host's end of the pair, and the host forwards and
/// translates for the whole subnet, by a rule that is not added twice.
pub proof fn the_way_out_leads_over_the_host(id: u128, mac: Option<Seq<char>>)
    ensures
        ({
            let steps = prepare_steps(id, mac);
            let short = ids::short_form(id);
            let subnet = "169.254."@ + text::dec(((id % 64) * 4) as nat);
            let m: int = if mac is Some {
                1
            } else {
                0
            };
            let rule = |what: Seq<char>|
                ActionView::Run(
                    HostCommandView {
                        program: "iptables"@,
                        args: seq![
                            "-t"@,
                            "nat"@,
                            what,
                            "POSTROUTING"@,
                            "-s"@,
                            subnet + ".0/30"@,
                            "-j"@,
                            "MASQUERADE"@,
                        ],
                    },
                );
            &&& steps.len() == 17 + m
            &&& runs_inside(
                steps[10 + m],
                id,
                seq!["addr"@, "add"@, subnet + ".2/30"@, "dev"@, "br"@ + short],
            )
            &&& runs_inside(steps[11 + m], id, seq!["link"@, "set"@, "vn"@ + short, "up"@])
            &&& runs_inside(steps[12 + m], id, seq!["link"@, "set"@, "tap"@ + short, "up"@])
            &&& runs_inside(steps[13 + m], id, seq!["link"@, "set"@, "br"@ + short, "up"@])
            &&& runs_inside(
                steps[14 + m],
                id,
                seq!["route"@, "add"@, "default"@, "via"@, subnet + ".1"@],
            )
            &&& plan::has_to_run(steps[15 + m], "sysctl"@, seq!["-w"@, "net.ipv4.ip_forward=1"@])
            &&& steps[16 + m].action == rule("-A"@)
            &&& steps[16 + m].unless == Some(rule("-C"@))
            &&& !steps[16 + m].optional
        }),
{
}

/// What is taken away again is the rule of the machine's own subnet and its own
/// namespace, with everything in it.
pub proof fn what_was_made_is_taken_away(id: u128, netns: Seq<char>)
    ensures
        ({
            let subnet = "169.254."@ + text::dec(((id % 64) * 4) as nat);
            let rule = seq![
                "-t"@,
                "nat"@,
                "-D"@,
                "POSTROUTING"@,
                "-s"@,
                subnet + ".0/30"@,
                "-j"@,
                "MASQUERADE"@,
            ];
            &&& nat_rule("-D"@, id) == rule
            &&& removal(id, netns).len() == 2
            &&& removal(id, netns)[0] == ActionView::Run(
                HostCommandView { program: "iptables"@, args: rule },
            )
            &&& removal(id, netns)[1] == ActionView::Run(
                HostCommandView { program: "ip"@, args: seq!["netns"@, "del"@, netns] },
            )
        }),
{
}

/// Every step says what it is for.
pub proof fn every_step_says_what_it_is_for(id: u128, mac: Option<Seq<char>>)
    ensures
        ({
            let steps = prepare_steps(id, mac);
            let m: int = if mac is Some {
                1
            } else {
                0
            };
            &&& steps[0].purpose == "creating network namespace"@
            &&& steps[1].purpose == "creating veth pair"@
            &&& steps[2].purpose == "moving veth namespace-end into the namespace"@
            &&& steps[3].purpose == "assigning host-end veth address"@
            &&& steps[4].purpose == "bringing up host-end veth"@
            &&& steps[5].purpose == "bringing up loopback in namespace"@
            &&& steps[6].purpose == "creating internal bridge in namespace"@
            &&& steps[7].purpose == "attaching veth namespace-end to internal bridge"@
            &&& steps[8].purpose == "creating tap device in namespace"@
            &&& mac is Some ==> steps[9].purpose == "setting tap MAC address"@
            &&& steps[9 + m].purpose == "attaching tap to internal bridge"@
            &&& steps[10 + m].purpose == "assigning internal bridge address"@
            &&& steps[11 + m].purpose == "bringing up veth namespace-end"@
            &&& steps[12 + m].purpose == "bringing up tap"@
            &&& steps[13 + m].purpose == "bringing up internal bridge"@
            &&& steps[14 + m].purpose == "adding default route in namespace"@
            &&& steps[15 + m].purpose == "enabling IP forwarding"@
            &&& steps[16 + m].purpose == "adding NAT rule"@
        }),
{
}

} // verus!
