//! TAP devices of the host.

use crate::backend::{self, args5, args6, HostCommandView, PreparedNetwork, PreparedNetworkView};
use crate::config::Config;
use crate::ids::{self, short_id};
use crate::model::{NetworkSpec, NetworkSpecView};
use crate::plan::{self, may_run, must_run, Action, ActionView, Step, StepView, Steps};
use crate::text::{self, byte_len, clone_text};
use vstd::prelude::*;
use vstd::utf8;

verus! {

/// Why a network cannot be made ready.
#[derive(Debug, Clone, Copy, PartialEq, Eq, Structural)]
pub enum NetworkError {
    /// The name of the device is longer than the kernel allows.
    NameTooLong,
}

impl NetworkError {
    /// The error in words.
    pub fn message(self) -> (r: &'static str)
        ensures
            r@ == "tap interface name must be <= 15 characters"@,
    {
        match self {
            NetworkError::NameTooLong => "tap interface name must be <= 15 characters",
        }
    }
}

/// The most bytes that the name of a device can have.
pub const MAX_DEVICE_NAME: usize = 15;

/// The name of the device: the one that was asked for, or one made from the
/// identifier of the machine.
pub open spec fn device_name(tap_name: Option<Seq<char>>, id: u128) -> Seq<char> {
    match tap_name {
        Some(t) => t,
        None => "eph"@ + ids::short_form(id),
    }
}

/// The bridge that was asked for, or else that of the settings.
pub open spec fn bridge_for(
    bridge: Option<Seq<char>>,
    default_bridge: Option<Seq<char>>,
) -> Option<Seq<char>> {
    match bridge {
        Some(b) => Some(b),
        None => default_bridge,
    }
}

/// Takes a device down and removes it, as far as that is possible.
pub open spec fn removal(tap: Seq<char>) -> Seq<Seq<Seq<char>>> {
    seq![
        seq!["link"@, "set"@, "dev"@, tap, "down"@],
        seq!["tuntap"@, "del"@, "dev"@, tap, "mode"@, "tap"@],
    ]
}

/// An `ip` command as an action.
pub open spec fn ip(args: Seq<Seq<char>>) -> ActionView {
    ActionView::Run(HostCommandView { program: "ip"@, args })
}

/// Makes a device, brings it up and, if there is a bridge, attaches it. A device
/// that cannot be attached is removed.
pub open spec fn tap_steps(tap: Seq<char>, bridge: Option<Seq<char>>) -> Seq<StepView> {
    let made = seq![
        plan::must("ip"@, seq!["tuntap"@, "add"@, "dev"@, tap, "mode"@, "tap"@]),
        plan::must("ip"@, seq!["link"@, "set"@, "dev"@, tap, "up"@]),
    ];
    match bridge {
        Some(br) => made.push(
            StepView {
                undo: seq![ip(removal(tap)[0]), ip(removal(tap)[1])],
                ..plan::must("ip"@, seq!["link"@, "set"@, tap, "master"@, br])
            },
        ),
        None => made,
    }
}

/// What has to be done for a network, and the network that is then ready.
pub open spec fn prepared(
    default_bridge: Option<Seq<char>>,
    id: u128,
    spec: NetworkSpecView,
) -> Result<(Seq<StepView>, PreparedNetworkView), NetworkError> {
    match spec {
        NetworkSpecView::Tap { tap_name, bridge, mac } => {
            let tap = device_name(tap_name, id);
            let br = bridge_for(bridge, default_bridge);
            if utf8::encode_utf8(tap).len() > MAX_DEVICE_NAME {
                Err(NetworkError::NameTooLong)
            } else {
                Ok(
                    (
                        tap_steps(tap, br),
                        PreparedNetworkView {
                            spec: NetworkSpecView::Tap { tap_name: Some(tap), bridge: br, mac },
                            tap_name: Some(tap),
                            macvtap_fd: None,
                            netns: None,
                        },
                    ),
                )
            }
        },
        _ => Ok(
            (
                Seq::empty(),
                PreparedNetworkView { spec, tap_name: None, macvtap_fd: None, netns: None },
            ),
        ),
    }
}

fn down(tap: &str) -> (r: backend::Args)
    ensures
        r@ == removal(tap@)[0],
{
    args5("link", "set", "dev", tap, "down")
}

fn del(tap: &str) -> (r: backend::Args)
    ensures
        r@ == removal(tap@)[1],
{
    args6("tuntap", "del", "dev", tap, "mode", "tap")
}

fn make_tap(tap: &str, bridge: &Option<String>) -> (r: Vec<Step>)
    ensures
        text::views(r@) == tap_steps(tap@, text::opt(*bridge)),
{
    let mut steps = Steps::new();
    steps.put(must_run("ip", args6("tuntap", "add", "dev", tap, "mode", "tap")));
    steps.put(must_run("ip", args5("link", "set", "dev", tap, "up")));
    if let Some(br) = bridge {
        let mut s = must_run("ip", args5("link", "set", tap, "master", br.as_str()));
        let mut undo: Vec<Action> = Vec::new();
        undo.push(Action::Run(backend::host_command("ip", down(tap))));
        undo.push(Action::Run(backend::host_command("ip", del(tap))));
        s.undo = undo;
        proof {
            assert(s@.undo =~= seq![ip(removal(tap@)[0]), ip(removal(tap@)[1])]);
        }
        steps.put(s);
    }
    let r = steps.done();
    proof {
        assert(text::views(r@) =~= tap_steps(tap@, text::opt(*bridge)));
    }
    r
}

/// What makes the network of a machine ready.
pub fn prepare(cfg: &Config, id: u128, spec: &NetworkSpec) -> (r: Result<
    (Vec<Step>, PreparedNetwork),
    NetworkError,
>)
    ensures
        match r {
            Ok(p) => prepared(text::opt(cfg.default_bridge), id, spec@) == Ok::<
                (Seq<StepView>, PreparedNetworkView),
                NetworkError,
            >((text::views(p.0@), p.1@)),
            Err(e) => prepared(text::opt(cfg.default_bridge), id, spec@) == Err::<
                (Seq<StepView>, PreparedNetworkView),
                NetworkError,
            >(e),
        },
{
    if let NetworkSpec::Tap { tap_name, bridge, mac } = spec {
        let tap = match tap_name {
            Some(t) => t.clone(),
            None => {
                let short = short_id(id);
                text::cat2("eph", short.as_str())
            },
        };
        if byte_len(tap.as_str()) > MAX_DEVICE_NAME {
            return Err(NetworkError::NameTooLong);
        }
        let bridge = match bridge {
            Some(b) => Some(b.clone()),
            None => clone_text(&cfg.default_bridge),
        };
        let steps = make_tap(tap.as_str(), &bridge);
        let ready = PreparedNetwork {
            spec: NetworkSpec::Tap { tap_name: Some(tap.clone()), bridge, mac: clone_text(mac) },
            tap_name: Some(tap),
            macvtap_fd: None,
            netns: None,
        };
        return Ok((steps, ready));
    }
    let steps: Vec<Step> = Vec::new();
    proof {
        assert(text::views(steps@) =~= Seq::<StepView>::empty());
    }
    let ready = PreparedNetwork {
        spec: spec.clone(),
        tap_name: None,
        macvtap_fd: None,
        netns: None,
    };
    Ok((steps, ready))
}

/// What takes a TAP device away again. Nothing of it has to succeed.
pub fn cleanup_tap(tap: &str) -> (r: Vec<Step>)
    ensures
        text::views(r@) == seq![
            plan::may("ip"@, removal(tap@)[0]),
            plan::may("ip"@, removal(tap@)[1]),
        ],
{
    let mut steps = Steps::new();
    steps.put(may_run("ip", down(tap)));
    steps.put(may_run("ip", del(tap)));
    let r = steps.done();
    proof {
        assert(text::views(r@) =~= seq![
            plan::may("ip"@, removal(tap@)[0]),
            plan::may("ip"@, removal(tap@)[1]),
        ]);
    }
    r
}

/// What takes the device of a network away again. Only a TAP network has one.
pub fn cleanup(spec: &NetworkSpec, tap: &str) -> (r: Vec<Step>)
    ensures
        text::views(r@) == if spec@ is Tap {
            seq![plan::may("ip"@, removal(tap@)[0]), plan::may("ip"@, removal(tap@)[1])]
        } else {
            Seq::empty()
        },
{
    match spec {
        NetworkSpec::Tap { .. } => cleanup_tap(tap),
        _ => {
            let none: Vec<Step> = Vec::new();
            proof {
                assert(text::views(none@) =~= Seq::<StepView>::empty());
            }
            none
        },
    }
}

// ------------------------------------------------------------------------ laws

/// The network of a machine that was made ready with a device names the same
/// device, and one that is short enough for the kernel.
pub proof fn a_ready_device_has_a_short_name(
    default_bridge: Option<Seq<char>>,
    id: u128,
    spec: NetworkSpecView,
)
    ensures
        prepared(default_bridge, id, spec) matches Ok(p) ==> {
            &&& p.1.tap_name is Some <==> spec is Tap
            &&& p.1.tap_name is Some ==> utf8::encode_utf8(p.1.tap_name->0).len()
                <= MAX_DEVICE_NAME && p.1.spec->tap_name == p.1.tap_name
        },
{
}

/// A name that is made from the identifier of a machine is always short enough.
pub proof fn a_name_of_its_own_is_short_enough(id: u128)
    ensures
        utf8::encode_utf8(device_name(None, id)).len() == 11,
        utf8::encode_utf8(device_name(None, id)).len() <= MAX_DEVICE_NAME,
{
    ids::short_form_is_ascii(id);
    let name = device_name(None, id);
    reveal_strlit("eph");
    assert(utf8::is_ascii_chars(name)) by {
        assert forall|i: int| 0 <= i < name.len() implies 0 <= (#[trigger] name[i]) as nat <= 127 by {
            if i >= 3 {
                assert(name[i] == ids::short_form(id)[i - 3]);
            }
        }
    }
    utf8::is_ascii_chars_encode_utf8(name);
}

/// A TAP network gets a device, made and brought up, and attached to the bridge if
/// there is one: that of the request, or else that of the settings. A device that
/// cannot be attached is taken down and removed again. The machine finds the
/// device, the bridge and the address in the network that is ready.
pub proof fn a_device_is_made_and_attached(
    default_bridge: Option<Seq<char>>,
    id: u128,
    tap_name: Option<Seq<char>>,
    bridge: Option<Seq<char>>,
    mac: Option<Seq<char>>,
)
    ensures
        ({
            let spec = NetworkSpecView::Tap { tap_name, bridge, mac };
            let tap = if tap_name is Some {
                tap_name->0
            } else {
                "eph"@ + ids::short_form(id)
            };
            let joins = if bridge is Some {
                bridge
            } else {
                default_bridge
            };
            let r = prepared(default_bridge, id, spec);
            &&& r is Err <==> utf8::encode_utf8(tap).len() > 15
            &&& r matches Ok(p) ==> {
                let steps = p.0;
                &&& p.1.spec == (NetworkSpecView::Tap {
                    tap_name: Some(tap),
                    bridge: joins,
                    mac,
                })
                &&& p.1.tap_name == Some(tap)
                &&& p.1.macvtap_fd is None
                &&& p.1.netns is None
                &&& plan::has_to_run(
                    steps[0],
                    "ip"@,
                    seq!["tuntap"@, "add"@, "dev"@, tap, "mode"@, "tap"@],
                )
                &&& plan::has_to_run(
                    steps[1],
                    "ip"@,
                    seq!["link"@, "set"@, "dev"@, tap, "up"@],
                )
                &&& joins is None ==> steps.len() == 2
                &&& joins is Some ==> {
                    &&& steps.len() == 3
                    &&& plan::has_to_run(
                        steps[2],
                        "ip"@,
                        seq!["link"@, "set"@, tap, "master"@, joins->0],
                    )
                    &&& steps[2].undo.len() == 2
                    &&& steps[2].undo[0] == ActionView::Run(
                        HostCommandView {
                            program: "ip"@,
                            args: seq!["link"@, "set"@, "dev"@, tap, "down"@],
                        },
                    )
                    &&& steps[2].undo[1] == ActionView::Run(
                        HostCommandView {
                            program: "ip"@,
                            args: seq!["tuntap"@, "del"@, "dev"@, tap, "mode"@, "tap"@],
                        },
                    )
                }
            }
        }),
{
}

/// For any other network nothing has to be made, and it is ready as it is.
pub proof fn other_networks_are_ready_as_they_are(
    default_bridge: Option<Seq<char>>,
    id: u128,
    spec: NetworkSpecView,
)
    requires
        !(spec is Tap),
    ensures
        prepared(default_bridge, id, spec) matches Ok(p) && p.0.len() == 0 && p.1.spec == spec
            && p.1.tap_name is None && p.1.macvtap_fd is None && p.1.netns is None,
{
}

/// A device that is taken away is taken down and then removed, by its name.
pub proof fn a_device_is_taken_down_and_removed(tap: Seq<char>)
    ensures
        removal(tap).len() == 2,
        removal(tap)[0] == seq!["link"@, "set"@, "dev"@, tap, "down"@],
        removal(tap)[1] == seq!["tuntap"@, "del"@, "dev"@, tap, "mode"@, "tap"@],
{
}

} // verus!
