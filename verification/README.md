# Ephemera

A control plane for disposable virtual machines under QEMU, Cloud Hypervisor and
Firecracker. What it decides is a library written and proved in Verus; what it
does on the host is a thin program around that library.

## Layout

`src/` is the library. It touches nothing outside itself: it takes plain values
and answers with plain values, commands and next steps.

| Module | What it decides |
| --- | --- |
| `model`, `config` | the data of requests, machines, pools and settings |
| `policy` | which backend a request gets, and whether it keeps the limits |
| `create`, `stop` | how a machine comes up and goes down, event by event |
| `scheduler`, `warm` | the manager: machines, expiry, warm pools |
| `storage` | the records of machines and pools, and vsock addresses |
| `qemu`, `cloud_hypervisor`, `firecracker`, `backend` | command lines, configuration and control calls |
| `qmp`, `http` | what to say to a monitor, and what its answers mean |
| `network`, `netns`, `image`, `cloudinit`, `plan`, `process` | work on the host as lists of steps |
| `protocol`, `vsock`, `guest_agent` | the agent inside a guest, and the way to it |
| `api` | who may do what over REST, metrics, logs |
| `text`, `scan`, `paths`, `json`, `ids`, `clock` | building blocks |

Each module ends with the laws that hold of it as a whole, as public proof
functions.

`tests/` runs the library on concrete values. `app/` is the `ephemera` command:
arguments, files, processes, sockets and the REST server.

## What is taken on trust

Calls into `serde_json`, `uuid`, `chrono` and `sha2`, and four functions of the
standard library, stand behind small functions marked
`#[verifier::external_body]` (or an `assume_specification`) in `json`, `ids`,
`clock`, `image`, `text`, `policy` and `http`. A comment above each says what is
believed of it.

A host offers Cloud Hypervisor guests no pause, resume or clean shutdown, and
prepares no macvtap devices.
