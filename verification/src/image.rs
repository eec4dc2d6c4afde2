//! Disk images: building reusable ones, and copying them for instances.

use crate::backend::{self, args2, args3, args4, args5, args8, Args, HostCommand, HostCommandView};
use crate::config::Config;
use crate::json::{self, json_as_str, json_get, json_parse, Json};
use crate::model::BackendKind;
use crate::paths::{self, join, with_extension};
use crate::plan::{self, must_run, new_step, Action, ActionView, CopyIn, CopyInView, Step,
    StepView, Steps};
use crate::protocol::{self, token_file_path};
use crate::scan::{self, eq_ignore_ascii_case, has_prefix};
use crate::text::{self, chars_of, clone_texts, decimal, hex_of, same_text, text_of};
use vstd::prelude::*;

verus! {

#[derive(Debug)]
pub struct BuildImageRequest {
    pub source: String,
    pub output: String,
    pub format: String,
    pub size_gib: Option<u64>,
    /// The digest that the source is pinned to.
    pub sha256: Option<String>,
    pub hostname: Option<String>,
    pub packages: Vec<String>,
    pub commands: Vec<String>,
    pub ssh_key: Option<String>,
    /// Files that go into the image before anything else is changed in it.
    pub copy_in: Vec<CopyIn>,
    /// Services that are enabled in the image.
    pub enable_services: Vec<String>,
}

#[verifier::ext_equal]
pub struct BuildImageRequestView {
    pub source: Seq<char>,
    pub output: Seq<char>,
    pub format: Seq<char>,
    pub size_gib: Option<u64>,
    pub sha256: Option<Seq<char>>,
    pub hostname: Option<Seq<char>>,
    pub packages: Seq<Seq<char>>,
    pub commands: Seq<Seq<char>>,
    pub ssh_key: Option<Seq<char>>,
    pub copy_in: Seq<CopyInView>,
    pub enable_services: Seq<Seq<char>>,
}

impl View for BuildImageRequest {
    type V = BuildImageRequestView;

    open spec fn view(&self) -> BuildImageRequestView {
        BuildImageRequestView {
            source: self.source@,
            output: self.output@,
            format: self.format@,
            size_gib: self.size_gib,
            sha256: text::opt(self.sha256),
            hostname: text::opt(self.hostname),
            packages: text::views(self.packages@),
            commands: text::views(self.commands@),
            ssh_key: text::opt(self.ssh_key),
            copy_in: text::views(self.copy_in@),
            enable_services: text::views(self.enable_services@),
        }
    }
}

/// The format of an image whose request names none.
pub fn default_format() -> (r: String)
    ensures
        r@ == "qcow2"@,
{
    "qcow2".to_owned()
}

#[derive(Debug)]
pub struct BuildImageResult {
    pub output: String,
    pub format: String,
}

// --------------------------------------------------------------------- sources

/// Where the source of an image comes from.
#[derive(Debug)]
pub enum Source {
    Local { path: String },
    /// From the network into the file `dest`, unless that exists.
    Download { url: String, dir: String, dest: String },
}

/// The source is an address on the web.
pub open spec fn is_url(source: Seq<char>) -> bool {
    scan::starts_with(source, "http://"@) || scan::starts_with(source, "https://"@)
}

/// What follows the last slash of an address; `base.img` if nothing does.
pub open spec fn download_name(source: Seq<char>) -> Seq<char> {
    let name = source.skip(paths::after_last(source, '/'));
    if name.len() == 0 {
        "base.img"@
    } else {
        name
    }
}

/// Where the source of an image is, or from where and to where to fetch it.
pub fn fetch_if_needed(cfg: &Config, source: &str) -> (r: Source)
    ensures
        match r {
            Source::Local { path } => !is_url(source@) && path@ == source@,
            Source::Download { url, dir, dest } => {
                &&& is_url(source@)
                &&& url@ == source@
                &&& dir@ == paths::joined(cfg.state_dir@, "downloads"@)
                &&& dest@ == paths::joined(dir@, download_name(source@))
            },
        },
{
    if !has_prefix(source, "http://") && !has_prefix(source, "https://") {
        return Source::Local { path: source.to_owned() };
    }
    let dir = join(cfg.state_dir.as_str(), "downloads");
    let v = chars_of(source);
    let start = paths::last_of(&v, 0, v.len(), '/');
    proof {
        assert(v@.subrange(0, v@.len() as int) =~= v@);
    }
    let name = if start == v.len() {
        "base.img".to_owned()
    } else {
        text_of(&v, start, v.len())
    };
    proof {
        assert(v@.subrange(start as int, v@.len() as int) =~= v@.skip(start as int));
    }
    let dest = join(dir.as_str(), name.as_str());
    Source::Download { url: source.to_owned(), dir, dest }
}

// --------------------------------------------------------------------- digests

/// The SHA-256 digest of a file.
pub uninterp spec fn sha256_digest(bytes: Seq<u8>) -> Seq<u8>;

/// `sha2::Sha256::digest`: the same bytes always give the same 32 bytes.
#[verifier::external_body]
fn sha256(bytes: &Vec<u8>) -> (r: Vec<u8>)
    ensures
        r@ == sha256_digest(bytes@),
        r@.len() == 32,
{
    <sha2::Sha256 as sha2::Digest>::digest(bytes).to_vec()
}

/// The digest that a file has in place of the one that was wanted.
#[derive(Debug)]
pub struct DigestMismatch {
    pub got: String,
}

impl DigestMismatch {
    /// The mismatch in words.
    pub fn message(&self, wanted: &str) -> (r: String)
        ensures
            r@ == "sha256 mismatch: expected "@ + wanted@ + ", got "@ + self.got@,
    {
        text::cat4("sha256 mismatch: expected ", wanted, ", got ", self.got.as_str())
    }
}

/// Whether a digest is the one that is wanted in hexadecimal, in capital or
/// small letters.
pub fn digest_matches(digest: &Vec<u8>, wanted: &str) -> (r: Result<(), DigestMismatch>)
    ensures
        match r {
            Ok(_) => scan::equal_ignoring_case(text::hex(digest@), wanted@),
            Err(m) => !scan::equal_ignoring_case(text::hex(digest@), wanted@) && m.got@
                == text::hex(digest@),
        },
{
    let got = hex_of(digest);
    if eq_ignore_ascii_case(got.as_str(), wanted) {
        Ok(())
    } else {
        Err(DigestMismatch { got })
    }
}

/// Whether a file has the digest that is wanted.
pub fn verify_sha256(bytes: &Vec<u8>, wanted: &str) -> (r: Result<(), DigestMismatch>)
    ensures
        match r {
            Ok(_) => scan::equal_ignoring_case(text::hex(sha256_digest(bytes@)), wanted@),
            Err(m) => !scan::equal_ignoring_case(text::hex(sha256_digest(bytes@)), wanted@)
                && m.got@ == text::hex(sha256_digest(bytes@)),
        },
{
    let digest = sha256(bytes);
    digest_matches(&digest, wanted)
}

// --------------------------------------------------------------------- building

/// A `--run-command` for each command.
pub open spec fn run_args(commands: Seq<Seq<char>>) -> Seq<Seq<char>>
    decreases commands.len(),
{
    if commands.len() == 0 {
        Seq::empty()
    } else {
        run_args(commands.drop_last()) + seq!["--run-command"@, commands.last()]
    }
}

/// The file that holds the key of a request while it is put into the image.
pub open spec fn key_file(output: Seq<char>) -> Seq<char> {
    paths::extended(output, "builder.pub"@)
}

/// The arguments of `virt-customize`.
pub open spec fn customize_args(req: BuildImageRequestView) -> Seq<Seq<char>> {
    let host = match req.hostname {
        Some(h) => seq!["--hostname"@, h],
        None => Seq::empty(),
    };
    let install = if req.packages.len() > 0 {
        seq!["--install"@, text::separated(req.packages, ","@)]
    } else {
        Seq::empty()
    };
    let key = match req.ssh_key {
        Some(_) => seq!["--ssh-inject"@, "root:file:"@ + key_file(req.output)],
        None => Seq::empty(),
    };
    seq!["-a"@, req.output] + host + install + run_args(req.commands) + key
}

/// The image is changed after it was made.
pub open spec fn is_customized(req: BuildImageRequestView) -> bool {
    req.hostname is Some || req.packages.len() > 0 || req.commands.len() > 0 || req.ssh_key is Some
}

/// Changes the image. A key is written to a file first, and the file is removed
/// whether the change succeeds or not.
pub open spec fn customize_steps(virt_customize: Seq<char>, req: BuildImageRequestView) -> Seq<
    StepView,
> {
    let run = plan::must(virt_customize, customize_args(req));
    if !is_customized(req) {
        Seq::empty()
    } else {
        match req.ssh_key {
            None => seq![run],
            Some(key) => {
                let path = key_file(req.output);
                seq![
                    StepView {
                        purpose: "writing temporary ssh key"@,
                        ..plan::step_of(ActionView::WriteFile { path, contents: key })
                    },
                    StepView { undo: seq![ActionView::RemoveFile { path }], ..run },
                    StepView {
                        optional: true,
                        ..plan::step_of(ActionView::RemoveFile { path })
                    },
                ]
            },
        }
    }
}

/// `qemu-img resize` to a number of GiB.
pub open spec fn resize_args(image: Seq<char>, size: u64) -> Seq<Seq<char>> {
    seq!["resize"@, image, text::dec(size as nat) + "G"@]
}

pub open spec fn resize_steps(qemu_img: Seq<char>, image: Seq<char>, size: Option<u64>) -> Seq<
    StepView,
> {
    match size {
        Some(s) => seq![plan::must(qemu_img, resize_args(image, s))],
        None => Seq::empty(),
    }
}

pub open spec fn inject_steps(req: BuildImageRequestView) -> Seq<StepView> {
    if req.copy_in.len() > 0 || req.enable_services.len() > 0 {
        seq![
            plan::step_of(
                ActionView::InjectFiles {
                    image: req.output,
                    files: req.copy_in,
                    services: req.enable_services,
                },
            ),
        ]
    } else {
        Seq::empty()
    }
}

/// Converts the source, grows the image, puts files into it and changes it, as
/// far as the request asks for it.
pub open spec fn build_steps(
    qemu_img: Seq<char>,
    virt_customize: Seq<char>,
    req: BuildImageRequestView,
    src: Seq<char>,
) -> Seq<StepView> {
    seq![
        plan::step_of(ActionView::MakeParent { path: req.output }),
        plan::must(qemu_img, seq!["convert"@, "-O"@, req.format, src, req.output]),
    ] + resize_steps(qemu_img, req.output, req.size_gib) + inject_steps(req) + customize_steps(
        virt_customize,
        req,
    )
}

fn put_resize(steps: &mut Steps, cfg: &Config, image: &str, size: Option<u64>)
    ensures
        final(steps)@ == old(steps)@ + resize_steps(cfg.qemu_img_binary@, image@, size),
{
    let ghost before = steps@;
    if let Some(s) = size {
        let n = decimal(s);
        let gib = text::cat2(n.as_str(), "G");
        steps.put(
            must_run(cfg.qemu_img_binary.as_str(), args3("resize", image, gib.as_str())),
        );
    }
    proof {
        assert(steps@ =~= before + resize_steps(cfg.qemu_img_binary@, image@, size));
    }
}

fn put_run_args(a: &mut Args, commands: &Vec<String>)
    ensures
        final(a)@ == old(a)@ + run_args(text::views(commands@)),
{
    let ghost before = a@;
    let ghost all = text::views(commands@);
    let mut i: usize = 0;
    proof {
        assert(all.take(0) =~= Seq::<Seq<char>>::empty());
        assert(a@ =~= before + run_args(all.take(0)));
    }
    while i < commands.len()
        invariant
            i <= commands@.len(),
            all == text::views(commands@),
            a@ == before + run_args(all.take(i as int)),
        decreases commands@.len() - i,
    {
        a.flag("--run-command", commands[i].clone());
        proof {
            assert(all.take(i + 1).drop_last() =~= all.take(i as int));
            assert(all.take(i + 1).last() == commands@[i as int]@);
            assert(a@ =~= before + run_args(all.take(i + 1)));
        }
        i += 1;
    }
    proof {
        assert(all.take(i as int) =~= all);
    }
}

fn key_path(output: &str) -> (r: String)
    ensures
        r@ == key_file(output@),
{
    proof {
        reveal_strlit("builder.pub");
    }
    with_extension(output, "builder.pub")
}

fn customize(req: &BuildImageRequest) -> (r: Args)
    ensures
        r@ == customize_args(req@),
{
    let mut a = args2("-a", req.output.as_str());
    if let Some(h) = &req.hostname {
        a.flag("--hostname", h.clone());
    }
    if req.packages.len() > 0 {
        a.flag("--install", text::join_with(&req.packages, ","));
    }
    put_run_args(&mut a, &req.commands);
    if req.ssh_key.is_some() {
        let path = key_path(req.output.as_str());
        a.flag("--ssh-inject", text::cat2("root:file:", path.as_str()));
    }
    proof {
        assert(a@ =~= customize_args(req@));
    }
    a
}

fn put_customize(steps: &mut Steps, cfg: &Config, req: &BuildImageRequest)
    ensures
        final(steps)@ == old(steps)@ + customize_steps(cfg.virt_customize_binary@, req@),
{
    let ghost before = steps@;
    if req.hostname.is_some() || req.packages.len() > 0 || req.commands.len() > 0
        || req.ssh_key.is_some() {
        let mut run = must_run(cfg.virt_customize_binary.as_str(), customize(req));
        match &req.ssh_key {
            Some(key) => {
                let path = key_path(req.output.as_str());
                let mut write = new_step(
                    Action::WriteFile { path: path.clone(), contents: key.clone() },
                );
                write.purpose = "writing temporary ssh key".to_owned();
                steps.put(write);
                let mut undo: Vec<Action> = Vec::new();
                undo.push(Action::RemoveFile { path: path.clone() });
                proof {
                    assert(text::views(undo@) =~= seq![
                        ActionView::RemoveFile { path: key_file(req@.output) },
                    ]);
                }
                run.undo = undo;
                steps.put(run);
                let mut remove = new_step(Action::RemoveFile { path });
                remove.optional = true;
                steps.put(remove);
            },
            None => {
                steps.put(run);
            },
        }
    }
    proof {
        assert(steps@ =~= before + customize_steps(cfg.virt_customize_binary@, req@));
    }
}

/// The source has the digest that the request pins it to, if it does.
pub open spec fn pin_holds(req: BuildImageRequestView, bytes: Seq<u8>) -> bool {
    req.sha256 is Some ==> scan::equal_ignoring_case(
        text::hex(sha256_digest(bytes)),
        req.sha256->0,
    )
}

/// What builds an image from the file `src`, which holds `bytes`, and what comes
/// of it. A source that has not the digest that it is pinned to is refused, and
/// there is nothing to do; what a source holds that is not pinned is of no
/// account.
pub fn build_image(cfg: &Config, req: &BuildImageRequest, src: &str, bytes: &Vec<u8>) -> (r: Result<
    (Vec<Step>, BuildImageResult),
    DigestMismatch,
>)
    ensures
        match r {
            Ok(built) => {
                &&& pin_holds(req@, bytes@)
                &&& text::views(built.0@) == build_steps(
                    cfg.qemu_img_binary@,
                    cfg.virt_customize_binary@,
                    req@,
                    src@,
                )
                &&& built.1.output@ == req@.output
                &&& built.1.format@ == req@.format
            },
            Err(m) => !pin_holds(req@, bytes@) && m.got@ == text::hex(sha256_digest(bytes@)),
        },
{
    if let Some(wanted) = &req.sha256 {
        match verify_sha256(bytes, wanted.as_str()) {
            Ok(_) => {},
            Err(m) => {
                return Err(m);
            },
        }
    }
    Ok(building(cfg, req, src))
}

/// What builds an image from a source that may be used.
fn building(cfg: &Config, req: &BuildImageRequest, src: &str) -> (r: (Vec<Step>, BuildImageResult))
    ensures
        text::views(r.0@) == build_steps(
            cfg.qemu_img_binary@,
            cfg.virt_customize_binary@,
            req@,
            src@,
        ),
        r.1.output@ == req@.output,
        r.1.format@ == req@.format,
{
    let output: &str = req.output.as_str();
    let mut steps = Steps::new();
    steps.put(new_step(Action::MakeParent { path: req.output.clone() }));
    steps.put(
        must_run(
            cfg.qemu_img_binary.as_str(),
            args5("convert", "-O", req.format.as_str(), src, output),
        ),
    );
    put_resize(&mut steps, cfg, output, req.size_gib);
    let ghost before = steps@;
    if req.copy_in.len() > 0 || req.enable_services.len() > 0 {
        let files = req.copy_in.clone();
        proof {
            assert(text::views(files@) =~= text::views(req.copy_in@));
        }
        steps.put(
            new_step(
                Action::InjectFiles {
                    image: req.output.clone(),
                    files,
                    services: clone_texts(&req.enable_services),
                },
            ),
        );
    }
    proof {
        assert(steps@ =~= before + inject_steps(req@));
    }
    put_customize(&mut steps, cfg, req);
    let steps = steps.done();
    proof {
        assert(text::views(steps@) =~= build_steps(
            cfg.qemu_img_binary@,
            cfg.virt_customize_binary@,
            req@,
            src@,
        ));
    }
    (steps, BuildImageResult { output: req.output.clone(), format: req.format.clone() })
}

// --------------------------------------------------------------------- cloning

/// The command that describes an image.
pub fn info_command(cfg: &Config, image: &str) -> (r: HostCommand)
    ensures
        r@ == (HostCommandView {
            program: cfg.qemu_img_binary@,
            args: seq!["info"@, "--output=json"@, image@],
        }),
{
    backend::host_command(
        cfg.qemu_img_binary.as_str(),
        args3("info", "--output=json", image),
    )
}

/// What a description says of the format of an image: the text under `format`,
/// or `qcow2` if there is none.
pub open spec fn format_in(info: Option<Json>) -> Seq<char> {
    match info {
        Some(t) => if json::has_member(t, "format"@) && json::member(t, "format"@) is Text {
            json::member(t, "format"@)->Text_0
        } else {
            "qcow2"@
        },
        None => "qcow2"@,
    }
}

/// What a description holds that was printed as JSON.
pub open spec fn described(info: Option<Seq<char>>) -> Option<Json> {
    match info {
        Some(s) => match json::json_parsed(s) {
            Ok(t) => Some(t),
            Err(_) => None,
        },
        None => None,
    }
}

/// The format of an image by its description, if there is one.
pub fn image_format(info: &Option<String>) -> (r: String)
    ensures
        r@ == format_in(described(text::opt(*info))),
{
    if let Some(s) = info {
        if let Ok(v) = json_parse(s.as_str()) {
            return format_of(&v);
        }
    }
    "qcow2".to_owned()
}

/// The format of an image by its description.
pub fn format_of(v: &serde_json::Value) -> (r: String)
    ensures
        r@ == format_in(Some(json::json_tree(*v))),
{
    if let Some(f) = json_get(v, "format") {
        if let Some(t) = json_as_str(f) {
            return t.to_owned();
        }
    }
    "qcow2".to_owned()
}

/// Makes the disk of an instance from an image: a layer over it for QEMU, a raw
/// copy for the others.
pub open spec fn clone_steps(
    qemu_img: Seq<char>,
    base: Seq<char>,
    canonical: Seq<char>,
    format: Seq<char>,
    kind: BackendKind,
    out: Seq<char>,
    size: Option<u64>,
) -> Seq<StepView> {
    let make = if kind == BackendKind::Qemu {
        plan::must(
            qemu_img,
            seq!["create"@, "-f"@, "qcow2"@, "-F"@, format, "-b"@, canonical, out],
        )
    } else if format == "raw"@ {
        plan::must("cp"@, seq!["--reflink=auto"@, "--sparse=always"@, base, out])
    } else {
        plan::must(qemu_img, seq!["convert"@, "-O"@, "raw"@, base, out])
    };
    seq![make] + resize_steps(qemu_img, out, size)
}

/// Why a disk cannot be made.
#[derive(Debug, Clone, Copy, PartialEq, Eq, Structural)]
pub enum CloneError {
    /// Which monitor the disk is for was never chosen.
    UnresolvedBackend,
}

impl CloneError {
    /// The error in words.
    pub fn message(self) -> (r: &'static str)
        ensures
            r@ == "VM has an unresolved BackendKind::Auto \u{2014} this is a bug, backend selection must happen before cloning its disk"@,
    {
        match self {
            CloneError::UnresolvedBackend => {
                "VM has an unresolved BackendKind::Auto \u{2014} this is a bug, backend selection must happen before cloning its disk"
            },
        }
    }
}

/// What makes the disk `out` of an instance from the image `base` of the format
/// `format`, whose path without links is `canonical`.
pub fn clone_for_vm(
    cfg: &Config,
    base: &str,
    canonical: &str,
    format: &str,
    kind: BackendKind,
    out: &str,
    size_gib: Option<u64>,
) -> (r: Result<Vec<Step>, CloneError>)
    ensures
        match r {
            Ok(steps) => kind != BackendKind::Auto && text::views(steps@) == clone_steps(
                cfg.qemu_img_binary@,
                base@,
                canonical@,
                format@,
                kind,
                out@,
                size_gib,
            ),
            Err(_) => kind == BackendKind::Auto,
        },
{
    let mut steps = Steps::new();
    match kind {
        BackendKind::Qemu => {
            steps.put(
                must_run(
                    cfg.qemu_img_binary.as_str(),
                    args8("create", "-f", "qcow2", "-F", format, "-b", canonical, out),
                ),
            );
        },
        BackendKind::CloudHypervisor | BackendKind::Firecracker => {
            if same_text(format, "raw") {
                steps.put(
                    must_run("cp", args4("--reflink=auto", "--sparse=always", base, out)),
                );
            } else {
                steps.put(
                    must_run(
                        cfg.qemu_img_binary.as_str(),
                        args5("convert", "-O", "raw", base, out),
                    ),
                );
            }
        },
        BackendKind::Auto => {
            return Err(CloneError::UnresolvedBackend);
        },
    }
    put_resize(&mut steps, cfg, out, size_gib);
    let steps = steps.done();
    proof {
        assert(text::views(steps@) =~= clone_steps(
            cfg.qemu_img_binary@,
            base@,
            canonical@,
            format@,
            kind,
            out@,
            size_gib,
        ));
    }
    Ok(steps)
}

// ---------------------------------------------------------------- inside images

/// Something to do in the mounted file systems of an image.
#[derive(Debug)]
pub enum GuestOp {
    Upload { src: String, dest: String },
    Command { argv: Vec<String> },
    Write { path: String, contents: String },
    Chmod { mode: u32, path: String },
}

pub enum GuestOpView {
    Upload { src: Seq<char>, dest: Seq<char> },
    Command { argv: Seq<Seq<char>> },
    Write { path: Seq<char>, contents: Seq<char> },
    Chmod { mode: u32, path: Seq<char> },
}

impl View for GuestOp {
    type V = GuestOpView;

    open spec fn view(&self) -> GuestOpView {
        match *self {
            GuestOp::Upload { src, dest } => GuestOpView::Upload { src: src@, dest: dest@ },
            GuestOp::Command { argv } => GuestOpView::Command { argv: text::views(argv@) },
            GuestOp::Write { path, contents } => GuestOpView::Write {
                path: path@,
                contents: contents@,
            },
            GuestOp::Chmod { mode, path } => GuestOpView::Chmod { mode, path: path@ },
        }
    }
}

/// A file that goes into an image.
pub open spec fn upload_of(f: CopyInView) -> GuestOpView {
    GuestOpView::Upload { src: f.src, dest: f.dest }
}

/// A service that is enabled in an image.
pub open spec fn enable_of(service: Seq<char>) -> GuestOpView {
    GuestOpView::Command { argv: seq!["systemctl"@, "enable"@, service] }
}

/// First the files, then the services, each in their order.
pub open spec fn injection(files: Seq<CopyInView>, services: Seq<Seq<char>>) -> Seq<GuestOpView> {
    Seq::new(files.len(), |i: int| upload_of(files[i])) + Seq::new(
        services.len(),
        |i: int| enable_of(services[i]),
    )
}

/// What puts files into an image and enables services in it.
pub fn inject_files(files: &Vec<CopyIn>, services: &Vec<String>) -> (r: Vec<GuestOp>)
    ensures
        text::views(r@) == injection(text::views(files@), text::views(services@)),
{
    let ghost wanted = injection(text::views(files@), text::views(services@));
    let mut out: Vec<GuestOp> = Vec::new();
    let mut i: usize = 0;
    while i < files.len()
        invariant
            i <= files@.len(),
            wanted == injection(text::views(files@), text::views(services@)),
            text::views(out@) == wanted.take(i as int),
        decreases files@.len() - i,
    {
        let op = GuestOp::Upload { src: files[i].src.clone(), dest: files[i].dest.clone() };
        proof {
            text::lemma_views_push(out@, op);
            assert(wanted.take(i + 1) =~= wanted.take(i as int).push(op@));
        }
        out.push(op);
        i += 1;
    }
    let mut j: usize = 0;
    while j < services.len()
        invariant
            j <= services@.len(),
            wanted == injection(text::views(files@), text::views(services@)),
            text::views(out@) == wanted.take(files@.len() + j),
        decreases services@.len() - j,
    {
        let op = GuestOp::Command {
            argv: args3("systemctl", "enable", services[j].as_str()).done(),
        };
        proof {
            text::lemma_views_push(out@, op);
            assert(wanted.take(files@.len() + j + 1) =~= wanted.take(files@.len() + j).push(op@));
        }
        out.push(op);
        j += 1;
    }
    proof {
        assert(wanted.take((files@.len() + services@.len()) as int) =~= wanted);
    }
    out
}

/// Nobody but the owner may read or write.
pub const OWNER_ONLY: u32 = 0o600;

/// What puts the secret of the agent into the disk of an instance.
pub fn inject_guest_agent_token(token: &str) -> (r: Vec<GuestOp>)
    ensures
        text::views(r@) == seq![
            GuestOpView::Write { path: protocol::token_file(), contents: token@ },
            GuestOpView::Chmod { mode: OWNER_ONLY, path: protocol::token_file() },
        ],
{
    let mut out: Vec<GuestOp> = Vec::new();
    out.push(GuestOp::Write { path: token_file_path(), contents: token.to_owned() });
    out.push(GuestOp::Chmod { mode: OWNER_ONLY, path: token_file_path() });
    proof {
        assert(text::views(out@) =~= seq![
            GuestOpView::Write { path: protocol::token_file(), contents: token@ },
            GuestOpView::Chmod { mode: OWNER_ONLY, path: protocol::token_file() },
        ]);
    }
    out
}

// ------------------------------------------------------------------------ laws

/// A copy is made by commands whose target is the copy: the image stays as it
/// is.
pub proof fn cloning_writes_the_copy(
    qemu_img: Seq<char>,
    base: Seq<char>,
    canonical: Seq<char>,
    format: Seq<char>,
    kind: BackendKind,
    out: Seq<char>,
    size: Option<u64>,
)
    ensures
        ({
            let steps = clone_steps(qemu_img, base, canonical, format, kind, out, size);
            &&& steps.len() == if size is Some {
                2nat
            } else {
                1nat
            }
            &&& steps[0].action matches ActionView::Run(c) && c.args.last() == out
            &&& size is Some ==> steps[1] == plan::must(qemu_img, resize_args(out, size->0))
        }),
{
}

/// A key that is written to a file does not stay there: the file is removed
/// when the image could be changed, and when it could not.
pub proof fn the_key_file_is_removed(virt_customize: Seq<char>, req: BuildImageRequestView)
    requires
        req.ssh_key is Some,
    ensures
        ({
            let steps = customize_steps(virt_customize, req);
            let path = key_file(req.output);
            &&& steps.len() == 3
            &&& steps[0].action == (ActionView::WriteFile { path, contents: req.ssh_key->0 })
            &&& plan::after(steps, plan::Progress::Acting { i: 1 }, false) == (
            plan::Progress::Undoing { i: 1, j: 0 })
            &&& steps[1].undo[0] == (ActionView::RemoveFile { path })
            &&& plan::after(steps, plan::Progress::Acting { i: 1 }, true) == (
            plan::Progress::Acting { i: 2 })
            &&& steps[2].action == (ActionView::RemoveFile { path })
        }),
{
}

/// For Cloud Hypervisor and Firecracker the disk that results is a raw image
/// whatever the base is: a byte copy is made if and only if the base is raw, and
/// every other format goes through a conversion whose output is raw.
pub proof fn their_disks_are_raw(
    qemu_img: Seq<char>,
    base: Seq<char>,
    canonical: Seq<char>,
    format: Seq<char>,
    kind: BackendKind,
    out: Seq<char>,
    size: Option<u64>,
)
    requires
        kind == BackendKind::CloudHypervisor || kind == BackendKind::Firecracker,
    ensures
        ({
            let first = clone_steps(qemu_img, base, canonical, format, kind, out, size)[0];
            if format == "raw"@ {
                plan::has_to_run(
                    first,
                    "cp"@,
                    seq!["--reflink=auto"@, "--sparse=always"@, base, out],
                )
            } else {
                plan::has_to_run(first, qemu_img, seq!["convert"@, "-O"@, "raw"@, base, out])
            }
        }),
{
}

/// For QEMU the disk is a qcow2 layer over the base, which is named by its path
/// without links and in its own format; nothing of the base is copied.
pub proof fn the_disk_of_qemu_is_a_layer(
    qemu_img: Seq<char>,
    base: Seq<char>,
    canonical: Seq<char>,
    format: Seq<char>,
    out: Seq<char>,
    size: Option<u64>,
)
    ensures
        ({
            let steps = clone_steps(
                qemu_img,
                base,
                canonical,
                format,
                BackendKind::Qemu,
                out,
                size,
            );
            &&& steps[0].action matches ActionView::Run(c)
            &&& plan::has_to_run(steps[0], qemu_img, c.args)
            &&& c.args.len() == 8
            &&& c.args[0] == "create"@
            &&& c.args.last() == out
            &&& backend::has_flag(c.args, "-f"@, "qcow2"@)
            &&& backend::has_flag(c.args, "-F"@, format)
            &&& backend::has_flag(c.args, "-b"@, canonical)
        }),
{
    let steps = clone_steps(qemu_img, base, canonical, format, BackendKind::Qemu, out, size);
    let args = steps[0].action->Run_0.args;
    assert(args[1] == "-f"@ && args[2] == "qcow2"@);
    assert(args[3] == "-F"@ && args[4] == format);
    assert(args[5] == "-b"@ && args[6] == canonical);
}

/// A disk grows to the size that is asked for, in GiB, after it was made, and to
/// no other.
pub proof fn a_disk_has_the_size_that_is_asked_for(
    qemu_img: Seq<char>,
    base: Seq<char>,
    canonical: Seq<char>,
    format: Seq<char>,
    kind: BackendKind,
    out: Seq<char>,
    size: Option<u64>,
)
    ensures
        ({
            let steps = clone_steps(qemu_img, base, canonical, format, kind, out, size);
            match size {
                Some(gib) => steps.len() == 2 && plan::has_to_run(
                    steps[1],
                    qemu_img,
                    seq!["resize"@, out, text::dec(gib as nat) + "G"@],
                ),
                None => steps.len() == 1,
            }
        }),
{
}

/// An image is made by a conversion of its source into the format that is asked
/// for, in a directory that was made for it; it then grows to its size, takes in
/// its files and services, and is changed, in this order, each if and only if it
/// is asked for.
pub proof fn an_image_is_made_from_its_source(
    qemu_img: Seq<char>,
    virt_customize: Seq<char>,
    req: BuildImageRequestView,
    src: Seq<char>,
)
    ensures
        ({
            let steps = build_steps(qemu_img, virt_customize, req, src);
            let grown: int = if req.size_gib is Some {
                1
            } else {
                0
            };
            let injected: int = if req.copy_in.len() > 0 || req.enable_services.len() > 0 {
                1
            } else {
                0
            };
            let changed: int = if req.ssh_key is Some {
                3
            } else if req.hostname is Some || req.packages.len() > 0 || req.commands.len() > 0 {
                1
            } else {
                0
            };
            &&& steps.len() == 2 + grown + injected + changed
            &&& steps[0].action == (ActionView::MakeParent { path: req.output })
            &&& !steps[0].optional
            &&& plan::has_to_run(
                steps[1],
                qemu_img,
                seq!["convert"@, "-O"@, req.format, src, req.output],
            )
            &&& req.size_gib matches Some(gib) ==> plan::has_to_run(
                steps[2],
                qemu_img,
                seq!["resize"@, req.output, text::dec(gib as nat) + "G"@],
            )
            &&& injected == 1 ==> {
                &&& steps[2 + grown].action == (ActionView::InjectFiles {
                    image: req.output,
                    files: req.copy_in,
                    services: req.enable_services,
                })
                &&& !steps[2 + grown].optional
                &&& steps[2 + grown].unless is None
            }
        }),
{
}

/// The step changes the image with `virt-customize`.
pub open spec fn customizes(s: StepView, virt_customize: Seq<char>, image: Seq<char>) -> bool {
    &&& s.action matches ActionView::Run(c)
    &&& plan::has_to_run(s, virt_customize, c.args)
    &&& c.args.len() >= 2
    &&& c.args[0] == "-a"@
    &&& c.args[1] == image
}

/// At `k` the arguments ask for a command to be run.
pub open spec fn runs_at(args: Seq<Seq<char>>, k: int, command: Seq<char>) -> bool {
    0 <= k < args.len() - 1 && args[k] == "--run-command"@ && args[k + 1] == command
}

proof fn lemma_run_args(commands: Seq<Seq<char>>)
    ensures
        run_args(commands).len() == 2 * commands.len(),
        forall|j: int| 0 <= j < commands.len() ==> #[trigger] runs_at(run_args(commands), 2 * j, commands[j]),
    decreases commands.len(),
{
    if commands.len() > 0 {
        let rest = commands.drop_last();
        lemma_run_args(rest);
        assert forall|j: int| 0 <= j < commands.len() implies #[trigger] runs_at(
            run_args(commands),
            2 * j,
            commands[j],
        ) by {
            if j < rest.len() {
                assert(runs_at(run_args(rest), 2 * j, rest[j]));
            }
        }
    }
}

/// What the arguments of `virt-customize` are for a request: the image, the name
/// of the host, all packages, every command in its order, and the key, each if
/// and only if it is asked for.
pub open spec fn arguments_are_complete(args: Seq<Seq<char>>, req: BuildImageRequestView) -> bool {
    let named: int = if req.hostname is Some {
        2
    } else {
        0
    };
    let installed: int = if req.packages.len() > 0 {
        2
    } else {
        0
    };
    let before: int = 2 + named + installed;
    &&& args.len() == before + 2 * req.commands.len() + if req.ssh_key is Some {
        2int
    } else {
        0int
    }
    &&& req.hostname matches Some(h) ==> backend::has_flag(args, "--hostname"@, h)
    &&& req.packages.len() > 0 ==> backend::has_flag(
        args,
        "--install"@,
        text::separated(req.packages, ","@),
    )
    &&& forall|j: int|
        0 <= j < req.commands.len() ==> runs_at(args, before + 2 * j, #[trigger] req.commands[j])
    &&& req.ssh_key is Some ==> backend::has_flag(
        args,
        "--ssh-inject"@,
        "root:file:"@ + paths::extended(req.output, "builder.pub"@),
    )
}

proof fn lemma_customize_args(req: BuildImageRequestView)
    ensures
        customize_args(req)[0] == "-a"@,
        customize_args(req)[1] == req.output,
        customize_args(req).len() >= 2,
        arguments_are_complete(customize_args(req), req),
{
    let args = customize_args(req);
    let runs = run_args(req.commands);
    lemma_run_args(req.commands);
    let named: int = if req.hostname is Some {
        2
    } else {
        0
    };
    let installed: int = if req.packages.len() > 0 {
        2
    } else {
        0
    };
    let before: int = 2 + named + installed;
    if req.hostname is Some {
        assert(args[2] == "--hostname"@ && args[3] == req.hostname->0);
    }
    if req.packages.len() > 0 {
        assert(args[2 + named] == "--install"@ && args[2 + named + 1] == text::separated(
            req.packages,
            ","@,
        ));
    }
    assert forall|j: int| 0 <= j < req.commands.len() implies runs_at(
        args,
        before + 2 * j,
        #[trigger] req.commands[j],
    ) by {
        assert(runs_at(runs, 2 * j, req.commands[j]));
        assert(args[before + 2 * j] == runs[2 * j]);
        assert(args[before + 2 * j + 1] == runs[2 * j + 1]);
    }
    if req.ssh_key is Some {
        let k = before + 2 * req.commands.len();
        assert(args[k] == "--ssh-inject"@ && args[k + 1] == "root:file:"@ + paths::extended(
            req.output,
            "builder.pub"@,
        ));
    }
}

/// If a request names a host name, a package, a command or a key, exactly one step
/// changes the image, it has to succeed, and it is told all that the request
/// names. If it names none of them, no step does.
pub proof fn what_is_asked_for_is_put_into_the_image(
    qemu_img: Seq<char>,
    virt_customize: Seq<char>,
    req: BuildImageRequestView,
    src: Seq<char>,
)
    ensures
        ({
            let steps = build_steps(qemu_img, virt_customize, req, src);
            let asked = req.hostname is Some || req.packages.len() > 0 || req.commands.len() > 0
                || req.ssh_key is Some;
            &&& asked ==> exists|i: int|
                {
                    &&& 0 <= i < steps.len()
                    &&& customizes(#[trigger] steps[i], virt_customize, req.output)
                    &&& arguments_are_complete(steps[i].action->Run_0.args, req)
                }
            &&& forall|i: int, j: int|
                0 <= i < steps.len() && 0 <= j < steps.len() && customizes(
                    #[trigger] steps[i],
                    virt_customize,
                    req.output,
                ) && customizes(#[trigger] steps[j], virt_customize, req.output) ==> i == j
            &&& !asked ==> forall|i: int|
                0 <= i < steps.len() ==> !customizes(
                    #[trigger] steps[i],
                    virt_customize,
                    req.output,
                )
        }),
{
    let steps = build_steps(qemu_img, virt_customize, req, src);
    reveal_strlit("-a");
    reveal_strlit("convert");
    reveal_strlit("resize");
    lemma_customize_args(req);
    let asked = req.hostname is Some || req.packages.len() > 0 || req.commands.len() > 0
        || req.ssh_key is Some;
    let front = 2 + resize_steps(qemu_img, req.output, req.size_gib).len() + inject_steps(
        req,
    ).len();
    let k: int = if req.ssh_key is Some {
        (front + 1) as int
    } else {
        front as int
    };
    assert forall|i: int| 0 <= i < steps.len() && customizes(
        #[trigger] steps[i],
        virt_customize,
        req.output,
    ) implies i == k && asked by {
        if i < 2 {
            assert("convert"@[0] != "-a"@[0]);
            assert(i == 1 ==> steps[i].action->Run_0.args[0] == "convert"@);
        } else if i < 2 + resize_steps(qemu_img, req.output, req.size_gib).len() {
            assert(steps[i] == resize_steps(qemu_img, req.output, req.size_gib)[i - 2]);
            assert(steps[i].action->Run_0.args[0] == "resize"@);
            assert("resize"@[0] != "-a"@[0]);
        } else if i < front {
            assert(steps[i] == inject_steps(req)[i - 2 - resize_steps(
                qemu_img,
                req.output,
                req.size_gib,
            ).len()]);
        } else {
            assert(steps[i] == customize_steps(virt_customize, req)[i - front]);
        }
    }
    if asked {
        assert(steps[k] == customize_steps(virt_customize, req)[k - front]);
        assert(customizes(steps[k], virt_customize, req.output));
    }
}

/// A key is written out before it is put into the image, and the file is removed
/// afterwards, whether the image could be changed or not.
pub proof fn a_key_is_written_and_removed(
    qemu_img: Seq<char>,
    virt_customize: Seq<char>,
    req: BuildImageRequestView,
    src: Seq<char>,
)
    requires
        req.ssh_key is Some,
    ensures
        ({
            let steps = build_steps(qemu_img, virt_customize, req, src);
            let n = steps.len();
            let path = paths::extended(req.output, "builder.pub"@);
            &&& n >= 5
            &&& steps[n - 3].action == (ActionView::WriteFile {
                path,
                contents: req.ssh_key->0,
            })
            &&& !steps[n - 3].optional
            &&& customizes(steps[n - 2], virt_customize, req.output)
            &&& steps[n - 2].undo == seq![ActionView::RemoveFile { path }]
            &&& steps[n - 1].action == (ActionView::RemoveFile { path })
        }),
{
    let steps = build_steps(qemu_img, virt_customize, req, src);
    let n = steps.len();
    lemma_customize_args(req);
    assert(steps[n - 3] == customize_steps(virt_customize, req)[0]);
    assert(steps[n - 2] == customize_steps(virt_customize, req)[1]);
    assert(steps[n - 1] == customize_steps(virt_customize, req)[2]);
}

/// Files go into an image first, each from where it is to where it belongs, then
/// services are enabled, all in the order in which they are named.
pub proof fn files_and_services_go_in_as_named(files: Seq<CopyInView>, services: Seq<Seq<char>>)
    ensures
        injection(files, services).len() == files.len() + services.len(),
        forall|i: int|
            0 <= i < files.len() ==> injection(files, services)[i] == (GuestOpView::Upload {
                src: (#[trigger] files[i]).src,
                dest: files[i].dest,
            }),
        forall|i: int|
            0 <= i < services.len() ==> injection(files, services)[files.len() + i] == (
            GuestOpView::Command {
                argv: seq!["systemctl"@, "enable"@, #[trigger] services[i]],
            }),
{
}

/// A source is fetched if and only if it is an address on the web; the file that
/// it is fetched to is called by what follows the last slash, or `base.img` where
/// nothing does.
pub proof fn a_download_is_called_by_its_last_part(source: Seq<char>)
    ensures
        is_url(source) <==> (exists|rest: Seq<char>| source == "http://"@ + rest) || (exists|
            rest: Seq<char>,
        |
            source == "https://"@ + rest),
        source.len() > 0 && source.last() == '/' ==> download_name(source) == "base.img"@,
        source.len() > 0 && source.last() != '/' ==> {
            let name = download_name(source);
            &&& 0 < name.len() <= source.len()
            &&& !name.contains('/')
            &&& source.skip(source.len() - name.len()) == name
            &&& name.len() < source.len() ==> source[source.len() - name.len() - 1] == '/'
        },
{
    if scan::starts_with(source, "http://"@) {
        let n = "http://"@.len() as int;
        assert(source =~= "http://"@ + source.skip(n)) by {
            assert(source.take(n) + source.skip(n) =~= source);
        }
    }
    if scan::starts_with(source, "https://"@) {
        let n = "https://"@.len() as int;
        assert(source =~= "https://"@ + source.skip(n)) by {
            assert(source.take(n) + source.skip(n) =~= source);
        }
    }
    assert forall|rest: Seq<char>| source == "http://"@ + rest implies scan::starts_with(
        source,
        "http://"@,
    ) by {
        assert(source.take("http://"@.len() as int) =~= "http://"@);
    }
    assert forall|rest: Seq<char>| source == "https://"@ + rest implies scan::starts_with(
        source,
        "https://"@,
    ) by {
        assert(source.take("https://"@.len() as int) =~= "https://"@);
    }
    paths::the_last_part_follows_the_last_separator(source, '/');
    let start = paths::after_last(source, '/');
    let name = source.skip(start);
    assert forall|i: int| 0 <= i < name.len() implies name[i] != '/' by {
        assert(name[i] == source[start + i]);
    }
    if source.len() > 0 && source.last() != '/' {
        if start == source.len() {
            assert(source[start - 1] == '/');
        }
    }
}

/// The format of an image is what its description says, if that is a text, and
/// `qcow2` where there is no description or none that says it.
pub proof fn the_format_is_what_is_described(t: Json)
    ensures
        forall|f: Seq<char>|
            json::has_member(t, "format"@) && json::member(t, "format"@) == Json::Text(f)
                ==> #[trigger] format_in(Some(t)) == f,
        !json::has_member(t, "format"@) ==> format_in(Some(t)) == "qcow2"@,
        json::has_member(t, "format"@) && !(json::member(t, "format"@) is Text) ==> format_in(
            Some(t),
        ) == "qcow2"@,
        format_in(None) == "qcow2"@,
        described(None) is None,
{
}

/// A source that is pinned to a digest may be used if and only if it has that
/// digest, in capital or small letters; one that is not pinned may be used.
pub proof fn a_pinned_source_has_its_digest(req: BuildImageRequestView, bytes: Seq<u8>)
    ensures
        pin_holds(req, bytes) <==> match req.sha256 {
            Some(wanted) => scan::equal_ignoring_case(text::hex(sha256_digest(bytes)), wanted),
            None => true,
        },
{
}

/// The secret of an agent is written for its owner alone.
pub proof fn the_secret_is_for_its_owner()
    ensures
        OWNER_ONLY == 384,
        protocol::token_file() == "/etc/ephemera/agent-token"@,
{
}

/// The view of a request for an image shows all that it says.
pub proof fn an_image_request_is_shown_in_full(req: BuildImageRequest)
    ensures
        req@.source == req.source@,
        req@.output == req.output@,
        req@.format == req.format@,
        req@.size_gib == req.size_gib,
        req@.sha256 == text::opt(req.sha256),
        req@.hostname == text::opt(req.hostname),
        req@.packages == text::views(req.packages@),
        req@.commands == text::views(req.commands@),
        req@.ssh_key == text::opt(req.ssh_key),
        req@.copy_in == text::views(req.copy_in@),
        req@.enable_services == text::views(req.enable_services@),
{
}

/// The view of something to do in an image shows it in full.
pub proof fn what_to_do_is_shown_in_full(op: GuestOp)
    ensures
        match op {
            GuestOp::Upload { src, dest } => op@ == (GuestOpView::Upload {
                src: src@,
                dest: dest@,
            }),
            GuestOp::Command { argv } => op@ == (GuestOpView::Command {
                argv: text::views(argv@),
            }),
            GuestOp::Write { path, contents } => op@ == (GuestOpView::Write {
                path: path@,
                contents: contents@,
            }),
            GuestOp::Chmod { mode, path } => op@ == (GuestOpView::Chmod { mode, path: path@ }),
        },
{
}

} // verus!
