//! The seed disk that tells a new guest its name, its users and what to
//! install and run.

use crate::backend::args5;
use crate::config::Config;
use crate::model::{CloudInitSpec, CloudInitSpecView};
use crate::paths::{self, join};
use crate::plan::{self, must_run, new_step, Action, ActionView, Step, StepView, Steps};
use crate::text::{self, chars_of};
use vstd::prelude::*;

verus! {

// -------------------------------------------------------------------- quotation

/// The characters of a text with every single quotation mark written twice.
pub open spec fn doubled(s: Seq<char>) -> Seq<char>
    decreases s.len(),
{
    if s.len() == 0 {
        Seq::empty()
    } else if s.last() == '\'' {
        doubled(s.drop_last()).push('\'').push('\'')
    } else {
        doubled(s.drop_last()).push(s.last())
    }
}

/// A text as a YAML string in single quotation marks.
pub open spec fn yaml_quoted(s: Seq<char>) -> Seq<char> {
    seq!['\''] + doubled(s) + seq!['\'']
}

pub fn yaml_quote(s: &str) -> (r: String)
    ensures
        r@ == yaml_quoted(s@),
{
    let v = chars_of(s);
    let mut out = String::new();
    out.push('\'');
    let mut i: usize = 0;
    proof {
        assert(v@.take(0) =~= Seq::<char>::empty());
        assert(out@ =~= seq!['\''] + doubled(v@.take(0)));
    }
    while i < v.len()
        invariant
            i <= v@.len(),
            v@ == s@,
            out@ == seq!['\''] + doubled(v@.take(i as int)),
        decreases v@.len() - i,
    {
        let c = v[i];
        let ghost before = out@;
        if c == '\'' {
            out.push('\'');
        }
        out.push(c);
        proof {
            assert(v@.take(i + 1).drop_last() =~= v@.take(i as int));
            assert(v@.take(i + 1).last() == c);
            assert(out@ =~= seq!['\''] + doubled(v@.take(i + 1)));
        }
        i += 1;
    }
    out.push('\'');
    proof {
        assert(v@.take(i as int) =~= s@);
        assert(out@ =~= yaml_quoted(s@));
    }
    out
}

// ------------------------------------------------------------------- user data

/// One line for each item of a list, between `before` and `after`.
pub open spec fn listed(before: Seq<char>, items: Seq<Seq<char>>, after: Seq<char>) -> Seq<char>
    decreases items.len(),
{
    if items.len() == 0 {
        Seq::empty()
    } else {
        listed(before, items.drop_last(), after) + before + yaml_quoted(items.last()) + after
    }
}

/// A list under a heading; nothing at all if it is empty.
pub open spec fn section(
    heading: Seq<char>,
    before: Seq<char>,
    items: Seq<Seq<char>>,
    after: Seq<char>,
) -> Seq<char> {
    if items.len() == 0 {
        Seq::empty()
    } else {
        heading + listed(before, items, after)
    }
}

pub open spec fn hostname_of(ci: CloudInitSpecView) -> Seq<char> {
    match ci.hostname {
        Some(h) => h,
        None => "ephemera-vm"@,
    }
}

pub open spec fn user_of(ci: CloudInitSpecView) -> Seq<char> {
    match ci.user {
        Some(u) => u,
        None => "cloud"@,
    }
}

pub open spec fn user_data(ci: CloudInitSpecView) -> Seq<char> {
    "#cloud-config\nhostname: "@ + yaml_quoted(hostname_of(ci))
        + "\nusers:\n  - default\n  - name: "@ + yaml_quoted(user_of(ci))
        + "\n    sudo: ALL=(ALL) NOPASSWD:ALL\n    shell: /bin/bash\n"@ + section(
        "    ssh_authorized_keys:\n"@,
        "      - "@,
        ci.ssh_authorized_keys,
        "\n"@,
    ) + section("package_update: true\npackages:\n"@, "  - "@, ci.packages, "\n"@) + section(
        "runcmd:\n"@,
        "  - [ bash, -lc, "@,
        ci.runcmd,
        " ]\n"@,
    )
}

pub open spec fn meta_data(ci: CloudInitSpecView) -> Seq<char> {
    "instance-id: "@ + hostname_of(ci) + "\nlocal-hostname: "@ + hostname_of(ci) + "\n"@
}

fn put_section(out: &mut String, heading: &str, before: &str, items: &Vec<String>, after: &str)
    ensures
        final(out)@ == old(out)@ + section(heading@, before@, text::views(items@), after@),
{
    let ghost start = out@;
    let ghost all = text::views(items@);
    if items.len() == 0 {
        proof {
            assert(out@ =~= start + section(heading@, before@, all, after@));
        }
        return;
    }
    out.append(heading);
    let mut i: usize = 0;
    proof {
        assert(all.take(0) =~= Seq::<Seq<char>>::empty());
        assert(out@ =~= start + heading@ + listed(before@, all.take(0), after@));
    }
    while i < items.len()
        invariant
            i <= items@.len(),
            all == text::views(items@),
            out@ == start + heading@ + listed(before@, all.take(i as int), after@),
        decreases items@.len() - i,
    {
        let q = yaml_quote(items[i].as_str());
        out.append(before);
        out.append(q.as_str());
        out.append(after);
        proof {
            assert(all.take(i + 1).drop_last() =~= all.take(i as int));
            assert(all.take(i + 1).last() == items@[i as int]@);
            assert(out@ =~= start + heading@ + listed(before@, all.take(i + 1), after@));
        }
        i += 1;
    }
    proof {
        assert(all.take(i as int) =~= all);
        assert(out@ =~= start + section(heading@, before@, all, after@));
    }
}

fn hostname(ci: &CloudInitSpec) -> (r: String)
    ensures
        r@ == hostname_of(ci@),
{
    match &ci.hostname {
        Some(h) => h.clone(),
        None => "ephemera-vm".to_owned(),
    }
}

fn user_data_text(ci: &CloudInitSpec) -> (r: String)
    ensures
        r@ == user_data(ci@),
{
    let host = hostname(ci);
    let user = match &ci.user {
        Some(u) => u.clone(),
        None => "cloud".to_owned(),
    };
    let host_q = yaml_quote(host.as_str());
    let user_q = yaml_quote(user.as_str());
    let mut body = text::cat5(
        "#cloud-config\nhostname: ",
        host_q.as_str(),
        "\nusers:\n  - default\n  - name: ",
        user_q.as_str(),
        "\n    sudo: ALL=(ALL) NOPASSWD:ALL\n    shell: /bin/bash\n",
    );
    put_section(
        &mut body,
        "    ssh_authorized_keys:\n",
        "      - ",
        &ci.ssh_authorized_keys,
        "\n",
    );
    put_section(
        &mut body,
        "package_update: true\npackages:\n",
        "  - ",
        &ci.packages,
        "\n",
    );
    put_section(&mut body, "runcmd:\n", "  - [ bash, -lc, ", &ci.runcmd, " ]\n");
    body
}

// ------------------------------------------------------------------------ seed

/// Writes the two files of a seed disk and makes the disk from them.
pub open spec fn seed_steps(
    cloud_localds: Seq<char>,
    dir: Seq<char>,
    ci: CloudInitSpecView,
) -> Seq<StepView> {
    let user_data_path = paths::joined(dir, "user-data"@);
    let meta_data_path = paths::joined(dir, "meta-data"@);
    let seed = paths::joined(dir, "seed.img"@);
    seq![
        StepView {
            purpose: "writing cloud-init user-data"@,
            ..plan::step_of(
                ActionView::WriteFile { path: user_data_path, contents: user_data(ci) },
            )
        },
        plan::step_of(ActionView::WriteFile { path: meta_data_path, contents: meta_data(ci) }),
        plan::must(
            cloud_localds,
            seq!["--disk-format"@, "raw"@, seed, user_data_path, meta_data_path],
        ),
    ]
}

/// What makes the seed disk of a guest in `dir`, and where the disk is then.
pub fn build_seed(cfg: &Config, dir: &str, ci: &CloudInitSpec) -> (r: (Vec<Step>, String))
    ensures
        text::views(r.0@) == seed_steps(cfg.cloud_localds_binary@, dir@, ci@),
        r.1@ == paths::joined(dir@, "seed.img"@),
{
    let user_data_path = join(dir, "user-data");
    let meta_data_path = join(dir, "meta-data");
    let seed = join(dir, "seed.img");
    let host = hostname(ci);
    let run = must_run(
        cfg.cloud_localds_binary.as_str(),
        args5(
            "--disk-format",
            "raw",
            seed.as_str(),
            user_data_path.as_str(),
            meta_data_path.as_str(),
        ),
    );
    let mut write = new_step(
        Action::WriteFile { path: user_data_path, contents: user_data_text(ci) },
    );
    write.purpose = "writing cloud-init user-data".to_owned();
    let meta = text::cat5(
        "instance-id: ",
        host.as_str(),
        "\nlocal-hostname: ",
        host.as_str(),
        "\n",
    );
    let mut steps = Steps::new();
    steps.put(write);
    steps.put(new_step(Action::WriteFile { path: meta_data_path, contents: meta }));
    steps.put(run);
    let steps = steps.done();
    proof {
        assert(text::views(steps@) =~= seed_steps(cfg.cloud_localds_binary@, dir@, ci@));
    }
    (steps, seed)
}

// ------------------------------------------------------------------------ laws

/// Different texts are quoted differently, so what a guest reads is what was
/// asked for, whatever quotation marks it holds.
pub proof fn quotation_is_faithful(a: Seq<char>, b: Seq<char>)
    requires
        yaml_quoted(a) == yaml_quoted(b),
    ensures
        a == b,
{
    let x = yaml_quoted(a);
    let y = yaml_quoted(b);
    assert(doubled(a) =~= x.subrange(1, x.len() - 1));
    assert(doubled(b) =~= y.subrange(1, y.len() - 1));
    lemma_doubled_injective(a, b);
}

proof fn lemma_doubled_injective(a: Seq<char>, b: Seq<char>)
    requires
        doubled(a) == doubled(b),
    ensures
        a == b,
    decreases a.len(),
{
    if a.len() == 0 || b.len() == 0 {
        assert(a.len() > 0 ==> doubled(a).len() > 0);
        assert(b.len() > 0 ==> doubled(b).len() > 0);
        assert(a =~= b);
    } else {
        let x = doubled(a);
        let y = doubled(b);
        assert(x.last() == a.last());
        assert(y.last() == b.last());
        if a.last() == '\'' {
            assert(x.drop_last().drop_last() =~= doubled(a.drop_last()));
            assert(y.drop_last().drop_last() =~= doubled(b.drop_last()));
        } else {
            assert(x.drop_last() =~= doubled(a.drop_last()));
            assert(y.drop_last() =~= doubled(b.drop_last()));
        }
        lemma_doubled_injective(a.drop_last(), b.drop_last());
        assert(a =~= a.drop_last().push(a.last()));
        assert(b =~= b.drop_last().push(b.last()));
    }
}

/// A text is quoted for YAML in single quotation marks, with each one inside
/// written twice and everything else as it is.
pub proof fn only_quotation_marks_are_doubled(a: Seq<char>, c: char, b: Seq<char>)
    ensures
        yaml_quoted(a) == seq!['\''] + doubled(a) + seq!['\''],
        doubled(Seq::empty()) == Seq::<char>::empty(),
        doubled(seq![c]) == if c == '\'' {
            seq!['\'', '\'']
        } else {
            seq![c]
        },
        doubled(a + b) == doubled(a) + doubled(b),
    decreases b.len(),
{
    assert(seq![c].drop_last() =~= Seq::<char>::empty());
    assert(doubled(Seq::<char>::empty()) =~= Seq::<char>::empty());
    assert(doubled(seq![c]) =~= if c == '\'' {
        seq!['\'', '\'']
    } else {
        seq![c]
    });
    if b.len() == 0 {
        assert(a + b =~= a);
        assert(doubled(a) + doubled(b) =~= doubled(a));
    } else {
        only_quotation_marks_are_doubled(a, c, b.drop_last());
        assert((a + b).drop_last() =~= a + b.drop_last());
        assert(doubled(a + b) =~= doubled(a) + doubled(b));
    }
}

/// Every item of a list stands on a line of its own, in the order of the list.
pub proof fn every_item_has_its_line(
    before: Seq<char>,
    a: Seq<Seq<char>>,
    b: Seq<Seq<char>>,
    item: Seq<char>,
    after: Seq<char>,
)
    ensures
        listed(before, seq![item], after) == before + yaml_quoted(item) + after,
        listed(before, a + b, after) == listed(before, a, after) + listed(before, b, after),
    decreases b.len(),
{
    let nothing = Seq::<Seq<char>>::empty();
    assert(seq![item].drop_last() =~= nothing);
    assert(listed(before, nothing, after) =~= Seq::<char>::empty());
    assert(listed(before, seq![item], after) =~= before + yaml_quoted(item) + after);
    if b.len() == 0 {
        assert(a + b =~= a);
        assert(listed(before, a, after) + listed(before, b, after) =~= listed(before, a, after));
    } else {
        every_item_has_its_line(before, a, b.drop_last(), item, after);
        assert((a + b).drop_last() =~= a + b.drop_last());
        assert(listed(before, a + b, after) =~= listed(before, a, after) + listed(
            before,
            b,
            after,
        ));
    }
}

proof fn lemma_listed_holds(
    before: Seq<char>,
    items: Seq<Seq<char>>,
    after: Seq<char>,
    i: int,
)
    requires
        0 <= i < items.len(),
    ensures
        text::holds(listed(before, items, after), before + yaml_quoted(items[i]) + after),
    decreases items.len(),
{
    let rest = items.drop_last();
    let line = before + yaml_quoted(items.last()) + after;
    assert(listed(before, items, after) =~= listed(before, rest, after) + line
        + Seq::<char>::empty());
    if i < rest.len() {
        lemma_listed_holds(before, rest, after, i);
        let line_i = before + yaml_quoted(items[i]) + after;
        assert(rest[i] == items[i]);
        text::what_a_part_holds_the_whole_holds(
            Seq::empty(),
            listed(before, rest, after),
            line,
            line_i,
        );
        assert(Seq::<char>::empty() + listed(before, rest, after) + line =~= listed(
            before,
            items,
            after,
        ));
    } else {
        text::lemma_holds(
            listed(before, rest, after),
            line,
            Seq::empty(),
            listed(before, items, after),
        );
    }
}

/// A guest is told its name and its user, or else `ephemera-vm` and `cloud`, in
/// quotation marks; the user may do everything.
pub proof fn a_guest_is_told_its_name_and_user(ci: CloudInitSpecView)
    ensures
        ({
            let host = if ci.hostname is Some {
                ci.hostname->0
            } else {
                "ephemera-vm"@
            };
            let user = if ci.user is Some {
                ci.user->0
            } else {
                "cloud"@
            };
            let head = "#cloud-config\nhostname: "@ + yaml_quoted(host)
                + "\nusers:\n  - default\n  - name: "@ + yaml_quoted(user)
                + "\n    sudo: ALL=(ALL) NOPASSWD:ALL\n    shell: /bin/bash\n"@;
            &&& user_data(ci).len() >= head.len()
            &&& user_data(ci).take(head.len() as int) == head
            &&& ci.ssh_authorized_keys.len() == 0 && ci.packages.len() == 0 && ci.runcmd.len() == 0
                ==> user_data(ci) == head
            &&& meta_data(ci) == "instance-id: "@ + host + "\nlocal-hostname: "@ + host + "\n"@
        }),
{
    let head = "#cloud-config\nhostname: "@ + yaml_quoted(hostname_of(ci))
        + "\nusers:\n  - default\n  - name: "@ + yaml_quoted(user_of(ci))
        + "\n    sudo: ALL=(ALL) NOPASSWD:ALL\n    shell: /bin/bash\n"@;
    assert(user_data(ci).take(head.len() as int) =~= head);
    if ci.ssh_authorized_keys.len() == 0 && ci.packages.len() == 0 && ci.runcmd.len() == 0 {
        assert(user_data(ci) =~= head);
    }
}

/// A guest is told every key, every package and every command, each on a line of
/// its own under its heading; packages are installed from lists that are brought
/// up to date, and commands run in a shell.
pub proof fn a_guest_is_told_all_that_is_asked_for(ci: CloudInitSpecView, i: int)
    ensures
        0 <= i < ci.ssh_authorized_keys.len() ==> text::holds(
            user_data(ci),
            "      - "@ + yaml_quoted(ci.ssh_authorized_keys[i]) + "\n"@,
        ),
        0 <= i < ci.packages.len() ==> text::holds(
            user_data(ci),
            "  - "@ + yaml_quoted(ci.packages[i]) + "\n"@,
        ),
        0 <= i < ci.runcmd.len() ==> text::holds(
            user_data(ci),
            "  - [ bash, -lc, "@ + yaml_quoted(ci.runcmd[i]) + " ]\n"@,
        ),
        ci.ssh_authorized_keys.len() > 0 ==> text::holds(
            user_data(ci),
            "    ssh_authorized_keys:\n"@,
        ),
        ci.packages.len() > 0 ==> text::holds(
            user_data(ci),
            "package_update: true\npackages:\n"@,
        ),
        ci.runcmd.len() > 0 ==> text::holds(user_data(ci), "runcmd:\n"@),
{
    let head = "#cloud-config\nhostname: "@ + yaml_quoted(hostname_of(ci))
        + "\nusers:\n  - default\n  - name: "@ + yaml_quoted(user_of(ci))
        + "\n    sudo: ALL=(ALL) NOPASSWD:ALL\n    shell: /bin/bash\n"@;
    let keys = section("    ssh_authorized_keys:\n"@, "      - "@, ci.ssh_authorized_keys, "\n"@);
    let packages = section(
        "package_update: true\npackages:\n"@,
        "  - "@,
        ci.packages,
        "\n"@,
    );
    let commands = section("runcmd:\n"@, "  - [ bash, -lc, "@, ci.runcmd, " ]\n"@);
    assert(user_data(ci) =~= head + keys + (packages + commands));
    assert(user_data(ci) =~= (head + keys) + packages + commands);
    assert(user_data(ci) =~= (head + keys + packages) + commands + Seq::<char>::empty());
    if ci.ssh_authorized_keys.len() > 0 {
        lemma_section_holds(
            "    ssh_authorized_keys:\n"@,
            "      - "@,
            ci.ssh_authorized_keys,
            "\n"@,
            i,
        );
        text::what_a_part_holds_the_whole_holds(
            head,
            keys,
            packages + commands,
            "    ssh_authorized_keys:\n"@,
        );
        if 0 <= i < ci.ssh_authorized_keys.len() {
            text::what_a_part_holds_the_whole_holds(
                head,
                keys,
                packages + commands,
                "      - "@ + yaml_quoted(ci.ssh_authorized_keys[i]) + "\n"@,
            );
        }
    }
    if ci.packages.len() > 0 {
        lemma_section_holds(
            "package_update: true\npackages:\n"@,
            "  - "@,
            ci.packages,
            "\n"@,
            i,
        );
        text::what_a_part_holds_the_whole_holds(
            head + keys,
            packages,
            commands,
            "package_update: true\npackages:\n"@,
        );
        if 0 <= i < ci.packages.len() {
            text::what_a_part_holds_the_whole_holds(
                head + keys,
                packages,
                commands,
                "  - "@ + yaml_quoted(ci.packages[i]) + "\n"@,
            );
        }
    }
    if ci.runcmd.len() > 0 {
        lemma_section_holds("runcmd:\n"@, "  - [ bash, -lc, "@, ci.runcmd, " ]\n"@, i);
        text::what_a_part_holds_the_whole_holds(
            head + keys + packages,
            commands,
            Seq::empty(),
            "runcmd:\n"@,
        );
        if 0 <= i < ci.runcmd.len() {
            text::what_a_part_holds_the_whole_holds(
                head + keys + packages,
                commands,
                Seq::empty(),
                "  - [ bash, -lc, "@ + yaml_quoted(ci.runcmd[i]) + " ]\n"@,
            );
        }
    }
}

proof fn lemma_section_holds(
    heading: Seq<char>,
    before: Seq<char>,
    items: Seq<Seq<char>>,
    after: Seq<char>,
    i: int,
)
    requires
        items.len() > 0,
    ensures
        text::holds(section(heading, before, items, after), heading),
        0 <= i < items.len() ==> text::holds(
            section(heading, before, items, after),
            before + yaml_quoted(items[i]) + after,
        ),
{
    let s = section(heading, before, items, after);
    let lines = listed(before, items, after);
    assert(s =~= Seq::<char>::empty() + heading + lines);
    text::lemma_holds(Seq::empty(), heading, lines, s);
    if 0 <= i < items.len() {
        lemma_listed_holds(before, items, after, i);
        text::what_a_part_holds_the_whole_holds(
            heading,
            lines,
            Seq::empty(),
            before + yaml_quoted(items[i]) + after,
        );
        assert(heading + lines + Seq::<char>::empty() =~= s);
    }
}

/// What nothing is asked of is not spoken of: without keys, packages and commands
/// a guest is told its name and its user alone.
pub proof fn an_empty_list_has_no_heading(
    heading: Seq<char>,
    before: Seq<char>,
    after: Seq<char>,
)
    ensures
        section(heading, before, Seq::empty(), after) == Seq::<char>::empty(),
{
}

/// A list that is not empty is its heading and its lines.
pub proof fn a_list_is_its_heading_and_its_lines(
    heading: Seq<char>,
    before: Seq<char>,
    items: Seq<Seq<char>>,
    after: Seq<char>,
)
    requires
        items.len() > 0,
    ensures
        section(heading, before, items, after) == heading + listed(before, items, after),
{
}

/// A guest is told its keys, its packages and its commands in this order, behind
/// its name and its user, and nothing else.
pub proof fn a_guest_is_told_nothing_else(ci: CloudInitSpecView)
    ensures
        ({
            let bare = CloudInitSpecView {
                ssh_authorized_keys: Seq::empty(),
                packages: Seq::empty(),
                runcmd: Seq::empty(),
                ..ci
            };
            user_data(ci) == user_data(bare) + section(
                "    ssh_authorized_keys:\n"@,
                "      - "@,
                ci.ssh_authorized_keys,
                "\n"@,
            ) + section("package_update: true\npackages:\n"@, "  - "@, ci.packages, "\n"@) + section(
                "runcmd:\n"@,
                "  - [ bash, -lc, "@,
                ci.runcmd,
                " ]\n"@,
            )
        }),
{
    let bare = CloudInitSpecView {
        ssh_authorized_keys: Seq::empty(),
        packages: Seq::empty(),
        runcmd: Seq::empty(),
        ..ci
    };
    a_guest_is_told_its_name_and_user(ci);
    a_guest_is_told_its_name_and_user(bare);
}

/// A seed disk is a raw image that is made from the two files that were written
/// just before, in the directory of the machine; every step has to succeed.
pub proof fn a_seed_disk_is_made_from_its_files(
    cloud_localds: Seq<char>,
    dir: Seq<char>,
    ci: CloudInitSpecView,
)
    ensures
        ({
            let steps = seed_steps(cloud_localds, dir, ci);
            let user = paths::joined(dir, "user-data"@);
            let meta = paths::joined(dir, "meta-data"@);
            &&& steps.len() == 3
            &&& steps[0].action == (ActionView::WriteFile { path: user, contents: user_data(ci) })
            &&& steps[1].action == (ActionView::WriteFile { path: meta, contents: meta_data(ci) })
            &&& plan::has_to_run(
                steps[2],
                cloud_localds,
                seq!["--disk-format"@, "raw"@, paths::joined(dir, "seed.img"@), user, meta],
            )
            &&& steps[0].purpose == "writing cloud-init user-data"@
            &&& !steps[0].optional && !steps[1].optional
            &&& steps[0].unless is None && steps[1].unless is None
        }),
{
}

} // verus!
