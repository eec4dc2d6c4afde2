//! Paths as text, with `/` between components.

use crate::scan::{self, lemma_position};
use crate::text::{self, chars_of, same_text, text_of};
use vstd::prelude::*;

verus! {

// --------------------------------------------------------------------- joining

/// `part` below `base`: an absolute `part` replaces `base`, and no second
/// separator is put after one that is there.
pub open spec fn joined(base: Seq<char>, part: Seq<char>) -> Seq<char> {
    if part.len() > 0 && part[0] == '/' {
        part
    } else if base.len() == 0 || base.last() == '/' {
        base + part
    } else {
        base + "/"@ + part
    }
}

pub fn join(base: &str, part: &str) -> (r: String)
    ensures
        r@ == joined(base@, part@),
{
    let b = chars_of(base);
    let p = chars_of(part);
    if p.len() > 0 && p[0] == '/' {
        part.to_owned()
    } else if b.len() == 0 || b[b.len() - 1] == '/' {
        text::cat2(base, part)
    } else {
        text::cat3(base, "/", part)
    }
}

// ------------------------------------------------------------------ components

/// The names in a path: what stands between separators, without empty parts
/// and without `.`.
pub open spec fn names(s: Seq<char>) -> Seq<Seq<char>>
    decreases s.len(),
    via names_decreases
{
    let k = scan::position(s, '/');
    let head = s.take(k);
    let kept = if head.len() == 0 || head == "."@ {
        Seq::empty()
    } else {
        seq![head]
    };
    if k < s.len() {
        kept + names(s.skip(k + 1))
    } else {
        kept
    }
}

#[via_fn]
proof fn names_decreases(s: Seq<char>) {
    lemma_position(s, '/');
}

/// The components of a path: the root, if the path is absolute; a leading
/// `.`, if it is not and starts with one; then the names.
pub open spec fn components(s: Seq<char>) -> Seq<Seq<char>> {
    let lead = if s.len() > 0 && s[0] == '/' {
        seq!["/"@]
    } else if s.take(scan::position(s, '/')) == "."@ {
        seq!["."@]
    } else {
        Seq::empty()
    };
    lead + names(s)
}

fn names_of(v: &Vec<char>) -> (r: Vec<String>)
    ensures
        text::views(r@) == names(v@),
{
    let mut out: Vec<String> = Vec::new();
    let mut from: usize = 0;
    let mut more: bool = true;
    proof {
        assert(v@.skip(0) =~= v@);
        assert(text::views(out@) + names(v@) =~= names(v@));
    }
    while more
        invariant
            from <= v@.len(),
            more ==> text::views(out@) + names(v@.skip(from as int)) == names(v@),
            !more ==> text::views(out@) == names(v@),
        decreases v@.len() - from + (if more { 1int } else { 0 }),
    {
        let ghost rest = v@.skip(from as int);
        let ghost before = text::views(out@);
        let end = scan::find_from(v, from, '/');
        let part = text_of(v, from, end);
        proof {
            lemma_position(rest, '/');
            assert(rest.take(end - from) =~= part@);
            if end < v@.len() {
                assert(rest.skip(end - from + 1) =~= v@.skip(end + 1));
            }
        }
        if end > from && !same_text(part.as_str(), ".") {
            proof {
                text::lemma_views_push(out@, part);
                if end < v@.len() {
                    assert(before.push(part@) + names(v@.skip(end + 1)) =~= before + names(rest));
                } else {
                    assert(before.push(part@) =~= before + names(rest));
                }
            }
            out.push(part);
        } else {
            proof {
                if end < v@.len() {
                    assert(Seq::<Seq<char>>::empty() + names(v@.skip(end + 1)) =~= names(
                        v@.skip(end + 1),
                    ));
                } else {
                    assert(before + names(rest) =~= before);
                }
            }
        }
        if end < v.len() {
            from = end + 1;
        } else {
            more = false;
            from = end;
        }
    }
    out
}

fn components_of(s: &str) -> (r: Vec<String>)
    ensures
        text::views(r@) == components(s@),
{
    let v = chars_of(s);
    let mut out: Vec<String> = Vec::new();
    proof {
        assert(v@.skip(0) =~= v@);
        lemma_position(s@, '/');
    }
    let k = scan::find_from(&v, 0, '/');
    let first = text_of(&v, 0, k);
    proof {
        assert(first@ =~= s@.take(k as int));
    }
    let ghost lead = if s@.len() > 0 && s@[0] == '/' {
        seq!["/"@]
    } else if s@.take(scan::position(s@, '/')) == "."@ {
        seq!["."@]
    } else {
        Seq::empty()
    };
    if v.len() > 0 && v[0] == '/' {
        out.push("/".to_owned());
    } else if same_text(first.as_str(), ".") {
        out.push(".".to_owned());
    }
    let mut rest = names_of(&v);
    proof {
        assert(text::views(out@) =~= lead);
        assert(text::views(out@ + rest@) =~= text::views(out@) + text::views(rest@));
    }
    out.append(&mut rest);
    out
}

/// `path` lies at or under `dir`, component by component.
pub open spec fn under(path: Seq<char>, dir: Seq<char>) -> bool {
    components(dir).len() <= components(path).len() && components(path).take(
        components(dir).len() as int,
    ) == components(dir)
}

pub fn is_under(path: &str, dir: &str) -> (r: bool)
    ensures
        r == under(path@, dir@),
{
    let p = components_of(path);
    let d = components_of(dir);
    if d.len() > p.len() {
        return false;
    }
    let mut i: usize = 0;
    while i < d.len()
        invariant
            i <= d@.len() <= p@.len(),
            text::views(p@) == components(path@),
            text::views(d@) == components(dir@),
            forall|j: int| 0 <= j < i ==> components(path@)[j] == components(dir@)[j],
        decreases d@.len() - i,
    {
        if !same_text(p[i].as_str(), d[i].as_str()) {
            proof {
                assert(text::views(p@)[i as int] == p@[i as int]@);
                assert(text::views(d@)[i as int] == d@[i as int]@);
                assert(components(path@).take(d@.len() as int)[i as int] != components(
                    dir@,
                )[i as int]);
            }
            return false;
        }
        proof {
            assert(text::views(p@)[i as int] == p@[i as int]@);
            assert(text::views(d@)[i as int] == d@[i as int]@);
        }
        i += 1;
    }
    proof {
        assert(components(path@).take(d@.len() as int) =~= components(dir@));
    }
    true
}

/// Lying under a directory is transitive.
pub proof fn under_is_transitive(path: Seq<char>, middle: Seq<char>, dir: Seq<char>)
    requires
        under(path, middle),
        under(middle, dir),
    ensures
        under(path, dir),
{
    let n = components(dir).len() as int;
    assert(components(path).take(n) =~= components(path).take(
        components(middle).len() as int,
    ).take(n));
}

// ------------------------------------------------------------------ extensions

/// The path without separators and `.` components at its end.
pub open spec fn without_tail(s: Seq<char>) -> Seq<char>
    decreases s.len(),
{
    if s.len() > 0 && s.last() == '/' {
        without_tail(s.drop_last())
    } else if s.len() > 1 && s.last() == '.' && s[s.len() - 2] == '/' {
        without_tail(s.drop_last())
    } else {
        s
    }
}

/// Where the text after the last `c` in `s` starts (0 if there is no `c`).
pub open spec fn after_last(s: Seq<char>, c: char) -> int
    decreases s.len(),
{
    if s.len() == 0 {
        0
    } else if s.last() == c {
        s.len() as int
    } else {
        after_last(s.drop_last(), c)
    }
}

/// Where the last component of a path ends before its extension: at the last
/// dot of the component, unless that starts it; `None` if the path ends in no
/// name.
pub open spec fn stem_end(path: Seq<char>) -> Option<int> {
    let s = without_tail(path);
    let start = after_last(s, '/');
    let name = s.skip(start);
    if name.len() == 0 || name == "."@ || name == ".."@ {
        None
    } else if after_last(name, '.') > 1 {
        Some(start + after_last(name, '.') - 1)
    } else {
        Some(s.len() as int)
    }
}

/// The path with `ext` in place of the extension of its last component.
pub open spec fn extended(path: Seq<char>, ext: Seq<char>) -> Seq<char> {
    match stem_end(path) {
        Some(end) => path.take(end) + "."@ + ext,
        None => path,
    }
}

/// Where the text after the last `c` in `v[from..to]` starts.
pub fn last_of(v: &Vec<char>, from: usize, to: usize, c: char) -> (r: usize)
    requires
        from <= to <= v@.len(),
    ensures
        from <= r <= to,
        r - from == after_last(v@.subrange(from as int, to as int), c),
{
    let mut i: usize = to;
    while i > from && v[i - 1] != c
        invariant
            from <= i <= to <= v@.len(),
            after_last(v@.subrange(from as int, i as int), c) == after_last(
                v@.subrange(from as int, to as int),
                c,
            ),
        decreases i,
    {
        proof {
            assert(v@.subrange(from as int, i as int).drop_last() =~= v@.subrange(
                from as int,
                i - 1,
            ));
        }
        i -= 1;
    }
    i
}

/// `path` with the extension of its last component replaced by `ext`, which
/// must not be empty.
pub fn with_extension(path: &str, ext: &str) -> (r: String)
    requires
        ext@.len() > 0,
    ensures
        r@ == extended(path@, ext@),
{
    let v = chars_of(path);
    let mut to: usize = v.len();
    proof {
        assert(v@.take(to as int) =~= v@);
    }
    while to > 0 && (v[to - 1] == '/' || (to > 1 && v[to - 1] == '.' && v[to - 2] == '/'))
        invariant
            to <= v@.len(),
            without_tail(v@.take(to as int)) == without_tail(v@),
        decreases to,
    {
        proof {
            assert(v@.take(to as int).drop_last() =~= v@.take(to - 1));
        }
        to -= 1;
    }
    let ghost s = v@.take(to as int);
    proof {
        assert(without_tail(s) == s);
        assert(v@.subrange(0, to as int) =~= s);
    }
    let start = last_of(&v, 0, to, '/');
    let name = text_of(&v, start, to);
    proof {
        assert(name@ =~= s.skip(start as int));
    }
    if start == to || same_text(name.as_str(), ".") || same_text(name.as_str(), "..") {
        return path.to_owned();
    }
    let dot = last_of(&v, start, to, '.');
    let end: usize = if dot - start > 1 {
        dot - 1
    } else {
        to
    };
    let stem = text_of(&v, 0, end);
    proof {
        assert(stem@ =~= path@.take(end as int));
    }
    text::cat3(stem.as_str(), ".", ext)
}

// ------------------------------------------------------------------------ laws

/// What follows the last `c` of a text starts right behind it, and holds no `c`.
pub proof fn the_last_part_follows_the_last_separator(s: Seq<char>, c: char)
    ensures
        0 <= after_last(s, c) <= s.len(),
        after_last(s, c) > 0 ==> s[after_last(s, c) - 1] == c,
        forall|i: int| after_last(s, c) <= i < s.len() ==> s[i] != c,
    decreases s.len(),
{
    if s.len() > 0 && s.last() != c {
        the_last_part_follows_the_last_separator(s.drop_last(), c);
        assert forall|i: int| after_last(s, c) <= i < s.len() implies s[i] != c by {
            if i < s.len() - 1 {
                assert(s.drop_last()[i] == s[i]);
            }
        }
    }
}

/// A path that is joined to a directory is an absolute one as it is; any other
/// stands behind the directory with one separator between them, which is added
/// unless the directory is empty or has one at its end.
pub proof fn a_joined_path_follows_its_directory(base: Seq<char>, part: Seq<char>)
    ensures
        part.len() > 0 && part[0] == '/' ==> joined(base, part) == part,
        part.len() == 0 || part[0] != '/' ==> {
            let whole = joined(base, part);
            let gap: int = if base.len() > 0 && base.last() != '/' {
                1
            } else {
                0
            };
            &&& whole.len() == base.len() + gap + part.len()
            &&& whole.take(base.len() as int) == base
            &&& whole.skip(base.len() + gap) == part
            &&& gap == 1 ==> whole[base.len() as int] == '/'
        },
{
    reveal_strlit("/");
    let whole = joined(base, part);
    if part.len() == 0 || part[0] != '/' {
        assert(whole.take(base.len() as int) =~= base);
        if base.len() > 0 && base.last() != '/' {
            assert(whole.skip(base.len() + 1int) =~= part);
        } else {
            assert(whole.skip(base.len() + 0int) =~= part);
        }
    }
}

proof fn lemma_names_split(a: Seq<char>, b: Seq<char>)
    ensures
        names(a + seq!['/'] + b) == names(a) + names(b),
    decreases a.len(),
{
    let s = a + seq!['/'] + b;
    let k = scan::position(a, '/');
    lemma_position(a, '/');
    assert forall|i: int| 0 <= i < k implies s[i] != '/' by {
        assert(s[i] == a[i]);
    }
    scan::lemma_position_is(s, '/', k);
    assert(s.take(k) =~= a.take(k));
    if k < a.len() {
        let rest = a.skip(k + 1);
        assert(s.skip(k + 1) =~= rest + seq!['/'] + b);
        lemma_names_split(rest, b);
        assert(names(s) =~= names(a) + names(b));
    } else {
        assert(s.skip(k + 1) =~= b);
        assert(names(s) =~= names(a) + names(b));
    }
}

/// What a path starts with before its names.
spec fn lead(s: Seq<char>) -> Seq<Seq<char>> {
    if s.len() > 0 && s[0] == '/' {
        seq!["/"@]
    } else if s.take(scan::position(s, '/')) == "."@ {
        seq!["."@]
    } else {
        Seq::empty()
    }
}

proof fn lemma_lead(a: Seq<char>, b: Seq<char>)
    requires
        a.len() > 0,
        b.len() == 0 || b[0] == '/' || a.contains('/'),
    ensures
        lead(a + b) == lead(a),
{
    let s = a + b;
    let k = scan::position(a, '/');
    lemma_position(a, '/');
    if k == a.len() && a.contains('/') {
        let i = choose|i: int| 0 <= i < a.len() && a[i] == '/';
        assert(a[i] != '/');
    }
    assert forall|i: int| 0 <= i < k implies s[i] != '/' by {
        assert(s[i] == a[i]);
    }
    scan::lemma_position_is(s, '/', k);
    assert(s.take(k) =~= a.take(k));
    assert(s[0] == a[0]);
}

/// Whatever is joined to a directory lies under it, and so does the directory
/// itself.
pub proof fn what_is_joined_lies_under(dir: Seq<char>, part: Seq<char>)
    requires
        dir.len() > 0,
        part.len() == 0 || part[0] != '/',
    ensures
        under(joined(dir, part), dir),
        under(dir, dir),
{
    reveal_strlit("/");
    assert("/"@ =~= seq!['/']);
    let whole = joined(dir, part);
    let nothing = Seq::<char>::empty();
    assert(names(nothing) =~= Seq::<Seq<char>>::empty()) by {
        assert(scan::position(nothing, '/') == 0);
        assert(nothing.take(0).len() == 0);
    }
    let d = components(dir);
    let w = components(whole);
    if dir.last() == '/' {
        let a = dir.drop_last();
        assert(dir =~= a + seq!['/'] + nothing);
        assert(whole =~= a + seq!['/'] + part);
        lemma_names_split(a, nothing);
        lemma_names_split(a, part);
        assert(dir[dir.len() - 1] == '/');
        assert(dir.contains('/'));
        lemma_lead(dir, part);
        assert(whole =~= dir + part);
        assert(names(dir) =~= names(a));
        assert(w =~= lead(dir) + names(a) + names(part));
        assert(d =~= lead(dir) + names(a));
    } else {
        assert(whole =~= dir + seq!['/'] + part);
        lemma_names_split(dir, part);
        lemma_lead(dir, seq!['/'] + part);
        assert(whole =~= dir + (seq!['/'] + part));
        assert(w =~= lead(dir) + names(dir) + names(part));
        assert(d =~= lead(dir) + names(dir));
    }
    assert(w.take(d.len() as int) =~= d);
    assert(d.take(d.len() as int) =~= d);
}

proof fn lemma_first_name(s: Seq<char>, n: int)
    requires
        0 < n <= scan::position(s, '/'),
        s.take(scan::position(s, '/')) != "."@,
    ensures
        names(s).len() > 0,
        names(s)[0] == s.take(scan::position(s, '/')),
{
    lemma_position(s, '/');
}

/// Directories are compared name by name: a directory whose name only begins like
/// that of another is not under it.
pub proof fn a_longer_name_is_another_directory(dir: Seq<char>, more: Seq<char>)
    requires
        dir.len() > 0,
        dir.last() != '/',
        dir.last() != '.',
        more.len() > 0,
        more[0] != '/',
    ensures
        !under(dir + more, dir),
{
    reveal_strlit(".");
    assert("."@.len() == 1 && "."@[0] == '.');
    let start = after_last(dir, '/');
    the_last_part_follows_the_last_separator(dir, '/');
    if start == dir.len() {
        assert(dir[start - 1] == '/');
    }
    let w = dir.skip(start);
    assert forall|i: int| 0 <= i < w.len() implies w[i] != '/' by {
        assert(w[i] == dir[start + i]);
    }
    assert(w.last() == dir.last());
    scan::lemma_position_is(w, '/', w.len() as int);
    assert(w.take(w.len() as int) =~= w);
    assert(names(w) =~= seq![w]);
    let x = w + more;
    lemma_position(more, '/');
    let k = w.len() + scan::position(more, '/');
    assert(scan::position(more, '/') > 0);
    assert forall|i: int| 0 <= i < k implies x[i] != '/' by {
        if i >= w.len() {
            assert(x[i] == more[i - w.len()]);
        }
    }
    if k < x.len() {
        assert(x[k] == more[k - w.len()]);
    }
    scan::lemma_position_is(x, '/', k);
    assert(x.take(k).len() == k);
    lemma_first_name(x, k);
    let s = dir + more;
    let d = components(dir);
    let c = components(s);
    if start == 0 {
        assert(dir =~= w);
        assert(s =~= x);
        assert(x[0] == w[0]);
        assert(d =~= seq![w]);
        assert(c[0] == x.take(k));
        assert(c.take(1)[0] == x.take(k));
    } else {
        let a = dir.take(start - 1);
        assert(dir =~= a + seq!['/'] + w);
        assert(s =~= a + seq!['/'] + x);
        lemma_names_split(a, w);
        lemma_names_split(a, x);
        assert(dir[start - 1] == '/');
        assert(dir.contains('/'));
        lemma_lead(dir, more);
        let n = lead(dir).len() + names(a).len();
        assert(d =~= lead(dir) + names(a) + seq![w]);
        assert(c =~= lead(dir) + names(a) + names(x));
        assert(d[n as int] == w);
        assert(c[n as int] == x.take(k));
        if under(s, dir) {
            assert(c.take(d.len() as int)[n as int] == w);
        }
    }
}

/// A path lies under a directory if and only if its components begin with those of
/// the directory.
pub proof fn under_means_the_same_components_first(path: Seq<char>, dir: Seq<char>)
    ensures
        under(path, dir) <==> {
            &&& components(dir).len() <= components(path).len()
            &&& forall|i: int|
                0 <= i < components(dir).len() ==> #[trigger] components(path)[i] == components(
                    dir,
                )[i]
        },
{
    let d = components(dir);
    let p = components(path);
    if under(path, dir) {
        assert forall|i: int| 0 <= i < d.len() implies #[trigger] p[i] == d[i] by {
            assert(p.take(d.len() as int)[i] == p[i]);
        }
    } else if d.len() <= p.len() && (forall|i: int| 0 <= i < d.len() ==> #[trigger] p[i] == d[i]) {
        assert(p.take(d.len() as int) =~= d);
    }
}

proof fn lemma_after_last_is(s: Seq<char>, c: char, k: int)
    requires
        0 <= k <= s.len(),
        k > 0 ==> s[k - 1] == c,
        forall|i: int| k <= i < s.len() ==> s[i] != c,
    ensures
        after_last(s, c) == k,
{
    the_last_part_follows_the_last_separator(s, c);
    let a = after_last(s, c);
    if a < k {
        assert(s[k - 1] != c);
    }
}

/// The extension of a file is what follows the last dot of its name; it is
/// replaced, and what stands before it is kept. A file without one gets one.
pub proof fn an_extension_is_replaced_or_added(
    dir: Seq<char>,
    stem: Seq<char>,
    ext: Seq<char>,
    new: Seq<char>,
)
    requires
        dir.len() == 0 || dir.last() == '/',
        stem.len() > 0,
        ext.len() > 0,
        !stem.contains('/'),
        !ext.contains('/'),
        !ext.contains('.'),
    ensures
        extended(dir + stem + seq!['.'] + ext, new) == dir + stem + seq!['.'] + new,
        !stem.contains('.') ==> extended(dir + stem, new) == dir + stem + seq!['.'] + new,
{
    reveal_strlit(".");
    reveal_strlit("..");
    assert("."@ =~= seq!['.']);
    assert(".."@ =~= seq!['.', '.']);
    assert forall|i: int| 0 <= i < stem.len() implies stem[i] != '/' by {
        assert(stem.contains(stem[i]));
    }
    assert forall|i: int| 0 <= i < ext.len() implies ext[i] != '/' && ext[i] != '.' by {
        assert(ext.contains(ext[i]));
    }
    let name = stem + seq!['.'] + ext;
    let path = dir + stem + seq!['.'] + ext;
    assert(path =~= dir + name);
    assert(path.last() == ext.last());
    assert(ext[ext.len() - 1] == ext.last());
    assert(without_tail(path) == path);
    assert forall|i: int| dir.len() <= i < path.len() implies path[i] != '/' by {
        let j = i - dir.len();
        assert(path[i] == name[j]);
        if j > stem.len() {
            assert(name[j] == ext[j - stem.len() - 1]);
        }
    }
    lemma_after_last_is(path, '/', dir.len() as int);
    assert(path.skip(dir.len() as int) =~= name);
    assert forall|i: int| stem.len() + 1 <= i < name.len() implies name[i] != '.' by {
        assert(name[i] == ext[i - stem.len() - 1]);
    }
    lemma_after_last_is(name, '.', stem.len() + 1int);
    assert(name.last() == ext.last());
    assert(name != "."@ && name != ".."@) by {
        assert("."@.last() == '.' && ".."@.last() == '.');
    }
    let end = dir.len() + stem.len();
    assert(path.take(end as int) =~= dir + stem);
    assert(extended(path, new) =~= dir + stem + seq!['.'] + new);
    if !stem.contains('.') {
        let bare = dir + stem;
        assert forall|i: int| 0 <= i < stem.len() implies stem[i] != '.' by {
            assert(stem.contains(stem[i]));
        }
        assert(bare.last() == stem.last());
        assert(stem[stem.len() - 1] == stem.last());
        assert(without_tail(bare) == bare);
        assert forall|i: int| dir.len() <= i < bare.len() implies bare[i] != '/' by {
            assert(bare[i] == stem[i - dir.len()]);
        }
        lemma_after_last_is(bare, '/', dir.len() as int);
        assert(bare.skip(dir.len() as int) =~= stem);
        lemma_after_last_is(stem, '.', 0);
        assert(stem != "."@ && stem != ".."@) by {
            assert("."@[0] == '.' && ".."@[0] == '.');
        }
        assert(bare.take(bare.len() as int) =~= bare);
        assert(extended(bare, new) =~= dir + stem + seq!['.'] + new);
    }
}

/// A path is made of the names between its separators: an empty one and `.` are
/// none, and every other is one as it is.
pub proof fn a_path_is_made_of_its_names(a: Seq<char>, b: Seq<char>, name: Seq<char>)
    requires
        !name.contains('/'),
    ensures
        names(a + seq!['/'] + b) == names(a) + names(b),
        name.len() == 0 || name == "."@ ==> names(name) == Seq::<Seq<char>>::empty(),
        name.len() > 0 && name != "."@ ==> names(name) == seq![name],
{
    lemma_names_split(a, b);
    assert forall|i: int| 0 <= i < name.len() implies name[i] != '/' by {
        assert(name.contains(name[i]));
    }
    scan::lemma_position_is(name, '/', name.len() as int);
    assert(name.take(name.len() as int) =~= name);
}

/// The names of a path follow the root, if it is absolute, or the `.` that it
/// starts with.
pub proof fn components_are_the_start_and_the_names(s: Seq<char>)
    ensures
        s.len() > 0 && s[0] == '/' ==> components(s) == seq!["/"@] + names(s),
        s.len() > 0 && s[0] != '/' && s.take(scan::position(s, '/')) != "."@ ==> components(s)
            == names(s),
        s.len() > 0 && s[0] != '/' && s.take(scan::position(s, '/')) == "."@ ==> components(s)
            == seq!["."@] + names(s),
{
    assert(Seq::<Seq<char>>::empty() + names(s) =~= names(s));
}

} // verus!
