//! Adding a package to a Dockerfile: one install line is put in, and every line
//! that was there stays as it is.

use crate::config::{ConfigView, LazyConfig};
use crate::text::{has_prefix, lines, skip_spaces, split_lines, to_chars, trim_start};
use crate::utils::{dockerfile_template, lazy_dockerfile, package_manager, package_manager_of};
use vstd::prelude::*;
use vstd::string::StringExecFns;

verus! {

/// How a line that installs packages with `manager` begins.
pub open spec fn install_prefix(manager: Seq<char>) -> Seq<char> {
    "RUN "@ + manager + " add"@
}

/// The line that installs `package` with `manager`.
pub open spec fn install_line(manager: Seq<char>, package: Seq<char>) -> Seq<char> {
    "RUN "@ + manager + " add --no-cache "@ + package
}

/// The line that names `image` as the base of the build.
pub open spec fn base_line(image: Seq<char>) -> Seq<char> {
    "FROM "@ + image + " AS build"@
}

/// Whether `line`, after the white space at its start, begins with `prefix`.
pub open spec fn begins_with(line: Seq<char>, prefix: Seq<char>) -> bool {
    prefix.is_prefix_of(trim_start(line))
}

/// The index of the first line that begins with `prefix`, or the number of
/// lines where none does.
pub open spec fn first_beginning(lines: Seq<Seq<char>>, prefix: Seq<char>) -> nat
    decreases lines.len(),
{
    if lines.len() == 0 || begins_with(lines[0], prefix) {
        0
    } else {
        1 + first_beginning(lines.drop_first(), prefix)
    }
}

/// Where the new install line goes: before the first install line; without
/// one, behind the first `FROM` line; without that either, to the top.
pub open spec fn insertion_point(lines: Seq<Seq<char>>, manager: Seq<char>) -> int {
    let install = first_beginning(lines, install_prefix(manager));
    let from = first_beginning(lines, "FROM"@);
    if install < lines.len() {
        install as int
    } else if from < lines.len() {
        from as int + 1
    } else {
        0
    }
}

/// The lines of a Dockerfile after `package` was added. An empty file becomes a
/// `FROM` line and the install line.
pub open spec fn with_package(
    lines: Seq<Seq<char>>,
    manager: Seq<char>,
    image: Seq<char>,
    package: Seq<char>,
) -> Seq<Seq<char>> {
    if lines.len() == 0 {
        seq![base_line(image), install_line(manager, package)]
    } else {
        lines.insert(insertion_point(lines, manager), install_line(manager, package))
    }
}

/// The lines to write when `package` is added under `config`, where `existing`
/// holds the lines of the Dockerfile and is `None` where there is no such file:
/// then the default Dockerfile is the one that is edited.
pub open spec fn edited(
    config: ConfigView,
    package: Seq<char>,
    existing: Option<Seq<Seq<char>>>,
) -> Seq<Seq<char>> {
    let before = match existing {
        Some(found) => found,
        None => lines(dockerfile_template(config.image)),
    };
    with_package(before, package_manager_of(config.image_name), config.image, package)
}

/// What `first_beginning` returns is the least index of a line that begins with
/// `prefix`, if there is one.
pub proof fn lemma_first_beginning(lines: Seq<Seq<char>>, prefix: Seq<char>)
    ensures
        first_beginning(lines, prefix) <= lines.len(),
        first_beginning(lines, prefix) < lines.len() ==> begins_with(
            lines[first_beginning(lines, prefix) as int],
            prefix,
        ),
        forall|j: int| 0 <= j < first_beginning(lines, prefix) ==> !begins_with(lines[j], prefix),
    decreases lines.len(),
{
    if lines.len() == 0 || begins_with(lines[0], prefix) {
    } else {
        let rest = lines.drop_first();
        lemma_first_beginning(rest, prefix);
        assert forall|j: int| 0 <= j < first_beginning(lines, prefix) implies !begins_with(
            lines[j],
            prefix,
        ) by {
            if j > 0 {
                assert(lines[j] == rest[j - 1]);
            }
        }
    }
}

/// Adding a package to a file that has lines puts in the install line and
/// nothing else: without it the lines are those that were there, in their
/// order.
pub proof fn lemma_edit_keeps_lines(
    lines: Seq<Seq<char>>,
    manager: Seq<char>,
    image: Seq<char>,
    package: Seq<char>,
)
    requires
        lines.len() > 0,
    ensures
        0 <= insertion_point(lines, manager) <= lines.len(),
        with_package(lines, manager, image, package).len() == lines.len() + 1,
        with_package(lines, manager, image, package)[insertion_point(lines, manager)]
            == install_line(manager, package),
        with_package(lines, manager, image, package).remove(insertion_point(lines, manager))
            == lines,
{
    lemma_first_beginning(lines, install_prefix(manager));
    lemma_first_beginning(lines, "FROM"@);
    let at = insertion_point(lines, manager);
    let after = with_package(lines, manager, image, package);
    assert(after.remove(at) =~= lines);
}

/// Whether `line`, after the white space at its start, begins with `prefix`.
fn line_begins_with(line: &str, prefix: &Vec<char>) -> (r: bool)
    ensures
        r == begins_with(line@, prefix@),
{
    let v = to_chars(line);
    let n = v.len();
    proof {
        assert(v@.subrange(0, n as int) =~= v@);
    }
    let start = skip_spaces(&v, 0, n);
    has_prefix(&v, start, n, prefix)
}

/// The index of the first of `lines` that begins with `prefix`.
fn first_line_beginning(lines: &Vec<String>, prefix: &Vec<char>) -> (r: usize)
    ensures
        r == first_beginning(lines.deep_view(), prefix@),
        r <= lines.len(),
{
    let ghost all = lines.deep_view();
    let n = lines.len();
    let mut i: usize = 0;
    proof {
        assert(all.skip(0) =~= all);
    }
    while i < n
        invariant
            i <= n == lines.len(),
            all == lines.deep_view(),
            first_beginning(all, prefix@) == i + first_beginning(all.skip(i as int), prefix@),
        decreases n - i,
    {
        proof {
            assert(all.skip(i as int)[0] == lines[i as int]@);
            assert(all.skip(i as int).drop_first() =~= all.skip(i + 1));
        }
        if line_begins_with(lines[i].as_str(), prefix) {
            return i;
        }
        i = i + 1;
    }
    n
}

/// A copy of `lines`.
fn copy_lines(lines: &Vec<String>) -> (r: Vec<String>)
    ensures
        r@ == lines@,
{
    let mut r: Vec<String> = Vec::new();
    let mut i: usize = 0;
    while i < lines.len()
        invariant
            i <= lines.len(),
            r@ == lines@.take(i as int),
        decreases lines.len() - i,
    {
        r.push(lines[i].clone());
        proof {
            assert(r@ =~= lines@.take(i + 1));
        }
        i = i + 1;
    }
    proof {
        assert(lines@.take(lines.len() as int) =~= lines@);
    }
    r
}

/// Adds `package` to a Dockerfile: computes the lines to write from the lines
/// that the file holds. `existing` is `None` where there is no file; the default
/// Dockerfile for the configured image is then the one that gets the package.
pub fn run(config: &LazyConfig, package: &str, existing: Option<&Vec<String>>) -> (r: Vec<String>)
    ensures
        r.deep_view() == edited(config@, package@, existing.deep_view()),
{
    let manager = package_manager(config.image_name.as_str());
    let mut prefix = "RUN ".to_owned();
    prefix.append(manager.as_str());
    prefix.append(" add");
    let mut new_line = "RUN ".to_owned();
    new_line.append(manager.as_str());
    new_line.append(" add --no-cache ");
    new_line.append(package);
    let template: Vec<String>;
    let before: &Vec<String> = match existing {
        Some(found) => found,
        None => {
            template = split_lines(lazy_dockerfile(config.image.as_str()).as_str());
            &template
        },
    };
    if before.len() == 0 {
        let mut base = "FROM ".to_owned();
        base.append(config.image.as_str());
        base.append(" AS build");
        let mut r: Vec<String> = Vec::new();
        r.push(base);
        r.push(new_line);
        proof {
            assert(r.deep_view() =~= seq![base_line(config@.image), install_line(manager@, package@)]);
        }
        r
    } else {
        let install = first_line_beginning(before, &to_chars(prefix.as_str()));
        let at = if install < before.len() {
            install
        } else {
            let from = first_line_beginning(before, &to_chars("FROM"));
            if from < before.len() {
                from + 1
            } else {
                0
            }
        };
        let mut r = copy_lines(before);
        r.insert(at, new_line);
        proof {
            assert(r.deep_view() =~= before.deep_view().insert(at as int, new_line@));
        }
        r
    }
}

} // verus!
