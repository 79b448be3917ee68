//! Paths as text.

use crate::text;
use vstd::prelude::*;

verus! {

/// A path continued by another: an absolute one takes its place.
pub open spec fn continued(base: Seq<char>, rel: Seq<char>) -> Seq<char> {
    if rel.len() > 0 && rel[0] == '/' {
        rel
    } else if base.len() == 0 || base.last() == '/' {
        base + rel
    } else {
        base + "/"@ + rel
    }
}

pub fn join(base: &str, rel: &str) -> (s: String)
    ensures
        s@ == continued(base@, rel@),
{
    let m: usize = rel.unicode_len();
    if m > 0 && rel.get_char(0) == '/' {
        return rel.to_owned();
    }
    let n: usize = base.unicode_len();
    let mut s = base.to_owned();
    if n > 0 && base.get_char(n - 1) != '/' {
        s.append("/");
    }
    s.append(rel);
    s
}

/// A file in the user's directory for such files: below the directory that the
/// environment names, else below the home directory, else at hand.
pub open spec fn user_file(
    dir: Option<Seq<char>>,
    home: Option<Seq<char>>,
    below_dir: Seq<char>,
    below_home: Seq<char>,
    fallback: Seq<char>,
) -> Seq<char> {
    match (dir, home) {
        (Some(d), _) => continued(d, below_dir),
        (None, Some(h)) => continued(h, below_home),
        (None, None) => fallback,
    }
}

fn find_user_file(
    dir: &Option<String>,
    home: &Option<String>,
    below_dir: &str,
    below_home: &str,
    fallback: &str,
) -> (s: String)
    ensures
        s@ == user_file(
            text::opt_text(*dir),
            text::opt_text(*home),
            below_dir@,
            below_home@,
            fallback@,
        ),
{
    match (dir, home) {
        (Some(d), _) => join(d.as_str(), below_dir),
        (None, Some(h)) => join(h.as_str(), below_home),
        (None, None) => fallback.to_owned(),
    }
}

/// Place of the settings file, from the environment's `XDG_CONFIG_HOME` and
/// `HOME`.
pub fn default_config_path(xdg_config_home: &Option<String>, home: &Option<String>) -> (s: String)
    ensures
        s@ == user_file(
            text::opt_text(*xdg_config_home),
            text::opt_text(*home),
            "waywallen/config.toml"@,
            ".config/waywallen/config.toml"@,
            "waywallen.toml"@,
        ),
{
    find_user_file(
        xdg_config_home,
        home,
        "waywallen/config.toml",
        ".config/waywallen/config.toml",
        "waywallen.toml",
    )
}

/// Place of the database, from the environment's `XDG_DATA_HOME` and `HOME`.
pub fn default_db_path(xdg_data_home: &Option<String>, home: &Option<String>) -> (s: String)
    ensures
        s@ == user_file(
            text::opt_text(*xdg_data_home),
            text::opt_text(*home),
            "waywallen/waywallen.db"@,
            ".local/share/waywallen/waywallen.db"@,
            "waywallen.db"@,
        ),
{
    find_user_file(
        xdg_data_home,
        home,
        "waywallen/waywallen.db",
        ".local/share/waywallen/waywallen.db",
        "waywallen.db",
    )
}

/// Path of a resource below a root. Slashes at the end of the root do not
/// matter; `None` for a resource elsewhere.
pub open spec fn below(root: Seq<char>, resource: Seq<char>) -> Option<Seq<char>> {
    let r = text::without_end(root, '/');
    if r.len() < resource.len() && resource.take(r.len() as int) == r
        && resource[r.len() as int] == '/' {
        Some(resource.skip(r.len() as int + 1))
    } else {
        None
    }
}

/// Path of a resource below the root of its library.
pub fn relative_under_root(root: &str, resource: &str) -> (s: Option<String>)
    ensures
        text::opt_text(s) == below(root@, resource@),
{
    let r = text::trim_end(root, '/');
    let n: usize = r.as_str().unicode_len();
    let m: usize = resource.unicode_len();
    if n >= m || resource.get_char(n) != '/' {
        return None;
    }
    assert(resource@.subrange(0, n as int) =~= resource@.take(n as int));
    if !text::str_eq(resource.substring_char(0, n), r.as_str()) {
        return None;
    }
    assert(resource@.subrange(n + 1, m as int) =~= resource@.skip(n + 1));
    Some(resource.substring_char(n + 1, m).to_owned())
}

// ---------------------------------------------------------------------------
// File names
// ---------------------------------------------------------------------------

/// What stands behind the last slash of a path.
pub open spec fn last_part(path: Seq<char>) -> Seq<char>
    decreases path.len(),
{
    if path.len() == 0 || path.last() == '/' {
        Seq::empty()
    } else {
        last_part(path.drop_last()).push(path.last())
    }
}

/// The path without the slashes, and the steps to the same place behind a
/// slash, that it ends in.
pub open spec fn without_tail(path: Seq<char>) -> Seq<char>
    decreases path.len(),
{
    let n = path.len() as int;
    if n > 0 && path[n - 1] == '/' {
        without_tail(path.drop_last())
    } else if n > 1 && path[n - 1] == '.' && path[n - 2] == '/' {
        without_tail(path.drop_last())
    } else {
        path
    }
}

/// Place of the last dot of a name, or a negative number where there is none.
pub open spec fn last_dot(name: Seq<char>) -> int
    decreases name.len(),
{
    if name.len() == 0 {
        -1
    } else if name.last() == '.' {
        name.len() - 1
    } else {
        last_dot(name.drop_last())
    }
}

/// What stands behind the last dot of a name; a dot in front of the whole name
/// does not count.
pub open spec fn name_extension(name: Seq<char>) -> Option<Seq<char>> {
    if last_dot(name) > 0 {
        Some(name.skip(last_dot(name) + 1))
    } else {
        None
    }
}

/// The file name that a path has: its last component. The root, a path that
/// leads up at its end and one that names nothing but its starting place have
/// none.
pub open spec fn file_name_text(path: Seq<char>) -> Option<Seq<char>> {
    let name = last_part(without_tail(path));
    if name.len() == 0 || name == seq!['.'] || name == seq!['.', '.'] {
        None
    } else {
        Some(name)
    }
}

/// The extension that the file name of a path has.
pub open spec fn extension_text(path: Seq<char>) -> Option<Seq<char>> {
    match file_name_text(path) {
        Some(name) => name_extension(name),
        None => None,
    }
}

/// `std::path::Path::file_name` on a system with slashes in its paths: the last
/// component of the path, as text, where slashes and single dots at the end do
/// not count; none for the root, for a path that ends in two dots, and for a
/// path of a single dot or of nothing.
#[verifier::external_body]
pub(crate) fn path_file_name(path: &str) -> (r: Option<String>)
    ensures
        text::opt_text(r) == file_name_text(path@),
{
    std::path::Path::new(path).file_name().and_then(|e| e.to_str()).map(String::from)
}

/// `std::path::Path::extension` on a system with slashes in its paths: the part
/// of the file name behind its last dot, as text; none without a file name,
/// without a dot in it, or with no dot but the one it begins with.
#[verifier::external_body]
pub(crate) fn path_extension(path: &str) -> (r: Option<String>)
    ensures
        text::opt_text(r) == extension_text(path@),
{
    std::path::Path::new(path).extension().and_then(|e| e.to_str()).map(String::from)
}

// ---------------------------------------------------------------------------
// Laws
// ---------------------------------------------------------------------------

/// A path that is continued starts with what it continues, and ends in what it
/// is continued by, unless that stands for itself.
pub proof fn path_is_continued(base: &str, rel: &str, s: String)
    requires
        call_ensures(join, (base, rel), s),
        base@.len() > 0,
    ensures
        rel@.len() > 0 && rel@[0] == '/' ==> s@ == rel@,
        rel@.len() == 0 || rel@[0] != '/' ==> {
            let n = s@.len() - rel@.len();
            &&& n >= base@.len()
            &&& s@.skip(n) == rel@
            &&& s@.take(base@.len() as int) == base@
            &&& s@[n - 1] == '/'
            &&& n <= base@.len() + 1
            &&& n == base@.len() <==> base@.last() == '/'
        },
{
    reveal_strlit("/");
    if rel@.len() == 0 || rel@[0] != '/' {
        let n = s@.len() - rel@.len();
        assert(s@.skip(n) =~= rel@);
        assert(s@.take(base@.len() as int) =~= base@);
    }
}

/// A resource that lies below a root is the root, a slash, and its own path
/// below it; any other does not lie below it.
pub proof fn resource_lies_below_its_root(root: &str, resource: &str, s: Option<String>, rel: Seq<char>)
    requires
        call_ensures(relative_under_root, (root, resource), s),
        root@.len() == 0 || root@.last() != '/',
    ensures
        s matches Some(r) ==> resource@ == root@ + seq!['/'] + r@,
        resource@ == root@ + seq!['/'] + rel ==> (s matches Some(r) && r@ == rel),
{
    let r = text::without_end(root@, '/');
    assert(r == root@);
    if resource@ == root@ + seq!['/'] + rel {
        assert(resource@.take(r.len() as int) =~= r);
        assert(resource@.skip(r.len() as int + 1) =~= rel);
    }
    if s is Some {
        assert(resource@ =~= resource@.take(r.len() as int) + seq!['/'] + resource@.skip(
            r.len() as int + 1,
        ));
    }
}

/// The files of the user lie in the directory that the environment names for
/// them, and below the home directory where it names none.
pub proof fn user_files_lie_where_they_belong(
    dir: &Option<String>,
    home: &Option<String>,
    config: String,
    db: String,
)
    requires
        call_ensures(default_config_path, (dir, home), config),
        call_ensures(default_db_path, (dir, home), db),
    ensures
        *dir matches Some(d) ==> config@ == continued(d@, "waywallen/config.toml"@) && db@
            == continued(d@, "waywallen/waywallen.db"@),
        *dir is None ==> (*home matches Some(h) ==> config@ == continued(
            h@,
            ".config/waywallen/config.toml"@,
        ) && db@ == continued(h@, ".local/share/waywallen/waywallen.db"@)),
        *dir is None && *home is None ==> config@ == "waywallen.toml"@ && db@ == "waywallen.db"@,
{
}

} // verus!
