//! Filesystem paths for henk's global state, all under `~/.config/henk/`.
//!
//! The home directory comes from `dirs`. It need not be UTF-8, so a path under it
//! is kept as the home directory and the text below it.

use vstd::prelude::*;
use vstd::string::*;

use crate::text::{opt_text, to_chars};

verus! {

/// Why a path under the home directory could not be formed.
#[derive(Debug, Clone, Copy, PartialEq, Eq, Structural)]
pub enum PathError {
    /// There is no home directory.
    NoHome,
}

impl PathError {
    /// The message shown to the user.
    pub open spec fn text(self) -> Seq<char> {
        match self {
            PathError::NoHome => "could not resolve $HOME"@,
        }
    }

    /// The message shown to the user.
    pub fn message(&self) -> (r: String)
        ensures
            r@ == self.text(),
    {
        match self {
            PathError::NoHome => "could not resolve $HOME".to_owned(),
        }
    }
}

/// A home directory.
#[derive(Debug, PartialEq, Eq)]
pub enum Home {
    Text(String),
    /// The bytes of one that is not UTF-8.
    Raw(Vec<u8>),
}

/// The view of a [`Home`].
pub enum HomeView {
    Text(Seq<char>),
    Raw(Seq<u8>),
}

impl View for Home {
    type V = HomeView;

    open spec fn view(&self) -> HomeView {
        match self {
            Home::Text(t) => HomeView::Text(t@),
            Home::Raw(b) => HomeView::Raw(b@),
        }
    }
}

/// A path: the home directory joined with the text below it.
#[derive(Debug, PartialEq, Eq)]
pub struct HomePath {
    pub home: Home,
    pub below: String,
}

/// The view of a [`HomePath`].
pub struct HomePathView {
    pub home: HomeView,
    pub below: Seq<char>,
}

impl View for HomePath {
    type V = HomePathView;

    open spec fn view(&self) -> HomePathView {
        HomePathView { home: self.home@, below: self.below@ }
    }
}

/// The path as text; `None` when it is not UTF-8. What is below may be absolute,
/// in which case it is the path.
pub open spec fn path_text(p: HomePathView) -> Option<Seq<char>> {
    match p.home {
        HomeView::Text(h) => Some(joined(h, p.below)),
        HomeView::Raw(_) => if p.below.len() > 0 && p.below[0] == '/' {
            Some(p.below)
        } else {
            None
        },
    }
}

impl HomePath {
    /// The path as text; `None` when it is not UTF-8.
    pub fn text(&self) -> (r: Option<String>)
        ensures
            opt_text(r) == path_text(self@),
    {
        match &self.home {
            Home::Text(h) => Some(join(h.as_str(), self.below.as_str())),
            Home::Raw(_) => {
                let below = to_chars(self.below.as_str());
                if below.len() > 0 && below[0] == '/' {
                    Some(self.below.clone())
                } else {
                    None
                }
            },
        }
    }
}

/// `base` joined with `part`: an absolute part replaces the base; otherwise one
/// separator is put between them unless the base is empty or ends with one.
pub open spec fn joined(base: Seq<char>, part: Seq<char>) -> Seq<char> {
    if part.len() > 0 && part[0] == '/' {
        part
    } else if base.len() == 0 || base.last() == '/' {
        base + part
    } else {
        base + "/"@ + part
    }
}

/// `PathBuf::join` on Unix paths.
pub fn join(base: &str, part: &str) -> (r: String)
    ensures
        r@ == joined(base@, part@),
{
    let b = to_chars(base);
    let p = to_chars(part);
    if p.len() > 0 && p[0] == '/' {
        part.to_owned()
    } else if b.len() == 0 || b[b.len() - 1] == '/' {
        base.to_owned().concat(part)
    } else {
        base.to_owned().concat("/").concat(part)
    }
}

/// `dirs::home_dir`: the home directory, as text where it is UTF-8 and as bytes
/// otherwise; `None` when there is none. What it is depends on the machine.
#[verifier::external_body]
fn home_dir() -> (r: Option<Home>) {
    dirs::home_dir().map(|p| match p.into_os_string().into_string() {
        Ok(text) => Home::Text(text),
        Err(raw) => Home::Raw(raw.into_encoded_bytes()),
    })
}

/// What the answer of the system says: the home directory, or why there is none.
pub fn home_from(found: Option<Home>) -> (r: Result<Home, PathError>)
    ensures
        r == (match found {
            Some(h) => Ok::<Home, PathError>(h),
            None => Err(PathError::NoHome),
        }),
{
    match found {
        Some(h) => Ok(h),
        None => Err(PathError::NoHome),
    }
}

/// The home directory, or why there is none. Which directory that is depends on
/// the machine.
pub fn home() -> (r: Result<Home, PathError>) {
    home_from(home_dir())
}

/// `~/.config/henk` for the home directory `home`.
pub open spec fn config_dir_of(home: Seq<char>) -> Seq<char> {
    joined(joined(home, ".config"@), "henk"@)
}

/// `~/.local/share/henk` for the home directory `home`.
pub open spec fn data_dir_of(home: Seq<char>) -> Seq<char> {
    joined(joined(joined(home, ".local"@), "share"@), "henk"@)
}

/// `~/.config/henk/traefik`.
pub open spec fn traefik_dir_of(home: Seq<char>) -> Seq<char> {
    joined(config_dir_of(home), "traefik"@)
}

/// `~/.config/henk/dynamic`.
pub open spec fn dynamic_dir_of(home: Seq<char>) -> Seq<char> {
    joined(config_dir_of(home), "dynamic"@)
}

/// `~/.config/henk/errorpages`.
pub open spec fn errorpages_dir_of(home: Seq<char>) -> Seq<char> {
    joined(config_dir_of(home), "errorpages"@)
}

/// What becomes of `found`: the path `below` a home directory, or the error why
/// there is none.
pub open spec fn placed(
    found: Result<Home, PathError>,
    below: Seq<char>,
    r: Result<HomePath, PathError>,
) -> bool {
    match found {
        Ok(h) => r matches Ok(p) && p@ == (HomePathView { home: h@, below }),
        Err(e) => r == Err::<HomePath, PathError>(e),
    }
}

/// Puts a path below what was found.
pub fn place(found: Result<Home, PathError>, below: String) -> (r: Result<HomePath, PathError>)
    ensures
        placed(found, below@, r),
{
    match found {
        Ok(home) => Ok(HomePath { home, below }),
        Err(e) => Err(e),
    }
}

/// A path in `r` is the one `below` some home directory. Which directory that is
/// depends on the machine.
pub open spec fn under_home(r: Result<HomePath, PathError>, below: Seq<char>) -> bool {
    r matches Ok(p) ==> p@.below == below
}

/// `~/.local/share/henk/`, for a given home directory.
pub fn data_dir_in(home: &str) -> (r: String)
    ensures
        r@ == data_dir_of(home@),
{
    join(join(join(home, ".local").as_str(), "share").as_str(), "henk")
}

/// `~/.config/henk/`, for a given home directory.
pub fn config_dir_in(home: &str) -> (r: String)
    ensures
        r@ == config_dir_of(home@),
{
    join(join(home, ".config").as_str(), "henk")
}

/// `~/.config/henk/`.
///
/// `found` is what `home` gave; an error in it is passed on.
pub fn config_dir_from(found: Result<Home, PathError>) -> (r: Result<HomePath, PathError>)
    ensures
        placed(found, config_dir_of(""@), r),
{
    place(found, config_dir_in(""))
}

/// `~/.config/henk/`.
pub fn config_dir() -> (r: Result<HomePath, PathError>)
    ensures
        under_home(r, config_dir_of(""@)),
{
    config_dir_from(home())
}

/// `~/.config/henk/traefik/`, the directory the global compose stack lives in, for a given home directory.
pub fn traefik_dir_in(home: &str) -> (r: String)
    ensures
        r@ == traefik_dir_of(home@),
{
    join(config_dir_in(home).as_str(), "traefik")
}

/// `~/.config/henk/traefik/`, the directory the global compose stack lives in.
///
/// `found` is what `home` gave; an error in it is passed on.
pub fn traefik_dir_from(found: Result<Home, PathError>) -> (r: Result<HomePath, PathError>)
    ensures
        placed(found, traefik_dir_of(""@), r),
{
    place(found, traefik_dir_in(""))
}

/// `~/.config/henk/traefik/`, the directory the global compose stack lives in.
pub fn traefik_dir() -> (r: Result<HomePath, PathError>)
    ensures
        under_home(r, traefik_dir_of(""@)),
{
    traefik_dir_from(home())
}

/// `~/.config/henk/traefik/compose.yml`, for a given home directory.
pub fn traefik_compose_path_in(home: &str) -> (r: String)
    ensures
        r@ == joined(traefik_dir_of(home@), "compose.yml"@),
{
    join(traefik_dir_in(home).as_str(), "compose.yml")
}

/// `~/.config/henk/traefik/compose.yml`.
///
/// `found` is what `home` gave; an error in it is passed on.
pub fn traefik_compose_path_from(found: Result<Home, PathError>) -> (r: Result<HomePath, PathError>)
    ensures
        placed(found, joined(traefik_dir_of(""@), "compose.yml"@), r),
{
    place(found, traefik_compose_path_in(""))
}

/// `~/.config/henk/traefik/compose.yml`.
pub fn traefik_compose_path() -> (r: Result<HomePath, PathError>)
    ensures
        under_home(r, joined(traefik_dir_of(""@), "compose.yml"@)),
{
    traefik_compose_path_from(home())
}

/// `~/.config/henk/traefik/traefik.yml`, for a given home directory.
pub fn traefik_static_path_in(home: &str) -> (r: String)
    ensures
        r@ == joined(traefik_dir_of(home@), "traefik.yml"@),
{
    join(traefik_dir_in(home).as_str(), "traefik.yml")
}

/// `~/.config/henk/traefik/traefik.yml`.
///
/// `found` is what `home` gave; an error in it is passed on.
pub fn traefik_static_path_from(found: Result<Home, PathError>) -> (r: Result<HomePath, PathError>)
    ensures
        placed(found, joined(traefik_dir_of(""@), "traefik.yml"@), r),
{
    place(found, traefik_static_path_in(""))
}

/// `~/.config/henk/traefik/traefik.yml`.
pub fn traefik_static_path() -> (r: Result<HomePath, PathError>)
    ensures
        under_home(r, joined(traefik_dir_of(""@), "traefik.yml"@)),
{
    traefik_static_path_from(home())
}

/// `~/.config/henk/dynamic/`, the Traefik file-provider directory, for a given home directory.
pub fn dynamic_projects_dir_in(home: &str) -> (r: String)
    ensures
        r@ == dynamic_dir_of(home@),
{
    join(config_dir_in(home).as_str(), "dynamic")
}

/// `~/.config/henk/dynamic/`, the Traefik file-provider directory.
///
/// `found` is what `home` gave; an error in it is passed on.
pub fn dynamic_projects_dir_from(found: Result<Home, PathError>) -> (r: Result<HomePath, PathError>)
    ensures
        placed(found, dynamic_dir_of(""@), r),
{
    place(found, dynamic_projects_dir_in(""))
}

/// `~/.config/henk/dynamic/`, the Traefik file-provider directory.
pub fn dynamic_projects_dir() -> (r: Result<HomePath, PathError>)
    ensures
        under_home(r, dynamic_dir_of(""@)),
{
    dynamic_projects_dir_from(home())
}

/// The dashboard / TLS file inside the file-provider directory, for a given home directory.
pub fn traefik_dynamic_path_in(home: &str) -> (r: String)
    ensures
        r@ == joined(dynamic_dir_of(home@), "_henk.yml"@),
{
    join(dynamic_projects_dir_in(home).as_str(), "_henk.yml")
}

/// The dashboard / TLS file inside the file-provider directory.
///
/// `found` is what `home` gave; an error in it is passed on.
pub fn traefik_dynamic_path_from(found: Result<Home, PathError>) -> (r: Result<HomePath, PathError>)
    ensures
        placed(found, joined(dynamic_dir_of(""@), "_henk.yml"@), r),
{
    place(found, traefik_dynamic_path_in(""))
}

/// The dashboard / TLS file inside the file-provider directory.
pub fn traefik_dynamic_path() -> (r: Result<HomePath, PathError>)
    ensures
        under_home(r, joined(dynamic_dir_of(""@), "_henk.yml"@)),
{
    traefik_dynamic_path_from(home())
}

/// `~/.config/henk/errorpages/`, the web root of the error-pages container, for a given home directory.
pub fn errorpages_dir_in(home: &str) -> (r: String)
    ensures
        r@ == errorpages_dir_of(home@),
{
    join(config_dir_in(home).as_str(), "errorpages")
}

/// `~/.config/henk/errorpages/`, the web root of the error-pages container.
///
/// `found` is what `home` gave; an error in it is passed on.
pub fn errorpages_dir_from(found: Result<Home, PathError>) -> (r: Result<HomePath, PathError>)
    ensures
        placed(found, errorpages_dir_of(""@), r),
{
    place(found, errorpages_dir_in(""))
}

/// `~/.config/henk/errorpages/`, the web root of the error-pages container.
pub fn errorpages_dir() -> (r: Result<HomePath, PathError>)
    ensures
        under_home(r, errorpages_dir_of(""@)),
{
    errorpages_dir_from(home())
}

/// A file inside `~/.config/henk/errorpages/`, e.g. `down.html`, for a given home directory.
pub fn errorpage_path_in(home: &str, file: &str) -> (r: String)
    ensures
        r@ == joined(errorpages_dir_of(home@), file@),
{
    join(errorpages_dir_in(home).as_str(), file)
}

/// A file inside `~/.config/henk/errorpages/`, e.g. `down.html`.
///
/// `found` is what `home` gave; an error in it is passed on.
pub fn errorpage_path_from(
    found: Result<Home, PathError>,
    file: &str,
) -> (r: Result<HomePath, PathError>)
    ensures
        placed(found, joined(errorpages_dir_of(""@), file@), r),
{
    place(found, errorpage_path_in("", file))
}

/// A file inside `~/.config/henk/errorpages/`, e.g. `down.html`.
pub fn errorpage_path(file: &str) -> (r: Result<HomePath, PathError>)
    ensures
        under_home(r, joined(errorpages_dir_of(""@), file@)),
{
    errorpage_path_from(home(), file)
}

/// `~/.config/henk/errorpages/nginx.conf`, for a given home directory.
pub fn errorpage_nginx_path_in(home: &str) -> (r: String)
    ensures
        r@ == joined(errorpages_dir_of(home@), "nginx.conf"@),
{
    errorpage_path_in(home, "nginx.conf")
}

/// `~/.config/henk/errorpages/nginx.conf`.
///
/// `found` is what `home` gave; an error in it is passed on.
pub fn errorpage_nginx_path_from(found: Result<Home, PathError>) -> (r: Result<HomePath, PathError>)
    ensures
        placed(found, joined(errorpages_dir_of(""@), "nginx.conf"@), r),
{
    place(found, errorpage_nginx_path_in(""))
}

/// `~/.config/henk/errorpages/nginx.conf`.
pub fn errorpage_nginx_path() -> (r: Result<HomePath, PathError>)
    ensures
        under_home(r, joined(errorpages_dir_of(""@), "nginx.conf"@)),
{
    errorpage_nginx_path_from(home())
}

/// Joining three parts gives the same path, whichever two are joined first.
pub proof fn law_joining_is_associative(a: Seq<char>, b: Seq<char>, c: Seq<char>)
    ensures
        joined(joined(a, b), c) == joined(a, joined(b, c)),
{
    reveal_strlit("/");
    let ab = joined(a, b);
    let bc = joined(b, c);
    if c.len() > 0 && c[0] == '/' {
    } else if b.len() > 0 && b[0] == '/' {
        assert(bc[0] == '/');
    } else if b.len() == 0 {
        assert(bc =~= c);
        assert(joined(ab, c) =~= joined(a, c));
    } else {
        assert(ab.last() == b.last());
        assert(bc[0] == b[0]);
        assert(joined(ab, c) =~= joined(a, bc));
    }
}

/// A path below a home directory that is text reads as the path in that
/// directory: `part` stands for any file.
pub proof fn law_paths_as_text(home: Seq<char>, part: Seq<char>)
    ensures
        joined(home, config_dir_of(""@)) == config_dir_of(home),
        joined(home, traefik_dir_of(""@)) == traefik_dir_of(home),
        joined(home, dynamic_dir_of(""@)) == dynamic_dir_of(home),
        joined(home, errorpages_dir_of(""@)) == errorpages_dir_of(home),
        joined(home, joined(config_dir_of(""@), part)) == joined(config_dir_of(home), part),
        joined(home, joined(traefik_dir_of(""@), part)) == joined(traefik_dir_of(home), part),
        joined(home, joined(dynamic_dir_of(""@), part)) == joined(dynamic_dir_of(home), part),
        joined(home, joined(errorpages_dir_of(""@), part)) == joined(errorpages_dir_of(home), part),
{
    reveal_strlit("");
    assert(joined(""@, ".config"@) =~= ".config"@);
    law_joining_is_associative(home, ".config"@, "henk"@);
    law_joining_is_associative(home, config_dir_of(""@), "traefik"@);
    law_joining_is_associative(home, config_dir_of(""@), "dynamic"@);
    law_joining_is_associative(home, config_dir_of(""@), "errorpages"@);
    law_joining_is_associative(home, config_dir_of(""@), part);
    law_joining_is_associative(home, traefik_dir_of(""@), part);
    law_joining_is_associative(home, dynamic_dir_of(""@), part);
    law_joining_is_associative(home, errorpages_dir_of(""@), part);
}

/// A file in a directory is written with one separator between them.
proof fn lemma_joined_plainly(base: Seq<char>, part: Seq<char>)
    requires
        base.len() > 0,
        base.last() != '/',
        part.len() > 0,
        part[0] != '/',
    ensures
        joined(base, part) == base + "/"@ + part,
        joined(base, part).last() == part.last(),
{
}

/// Where henk keeps its files in a home directory.
pub proof fn law_places_in_a_home(home: Seq<char>)
    requires
        home.len() > 0,
        home.last() != '/',
    ensures
        config_dir_of(home) == home + "/.config/henk"@,
        data_dir_of(home) == home + "/.local/share/henk"@,
        traefik_dir_of(home) == home + "/.config/henk/traefik"@,
        dynamic_dir_of(home) == home + "/.config/henk/dynamic"@,
        errorpages_dir_of(home) == home + "/.config/henk/errorpages"@,
{
    reveal_strlit("/");
    reveal_strlit(".config");
    reveal_strlit("henk");
    reveal_strlit(".local");
    reveal_strlit("share");
    reveal_strlit("traefik");
    reveal_strlit("dynamic");
    reveal_strlit("errorpages");
    reveal_strlit("/.config/henk");
    reveal_strlit("/.local/share/henk");
    reveal_strlit("/.config/henk/traefik");
    reveal_strlit("/.config/henk/dynamic");
    reveal_strlit("/.config/henk/errorpages");
    lemma_joined_plainly(home, ".config"@);
    lemma_joined_plainly(joined(home, ".config"@), "henk"@);
    let c = config_dir_of(home);
    assert(c =~= home + "/.config/henk"@);
    lemma_joined_plainly(c, "traefik"@);
    lemma_joined_plainly(c, "dynamic"@);
    lemma_joined_plainly(c, "errorpages"@);
    assert(traefik_dir_of(home) =~= home + "/.config/henk/traefik"@);
    assert(dynamic_dir_of(home) =~= home + "/.config/henk/dynamic"@);
    assert(errorpages_dir_of(home) =~= home + "/.config/henk/errorpages"@);
    lemma_joined_plainly(home, ".local"@);
    lemma_joined_plainly(joined(home, ".local"@), "share"@);
    lemma_joined_plainly(joined(joined(home, ".local"@), "share"@), "henk"@);
    assert(data_dir_of(home) =~= home + "/.local/share/henk"@);
}

} // verus!
