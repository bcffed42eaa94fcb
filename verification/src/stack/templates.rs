//! Renders the global stack's config files.
//!
//! A template marks a place as `{{NAME}}`; rendering replaces each mark by its
//! value.

use vstd::prelude::*;
use vstd::string::*;

use crate::config::{Config, ConfigView};
use crate::consts::HENK_FILE_HEADER;
use crate::stack::assets::{
    lemma_compose_tmpl_publishes_the_ports, lemma_dynamic_tmpl_names_the_certificate,
    lemma_shell_tmpl_has_its_places, APP_ERROR_HTML, APP_ERROR_TEXT, COMPOSE_TMPL, DOWN_HTML,
    DOWN_TEXT, DYNAMIC_TMPL, ERRORPAGE_NGINX_TMPL, ERRORPAGE_SHELL_TMPL, TRAEFIK_TMPL,
    UNLINKED_HTML, UNLINKED_TEXT,
};
use crate::stack::certs::{cert_name, key_name};
use crate::stack::paths::{
    dynamic_dir_of, errorpage_nginx_path_in, errorpage_path_in, errorpages_dir_of, joined,
    traefik_compose_path_in, traefik_dir_of, traefik_dynamic_path_in, traefik_static_path_in,
};
use crate::text::{
    begins, contains, decimal, decimal_u16, eq, is_digit, lemma_decimal, lemma_replace_absent,
    lemma_replace_at_seam, occurs_at, opt_text, replace, replace_of, trim_end, trim_end_of,
};

verus! {

/// A name and the value it stands for.
#[derive(Debug)]
pub struct Var {
    pub name: &'static str,
    pub value: String,
}

/// The view of a [`Var`]: name and value.
pub open spec fn var_view(v: Var) -> (Seq<char>, Seq<char>) {
    (v.name@, v.value@)
}

/// The views of a list of variables.
pub open spec fn var_views(vars: Seq<Var>) -> Seq<(Seq<char>, Seq<char>)> {
    vars.map_values(|v: Var| var_view(v))
}

/// The variables of the stack's templates, by name.
pub open spec fn stack_vars(cfg: ConfigView) -> Seq<(Seq<char>, Seq<char>)> {
    seq![
        ("DASHBOARD_PORT"@, decimal(cfg.ports.dashboard as nat)),
        ("HENK_FILE_HEADER"@, HENK_FILE_HEADER@),
        ("HTTPS_PORT"@, decimal(cfg.ports.https as nat)),
        ("HTTP_PORT"@, decimal(cfg.ports.http as nat)),
        ("TLD"@, cfg.tld),
    ]
}

/// The mark of a name.
pub open spec fn mark(name: Seq<char>) -> Seq<char> {
    "{{"@ + name + "}}"@
}

/// A template with the first `n` variables filled in, one after another.
pub open spec fn filled(
    template: Seq<char>,
    vars: Seq<(Seq<char>, Seq<char>)>,
    n: nat,
) -> Seq<char>
    decreases n,
{
    if n == 0 || n > vars.len() {
        template
    } else {
        replace_of(
            filled(template, vars, (n - 1) as nat),
            mark(vars[n - 1].0),
            vars[n - 1].1,
        )
    }
}

/// A template with every variable filled in.
pub open spec fn rendered(template: Seq<char>, vars: Seq<(Seq<char>, Seq<char>)>) -> Seq<char> {
    filled(template, vars, vars.len())
}

/// The variables of the stack's templates.
pub fn vars_from(cfg: &Config) -> (r: Vec<Var>)
    ensures
        var_views(r@) == stack_vars(cfg@),
{
    let mut vars: Vec<Var> = Vec::new();
    vars.push(Var { name: "DASHBOARD_PORT", value: decimal_u16(cfg.ports.dashboard) });
    vars.push(Var { name: "HENK_FILE_HEADER", value: HENK_FILE_HEADER.to_owned() });
    vars.push(Var { name: "HTTPS_PORT", value: decimal_u16(cfg.ports.https) });
    vars.push(Var { name: "HTTP_PORT", value: decimal_u16(cfg.ports.http) });
    vars.push(Var { name: "TLD", value: cfg.tld.clone() });
    assert(var_views(vars@) =~= stack_vars(cfg@));
    vars
}

/// Fills a template in.
pub fn render(template: &str, vars: &Vec<Var>) -> (r: String)
    ensures
        r@ == rendered(template@, var_views(vars@)),
{
    let ghost all = var_views(vars@);
    let mut out = template.to_owned();
    let mut i: usize = 0;
    while i < vars.len()
        invariant
            i <= vars@.len(),
            all == var_views(vars@),
            out@ == filled(template@, all, i as nat),
        decreases vars@.len() - i,
    {
        let pat = "{{".to_owned().concat(vars[i].name).concat("}}");
        proof {
            reveal_strlit("{{");
            assert(all[i as int] == (vars@[i as int].name@, vars@[i as int].value@));
            assert(pat@ == mark(all[i as int].0));
        }
        out = replace(out.as_str(), pat.as_str(), vars[i].value.as_str());
        i += 1;
    }
    out
}

/// A page shown when a request can't reach a healthy backend, rendered as HTML
/// for browsers and as text for everything else.
#[derive(Debug, Clone, Copy)]
pub struct ErrorPage {
    /// Basename of the rendered files.
    pub name: &'static str,
    pub title: &'static str,
    pub html_body: &'static str,
    pub text: &'static str,
}

/// The view of an [`ErrorPage`].
pub struct PageView {
    pub name: Seq<char>,
    pub title: Seq<char>,
    pub html_body: Seq<char>,
    pub text: Seq<char>,
}

impl View for ErrorPage {
    type V = PageView;

    open spec fn view(&self) -> PageView {
        PageView {
            name: self.name@,
            title: self.title@,
            html_body: self.html_body@,
            text: self.text@,
        }
    }
}

/// The page for a backend that does not answer.
pub open spec fn down_view() -> PageView {
    PageView {
        name: "down"@,
        title: "Dev server not answering"@,
        html_body: DOWN_HTML@,
        text: DOWN_TEXT@,
    }
}

/// The page for an app that answered with an error of its own.
pub open spec fn app_error_view() -> PageView {
    PageView {
        name: "app-error"@,
        title: "Your app returned an error"@,
        html_body: APP_ERROR_HTML@,
        text: APP_ERROR_TEXT@,
    }
}

/// The page for a hostname that nobody linked.
pub open spec fn unlinked_view() -> PageView {
    PageView {
        name: "unlinked"@,
        title: "Nothing linked to this hostname"@,
        html_body: UNLINKED_HTML@,
        text: UNLINKED_TEXT@,
    }
}

/// The page for a backend that does not answer.
pub fn down_page() -> (r: ErrorPage)
    ensures
        r@ == down_view(),
{
    ErrorPage {
        name: "down",
        title: "Dev server not answering",
        html_body: DOWN_HTML,
        text: DOWN_TEXT,
    }
}

/// The page for an app that answered with an error of its own.
pub fn app_error_page() -> (r: ErrorPage)
    ensures
        r@ == app_error_view(),
{
    ErrorPage {
        name: "app-error",
        title: "Your app returned an error",
        html_body: APP_ERROR_HTML,
        text: APP_ERROR_TEXT,
    }
}

/// The page for a hostname that nobody linked.
pub fn unlinked_page() -> (r: ErrorPage)
    ensures
        r@ == unlinked_view(),
{
    ErrorPage {
        name: "unlinked",
        title: "Nothing linked to this hostname",
        html_body: UNLINKED_HTML,
        text: UNLINKED_TEXT,
    }
}

/// A page in the HTML shell. The body is filled in last, so its text is never
/// read as a mark.
pub open spec fn html_page(page: PageView, vars: Seq<(Seq<char>, Seq<char>)>) -> Seq<char> {
    replace_of(
        replace_of(rendered(ERRORPAGE_SHELL_TMPL@, vars), "{{TITLE}}"@, page.title),
        "{{BODY}}"@,
        trim_end_of(rendered(page.html_body, vars)),
    )
}

/// Puts a page into the HTML shell.
pub fn render_html_page(page: &ErrorPage, vars: &Vec<Var>) -> (r: String)
    ensures
        r@ == html_page(page@, var_views(vars@)),
{
    let shell = render(ERRORPAGE_SHELL_TMPL, vars);
    proof {
        reveal_strlit("{{TITLE}}");
        reveal_strlit("{{BODY}}");
    }
    let titled = replace(shell.as_str(), "{{TITLE}}", page.title);
    let body = render(page.html_body, vars);
    replace(titled.as_str(), "{{BODY}}", trim_end(body.as_str()).as_str())
}

/// A file of the stack.
#[derive(Debug)]
pub struct StackFile {
    pub path: String,
    pub contents: String,
    /// The containers read it only when they boot.
    pub boot: bool,
}

/// The view of a [`StackFile`].
#[verifier::ext_equal]
pub struct FileView {
    pub path: Seq<char>,
    pub contents: Seq<char>,
    pub boot: bool,
}

impl View for StackFile {
    type V = FileView;

    open spec fn view(&self) -> FileView {
        FileView { path: self.path@, contents: self.contents@, boot: self.boot }
    }
}

/// The views of a list of files.
pub open spec fn file_views(files: Seq<StackFile>) -> Seq<FileView> {
    files.map_values(|f: StackFile| f@)
}

/// The HTML file of a page.
pub open spec fn page_html_file(
    home: Seq<char>,
    page: PageView,
    vars: Seq<(Seq<char>, Seq<char>)>,
) -> FileView {
    FileView {
        path: joined(errorpages_dir_of(home), page.name + ".html"@),
        contents: html_page(page, vars),
        boot: false,
    }
}

/// The text file of a page.
pub open spec fn page_text_file(
    home: Seq<char>,
    page: PageView,
    vars: Seq<(Seq<char>, Seq<char>)>,
) -> FileView {
    FileView {
        path: joined(errorpages_dir_of(home), page.name + ".txt"@),
        contents: rendered(page.text, vars),
        boot: false,
    }
}

/// Every file of the stack, in the order they are written. Traefik's static
/// config and nginx's config are read only when the containers boot.
pub open spec fn stack_files(home: Seq<char>, cfg: ConfigView) -> Seq<FileView> {
    let vars = stack_vars(cfg);
    seq![
        FileView {
            path: joined(traefik_dir_of(home), "compose.yml"@),
            contents: rendered(COMPOSE_TMPL@, vars),
            boot: false,
        },
        FileView {
            path: joined(traefik_dir_of(home), "traefik.yml"@),
            contents: rendered(TRAEFIK_TMPL@, vars),
            boot: true,
        },
        FileView {
            path: joined(dynamic_dir_of(home), "_henk.yml"@),
            contents: rendered(DYNAMIC_TMPL@, vars),
            boot: false,
        },
        page_html_file(home, down_view(), vars),
        page_text_file(home, down_view(), vars),
        page_html_file(home, app_error_view(), vars),
        page_text_file(home, app_error_view(), vars),
        page_html_file(home, unlinked_view(), vars),
        page_text_file(home, unlinked_view(), vars),
        FileView {
            path: joined(errorpages_dir_of(home), "nginx.conf"@),
            contents: rendered(ERRORPAGE_NGINX_TMPL@, vars),
            boot: true,
        },
    ]
}

/// Renders both files of a page.
fn push_page(files: &mut Vec<StackFile>, home: &str, page: &ErrorPage, vars: &Vec<Var>)
    ensures
        file_views(final(files)@) == file_views(old(files)@).push(
            page_html_file(home@, page@, var_views(vars@)),
        ).push(page_text_file(home@, page@, var_views(vars@))),
{
    let ghost before = file_views(files@);
    let html = StackFile {
        path: errorpage_path_in(home, page.name.to_owned().concat(".html").as_str()),
        contents: render_html_page(page, vars),
        boot: false,
    };
    let ghost first = html@;
    files.push(html);
    assert(file_views(files@) =~= before.push(first));
    let text = StackFile {
        path: errorpage_path_in(home, page.name.to_owned().concat(".txt").as_str()),
        contents: render(page.text, vars),
        boot: false,
    };
    let ghost second = text@;
    files.push(text);
    assert(file_views(files@) =~= before.push(first).push(second));
}

/// Renders every file of the stack. With an empty `home` the paths are those
/// below the home directory.
pub fn render_all(cfg: &Config, home: &str) -> (r: Vec<StackFile>)
    ensures
        file_views(r@) == stack_files(home@, cfg@),
{
    let vars = vars_from(cfg);
    let mut files: Vec<StackFile> = Vec::new();
    files.push(
        StackFile {
            path: traefik_compose_path_in(home),
            contents: render(COMPOSE_TMPL, &vars),
            boot: false,
        },
    );
    files.push(
        StackFile {
            path: traefik_static_path_in(home),
            contents: render(TRAEFIK_TMPL, &vars),
            boot: true,
        },
    );
    files.push(
        StackFile {
            path: traefik_dynamic_path_in(home),
            contents: render(DYNAMIC_TMPL, &vars),
            boot: false,
        },
    );
    push_page(&mut files, home, &down_page(), &vars);
    push_page(&mut files, home, &app_error_page(), &vars);
    push_page(&mut files, home, &unlinked_page(), &vars);
    let ghost before = file_views(files@);
    let nginx = StackFile {
        path: errorpage_nginx_path_in(home),
        contents: render(ERRORPAGE_NGINX_TMPL, &vars),
        boot: true,
    };
    let ghost last = nginx@;
    files.push(nginx);
    assert(file_views(files@) =~= before.push(last));
    assert(file_views(files@) =~= stack_files(home@, cfg@));
    files
}

/// A file is written when it does not hold these contents already. `existing` is
/// what could be read of it.
pub open spec fn differs(existing: Option<Seq<char>>, contents: Seq<char>) -> bool {
    existing != Some(contents)
}

/// Has a file to be written?
pub fn write_if_changed(existing: &Option<String>, contents: &str) -> (r: bool)
    ensures
        r == differs(opt_text(*existing), contents@),
{
    match existing {
        Some(body) => !eq(body.as_str(), contents),
        None => true,
    }
}

/// The name a file is staged under before it is renamed into place. The suffix
/// is appended, so `down.html` and `down.txt` do not share a name.
pub fn staging_path(path: &str) -> (r: String)
    ensures
        r@ == path@ + ".tmp"@,
{
    path.to_owned().concat(".tmp")
}

/// Does a file that is only read at boot change?
pub open spec fn boot_changes(files: Seq<FileView>, existing: Seq<Option<String>>) -> bool {
    exists|i: int|
        0 <= i < files.len() && (#[trigger] files[i]).boot && differs(
            opt_text(existing[i]),
            files[i].contents,
        )
}

/// Do the containers have to be restarted? Traefik watches its dynamic directory
/// and nginx reads the pages on each request, but boot config only counts after
/// a restart.
pub fn boot_config_changed(files: &Vec<StackFile>, existing: &Vec<Option<String>>) -> (r: bool)
    requires
        files@.len() == existing@.len(),
    ensures
        r == boot_changes(file_views(files@), existing@),
{
    let ghost all = file_views(files@);
    let mut i: usize = 0;
    while i < files.len()
        invariant
            i <= files@.len(),
            files@.len() == existing@.len(),
            all == file_views(files@),
            forall|j: int|
                0 <= j < i ==> !((#[trigger] all[j]).boot && differs(
                    opt_text(existing@[j]),
                    all[j].contents,
                )),
        decreases files@.len() - i,
    {
        assert(all[i as int] == files@[i as int]@);
        if files[i].boot && write_if_changed(&existing[i], files[i].contents.as_str()) {
            return true;
        }
        i += 1;
    }
    false
}

/// A template in which nothing is marked is its own rendering.
pub proof fn law_render_leaves_plain_text_alone(
    template: Seq<char>,
    vars: Seq<(Seq<char>, Seq<char>)>,
)
    requires
        !contains(template, "{{"@),
    ensures
        rendered(template, vars) == template,
{
    lemma_filled_plain(template, vars, vars.len());
}

/// Filling in variables leaves a text without marks alone.
proof fn lemma_filled_plain(template: Seq<char>, vars: Seq<(Seq<char>, Seq<char>)>, n: nat)
    requires
        !contains(template, "{{"@),
    ensures
        filled(template, vars, n) == template,
    decreases n,
{
    if n > 0 && n <= vars.len() {
        lemma_filled_plain(template, vars, (n - 1) as nat);
        let pat = mark(vars[n - 1].0);
        reveal_strlit("{{");
        assert forall|i: int| !occurs_at(template, pat, i) by {
            if occurs_at(template, pat, i) {
                assert(template.subrange(i, i + 2) =~= pat.subrange(0, 2)) by {
                    assert(template.subrange(i, i + pat.len()) == pat);
                    assert forall|k: int| 0 <= k < 2 implies template[i + k] == pat[k] by {
                        assert(template.subrange(i, i + pat.len())[k] == pat[k]);
                    }
                }
                assert(pat.subrange(0, 2) =~= "{{"@);
                assert(occurs_at(template, "{{"@, i));
            }
        }
        lemma_replace_absent(template, pat, vars[n - 1].1);
    }
}

/// A character that a mark can hold.
pub open spec fn in_mark(c: char) -> bool {
    c == '{' || c == '}' || c == '_' || 'A' <= c <= 'Z'
}

/// The marks of the stack's variables are braces around capitals.
proof fn lemma_marks(cfg: ConfigView)
    ensures
        stack_vars(cfg).len() == 5,
        mark(stack_vars(cfg)[4].0) == "{{TLD}}"@,
        forall|n: int|
            #![trigger stack_vars(cfg)[n]]
            0 <= n < 5 ==> mark(stack_vars(cfg)[n].0).len() > 0 && mark(
                stack_vars(cfg)[n].0,
            )[0] == '{' && (n < 4 ==> mark(stack_vars(cfg)[n].0).len() > "{{TLD}}"@.len()),
        forall|n: int, k: int|
            #![trigger mark(stack_vars(cfg)[n].0)[k]]
            0 <= n < 5 && 0 <= k < mark(stack_vars(cfg)[n].0).len() ==> in_mark(
                mark(stack_vars(cfg)[n].0)[k],
            ),
{
    reveal_strlit("{{");
    reveal_strlit("}}");
    reveal_strlit("{{TLD}}");
    reveal_strlit("DASHBOARD_PORT");
    reveal_strlit("HENK_FILE_HEADER");
    reveal_strlit("HTTPS_PORT");
    reveal_strlit("HTTP_PORT");
    reveal_strlit("TLD");
    assert(mark("TLD"@) =~= "{{TLD}}"@);
}

/// A text between two plain ones is replaced in its place.
proof fn lemma_replace_framed(
    s: Seq<char>,
    pre: Seq<char>,
    mid: Seq<char>,
    post: Seq<char>,
    pat: Seq<char>,
    with: Seq<char>,
)
    requires
        contains(s, pre + mid + post),
        pat.len() > 0,
        pat[0] == '{',
        forall|k: int| 0 <= k < pat.len() ==> in_mark(#[trigger] pat[k]),
        pre.len() > 0,
        post.len() > 0,
        !in_mark(pre[0]),
        !in_mark(pre.last()),
        !in_mark(post[0]),
        !in_mark(post.last()),
        !pre.contains('{'),
        !post.contains('{'),
    ensures
        contains(replace_of(s, pat, with), pre + replace_of(mid, pat, with) + post),
{
    let x = pre + mid + post;
    let j = choose|j: int| occurs_at(s, x, j);
    let u = s.take(j);
    let v = s.skip(j + x.len());
    assert(s =~= u + (pre + (mid + (post + v)))) by {
        assert(s =~= u + s.subrange(j, j + x.len()) + v);
        assert(x =~= pre + (mid + post));
    }
    lemma_replace_at_seam(u, pre + (mid + (post + v)), pat, with);
    lemma_replace_at_seam(pre, mid + (post + v), pat, with);
    lemma_replace_at_seam(mid, post + v, pat, with);
    lemma_replace_at_seam(post, v, pat, with);
    lemma_unmarked(pre, pat, with);
    lemma_unmarked(post, pat, with);
    let a = replace_of(u, pat, with);
    let m = replace_of(mid, pat, with);
    let b = replace_of(v, pat, with);
    let y = pre + m + post;
    let t = replace_of(s, pat, with);
    assert(t == a + (pre + (m + (post + b))));
    assert(t.subrange(a.len() as int, a.len() as int + y.len()) =~= y);
    assert(occurs_at(t, y, a.len() as int));
}

/// A text without an opening brace holds no mark.
pub proof fn lemma_unmarked(s: Seq<char>, pat: Seq<char>, with: Seq<char>)
    requires
        pat.len() > 0,
        pat[0] == '{',
        !s.contains('{'),
    ensures
        replace_of(s, pat, with) == s,
{
    assert forall|i: int| !occurs_at(s, pat, i) by {
        if occurs_at(s, pat, i) {
            assert(s.subrange(i, i + pat.len())[0] == pat[0]);
            assert(s[i] == '{');
        }
    }
    lemma_replace_absent(s, pat, with);
}

/// Where a template holds the TLD's mark between two plain texts, the rendering
/// holds the TLD there.
proof fn lemma_tld_filled_in(
    template: Seq<char>,
    cfg: ConfigView,
    pre: Seq<char>,
    post: Seq<char>,
)
    requires
        contains(template, pre + "{{TLD}}"@ + post),
        pre.len() > 0,
        post.len() > 0,
        !in_mark(pre[0]),
        !in_mark(pre.last()),
        !in_mark(post[0]),
        !in_mark(post.last()),
        !pre.contains('{'),
        !post.contains('{'),
    ensures
        contains(rendered(template, stack_vars(cfg)), pre + cfg.tld + post),
{
    let vars = stack_vars(cfg);
    let tld = "{{TLD}}"@;
    reveal_strlit("{{TLD}}");
    lemma_marks(cfg);
    reveal_with_fuel(filled, 6);
    let s1 = filled(template, vars, 1);
    let s2 = filled(template, vars, 2);
    let s3 = filled(template, vars, 3);
    let s4 = filled(template, vars, 4);
    lemma_replace_framed(template, pre, tld, post, mark(vars[0].0), vars[0].1);
    lemma_replace_framed(s1, pre, tld, post, mark(vars[1].0), vars[1].1);
    lemma_replace_framed(s2, pre, tld, post, mark(vars[2].0), vars[2].1);
    lemma_replace_framed(s3, pre, tld, post, mark(vars[3].0), vars[3].1);
    lemma_replace_framed(s4, pre, tld, post, mark(vars[4].0), vars[4].1);
    assert(tld.subrange(0, tld.len() as int) =~= tld);
    assert(begins(tld, tld));
    assert(tld.skip(tld.len() as int) =~= Seq::<char>::empty());
    assert(replace_of(Seq::<char>::empty(), tld, cfg.tld) == Seq::<char>::empty());
    assert(replace_of(tld, tld, cfg.tld) =~= cfg.tld);
}

/// A template that begins with the header's mark, on a line of its own, renders
/// to a file that begins with henk's header.
pub proof fn law_header_mark_becomes_the_header(template: Seq<char>, cfg: ConfigView)
    requires
        begins(template, "{{HENK_FILE_HEADER}}\n"@),
    ensures
        begins(rendered(template, stack_vars(cfg)), HENK_FILE_HEADER@),
{
    reveal_strlit("{{");
    reveal_strlit("}}");
    reveal_strlit("DASHBOARD_PORT");
    reveal_strlit("HENK_FILE_HEADER");
    reveal_strlit("{{HENK_FILE_HEADER}}\n");
    reveal_strlit("# managed by henk — see https://github.com/fivespark/henk");
    let vars = stack_vars(cfg);
    let header = HENK_FILE_HEADER@;
    let place = mark(vars[1].0);
    let n = place.len() as int;
    lemma_marks(cfg);
    reveal_with_fuel(filled, 6);
    let line = template.subrange(0, "{{HENK_FILE_HEADER}}\n"@.len() as int);
    assert(line == "{{HENK_FILE_HEADER}}\n"@);
    assert(line =~= place + seq!['\n']);
    let rest = template.skip(n + 1);
    assert(template =~= line + rest);
    assert(template =~= place + (seq!['\n'] + rest));
    let d = mark(vars[0].0);
    lemma_replace_at_seam(place, seq!['\n'] + rest, d, vars[0].1);
    lemma_replace_at_seam(seq!['\n'], rest, d, vars[0].1);
    assert forall|i: int| !occurs_at(place, d, i) by {
        if occurs_at(place, d, i) {
            let part = place.subrange(i, i + d.len());
            assert(part[0] == place[i] && part[1] == place[i + 1] && part[2] == place[i + 2]);
        }
    }
    lemma_replace_absent(place, d, vars[0].1);
    let s1 = filled(template, vars, 1);
    let tail = seq!['\n'] + replace_of(rest, d, vars[0].1);
    assert(s1 == place + tail);
    assert(tail[0] == '\n');
    lemma_replace_at_seam(place, tail, place, header);
    assert(place.subrange(0, n) =~= place);
    assert(begins(place, place));
    assert(place.skip(n) =~= Seq::<char>::empty());
    assert(replace_of(Seq::<char>::empty(), place, header) == Seq::<char>::empty());
    assert(replace_of(place, place, header) =~= header);
    let s2 = filled(template, vars, 2);
    let s3 = filled(template, vars, 3);
    let s4 = filled(template, vars, 4);
    let s5 = filled(template, vars, 5);
    assert(s2 == header + replace_of(tail, place, header));
    assert(s2.subrange(0, header.len() as int) =~= header);
    lemma_header_stays(s2, mark(vars[2].0), vars[2].1);
    lemma_header_stays(s3, mark(vars[3].0), vars[3].1);
    lemma_header_stays(s4, mark(vars[4].0), vars[4].1);
    assert(s5 == rendered(template, vars));
}

/// A text that begins with henk's header still does when a mark is filled in.
proof fn lemma_header_stays(s: Seq<char>, pat: Seq<char>, with: Seq<char>)
    requires
        begins(s, HENK_FILE_HEADER@),
        pat.len() > 0,
        pat[0] == '{',
        forall|k: int| 0 <= k < pat.len() ==> in_mark(#[trigger] pat[k]),
    ensures
        begins(replace_of(s, pat, with), HENK_FILE_HEADER@),
{
    reveal_strlit("# managed by henk — see https://github.com/fivespark/henk");
    let header = HENK_FILE_HEADER@;
    let n = header.len() as int;
    assert(s =~= header + s.skip(n)) by {
        assert(s.subrange(0, n) == header);
    }
    assert(header.last() == 'k');
    lemma_replace_at_seam(header, s.skip(n), pat, with);
    lemma_unmarked(header, pat, with);
    let t = replace_of(s, pat, with);
    assert(t.subrange(0, n) =~= header);
}

/// The proxy serves the very certificate and key that are issued: the dynamic
/// config, the third file of the stack, names both by their file names in
/// `/certs`, where the directory of the certificates is mounted.
pub proof fn law_dynamic_config_serves_the_wildcard(home: Seq<char>, cfg: ConfigView)
    ensures
        stack_files(home, cfg)[2].contents == rendered(DYNAMIC_TMPL@, stack_vars(cfg)),
        contains(
            rendered(DYNAMIC_TMPL@, stack_vars(cfg)),
            "certFile: /certs/"@ + cert_name(cfg.tld),
        ),
        contains(
            rendered(DYNAMIC_TMPL@, stack_vars(cfg)),
            "keyFile: /certs/"@ + key_name(cfg.tld),
        ),
{
    lemma_dynamic_tmpl_names_the_certificate();
    reveal_strlit("{{TLD}}");
    reveal_strlit("_wildcard.");
    reveal_strlit("certFile: /certs/");
    reveal_strlit("keyFile: /certs/");
    reveal_strlit(".pem");
    reveal_strlit("-key.pem");
    reveal_strlit("certFile: /certs/_wildcard.{{TLD}}.pem");
    reveal_strlit("keyFile: /certs/_wildcard.{{TLD}}-key.pem");
    let c = "certFile: /certs/"@ + "_wildcard."@;
    let k = "keyFile: /certs/"@ + "_wildcard."@;
    assert(c + "{{TLD}}"@ + ".pem"@ =~= "certFile: /certs/_wildcard.{{TLD}}.pem"@);
    assert(k + "{{TLD}}"@ + "-key.pem"@ =~= "keyFile: /certs/_wildcard.{{TLD}}-key.pem"@);
    lemma_tld_filled_in(DYNAMIC_TMPL@, cfg, c, ".pem"@);
    lemma_tld_filled_in(DYNAMIC_TMPL@, cfg, k, "-key.pem"@);
    assert(c + cfg.tld + ".pem"@ =~= "certFile: /certs/"@ + cert_name(cfg.tld));
    assert(k + cfg.tld + "-key.pem"@ =~= "keyFile: /certs/"@ + key_name(cfg.tld));
}

/// Once every file is in place, rendering again writes nothing and restarts
/// nothing.
pub proof fn law_rendering_twice_changes_nothing(files: Seq<FileView>, existing: Seq<Option<String>>)
    requires
        files.len() == existing.len(),
        forall|i: int|
            0 <= i < files.len() ==> opt_text(#[trigger] existing[i]) == Some(files[i].contents),
    ensures
        forall|i: int|
            0 <= i < files.len() ==> !differs(
                opt_text(#[trigger] existing[i]),
                files[i].contents,
            ),
        !boot_changes(files, existing),
{
    assert forall|i: int| 0 <= i < files.len() implies !((#[trigger] files[i]).boot && differs(
        opt_text(existing[i]),
        files[i].contents,
    )) by {
        assert(opt_text(existing[i]) == Some(files[i].contents));
    }
}

/// The containers are restarted exactly when Traefik's static config or nginx's
/// config changes.
pub proof fn law_restart_only_for_boot_config(
    home: Seq<char>,
    cfg: ConfigView,
    existing: Seq<Option<String>>,
)
    requires
        existing.len() == stack_files(home, cfg).len(),
    ensures
        boot_changes(stack_files(home, cfg), existing) <==> differs(
            opt_text(existing[1]),
            rendered(TRAEFIK_TMPL@, stack_vars(cfg)),
        ) || differs(opt_text(existing[9]), rendered(ERRORPAGE_NGINX_TMPL@, stack_vars(cfg))),
{
    let files = stack_files(home, cfg);
    assert(files.len() == 10);
    assert(files[1].boot && files[9].boot);
    assert(files[1].contents == rendered(TRAEFIK_TMPL@, stack_vars(cfg)));
    assert(files[9].contents == rendered(ERRORPAGE_NGINX_TMPL@, stack_vars(cfg)));
    assert(!files[0].boot && !files[2].boot && !files[3].boot && !files[4].boot && !files[5].boot
        && !files[6].boot && !files[7].boot && !files[8].boot);
}

/// The proxy's own dashboard is routed at `traefik.<tld>`.
pub proof fn law_dashboard_is_routed(home: Seq<char>, cfg: ConfigView)
    ensures
        contains(
            stack_files(home, cfg)[2].contents,
            "rule: \"Host(`traefik."@ + cfg.tld + "`)\""@,
        ),
{
    lemma_dynamic_tmpl_names_the_certificate();
    reveal_strlit("{{TLD}}");
    reveal_strlit("rule: \"Host(`traefik.");
    reveal_strlit("`)\"");
    reveal_strlit("rule: \"Host(`traefik.{{TLD}}`)\"");
    assert("rule: \"Host(`traefik."@ + "{{TLD}}"@ + "`)\""@
        =~= "rule: \"Host(`traefik.{{TLD}}`)\""@);
    lemma_tld_filled_in(DYNAMIC_TMPL@, cfg, "rule: \"Host(`traefik."@, "`)\""@);
}

/// Filling in one mark, at a place between two plain texts that either is that
/// mark, or is shorter, or holds none.
pub proof fn lemma_place_filled(
    s: Seq<char>,
    pre: Seq<char>,
    mid: Seq<char>,
    post: Seq<char>,
    pat: Seq<char>,
    with: Seq<char>,
)
    requires
        contains(s, pre + mid + post),
        pat.len() > 0,
        pat[0] == '{',
        forall|k: int| 0 <= k < pat.len() ==> in_mark(#[trigger] pat[k]),
        pre.len() > 0,
        post.len() > 0,
        !in_mark(pre[0]),
        !in_mark(pre.last()),
        !in_mark(post[0]),
        !in_mark(post.last()),
        !pre.contains('{'),
        !post.contains('{'),
        mid == pat || mid.len() < pat.len() || !mid.contains('{'),
    ensures
        contains(
            replace_of(s, pat, with),
            pre + (if mid == pat {
                with
            } else {
                mid
            }) + post,
        ),
{
    lemma_replace_framed(s, pre, mid, post, pat, with);
    if mid == pat {
        assert(pat.subrange(0, pat.len() as int) =~= pat);
        assert(begins(pat, pat));
        assert(pat.skip(pat.len() as int) =~= Seq::<char>::empty());
        assert(replace_of(Seq::<char>::empty(), pat, with) == Seq::<char>::empty());
        assert(replace_of(pat, pat, with) =~= with);
    } else if !(mid.len() < pat.len()) {
        lemma_unmarked(mid, pat, with);
    }
}

/// Where a template holds a port's mark between two plain texts, the rendering
/// holds the port there.
proof fn lemma_port_filled_in(
    template: Seq<char>,
    cfg: ConfigView,
    n: int,
    pre: Seq<char>,
    post: Seq<char>,
)
    requires
        n == 0 || n == 2 || n == 3,
        contains(template, pre + mark(stack_vars(cfg)[n].0) + post),
        pre.len() > 0,
        post.len() > 0,
        !in_mark(pre[0]),
        !in_mark(pre.last()),
        !in_mark(post[0]),
        !in_mark(post.last()),
        !pre.contains('{'),
        !post.contains('{'),
    ensures
        contains(rendered(template, stack_vars(cfg)), pre + stack_vars(cfg)[n].1 + post),
{
    let vars = stack_vars(cfg);
    let place = mark(vars[n].0);
    let value = vars[n].1;
    lemma_marks(cfg);
    lemma_mark_lengths(cfg);
    reveal_with_fuel(filled, 6);
    let s1 = filled(template, vars, 1);
    let s2 = filled(template, vars, 2);
    let s3 = filled(template, vars, 3);
    let s4 = filled(template, vars, 4);
    lemma_decimal(cfg.ports.dashboard as nat);
    lemma_decimal(cfg.ports.https as nat);
    lemma_decimal(cfg.ports.http as nat);
    assert forall|j: int| 0 <= j < value.len() implies value[j] != '{' by {
        assert(is_digit(value[j]));
    }
    assert(!value.contains('{'));
    lemma_place_filled(template, pre, place, post, mark(vars[0].0), vars[0].1);
    let m1 = if n == 0 {
        value
    } else {
        place
    };
    lemma_place_filled(s1, pre, m1, post, mark(vars[1].0), vars[1].1);
    lemma_place_filled(s2, pre, m1, post, mark(vars[2].0), vars[2].1);
    let m3 = if n <= 2 {
        value
    } else {
        place
    };
    lemma_place_filled(s3, pre, m3, post, mark(vars[3].0), vars[3].1);
    lemma_place_filled(s4, pre, value, post, mark(vars[4].0), vars[4].1);
}

/// The marks of the ports come after longer ones.
proof fn lemma_mark_lengths(cfg: ConfigView)
    ensures
        ({
            let vars = stack_vars(cfg);
            &&& mark(vars[2].0).len() < mark(vars[0].0).len()
            &&& mark(vars[2].0).len() < mark(vars[1].0).len()
            &&& mark(vars[3].0).len() < mark(vars[0].0).len()
            &&& mark(vars[3].0).len() < mark(vars[1].0).len()
            &&& mark(vars[3].0).len() < mark(vars[2].0).len()
        }),
{
    reveal_strlit("{{");
    reveal_strlit("}}");
    reveal_strlit("DASHBOARD_PORT");
    reveal_strlit("HENK_FILE_HEADER");
    reveal_strlit("HTTPS_PORT");
    reveal_strlit("HTTP_PORT");
}

/// The proxy listens on the ports of the config: its own :80 and :443 are
/// published there, and the dashboard on the loopback only.
pub proof fn law_proxy_publishes_the_configured_ports(home: Seq<char>, cfg: ConfigView)
    ensures
        ({
            let compose = stack_files(home, cfg)[0].contents;
            &&& contains(compose, "- \""@ + decimal(cfg.ports.http as nat) + ":80\""@)
            &&& contains(compose, "- \""@ + decimal(cfg.ports.https as nat) + ":443\""@)
            &&& contains(
                compose,
                "\"127.0.0.1:"@ + decimal(cfg.ports.dashboard as nat) + ":8080\""@,
            )
        }),
{
    lemma_compose_tmpl_publishes_the_ports();
    reveal_strlit("{{");
    reveal_strlit("}}");
    reveal_strlit("DASHBOARD_PORT");
    reveal_strlit("HTTPS_PORT");
    reveal_strlit("HTTP_PORT");
    reveal_strlit("- \"");
    reveal_strlit(":80\"");
    reveal_strlit(":443\"");
    reveal_strlit("\"127.0.0.1:");
    reveal_strlit(":8080\"");
    reveal_strlit("- \"{{HTTP_PORT}}:80\"");
    reveal_strlit("- \"{{HTTPS_PORT}}:443\"");
    reveal_strlit("\"127.0.0.1:{{DASHBOARD_PORT}}:8080\"");
    assert("- \""@ + mark("HTTP_PORT"@) + ":80\""@ =~= "- \"{{HTTP_PORT}}:80\""@);
    assert("- \""@ + mark("HTTPS_PORT"@) + ":443\""@ =~= "- \"{{HTTPS_PORT}}:443\""@);
    assert("\"127.0.0.1:"@ + mark("DASHBOARD_PORT"@) + ":8080\""@
        =~= "\"127.0.0.1:{{DASHBOARD_PORT}}:8080\""@);
    lemma_port_filled_in(COMPOSE_TMPL@, cfg, 3, "- \""@, ":80\""@);
    lemma_port_filled_in(COMPOSE_TMPL@, cfg, 2, "- \""@, ":443\""@);
    lemma_port_filled_in(COMPOSE_TMPL@, cfg, 0, "\"127.0.0.1:"@, ":8080\""@);
}

/// A file is written unless it holds these very contents already.
pub proof fn law_equal_files_are_left_alone(body: Seq<char>, contents: Seq<char>)
    ensures
        differs(None, contents),
        differs(Some(body), contents) <==> body != contents,
{
}

/// The containers are restarted exactly when the proxy's static config or the
/// error pages' server config is new or changes; a page, a route or the compose
/// file alone never restarts them.
pub proof fn law_only_boot_files_restart(
    home: Seq<char>,
    cfg: ConfigView,
    existing: Seq<Option<String>>,
)
    requires
        existing.len() == stack_files(home, cfg).len(),
    ensures
        ({
            let files = stack_files(home, cfg);
            &&& files.len() == 10
            &&& files[1].path == joined(traefik_dir_of(home), "traefik.yml"@)
            &&& files[9].path == joined(errorpages_dir_of(home), "nginx.conf"@)
            &&& boot_changes(files, existing) <==> opt_text(existing[1]) != Some(files[1].contents)
                || opt_text(existing[9]) != Some(files[9].contents)
        }),
{
    let files = stack_files(home, cfg);
    if opt_text(existing[1]) != Some(files[1].contents) {
        assert(files[1].boot);
    }
    if opt_text(existing[9]) != Some(files[9].contents) {
        assert(files[9].boot);
    }
    if boot_changes(files, existing) {
        let i = choose|i: int|
            0 <= i < files.len() && (#[trigger] files[i]).boot && differs(
                opt_text(existing[i]),
                files[i].contents,
            );
        assert(i == 1 || i == 9);
    }
}

/// Where the files of the stack are: the proxy's two in its own directory, its
/// routes and the dashboard's among the routing files, and each error page twice,
/// for browsers and for terminals, beside the server's config.
pub proof fn law_stack_files_have_their_places(home: Seq<char>, cfg: ConfigView)
    ensures
        ({
            let files = stack_files(home, cfg);
            let pages = errorpages_dir_of(home);
            &&& files.len() == 10
            &&& files[0].path == joined(traefik_dir_of(home), "compose.yml"@)
            &&& files[1].path == joined(traefik_dir_of(home), "traefik.yml"@)
            &&& files[2].path == joined(dynamic_dir_of(home), "_henk.yml"@)
            &&& files[3].path == joined(pages, "down"@ + ".html"@)
            &&& files[4].path == joined(pages, "down"@ + ".txt"@)
            &&& files[5].path == joined(pages, "app-error"@ + ".html"@)
            &&& files[6].path == joined(pages, "app-error"@ + ".txt"@)
            &&& files[7].path == joined(pages, "unlinked"@ + ".html"@)
            &&& files[8].path == joined(pages, "unlinked"@ + ".txt"@)
            &&& files[9].path == joined(pages, "nginx.conf"@)
            &&& forall|i: int|
                0 <= i < 10 ==> ((#[trigger] files[i]).boot <==> i == 1 || i == 9)
        }),
{
}

/// A mark of the shell is none of the stack's variables: filling those in leaves
/// it in its place.
proof fn lemma_shell_mark_stays(
    template: Seq<char>,
    cfg: ConfigView,
    pre: Seq<char>,
    mid: Seq<char>,
    post: Seq<char>,
)
    requires
        mid == "{{TITLE}}"@ || mid == "{{BODY}}"@,
        contains(template, pre + mid + post),
        pre.len() > 0,
        post.len() > 0,
        !in_mark(pre[0]),
        !in_mark(pre.last()),
        !in_mark(post[0]),
        !in_mark(post.last()),
        !pre.contains('{'),
        !post.contains('{'),
    ensures
        contains(rendered(template, stack_vars(cfg)), pre + mid + post),
{
    let vars = stack_vars(cfg);
    lemma_marks(cfg);
    lemma_shell_marks(cfg, mid);
    reveal_with_fuel(filled, 6);
    let s1 = filled(template, vars, 1);
    let s2 = filled(template, vars, 2);
    let s3 = filled(template, vars, 3);
    let s4 = filled(template, vars, 4);
    lemma_place_filled(template, pre, mid, post, mark(vars[0].0), vars[0].1);
    lemma_place_filled(s1, pre, mid, post, mark(vars[1].0), vars[1].1);
    lemma_place_filled(s2, pre, mid, post, mark(vars[2].0), vars[2].1);
    lemma_place_filled(s3, pre, mid, post, mark(vars[3].0), vars[3].1);
    lemma_replace_framed(s4, pre, mid, post, mark(vars[4].0), vars[4].1);
}

/// The marks of the shell are shorter than those of most variables, and do not
/// hold the TLD's.
proof fn lemma_shell_marks(cfg: ConfigView, mid: Seq<char>)
    requires
        mid == "{{TITLE}}"@ || mid == "{{BODY}}"@,
    ensures
        forall|n: int|
            #![trigger stack_vars(cfg)[n]]
            0 <= n < 4 ==> mid.len() < mark(stack_vars(cfg)[n].0).len(),
        replace_of(mid, mark(stack_vars(cfg)[4].0), stack_vars(cfg)[4].1) == mid,
{
    reveal_strlit("{{");
    reveal_strlit("}}");
    reveal_strlit("{{TITLE}}");
    reveal_strlit("{{BODY}}");
    reveal_strlit("{{TLD}}");
    reveal_strlit("DASHBOARD_PORT");
    reveal_strlit("HENK_FILE_HEADER");
    reveal_strlit("HTTPS_PORT");
    reveal_strlit("HTTP_PORT");
    reveal_strlit("TLD");
    lemma_marks(cfg);
    let pat = "{{TLD}}"@;
    assert forall|i: int| !occurs_at(mid, pat, i) by {
        if occurs_at(mid, pat, i) {
            let part = mid.subrange(i, i + pat.len());
            assert(part[0] == '{' && part[1] == '{' && part[2] == 'T' && part[3] == 'L');
            assert(mid[i] == '{' && mid[i + 1] == '{' && mid[i + 2] == 'T' && mid[i + 3] == 'L');
        }
    }
    lemma_replace_absent(mid, pat, stack_vars(cfg)[4].1);
}

/// A page shows its title in the title bar and its body in the page, whatever the
/// body holds. (A title with a brace could be taken for a mark.)
pub proof fn law_pages_show_title_and_body(page: PageView, cfg: ConfigView)
    requires
        !page.title.contains('{'),
    ensures
        contains(
            html_page(page, stack_vars(cfg)),
            "<title>"@ + page.title + "</title>"@,
        ),
        contains(
            html_page(page, stack_vars(cfg)),
            "<main>\n"@ + trim_end_of(rendered(page.html_body, stack_vars(cfg))) + "\n</main>"@,
        ),
{
    let vars = stack_vars(cfg);
    let shell = ERRORPAGE_SHELL_TMPL@;
    let body = trim_end_of(rendered(page.html_body, vars));
    let filled_in = rendered(shell, vars);
    let titled = replace_of(filled_in, "{{TITLE}}"@, page.title);
    lemma_shell_tmpl_has_its_places();
    lemma_shell_frames();
    lemma_shell_mark_stays(shell, cfg, "<title>"@, "{{TITLE}}"@, "</title>"@);
    lemma_shell_mark_stays(shell, cfg, "<main>\n"@, "{{BODY}}"@, "\n</main>"@);
    lemma_place_filled(
        filled_in,
        "<title>"@,
        "{{TITLE}}"@,
        "</title>"@,
        "{{TITLE}}"@,
        page.title,
    );
    lemma_place_filled(
        filled_in,
        "<main>\n"@,
        "{{BODY}}"@,
        "\n</main>"@,
        "{{TITLE}}"@,
        page.title,
    );
    lemma_replace_framed(titled, "<title>"@, page.title, "</title>"@, "{{BODY}}"@, body);
    lemma_unmarked(page.title, "{{BODY}}"@, body);
    lemma_place_filled(titled, "<main>\n"@, "{{BODY}}"@, "\n</main>"@, "{{BODY}}"@, body);
}

/// What stands round the marks of the shell holds no mark.
proof fn lemma_shell_frames()
    ensures
        "<title>"@.len() > 0 && !in_mark("<title>"@[0]) && !in_mark("<title>"@.last()),
        "</title>"@.len() > 0 && !in_mark("</title>"@[0]) && !in_mark("</title>"@.last()),
        "<main>\n"@.len() > 0 && !in_mark("<main>\n"@[0]) && !in_mark("<main>\n"@.last()),
        "\n</main>"@.len() > 0 && !in_mark("\n</main>"@[0]) && !in_mark("\n</main>"@.last()),
        !"<title>"@.contains('{') && !"</title>"@.contains('{'),
        !"<main>\n"@.contains('{') && !"\n</main>"@.contains('{'),
        "{{TITLE}}"@.len() == 9 && "{{BODY}}"@.len() == 8,
        "{{TITLE}}"@[0] == '{' && "{{BODY}}"@[0] == '{',
        forall|k: int| 0 <= k < 9 ==> in_mark(#[trigger] "{{TITLE}}"@[k]),
        forall|k: int| 0 <= k < 8 ==> in_mark(#[trigger] "{{BODY}}"@[k]),
{
    reveal_strlit("<title>");
    reveal_strlit("</title>");
    reveal_strlit("<main>\n");
    reveal_strlit("\n</main>");
    reveal_strlit("{{TITLE}}");
    reveal_strlit("{{BODY}}");
}

} // verus!
