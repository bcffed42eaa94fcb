//! The templates of every file in the global stack. `{{NAME}}` marks a place
//! where a value is filled in.

use vstd::prelude::*;
use vstd::string::*;

use crate::text::{contains, occurs_at};

verus! {

/// `traefik/compose.yml`.
pub const COMPOSE_TMPL: &'static str = "{{HENK_FILE_HEADER}}
# hand-edits are overwritten by `henk up`.
#
# dnsmasq is not a service here: Docker Desktop on macOS drops DNS packets to
# containers, so it runs under Homebrew on the host.
name: henk

services:
  traefik:
    image: traefik:v3
    container_name: henk-traefik
    restart: unless-stopped
    depends_on:
      - error-pages
    ports:
      - \"{{HTTP_PORT}}:80\"
      - \"{{HTTPS_PORT}}:443\"
      - \"127.0.0.1:{{DASHBOARD_PORT}}:8080\"
    extra_hosts:
      - \"host.docker.internal:host-gateway\"
    volumes:
      - ./traefik.yml:/etc/traefik/traefik.yml:ro
      - ./certs:/certs:ro
      - ../dynamic:/etc/traefik/dynamic:ro
    networks:
      - henk-proxy

  error-pages:
    image: nginx:alpine
    container_name: henk-error-pages
    restart: unless-stopped
    volumes:
      - ../errorpages:/usr/share/nginx/html:ro
      - ../errorpages/nginx.conf:/etc/nginx/nginx.conf:ro
    networks:
      - henk-proxy

networks:
  henk-proxy:
    external: true
    name: henk-proxy
";

/// `traefik/traefik.yml`. Only the file provider is used: henk maintains the
/// routes itself.
pub const TRAEFIK_TMPL: &'static str = "{{HENK_FILE_HEADER}}
# Read once, when the proxy boots.
api:
  dashboard: true
  insecure: true

entryPoints:
  web:
    address: \":80\"
    http:
      middlewares:
        - henk-errors@file
  websecure:
    address: \":443\"
    http:
      tls: {}
      middlewares:
        - henk-errors@file

providers:
  file:
    directory: /etc/traefik/dynamic
    watch: true

log:
  level: INFO
";

/// `dynamic/_henk.yml`: certificates, the dashboard, the error pages and the
/// routers that catch hostnames nobody linked.
pub const DYNAMIC_TMPL: &'static str = "{{HENK_FILE_HEADER}}
tls:
  certificates:
    - certFile: /certs/_wildcard.{{TLD}}.pem
      keyFile: /certs/_wildcard.{{TLD}}-key.pem
  stores:
    default:
      defaultCertificate:
        certFile: /certs/_wildcard.{{TLD}}.pem
        keyFile: /certs/_wildcard.{{TLD}}-key.pem

http:
  routers:
    henk-dashboard:
      rule: \"Host(`traefik.{{TLD}}`)\"
      entryPoints:
        - websecure
      tls: {}
      service: api@internal
    henk-catchall:
      rule: \"PathPrefix(`/`)\"
      entryPoints:
        - websecure
      priority: 1
      tls: {}
      middlewares:
        - henk-unlinked
      service: henk-error-pages
    henk-catchall-http:
      rule: \"PathPrefix(`/`)\"
      entryPoints:
        - web
      priority: 1
      middlewares:
        - henk-unlinked
      service: henk-error-pages

  middlewares:
    henk-unlinked:
      replacePath:
        path: /unlinked
    henk-https-redirect:
      redirectScheme:
        scheme: https
    henk-errors:
      errors:
        status:
          - \"500-504\"
        service: henk-error-pages
        query: \"/{status}.html\"

  services:
    henk-error-pages:
      loadBalancer:
        servers:
          - url: \"http://error-pages:8080\"
";

/// `errorpages/nginx.conf`: picks the page from the path and the format from
/// the `Accept` header, and keeps the error status.
pub const ERRORPAGE_NGINX_TMPL: &'static str = "{{HENK_FILE_HEADER}}
worker_processes 1;

events {
    worker_connections 128;
}

http {
    types {
        text/html  html;
        text/plain txt;
    }
    default_type text/plain;
    charset utf-8;

    map $http_accept $henk_ext {
        default        txt;
        \"~*text/html\"  html;
    }

    map $request_uri $henk_body {
        default         down;
        \"~^/unlinked\"   unlinked;
        \"~^/500\\.html\"  app-error;
    }

    server {
        listen 8080;
        root /usr/share/nginx/html;
        error_page 404 500 501 502 503 504 505 /henk-page;

        location = /henk-page {
            internal;
            add_header Vary Accept always;
            try_files /$henk_body.$henk_ext =404;
        }

        location = /unlinked {
            return 404;
        }

        location = /500.html {
            return 500;
        }

        location / {
            return 503;
        }
    }
}
";

/// The shell that every HTML page is put into.
pub const ERRORPAGE_SHELL_TMPL: &'static str = "<!doctype html>
<!-- {{HENK_FILE_HEADER}} -->
<html lang=\"en\">
<head>
<meta charset=\"utf-8\">
<meta name=\"viewport\" content=\"width=device-width, initial-scale=1\">
<title>{{TITLE}}</title>
<style>
body { font: 16px/1.5 system-ui, sans-serif; margin: 0; background: #f6f6f4; color: #222; }
main { max-width: 40rem; margin: 12vh auto; padding: 0 1.5rem; }
code { background: #e8e8e4; padding: 0.1em 0.35em; border-radius: 4px; }
li { margin: 0.5em 0; }
</style>
</head>
<body>
<main>
{{BODY}}
</main>
</body>
</html>
";

/// Body of the page for a backend that does not answer.
pub const DOWN_HTML: &'static str = "<h1>Dev server isn't answering</h1>
<p>Routing and the certificate are fine; nothing usable came back from the address you linked under <code>.{{TLD}}</code>. It is almost always one of these:</p>
<ol>
<li>The dev server isn't running. Start it.</li>
<li>It is bound to <code>127.0.0.1</code>. Bind it to <code>0.0.0.0</code>, e.g. <code>vite --host 0.0.0.0</code>.</li>
<li>It rejects the hostname. Add it to <code>server.allowedHosts</code>.</li>
</ol>
<p>Run <code>henk doctor</code>: it probes the port and tells you which.</p>
";

/// The same page as text.
pub const DOWN_TEXT: &'static str = "{{HENK_FILE_HEADER}}
Dev server isn't answering

Routing and the certificate are fine; nothing usable came back from the
address you linked under .{{TLD}}. It is almost always one of these:

  1. The dev server isn't running. Start it.
  2. It is bound to 127.0.0.1. Bind it to 0.0.0.0, e.g. `vite --host 0.0.0.0`.
  3. It rejects the hostname. Add it to `server.allowedHosts`.

Run `henk doctor`: it probes the port and tells you which.
";

/// Body of the page for an app that answered with an error of its own.
pub const APP_ERROR_HTML: &'static str = "<h1>Your app answered — with an error</h1>
<p>This is not a henk problem: the request reached your app under <code>.{{TLD}}</code>, and your app returned a server error.</p>
<p>The stack trace is in your dev server's terminal.</p>
";

/// The same page as text.
pub const APP_ERROR_TEXT: &'static str = "{{HENK_FILE_HEADER}}
Your app answered — with an error

This is not a henk problem: the request reached your app under .{{TLD}}, and
your app returned a server error.

The stack trace is in your dev server's terminal.
";

/// Body of the page for a hostname that nobody linked.
pub const UNLINKED_HTML: &'static str = "<h1>Nothing is linked to this hostname</h1>
<p>The stack is up, but no project is registered under this name in <code>.{{TLD}}</code>.</p>
<ul>
<li><code>henk status</code> lists what is linked.</li>
<li><code>henk link</code>, run inside a project, registers a new one.</li>
<li><code>henk link --add --host &lt;sub&gt; --port &lt;port&gt;</code> adds a hostname to a linked project.</li>
</ul>
";

/// The same page as text.
pub const UNLINKED_TEXT: &'static str = "{{HENK_FILE_HEADER}}
Nothing is linked to this hostname

The stack is up, but no project is registered under this name in .{{TLD}}.

  henk status                                   lists what is linked
  henk link                                     registers the current project
  henk link --add --host <sub> --port <port>    adds a hostname to it
";

/// The dnsmasq drop-in: every name under the TLD is this machine.
pub const DNSMASQ_TMPL: &'static str = "{{HENK_FILE_HEADER}}
address=/.{{TLD}}/127.0.0.1
listen-address=127.0.0.1
";

/// The dynamic config names the wildcard certificate and its key, and routes the
/// dashboard's host.
pub proof fn lemma_dynamic_tmpl_names_the_certificate()
    ensures
        contains(DYNAMIC_TMPL@, "certFile: /certs/_wildcard.{{TLD}}.pem"@),
        contains(DYNAMIC_TMPL@, "keyFile: /certs/_wildcard.{{TLD}}-key.pem"@),
        contains(DYNAMIC_TMPL@, "rule: \"Host(`traefik.{{TLD}}`)\""@),
{
    reveal_strlit(
        "{{HENK_FILE_HEADER}}
tls:
  certificates:
    - certFile: /certs/_wildcard.{{TLD}}.pem
      keyFile: /certs/_wildcard.{{TLD}}-key.pem
  stores:
    default:
      defaultCertificate:
        certFile: /certs/_wildcard.{{TLD}}.pem
        keyFile: /certs/_wildcard.{{TLD}}-key.pem

http:
  routers:
    henk-dashboard:
      rule: \"Host(`traefik.{{TLD}}`)\"
      entryPoints:
        - websecure
      tls: {}
      service: api@internal
    henk-catchall:
      rule: \"PathPrefix(`/`)\"
      entryPoints:
        - websecure
      priority: 1
      tls: {}
      middlewares:
        - henk-unlinked
      service: henk-error-pages
    henk-catchall-http:
      rule: \"PathPrefix(`/`)\"
      entryPoints:
        - web
      priority: 1
      middlewares:
        - henk-unlinked
      service: henk-error-pages

  middlewares:
    henk-unlinked:
      replacePath:
        path: /unlinked
    henk-https-redirect:
      redirectScheme:
        scheme: https
    henk-errors:
      errors:
        status:
          - \"500-504\"
        service: henk-error-pages
        query: \"/{status}.html\"

  services:
    henk-error-pages:
      loadBalancer:
        servers:
          - url: \"http://error-pages:8080\"
",
    );
    reveal_strlit("certFile: /certs/_wildcard.{{TLD}}.pem");
    reveal_strlit("keyFile: /certs/_wildcard.{{TLD}}-key.pem");
    let t = DYNAMIC_TMPL@;
    let c = "certFile: /certs/_wildcard.{{TLD}}.pem"@;
    let k = "keyFile: /certs/_wildcard.{{TLD}}-key.pem"@;
    assert(t.subrange(48, 48int + c.len()) =~= c);
    assert(occurs_at(t, c, 48));
    assert(t.subrange(93, 93int + k.len()) =~= k);
    assert(occurs_at(t, k, 93));
    reveal_strlit("rule: \"Host(`traefik.{{TLD}}`)\"");
    let r = "rule: \"Host(`traefik.{{TLD}}`)\""@;
    assert(t.subrange(325, 325int + r.len()) =~= r);
    assert(occurs_at(t, r, 325));
}

/// The compose file publishes the three ports of the proxy.
pub proof fn lemma_compose_tmpl_publishes_the_ports()
    ensures
        contains(COMPOSE_TMPL@, "- \"{{HTTP_PORT}}:80\""@),
        contains(COMPOSE_TMPL@, "- \"{{HTTPS_PORT}}:443\""@),
        contains(COMPOSE_TMPL@, "\"127.0.0.1:{{DASHBOARD_PORT}}:8080\""@),
{
    reveal_strlit(
        "{{HENK_FILE_HEADER}}
# hand-edits are overwritten by `henk up`.
#
# dnsmasq is not a service here: Docker Desktop on macOS drops DNS packets to
# containers, so it runs under Homebrew on the host.
name: henk

services:
  traefik:
    image: traefik:v3
    container_name: henk-traefik
    restart: unless-stopped
    depends_on:
      - error-pages
    ports:
      - \"{{HTTP_PORT}}:80\"
      - \"{{HTTPS_PORT}}:443\"
      - \"127.0.0.1:{{DASHBOARD_PORT}}:8080\"
    extra_hosts:
      - \"host.docker.internal:host-gateway\"
    volumes:
      - ./traefik.yml:/etc/traefik/traefik.yml:ro
      - ./certs:/certs:ro
      - ../dynamic:/etc/traefik/dynamic:ro
    networks:
      - henk-proxy

  error-pages:
    image: nginx:alpine
    container_name: henk-error-pages
    restart: unless-stopped
    volumes:
      - ../errorpages:/usr/share/nginx/html:ro
      - ../errorpages/nginx.conf:/etc/nginx/nginx.conf:ro
    networks:
      - henk-proxy

networks:
  henk-proxy:
    external: true
    name: henk-proxy
",
    );
    reveal_strlit("- \"{{HTTP_PORT}}:80\"");
    reveal_strlit("- \"{{HTTPS_PORT}}:443\"");
    reveal_strlit("\"127.0.0.1:{{DASHBOARD_PORT}}:8080\"");
    let t = COMPOSE_TMPL@;
    let a = "- \"{{HTTP_PORT}}:80\""@;
    let b = "- \"{{HTTPS_PORT}}:443\""@;
    let c = "\"127.0.0.1:{{DASHBOARD_PORT}}:8080\""@;
    assert(t.subrange(366, 366int + a.len()) =~= a);
    assert(occurs_at(t, a, 366));
    assert(t.subrange(393, 393int + b.len()) =~= b);
    assert(occurs_at(t, b, 393));
    assert(t.subrange(424, 424int + c.len()) =~= c);
    assert(occurs_at(t, c, 424));
}

/// The shell of a page has a place for the title and one for the body.
pub proof fn lemma_shell_tmpl_has_its_places()
    ensures
        contains(ERRORPAGE_SHELL_TMPL@, "<title>"@ + "{{TITLE}}"@ + "</title>"@),
        contains(ERRORPAGE_SHELL_TMPL@, "<main>\n"@ + "{{BODY}}"@ + "\n</main>"@),
{
    reveal_strlit(
        "<!doctype html>
<!-- {{HENK_FILE_HEADER}} -->
<html lang=\"en\">
<head>
<meta charset=\"utf-8\">
<meta name=\"viewport\" content=\"width=device-width, initial-scale=1\">
<title>{{TITLE}}</title>
<style>
body { font: 16px/1.5 system-ui, sans-serif; margin: 0; background: #f6f6f4; color: #222; }
main { max-width: 40rem; margin: 12vh auto; padding: 0 1.5rem; }
code { background: #e8e8e4; padding: 0.1em 0.35em; border-radius: 4px; }
li { margin: 0.5em 0; }
</style>
</head>
<body>
<main>
{{BODY}}
</main>
</body>
</html>
",
    );
    reveal_strlit("<title>");
    reveal_strlit("{{TITLE}}");
    reveal_strlit("</title>");
    reveal_strlit("<main>\n");
    reveal_strlit("{{BODY}}");
    reveal_strlit("\n</main>");
    let t = ERRORPAGE_SHELL_TMPL@;
    let a = "<title>"@ + "{{TITLE}}"@ + "</title>"@;
    let b = "<main>\n"@ + "{{BODY}}"@ + "\n</main>"@;
    assert(t.subrange(162, 162int + a.len()) =~= a);
    assert(occurs_at(t, a, 162));
    assert(t.subrange(473, 473int + b.len()) =~= b);
    assert(occurs_at(t, b, 473));
}

} // verus!
