//! The decisions of the ingress controller: the nginx configuration that
//! routes each ingress host and path to the address of its service.

use vstd::prelude::*;
use crate::informer::Store;
use crate::net::{Ipv4Addr, ipv4_text};
use crate::objects::ingress::Ingress;
use crate::objects::object_uri;
use crate::objects::service::Service;
use crate::text::{decimal, push_decimal, push_str, replace_all, replace_str};

verus! {

/// What nginx's formatter makes of a configuration text: the text of the
/// parsed configuration, or None when it does not parse.
pub uninterp spec fn nginx_format(text: Seq<char>) -> Option<Seq<char>>;

/// A character that a host or a path may hold in a configuration handed to
/// nginx's parser: an ASCII letter or digit, `.`, `-`, `_` or `/`.
pub open spec fn plain_char(c: char) -> bool {
    ||| ('a' <= c && c <= 'z')
    ||| ('A' <= c && c <= 'Z')
    ||| ('0' <= c && c <= '9')
    ||| c == '.'
    ||| c == '-'
    ||| c == '_'
    ||| c == '/'
}

/// Whether every character of the text is plain (see [`plain_char`]).
pub open spec fn plain_word(s: Seq<char>) -> bool {
    forall|i: int| 0 <= i < s.len() ==> plain_char(#[trigger] s[i])
}

/// Whether every host and every path of the configuration is plain.
pub open spec fn plain_config(c: NginxIngressConfig) -> bool {
    forall|i: int|
        0 <= i < c.servers@.len() ==> {
            let h = #[trigger] c.servers@[i];
            &&& plain_word(h.host@)
            &&& forall|j: int| 0 <= j < h.paths@.len() ==> plain_word((#[trigger] h.paths@[j]).path@)
        }
}

/// Whether every character of the text is plain (see [`plain_char`]).
pub fn is_plain_word(s: &str) -> (r: bool)
    ensures
        r == plain_word(s@),
{
    let v = crate::text::chars_of(s);
    let mut i: usize = 0;
    while i < v.len()
        invariant
            v@ == s@,
            i <= v@.len(),
            forall|k: int| 0 <= k < i ==> plain_char(#[trigger] v@[k]),
        decreases v.len() - i,
    {
        let c = v[i];
        let ok = ('a' <= c && c <= 'z') || ('A' <= c && c <= 'Z') || ('0' <= c && c <= '9') || c == '.' || c
            == '-' || c == '_' || c == '/';
        if !ok {
            assert(!plain_char(v@[i as int]));
            return false;
        }
        i = i + 1;
    }
    true
}

/// Parses a configuration with `nginx_config::parse_main` and prints it
/// back with the `Display` of the parsed `Main`. The contract only names
/// the result: the grammar and the printer are the crate's. The parser
/// panics on some texts (it unwraps and slices at fixed offsets, for
/// instance on an unclosed `${`, on non-ASCII unquoted tokens and on a bare
/// `unix:` listen value), so the text must be the unformatted configuration
/// of plain hosts and paths: all else in it is the fixed template, whose
/// directives (`http`, `server`, `server_name`, `listen 80`, `location`,
/// `proxy_pass`, `return 404`) reach none of those paths with plain words.
#[verifier::external_body]
fn format_nginx(text: &str) -> (r: Option<String>)
    requires
        exists|c: NginxIngressConfig| plain_config(c) && #[trigger] config_text(c) == text@,
    ensures
        match r {
            Some(s) => nginx_format(text@) == Some(s@),
            None => nginx_format(text@) is None,
        },
{
    match nginx_config::parse_main(text) {
        Ok(main) => Some(main.to_string()),
        Err(_) => None,
    }
}

/// The location block of a path.
pub open spec fn location_base() -> Seq<char> {
    "\nlocation PATH {\n    proxy_pass http://IP:PORT/;\n}\n"@
}

/// The server block of a host.
pub open spec fn server_base() -> Seq<char> {
    "\nserver {\n\nserver_name SERVER_NAME;\nlisten 80;\n\nLOCATIONS\n\n}\n"@
}

/// The http block that holds the servers.
pub open spec fn config_base() -> Seq<char> {
    "\nhttp {\n\n    SERVERS\n\n    server {\n        listen       80 default_server;\n        server_name  _;\n    \n        # Everything is a 404\n        location / {\n            return 404;\n        }\n    }\n}\n"@
}

/// A path of a host, proxied to a service address and port.
#[derive(Clone, Debug, PartialEq)]
pub struct IngressPath {
    pub path: String,
    pub ip: Ipv4Addr,
    pub port: u16,
}

/// A host and its paths.
#[derive(Clone, Debug, PartialEq)]
pub struct IngressHost {
    pub host: String,
    pub paths: Vec<IngressPath>,
}

/// The hosts to configure.
#[derive(Clone, Debug, PartialEq)]
pub struct NginxIngressConfig {
    pub servers: Vec<IngressHost>,
}

/// The location block of a path: `PATH`, then `IP`, then `PORT` of the
/// template replaced in turn.
pub open spec fn path_text(p: IngressPath) -> Seq<char> {
    replace_all(
        replace_all(replace_all(location_base(), "PATH"@, p.path@), "IP"@, ipv4_text(p.ip)),
        "PORT"@,
        decimal(p.port as nat),
    )
}

/// The location blocks of paths, one after another.
pub open spec fn paths_text(ps: Seq<IngressPath>) -> Seq<char>
    decreases ps.len(),
{
    if ps.len() == 0 {
        Seq::empty()
    } else {
        paths_text(ps.drop_last()) + path_text(ps.last())
    }
}

/// The server block of a host: `SERVER_NAME`, then `LOCATIONS` of the
/// template replaced in turn.
pub open spec fn host_text(h: IngressHost) -> Seq<char> {
    replace_all(replace_all(server_base(), "SERVER_NAME"@, h.host@), "LOCATIONS"@, paths_text(h.paths@))
}

/// The server blocks of hosts, one after another.
pub open spec fn hosts_text(hs: Seq<IngressHost>) -> Seq<char>
    decreases hs.len(),
{
    if hs.len() == 0 {
        Seq::empty()
    } else {
        hosts_text(hs.drop_last()) + host_text(hs.last())
    }
}

/// The unformatted configuration: the http block with the servers.
pub open spec fn config_text(c: NginxIngressConfig) -> Seq<char> {
    replace_all(config_base(), "SERVERS"@, hosts_text(c.servers@))
}

impl IngressPath {
    /// The location block of the path (see [`path_text`]).
    pub fn to_string(&self) -> (s: String)
        ensures
            s@ == path_text(*self),
    {
        let base = "\nlocation PATH {\n    proxy_pass http://IP:PORT/;\n}\n";
        let out = replace_str(base, "PATH", self.path.as_str());
        let ip = self.ip.to_string();
        let out = replace_str(out.as_str(), "IP", ip.as_str());
        let mut port = String::new();
        push_decimal(&mut port, self.port as u64);
        replace_str(out.as_str(), "PORT", port.as_str())
    }
}

impl IngressHost {
    /// A host without paths.
    pub fn new(host: &String) -> (r: Self)
        ensures
            r.host == *host,
            r.paths@.len() == 0,
    {
        IngressHost { host: host.clone(), paths: Vec::new() }
    }

    /// Adds a path proxied to the service at `svc_ip`:`svc_port`.
    pub fn add_path(&mut self, path: &String, svc_ip: &Ipv4Addr, svc_port: &u16)
        ensures
            final(self).host == old(self).host,
            final(self).paths@ == old(self).paths@.push(IngressPath { path: *path, ip: *svc_ip, port: *svc_port }),
    {
        self.paths.push(IngressPath { path: path.clone(), ip: *svc_ip, port: *svc_port });
    }

    /// The server block of the host (see [`host_text`]).
    pub fn to_string(&self) -> (s: String)
        ensures
            s@ == host_text(*self),
    {
        let base = "\nserver {\n\nserver_name SERVER_NAME;\nlisten 80;\n\nLOCATIONS\n\n}\n";
        let out = replace_str(base, "SERVER_NAME", self.host.as_str());
        let mut locations = String::new();
        let mut i: usize = 0;
        assert(self.paths@.take(0) =~= Seq::<IngressPath>::empty());
        while i < self.paths.len()
            invariant
                i <= self.paths@.len(),
                locations@ == paths_text(self.paths@.take(i as int)),
            decreases self.paths.len() - i,
        {
            assert(self.paths@.take(i + 1).drop_last() =~= self.paths@.take(i as int));
            assert(self.paths@.take(i + 1).last() == self.paths@[i as int]);
            let text = self.paths[i].to_string();
            push_str(&mut locations, text.as_str());
            i = i + 1;
        }
        assert(self.paths@.take(i as int) =~= self.paths@);
        replace_str(out.as_str(), "LOCATIONS", locations.as_str())
    }
}

impl NginxIngressConfig {
    /// No hosts.
    pub fn new() -> (r: Self)
        ensures
            r.servers@.len() == 0,
    {
        NginxIngressConfig { servers: Vec::new() }
    }

    /// Adds a host.
    pub fn add_host(&mut self, host: IngressHost)
        ensures
            final(self).servers@ == old(self).servers@.push(host),
    {
        self.servers.push(host);
    }

    /// The unformatted configuration (see [`config_text`]).
    pub fn config_body(&self) -> (s: String)
        ensures
            s@ == config_text(*self),
    {
        let mut servers = String::new();
        let mut i: usize = 0;
        assert(self.servers@.take(0) =~= Seq::<IngressHost>::empty());
        while i < self.servers.len()
            invariant
                i <= self.servers@.len(),
                servers@ == hosts_text(self.servers@.take(i as int)),
            decreases self.servers.len() - i,
        {
            assert(self.servers@.take(i + 1).drop_last() =~= self.servers@.take(i as int));
            assert(self.servers@.take(i + 1).last() == self.servers@[i as int]);
            let text = self.servers[i].to_string();
            push_str(&mut servers, text.as_str());
            i = i + 1;
        }
        assert(self.servers@.take(i as int) =~= self.servers@);
        let base = "\nhttp {\n\n    SERVERS\n\n    server {\n        listen       80 default_server;\n        server_name  _;\n    \n        # Everything is a 404\n        location / {\n            return 404;\n        }\n    }\n}\n";
        replace_str(base, "SERVERS", servers.as_str())
    }

    /// Whether every host and every path is plain (see [`plain_config`]).
    pub fn is_plain(&self) -> (r: bool)
        ensures
            r == plain_config(*self),
    {
        let mut i: usize = 0;
        while i < self.servers.len()
            invariant
                i <= self.servers@.len(),
                forall|k: int|
                    0 <= k < i ==> {
                        let h = #[trigger] self.servers@[k];
                        &&& plain_word(h.host@)
                        &&& forall|j: int| 0 <= j < h.paths@.len() ==> plain_word((#[trigger] h.paths@[j]).path@)
                    },
            decreases self.servers.len() - i,
        {
            let h = &self.servers[i];
            if !is_plain_word(h.host.as_str()) {
                return false;
            }
            let mut j: usize = 0;
            while j < h.paths.len()
                invariant
                    i < self.servers@.len(),
                    *h == self.servers@[i as int],
                    j <= h.paths@.len(),
                    forall|k: int| 0 <= k < j ==> plain_word((#[trigger] h.paths@[k]).path@),
                decreases h.paths.len() - j,
            {
                if !is_plain_word(h.paths[j].path.as_str()) {
                    assert(!plain_word(self.servers@[i as int].paths@[j as int].path@));
                    return false;
                }
                j = j + 1;
            }
            i = i + 1;
        }
        true
    }

    /// The configuration file: `header`, then the configuration formatted
    /// by nginx's formatter, which must accept it. Its hosts and paths must
    /// be plain (see [`plain_config`]).
    pub fn to_string(&self, header: &str) -> (s: String)
        requires
            plain_config(*self),
            nginx_format(config_text(*self)) is Some,
        ensures
            s@ == header@ + nginx_format(config_text(*self))->0,
    {
        let body = self.config_body();
        assert(plain_config(*self) && config_text(*self) == body@);
        let mut s = crate::text::to_owned_string(header);
        match format_nginx(body.as_str()) {
            Some(formatted) => push_str(&mut s, formatted.as_str()),
            None => {},
        }
        s
    }

    /// The configuration file, or None when a host or a path is not plain
    /// (see [`plain_config`]) or nginx's formatter does not accept the
    /// configuration.
    pub fn try_to_string(&self, header: &str) -> (r: Option<String>)
        ensures
            !plain_config(*self) ==> r is None,
            plain_config(*self) ==> match nginx_format(config_text(*self)) {
                Some(f) => r is Some && r->0@ == header@ + f,
                None => r is None,
            },
    {
        if !self.is_plain() {
            return None;
        }
        let body = self.config_body();
        assert(plain_config(*self) && config_text(*self) == body@);
        match format_nginx(body.as_str()) {
            Some(formatted) => {
                let mut s = crate::text::to_owned_string(header);
                push_str(&mut s, formatted.as_str());
                Some(s)
            },
            None => None,
        }
    }
}

/// Whether every rule has a host, and every path served by a service of the
/// store leads to a service with a cluster address.
pub open spec fn ingresses_complete(ingresses: Seq<Ingress>, services: Map<Seq<char>, Service>) -> bool {
    forall|i: int, r: int|
        0 <= i < ingresses.len() && 0 <= r < ingresses[i].spec.rules@.len() ==> {
            let rule = #[trigger] ingresses[i].spec.rules@[r];
            &&& rule.host is Some
            &&& forall|p: int|
                0 <= p < rule.paths@.len() ==> {
                    let key = object_uri(seq!['s', 'e', 'r', 'v', 'i', 'c', 'e', 's'], (#[trigger] rule.paths@[p]).service.name@);
                    services.contains_key(key) ==> services[key].spec.cluster_ip is Some
                }
        }
}

/// The paths of a rule that lead to a service of the store, each proxied to
/// the service's cluster address and the path's port.
pub open spec fn rule_paths(paths: Seq<crate::objects::ingress::IngressPath>, services: Map<Seq<char>, Service>) -> Seq<IngressPath>
    decreases paths.len(),
{
    if paths.len() == 0 {
        Seq::empty()
    } else {
        let prev = rule_paths(paths.drop_last(), services);
        let p = paths.last();
        let key = object_uri(seq!['s', 'e', 'r', 'v', 'i', 'c', 'e', 's'], p.service.name@);
        if services.contains_key(key) {
            prev.push(IngressPath { path: p.path, ip: services[key].spec.cluster_ip->0, port: p.service.port })
        } else {
            prev
        }
    }
}

/// Whether `hosts` are the hosts of the rules of the ingresses, in order,
/// each with the paths of [`rule_paths`].
pub open spec fn hosts_of(ingresses: Seq<Ingress>, services: Map<Seq<char>, Service>, hosts: Seq<IngressHost>) -> bool
    decreases ingresses.len(),
{
    if ingresses.len() == 0 {
        hosts.len() == 0
    } else {
        let rules = ingresses.last().spec.rules@;
        let n = hosts.len() - rules.len();
        &&& n >= 0
        &&& hosts_of(ingresses.drop_last(), services, hosts.take(n))
        &&& forall|r: int|
            0 <= r < rules.len() ==> (#[trigger] hosts[n + r]).host == rules[r].host->0 && hosts[n + r].paths@
                == rule_paths(rules[r].paths@, services)
    }
}

/// The host of a rule, with its paths that lead to a service of the store.
fn rule_host(rule: &crate::objects::ingress::IngressRule, services: &Store<Service>) -> (h: IngressHost)
    requires
        rule.host is Some,
        forall|p: int|
            0 <= p < rule.paths@.len() ==> {
                let key = object_uri(seq!['s', 'e', 'r', 'v', 'i', 'c', 'e', 's'], (#[trigger] rule.paths@[p]).service.name@);
                services@.contains_key(key) ==> services@[key].spec.cluster_ip is Some
            },
    ensures
        h.host == rule.host->0,
        h.paths@ == rule_paths(rule.paths@, services@),
{
    let name = match &rule.host {
        Some(h) => h,
        None => return IngressHost { host: String::new(), paths: Vec::new() },
    };
    let mut host = IngressHost::new(name);
    let mut i: usize = 0;
    assert(rule.paths@.take(0) =~= Seq::<crate::objects::ingress::IngressPath>::empty());
    while i < rule.paths.len()
        invariant
            i <= rule.paths@.len(),
            host.host == rule.host->0,
            host.paths@ == rule_paths(rule.paths@.take(i as int), services@),
            forall|p: int|
                0 <= p < rule.paths@.len() ==> {
                    let key = object_uri(seq!['s', 'e', 'r', 'v', 'i', 'c', 'e', 's'], (#[trigger] rule.paths@[p]).service.name@);
                    services@.contains_key(key) ==> services@[key].spec.cluster_ip is Some
                },
        decreases rule.paths.len() - i,
    {
        assert(rule.paths@.take(i + 1).drop_last() =~= rule.paths@.take(i as int));
        assert(rule.paths@.take(i + 1).last() == rule.paths@[i as int]);
        let path = &rule.paths[i];
        proof {
            reveal_strlit("services");
        }
        let uri = crate::objects::build_uri("services", path.service.name.as_str());
        assert("services"@ =~= seq!['s', 'e', 'r', 'v', 'i', 'c', 'e', 's']);
        match services.get(uri.as_str()) {
            Some(svc) => {
                let ip = match &svc.spec.cluster_ip {
                    Some(ip) => *ip,
                    None => Ipv4Addr::new(0, 0, 0, 0),
                };
                host.add_path(&path.path, &ip, &path.service.port);
            },
            None => {},
        }
        i = i + 1;
    }
    assert(rule.paths@.take(i as int) =~= rule.paths@);
    host
}

/// The configuration of the ingresses: one host per rule, in order, with
/// the paths whose service is in the store.
pub fn build_config(ingresses: &Vec<Ingress>, services: &Store<Service>) -> (c: NginxIngressConfig)
    requires
        ingresses_complete(ingresses@, services@),
    ensures
        hosts_of(ingresses@, services@, c.servers@),
{
    let mut config = NginxIngressConfig::new();
    let mut i: usize = 0;
    assert(ingresses@.take(0) =~= Seq::<Ingress>::empty());
    while i < ingresses.len()
        invariant
            i <= ingresses@.len(),
            ingresses_complete(ingresses@, services@),
            hosts_of(ingresses@.take(i as int), services@, config.servers@),
        decreases ingresses.len() - i,
    {
        let rules = &ingresses[i].spec.rules;
        let ghost before = config.servers@;
        let mut r: usize = 0;
        while r < rules.len()
            invariant
                i < ingresses@.len(),
                r <= rules@.len(),
                *rules == ingresses@[i as int].spec.rules,
                ingresses_complete(ingresses@, services@),
                config.servers@.len() == before.len() + r,
                config.servers@.take(before.len() as int) == before,
                forall|k: int|
                    0 <= k < r ==> (#[trigger] config.servers@[before.len() + k]).host == rules@[k].host->0
                        && config.servers@[before.len() + k].paths@ == rule_paths(rules@[k].paths@, services@),
            decreases rules.len() - r,
        {
            assert(ingresses@[i as int].spec.rules@[r as int] == rules@[r as int]);
            let host = rule_host(&rules[r], services);
            let ghost prev = config.servers@;
            config.add_host(host);
            proof {
                assert(config.servers@.take(before.len() as int) =~= prev.take(before.len() as int));
                assert forall|k: int| 0 <= k < r + 1 implies (#[trigger] config.servers@[before.len() + k]).host
                    == rules@[k].host->0 && config.servers@[before.len() + k].paths@ == rule_paths(
                    rules@[k].paths@,
                    services@,
                ) by {
                    if k < r {
                        assert(config.servers@[before.len() + k] == prev[before.len() + k]);
                    }
                }
            }
            r = r + 1;
        }
        proof {
            let t = ingresses@.take(i + 1);
            assert(t.drop_last() =~= ingresses@.take(i as int));
            assert(t.last() == ingresses@[i as int]);
            let n = config.servers@.len() - rules@.len();
            assert(n == before.len());
            assert(config.servers@.take(n) == before);
        }
        i = i + 1;
    }
    assert(ingresses@.take(i as int) =~= ingresses@);
    config
}

} // verus!
