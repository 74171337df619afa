use minik8s::controllers::ingress::{build_config, is_plain_word, IngressHost, IngressPath, NginxIngressConfig};
use minik8s::informer::{ReflectorNotification, Store};
use minik8s::models::etcd::WatchEvent;
use minik8s::net::Ipv4Addr;
use minik8s::objects::ingress::{self, Ingress, IngressRule, IngressService, IngressSpec};
use minik8s::objects::service::{Service, ServiceSpec};
use minik8s::objects::{Labels, Metadata};

fn metadata(name: &str) -> Metadata {
    Metadata { name: name.to_string(), uid: None, labels: Labels::new(), owner_references: Vec::new() }
}

#[test]
fn a_path_becomes_a_location_block() {
    let p = IngressPath { path: "/api".to_string(), ip: Ipv4Addr::new(172, 16, 0, 3), port: 8080 };
    assert_eq!(p.to_string(), "\nlocation /api {\n    proxy_pass http://172.16.0.3:8080/;\n}\n");
}

#[test]
fn a_host_becomes_a_server_block() {
    let mut host = IngressHost::new(&"web.minik8s.com".to_string());
    host.add_path(&"/".to_string(), &Ipv4Addr::new(10, 0, 0, 1), &80);
    assert_eq!(
        host.to_string(),
        "\nserver {\n\nserver_name web.minik8s.com;\nlisten 80;\n\n\nlocation / {\n    proxy_pass http://10.0.0.1:80/;\n}\n\n\n}\n"
    );
}

#[test]
fn the_configuration_is_formatted_by_nginx() {
    let mut config = NginxIngressConfig::new();
    let mut host = IngressHost::new(&"web.minik8s.com".to_string());
    host.add_path(&"/".to_string(), &Ipv4Addr::new(10, 0, 0, 1), &80);
    config.add_host(host);
    let body = config.config_body();
    assert!(body.contains("server_name web.minik8s.com;"));
    let text = config.try_to_string("# header\n").unwrap();
    assert!(text.starts_with("# header\n"));
    assert!(text.contains("web.minik8s.com"));
    assert!(text.contains("proxy_pass http://10.0.0.1:80/"));
    assert_eq!(config.to_string("# header\n"), text);
}

#[test]
fn ingress_paths_without_a_service_are_left_out() {
    let mut services: Store<Service> = Store::new();
    services.insert(
        "/api/v1/services/web".to_string(),
        Service {
            metadata: metadata("web"),
            spec: ServiceSpec {
                selector: Labels::new(),
                ports: Vec::new(),
                endpoints: Vec::new(),
                cluster_ip: Some(Ipv4Addr::new(172, 16, 0, 9)),
            },
        },
    );
    let path = |p: &str, svc: &str| ingress::IngressPath {
        path: p.to_string(),
        service: IngressService { name: svc.to_string(), port: 80 },
    };
    let ing = Ingress {
        metadata: metadata("ing"),
        spec: IngressSpec {
            rules: vec![IngressRule {
                host: Some("web.minik8s.com".to_string()),
                paths: vec![path("/", "web"), path("/missing", "nope")],
            }],
        },
    };
    let config = build_config(&vec![ing], &services);
    assert_eq!(config.servers.len(), 1);
    assert_eq!(config.servers[0].host, "web.minik8s.com");
    assert_eq!(
        config.servers[0].paths,
        vec![IngressPath { path: "/".to_string(), ip: Ipv4Addr::new(172, 16, 0, 9), port: 80 }]
    );
}

#[test]
fn watch_events_keep_the_store_in_step() {
    let mut store: Store<u32> = Store::new();
    let n = store.apply(WatchEvent::new_put("/k".to_string(), 1));
    assert_eq!(n, Some(ReflectorNotification::Add(1)));
    assert_eq!(store.get("/k"), Some(&1));
    let n = store.apply(WatchEvent::new_put("/k".to_string(), 2));
    assert_eq!(n, Some(ReflectorNotification::Update(1, 2)));
    assert_eq!(store.get("/k"), Some(&2));
    let n = store.apply(WatchEvent::new_delete("/k".to_string()));
    assert_eq!(n, Some(ReflectorNotification::Delete(2)));
    assert_eq!(store.get("/k"), None);
    assert_eq!(store.apply(WatchEvent::new_delete("/k".to_string())), None);
}

#[test]
fn hosts_and_paths_that_are_not_plain_are_refused() {
    assert!(is_plain_word("web-1.minik8s.com"));
    assert!(is_plain_word("/api/v1_x"));
    assert!(!is_plain_word("unix:"));
    assert!(!is_plain_word("${a"));
    assert!(!is_plain_word("caf\u{e9}"));
    assert!(!is_plain_word("a;b"));
    let mut config = NginxIngressConfig::new();
    let mut host = IngressHost::new(&"web.minik8s.com".to_string());
    host.add_path(&"/${x}".to_string(), &Ipv4Addr::new(10, 0, 0, 1), &80);
    config.add_host(host);
    assert!(!config.is_plain());
    assert_eq!(config.try_to_string("# header\n"), None);
    let mut bad_host = NginxIngressConfig::new();
    bad_host.add_host(IngressHost::new(&"listen unix:;".to_string()));
    assert_eq!(bad_host.try_to_string("# header\n"), None);
}
