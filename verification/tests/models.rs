use minik8s::config::ClusterConfig;
use minik8s::models::etcd::{DeleteEvent, PutEvent, WatchEvent};
use minik8s::models::{ErrResponse, Response};
use minik8s::utils::first_error_or_ok;

#[test]
fn responses_carry_message_and_status() {
    let r = Response::new(Some("ok".to_string()), Some(3u32));
    assert_eq!(r.msg, Some("ok".to_string()));
    assert_eq!(r.data, Some(3));
    let e = ErrResponse::new("boom".to_string(), None);
    assert_eq!(e.status, 500);
    let e = ErrResponse::not_found("gone".to_string(), Some("why".to_string()));
    assert_eq!(e.status, 404);
    assert_eq!(e.cause, Some("why".to_string()));
    assert_eq!(ErrResponse::bad_request("bad".to_string(), None).status, 400);
}

#[test]
fn watch_events_are_built_from_their_parts() {
    let put = WatchEvent::new_put("/api/v1/pods/a".to_string(), 7u8);
    assert_eq!(put, WatchEvent::Put(PutEvent { key: "/api/v1/pods/a".to_string(), object: 7u8 }));
    let del: WatchEvent<u8> = WatchEvent::new_delete("/api/v1/pods/a".to_string());
    assert_eq!(del, WatchEvent::Delete(DeleteEvent { key: "/api/v1/pods/a".to_string() }));
}

#[test]
fn default_cluster_config_points_at_localhost() {
    let c = ClusterConfig::default();
    assert_eq!(c.api_server_url, "http://localhost:8080");
    assert_eq!(c.api_server_watch_url, "ws://localhost:8080");
}

#[test]
fn first_error_or_ok_gives_the_first_error() {
    let results: Vec<Result<u8, String>> = vec![Ok(1), Err("a".to_string()), Err("b".to_string())];
    assert_eq!(first_error_or_ok(results), Err("a".to_string()));
    let results: Vec<Result<u8, String>> = vec![Ok(1), Ok(2)];
    assert_eq!(first_error_or_ok(results), Ok(()));
    let results: Vec<Result<u8, String>> = vec![];
    assert_eq!(first_error_or_ok(results), Ok(()));
}
