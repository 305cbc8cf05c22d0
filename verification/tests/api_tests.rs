use schedules_runner::api::exec_list_url;
use schedules_runner::api::exec_status_url;
use schedules_runner::api::update_success;
use schedules_runner::api::HttpResponse;

fn resp(status: u16, body: &str) -> Option<HttpResponse> {
    Some(HttpResponse { status, body: body.to_string() })
}

#[test]
fn list_url() {
    assert_eq!(exec_list_url("http://sched"), "http://sched/api/v1/execs");
}

#[test]
fn status_url() {
    assert_eq!(exec_status_url("http://sched", "E1"), "http://sched/api/v1/execs/E1");
}

#[test]
fn update_success_accepted() {
    assert!(update_success(&resp(200, "{\"result\":true}")));
    assert!(update_success(&resp(299, " { \"result\" : true } ")));
}

#[test]
fn update_success_false_result() {
    assert!(!update_success(&resp(200, "{\"result\":false}")));
}

#[test]
fn update_success_non_2xx_is_false() {
    assert!(!update_success(&resp(199, "{\"result\":true}")));
    assert!(!update_success(&resp(300, "{\"result\":true}")));
    assert!(!update_success(&resp(404, "{\"result\":true}")));
    assert!(!update_success(&resp(500, "{\"result\":true}")));
}

#[test]
fn update_success_transport_error_is_false() {
    assert!(!update_success(&None));
}

#[test]
fn update_success_malformed_body_is_false() {
    assert!(!update_success(&resp(200, "")));
    assert!(!update_success(&resp(200, "not json")));
    assert!(!update_success(&resp(200, "{\"result\":\"true\"}")));
}
