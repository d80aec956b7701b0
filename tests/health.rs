use micro_kit::healthcheck::{
    summarize, CheckResults, HealthCheck, HealthCheckService, HealthCheckStatus,
};

struct Fixed {
    name: &'static str,
    status: HealthCheckStatus,
}

impl HealthCheck for Fixed {
    fn name(&self) -> String {
        self.name.to_string()
    }

    fn check_health(&mut self) -> HealthCheckStatus {
        self.status
    }
}

struct Flapping {
    calls: u32,
}

impl HealthCheck for Flapping {
    fn name(&self) -> String {
        "flapping".to_string()
    }

    fn check_health(&mut self) -> HealthCheckStatus {
        self.calls += 1;
        if self.calls % 2 == 1 {
            HealthCheckStatus::Healthy
        } else {
            HealthCheckStatus::Unhealthy
        }
    }
}

fn fixed(name: &'static str, status: HealthCheckStatus) -> Fixed {
    Fixed { name, status }
}

#[test]
fn combine_is_commutative_associative_with_identity_and_absorber() {
    let all = [HealthCheckStatus::Healthy, HealthCheckStatus::Unhealthy];
    for a in all {
        assert_eq!(HealthCheckStatus::Healthy.combine(a), a);
        assert_eq!(a.combine(HealthCheckStatus::Healthy), a);
        assert_eq!(HealthCheckStatus::Unhealthy.combine(a), HealthCheckStatus::Unhealthy);
        assert_eq!(a.combine(HealthCheckStatus::Unhealthy), HealthCheckStatus::Unhealthy);
        for b in all {
            assert_eq!(a.combine(b), b.combine(a));
            for c in all {
                assert_eq!(a.combine(b).combine(c), a.combine(b.combine(c)));
            }
        }
    }
}

#[test]
fn fold_is_healthy_only_when_all_are() {
    let mut service = HealthCheckService::new();
    for name in ["a", "b", "c"] {
        service.register_check(fixed(name, HealthCheckStatus::Healthy));
    }
    assert_eq!(service.execute().0, HealthCheckStatus::Healthy);
    service.register_check(fixed("d", HealthCheckStatus::Unhealthy));
    service.register_check(fixed("e", HealthCheckStatus::Healthy));
    assert_eq!(service.execute().0, HealthCheckStatus::Unhealthy);
}

#[test]
fn empty_registry_is_healthy_with_no_results() {
    let mut service = HealthCheckService::new();
    let (status, results) = service.execute();
    assert_eq!(status, HealthCheckStatus::Healthy);
    assert_eq!(results.len(), 0);
    assert!(results.is_empty());
}

#[test]
fn good_and_bad_checks() {
    let mut service = HealthCheckService::new();
    service.register_check(fixed("Good", HealthCheckStatus::Healthy));
    service.register_check(fixed("Bad", HealthCheckStatus::Unhealthy));
    let (status, results) = service.execute();
    assert_eq!(status, HealthCheckStatus::Unhealthy);
    assert_eq!(results.len(), 2);
    assert_eq!(results.get(&"Good".to_string()), Some(&HealthCheckStatus::Healthy));
    assert_eq!(results.get(&"Bad".to_string()), Some(&HealthCheckStatus::Unhealthy));
    assert_eq!(results.get(&"Other".to_string()), None);
}

#[test]
fn two_healthy_checks_give_one_entry_per_distinct_name() {
    let mut service = HealthCheckService::new();
    service.register_check(fixed("db", HealthCheckStatus::Healthy));
    service.register_check(fixed("cache", HealthCheckStatus::Healthy));
    let (status, results) = service.execute();
    assert_eq!(status, HealthCheckStatus::Healthy);
    assert_eq!(results.len(), 2);

    let mut same = HealthCheckService::new();
    same.register_check(fixed("db", HealthCheckStatus::Healthy));
    same.register_check(fixed("db", HealthCheckStatus::Healthy));
    let (status, results) = same.execute();
    assert_eq!(status, HealthCheckStatus::Healthy);
    assert_eq!(results.len(), 1);
}

#[test]
fn later_check_of_same_name_wins() {
    let mut service = HealthCheckService::new();
    service.register_check(fixed("db", HealthCheckStatus::Unhealthy));
    service.register_check(fixed("db", HealthCheckStatus::Healthy));
    let (status, results) = service.execute();
    assert_eq!(results.len(), 1);
    assert_eq!(results.get(&"db".to_string()), Some(&HealthCheckStatus::Healthy));
    assert_eq!(status, HealthCheckStatus::Healthy);
}

#[test]
fn each_pass_evaluates_again() {
    let mut service = HealthCheckService::new();
    service.register_check(Flapping { calls: 0 });
    assert_eq!(service.execute().0, HealthCheckStatus::Healthy);
    assert_eq!(service.execute().0, HealthCheckStatus::Unhealthy);
    assert_eq!(service.execute().0, HealthCheckStatus::Healthy);
}

#[test]
fn summarize_replaces_by_name() {
    let outcomes = vec![
        ("x".to_string(), HealthCheckStatus::Healthy),
        ("y".to_string(), HealthCheckStatus::Unhealthy),
        ("x".to_string(), HealthCheckStatus::Unhealthy),
        ("y".to_string(), HealthCheckStatus::Healthy),
    ];
    let (status, results) = summarize(&outcomes);
    assert_eq!(status, HealthCheckStatus::Unhealthy);
    assert_eq!(results.len(), 2);
    assert_eq!(results.get(&"x".to_string()), Some(&HealthCheckStatus::Unhealthy));
    assert_eq!(results.get(&"y".to_string()), Some(&HealthCheckStatus::Healthy));
    assert_eq!(results.aggregate(), HealthCheckStatus::Unhealthy);
}

#[test]
fn results_insert_and_tokens() {
    let mut results = CheckResults::new();
    results.insert("b".to_string(), HealthCheckStatus::Unhealthy);
    results.insert("a".to_string(), HealthCheckStatus::Healthy);
    assert_eq!(results.len(), 2);
    assert_eq!(results.aggregate(), HealthCheckStatus::Unhealthy);
    let words = results.tokens();
    assert_eq!(
        words,
        vec![("b".to_string(), "Failed".to_string()), ("a".to_string(), "Ok".to_string())]
    );
}

#[test]
fn status_codes_and_tokens() {
    assert_eq!(HealthCheckStatus::Healthy.status_code(), 200);
    assert_eq!(HealthCheckStatus::Unhealthy.status_code(), 500);
    assert_eq!(HealthCheckStatus::Healthy.token(), "Ok");
    assert_eq!(HealthCheckStatus::Unhealthy.token(), "Failed");
}

#[test]
fn health_report_of_unhealthy_service() {
    let mut service = HealthCheckService::new();
    service.register_check(fixed("Good", HealthCheckStatus::Healthy));
    service.register_check(fixed("Bad", HealthCheckStatus::Unhealthy));
    let reply = service.check_service_health();
    assert_eq!(reply.status, 500);
    assert_eq!(reply.body, "{\"Bad\":\"Failed\",\"Good\":\"Ok\"}");
}

#[test]
fn health_report_of_healthy_service() {
    let mut service = HealthCheckService::new();
    service.register_check(fixed("db", HealthCheckStatus::Healthy));
    let reply = service.check_service_health();
    assert_eq!(reply.status, 200);
    assert_eq!(reply.body, "{\"db\":\"Ok\"}");

    let mut empty = HealthCheckService::new();
    let reply = empty.check_service_health();
    assert_eq!(reply.status, 200);
    assert_eq!(reply.body, "{}");
}
