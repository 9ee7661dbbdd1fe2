use proc_supervisor::probe::{
    body_has_ready_marker, is_success_status, next_probe_step, response_is_ready, ProbeStep,
    WaitBudget,
};

#[test]
fn ready_body_with_2xx_is_ready() {
    assert!(response_is_ready(200, &b"{\"status\": \"ready\"}".to_vec()));
    assert!(response_is_ready(204, &b"ready".to_vec()));
}

#[test]
fn non_2xx_is_not_ready() {
    assert!(!response_is_ready(503, &b"ready".to_vec()));
    assert!(!response_is_ready(199, &b"ready".to_vec()));
    assert!(!response_is_ready(300, &b"ready".to_vec()));
}

#[test]
fn body_without_marker_is_not_ready() {
    assert!(!response_is_ready(200, &b"starting".to_vec()));
    assert!(!response_is_ready(200, &Vec::new()));
    assert!(!body_has_ready_marker(&b"read".to_vec()));
    assert!(!body_has_ready_marker(&b"r e a d y".to_vec()));
}

#[test]
fn marker_found_anywhere_in_body() {
    assert!(body_has_ready_marker(&b"already".to_vec()));
    assert!(body_has_ready_marker(&b"ready".to_vec()));
    assert!(body_has_ready_marker(&b"xxready".to_vec()));
}

#[test]
fn success_range_bounds() {
    assert!(is_success_status(200));
    assert!(is_success_status(299));
    assert!(!is_success_status(300));
    assert!(!is_success_status(404));
}

#[test]
fn ready_probe_ends_wait() {
    let b = WaitBudget { timeout_ms: 1000, poll_ms: 300 };
    assert_eq!(next_probe_step(&b, 0, true), ProbeStep::Ready);
    assert_eq!(next_probe_step(&b, 5000, true), ProbeStep::Ready);
}

#[test]
fn sleep_never_passes_timeout() {
    let b = WaitBudget { timeout_ms: 1000, poll_ms: 300 };
    assert_eq!(next_probe_step(&b, 0, false), ProbeStep::Sleep(300));
    assert_eq!(next_probe_step(&b, 800, false), ProbeStep::Sleep(200));
    assert_eq!(next_probe_step(&b, 1000, false), ProbeStep::TimedOut);
    assert_eq!(next_probe_step(&b, 1500, false), ProbeStep::TimedOut);
}

#[test]
fn never_ready_wait_ends_near_timeout() {
    let b = WaitBudget { timeout_ms: 1000, poll_ms: 300 };
    let probe_cost: u64 = 10;
    let mut now: u64 = 0;
    let mut probes: u32 = 0;
    loop {
        now += probe_cost;
        probes += 1;
        match next_probe_step(&b, now, false) {
            ProbeStep::Sleep(d) => now += d,
            ProbeStep::TimedOut => break,
            ProbeStep::Ready => panic!("never ready"),
        }
        assert!(probes < 100);
    }
    assert!(now >= b.timeout_ms);
    assert!(now <= b.timeout_ms + probe_cost);
    assert!(probes <= 1000 / 300 + 2);
}
