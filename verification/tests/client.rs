use zexe_swap::client::{session, Request, Step};

#[test]
fn a_session_submits_both_coins_and_holds_the_lottery() {
    assert_eq!(
        session(),
        vec![
            Request::ListOrders,
            Request::SubmitOrder { id: 0, coin: 0 },
            Request::ListOrders,
            Request::SubmitOrder { id: 1, coin: 1 },
            Request::ListOrders,
            Request::PerformLottery,
        ]
    );
}

#[test]
fn requests_go_to_their_addresses() {
    let submit = Request::SubmitOrder { id: 0, coin: 0 };
    assert_eq!(Request::ListOrders.url(), "http://127.0.0.1:8080/debug");
    assert_eq!(submit.url(), "http://127.0.0.1:8080/submit");
    assert_eq!(Request::PerformLottery.url(), "http://127.0.0.1:8080/lottery");
    assert!(!Request::ListOrders.is_post());
    assert!(submit.is_post());
    assert!(Request::PerformLottery.is_post());
}

#[test]
fn answers_are_worded() {
    let submit = Request::SubmitOrder { id: 1, coin: 1 };
    assert_eq!(Request::ListOrders.report_success("[]"), "List of orders: []");
    assert_eq!(submit.report_success("ignored"), "Item created successfully");
    assert_eq!(Request::PerformLottery.report_success(""), "Lottery executed successfully");
    assert_eq!(Request::ListOrders.report_failure("404"), "Failed to retrieve orders: 404");
    assert_eq!(submit.report_failure("500"), "Failed to create item: 500");
    assert_eq!(Request::PerformLottery.report_failure("500"), "Failed to execute lottery: 500");
}

#[test]
fn the_body_is_read_of_a_listing_that_succeeded() {
    assert_eq!(Request::ListOrders.on_status(200, "200"), Step::ReadBody);
    assert_eq!(Request::ListOrders.on_status(299, "299"), Step::ReadBody);
}

#[test]
fn success_is_told_without_reading_the_body() {
    let submit = Request::SubmitOrder { id: 0, coin: 0 };
    assert_eq!(
        submit.on_status(201, "201"),
        Step::Tell("Item created successfully".to_string())
    );
    assert_eq!(
        Request::PerformLottery.on_status(204, "204"),
        Step::Tell("Lottery executed successfully".to_string())
    );
}

#[test]
fn every_other_status_is_told_as_a_refusal() {
    let submit = Request::SubmitOrder { id: 0, coin: 0 };
    for status in [100, 199, 300, 404, 500] {
        let shown = format!("{}", status);
        assert_eq!(
            Request::ListOrders.on_status(status, &shown),
            Step::Tell(format!("Failed to retrieve orders: {}", status))
        );
        assert_eq!(
            submit.on_status(status, &shown),
            Step::Tell(format!("Failed to create item: {}", status))
        );
        assert_eq!(
            Request::PerformLottery.on_status(status, &shown),
            Step::Tell(format!("Failed to execute lottery: {}", status))
        );
    }
}

#[test]
fn success_is_what_the_http_client_takes_for_success() {
    for code in 100..1000 {
        let status = reqwest::StatusCode::from_u16(code).unwrap();
        let step = Request::ListOrders.on_status(code, "");
        assert_eq!(step == Step::ReadBody, status.is_success());
    }
}
