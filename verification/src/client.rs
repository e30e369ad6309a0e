//! What the client asks of the order service, in which order, and what it tells its user.

use vstd::prelude::*;

verus! {

/// A request to the order service.
#[derive(Clone, Copy, Debug, PartialEq, Eq)]
pub enum Request {
    /// Show the orders.
    ListOrders,
    /// Place an order, which offers one of the client's coins.
    SubmitOrder { id: i32, coin: usize },
    /// Hold the lottery.
    PerformLottery,
}

/// What the client does once the service has answered a request with a status.
#[derive(Debug, PartialEq, Eq)]
pub enum Step {
    /// Read the body of the answer, which is shown to the user.
    ReadBody,
    /// Tell the user this, and leave the body unread.
    Tell(String),
}

/// Whether a status means that the service did as asked.
pub open spec fn is_success(status: u16) -> bool {
    200 <= status < 300
}

/// The requests of a session in order: both coins are submitted, each under its own number, with
/// the orders shown before, between and after; then the lottery is held.
pub open spec fn session_plan() -> Seq<Request> {
    seq![
        Request::ListOrders,
        Request::SubmitOrder { id: 0, coin: 0 },
        Request::ListOrders,
        Request::SubmitOrder { id: 1, coin: 1 },
        Request::ListOrders,
        Request::PerformLottery,
    ]
}

/// Lists the requests of a session in order.
pub fn session() -> (requests: Vec<Request>)
    ensures
        requests@ == session_plan(),
        requests@ == seq![
            Request::ListOrders,
            Request::SubmitOrder { id: 0, coin: 0 },
            Request::ListOrders,
            Request::SubmitOrder { id: 1, coin: 1 },
            Request::ListOrders,
            Request::PerformLottery,
        ],
{
    let mut requests: Vec<Request> = Vec::new();
    requests.push(Request::ListOrders);
    requests.push(Request::SubmitOrder { id: 0, coin: 0 });
    requests.push(Request::ListOrders);
    requests.push(Request::SubmitOrder { id: 1, coin: 1 });
    requests.push(Request::ListOrders);
    requests.push(Request::PerformLottery);
    assert(requests@ =~= session_plan());
    requests
}

impl Request {
    /// Whether the request changes anything at the service.
    pub fn is_post(&self) -> (post: bool)
        ensures
            post == !(self is ListOrders),
    {
        match self {
            Request::ListOrders => false,
            Request::SubmitOrder { .. } => true,
            Request::PerformLottery => true,
        }
    }

    /// Where the request goes.
    pub open spec fn address(self) -> Seq<char> {
        match self {
            Request::ListOrders => "http://127.0.0.1:8080/debug"@,
            Request::SubmitOrder { .. } => "http://127.0.0.1:8080/submit"@,
            Request::PerformLottery => "http://127.0.0.1:8080/lottery"@,
        }
    }

    /// Where the request goes.
    pub fn url(&self) -> (url: String)
        ensures
            url@ == self.address(),
            url@ == match self {
                Request::ListOrders => "http://127.0.0.1:8080/debug"@,
                Request::SubmitOrder { .. } => "http://127.0.0.1:8080/submit"@,
                Request::PerformLottery => "http://127.0.0.1:8080/lottery"@,
            },
    {
        match self {
            Request::ListOrders => "http://127.0.0.1:8080/debug".to_owned(),
            Request::SubmitOrder { .. } => "http://127.0.0.1:8080/submit".to_owned(),
            Request::PerformLottery => "http://127.0.0.1:8080/lottery".to_owned(),
        }
    }

    /// What the user is told when the service did as asked and answered with `body`.
    pub open spec fn success_text(self, body: Seq<char>) -> Seq<char> {
        match self {
            Request::ListOrders => "List of orders: "@ + body,
            Request::SubmitOrder { .. } => "Item created successfully"@,
            Request::PerformLottery => "Lottery executed successfully"@,
        }
    }

    /// What the user is told when the service answered with another status.
    pub open spec fn failure_text(self, status: Seq<char>) -> Seq<char> {
        match self {
            Request::ListOrders => "Failed to retrieve orders: "@ + status,
            Request::SubmitOrder { .. } => "Failed to create item: "@ + status,
            Request::PerformLottery => "Failed to execute lottery: "@ + status,
        }
    }

    /// Decides what to do once the service has answered with a status, which is worded as `shown`.
    /// The body is read only of a listing that succeeded. A refusal is told to the user, and the
    /// session goes on.
    pub fn on_status(&self, status: u16, shown: &str) -> (step: Step)
        ensures
            match step {
                Step::ReadBody => is_success(status) && self is ListOrders,
                Step::Tell(text) => if is_success(status) {
                    !(self is ListOrders) && text@ == self.success_text(""@)
                } else {
                    text@ == self.failure_text(shown@)
                },
            },
            step is ReadBody <==> 200 <= status < 300 && self is ListOrders,
            step matches Step::Tell(text) ==> text@ == if 200 <= status < 300 {
                match self {
                    Request::PerformLottery => "Lottery executed successfully"@,
                    _ => "Item created successfully"@,
                }
            } else {
                (match self {
                    Request::ListOrders => "Failed to retrieve orders: "@,
                    Request::SubmitOrder { .. } => "Failed to create item: "@,
                    Request::PerformLottery => "Failed to execute lottery: "@,
                }) + shown@
            },
    {
        if status < 200 || status >= 300 {
            return Step::Tell(self.report_failure(shown));
        }
        match self {
            Request::ListOrders => Step::ReadBody,
            Request::SubmitOrder { .. } => Step::Tell(self.report_success("")),
            Request::PerformLottery => Step::Tell(self.report_success("")),
        }
    }

    /// Words what the service's answer means to the user.
    pub fn report_success(&self, body: &str) -> (text: String)
        ensures
            text@ == self.success_text(body@),
            text@ == match self {
                Request::ListOrders => "List of orders: "@ + body@,
                Request::SubmitOrder { .. } => "Item created successfully"@,
                Request::PerformLottery => "Lottery executed successfully"@,
            },
    {
        match self {
            Request::ListOrders => {
                let mut text = "List of orders: ".to_owned();
                text.append(body);
                text
            },
            Request::SubmitOrder { .. } => "Item created successfully".to_owned(),
            Request::PerformLottery => "Lottery executed successfully".to_owned(),
        }
    }

    /// Words that the service refused, with the status it gave.
    pub fn report_failure(&self, status: &str) -> (text: String)
        ensures
            text@ == self.failure_text(status@),
            text@ == (match self {
                Request::ListOrders => "Failed to retrieve orders: "@,
                Request::SubmitOrder { .. } => "Failed to create item: "@,
                Request::PerformLottery => "Failed to execute lottery: "@,
            }) + status@,
    {
        let mut text = match self {
            Request::ListOrders => "Failed to retrieve orders: ".to_owned(),
            Request::SubmitOrder { .. } => "Failed to create item: ".to_owned(),
            Request::PerformLottery => "Failed to execute lottery: ".to_owned(),
        };
        text.append(status);
        text
    }
}

} // verus!
