use vstd::prelude::*;
use vstd::string::StringExecFns;

verus! {

/// A greeting and the time it was made.
pub struct GreetResponse {
    pub message: String,
    pub timestamp: String,
}

/// Relies on chrono::Utc::now and DateTime::to_rfc3339: the current time as
/// RFC 3339 text. It depends on the time, so nothing is stated of it.
#[verifier::external_body]
fn now_rfc3339() -> String {
    chrono::Utc::now().to_rfc3339()
}

pub open spec fn greeting(name: Seq<char>) -> Seq<char> {
    "Hello, "@ + name + "! Welcome to Spexor."@
}

pub open spec fn async_greeting(name: Seq<char>) -> Seq<char> {
    "Async hello, "@ + name + "!"@
}

/// Greets `name`, stamped with the current time.
pub fn greet(name: String) -> (r: GreetResponse)
    ensures
        r.message@ == greeting(name@),
{
    let message = "Hello, ".to_owned().concat(name.as_str()).concat("! Welcome to Spexor.");
    GreetResponse { message, timestamp: now_rfc3339() }
}

/// The greeting given once an asynchronous wait is over.
pub fn greet_async_response(name: String) -> (r: GreetResponse)
    ensures
        r.message@ == async_greeting(name@),
{
    let message = "Async hello, ".to_owned().concat(name.as_str()).concat("!");
    GreetResponse { message, timestamp: now_rfc3339() }
}

} // verus!
