//! The values that cross the transport boundary.
use vstd::prelude::*;

verus! {

/// Status and body of one completed GET exchange.
#[derive(Debug)]
pub struct HttpResponse {
    pub status: u16,
    pub body: String,
}

/// Failure of the transport itself: the exchange did not complete.
#[derive(Debug)]
pub struct WasmError {
    pub message: String,
}

impl WasmError {
    pub fn new(message: String) -> (r: Self)
        ensures
            r.message@ == message@,
    {
        WasmError { message }
    }

    /// `WASM Error: ` and the message.
    pub fn describe(&self) -> (r: String)
        ensures
            r@ == "WASM Error: "@ + self.message@,
    {
        let mut out = String::from_str("WASM Error: ");
        out.append(self.message.as_str());
        out
    }
}

/// Why a client call produced no value.
#[derive(Debug)]
pub enum ClientError {
    /// The exchange did not complete; the transport's own words.
    Transport(String),
    /// The provider answered with a status other than 200.
    RequestFailed(u16),
    /// The body is not JSON of the expected shape.
    Decode,
}

/// The response, when its status is 200.
pub fn accepted_body(outcome: Result<HttpResponse, WasmError>) -> (r: Result<String, ClientError>)
    ensures
        outcome matches Err(e) ==> (r matches Err(ClientError::Transport(m)) && m@ == e.message@),
        outcome matches Ok(resp) ==> (resp.status == 200 ==> (r matches Ok(b) && b@
            == resp.body@)),
        outcome matches Ok(resp) ==> (resp.status != 200 ==> r == Err::<String, ClientError>(
            ClientError::RequestFailed(resp.status),
        )),
{
    match outcome {
        Err(e) => Err(ClientError::Transport(e.message)),
        Ok(resp) => if resp.status == 200 {
            Ok(resp.body)
        } else {
            Err(ClientError::RequestFailed(resp.status))
        },
    }
}

} // verus!
