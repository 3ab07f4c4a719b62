//! The request router: which operation a path names, and the response that
//! carries an operation's result.

use vstd::prelude::*;
use ip2proxy::{Database, Row};
use crate::addr::ip_of;
use crate::gateway::{
    answer_of, batch_of, batch_query, simple_query, status, status_of, BatchQuery, GatewayError,
    LookupResult, SimpleQuery, Status,
};

verus! {

/// An operation of the service.
#[derive(Clone, Copy, Debug, PartialEq, Eq, Structural)]
pub enum Endpoint {
    /// `/`: one address, given as `ip`.
    Single,
    /// `/batch`: a comma-separated list of addresses, given as `ips`.
    Batch,
    /// `/status`: the header of the database.
    Status,
}

/// What a response carries.
#[derive(Debug)]
pub enum Body {
    /// Nothing.
    Empty,
    /// One record.
    Row(Row),
    /// One entry per address asked for, in the order asked.
    Rows(Vec<LookupResult>),
    /// The header of the database.
    Status(Status),
}

/// A response: the HTTP status code and what is sent with it.
#[derive(Debug)]
pub struct Response {
    pub code: u16,
    pub body: Body,
}

/// The bytes of `/`.
pub open spec fn single_path() -> Seq<u8> {
    seq![0x2f]
}

/// The bytes of `/batch`.
pub open spec fn batch_path() -> Seq<u8> {
    seq![0x2f, 0x62, 0x61, 0x74, 0x63, 0x68]
}

/// The bytes of `/status`.
pub open spec fn status_path() -> Seq<u8> {
    seq![0x2f, 0x73, 0x74, 0x61, 0x74, 0x75, 0x73]
}

/// The operation that a path names, if it names one.
pub open spec fn endpoint_of(path: Seq<u8>) -> Option<Endpoint> {
    if path == single_path() {
        Some(Endpoint::Single)
    } else if path == batch_path() {
        Some(Endpoint::Batch)
    } else if path == status_path() {
        Some(Endpoint::Status)
    } else {
        None
    }
}

/// The code sent for a request that failed.
pub open spec fn error_code(e: GatewayError) -> u16 {
    match e {
        GatewayError::MalformedInput => 400,
        GatewayError::EngineFailure => 500,
    }
}

/// The response to a single lookup: the record with 200, nothing with 404
/// where no record matches, nothing with the error's code otherwise.
pub open spec fn single_response(r: Result<LookupResult, GatewayError>) -> Response {
    match r {
        Ok(LookupResult::Found(row)) => Response { code: 200, body: Body::Row(row) },
        Ok(LookupResult::NotFound) => Response { code: 404, body: Body::Empty },
        Err(e) => Response { code: error_code(e), body: Body::Empty },
    }
}

/// The response to a batch lookup: the answers with 200, or nothing with the
/// error's code.
pub open spec fn batch_response(r: Result<Vec<LookupResult>, GatewayError>) -> Response {
    match r {
        Ok(answers) => Response { code: 200, body: Body::Rows(answers) },
        Err(e) => Response { code: error_code(e), body: Body::Empty },
    }
}

/// The response to a status request.
pub open spec fn status_response(s: Status) -> Response {
    Response { code: 200, body: Body::Status(s) }
}

/// Finds the operation that a path names.
pub fn route(path: &[u8]) -> (r: Option<Endpoint>)
    ensures
        r == endpoint_of(path@),
{
    let n: usize = path.len();
    if n == 1 && path[0] == 0x2f {
        proof {
            assert(path@ =~= single_path());
        }
        Some(Endpoint::Single)
    } else if n == 6 && path[0] == 0x2f && path[1] == 0x62 && path[2] == 0x61 && path[3] == 0x74
        && path[4] == 0x63 && path[5] == 0x68 {
        proof {
            assert(path@ =~= batch_path());
        }
        Some(Endpoint::Batch)
    } else if n == 7 && path[0] == 0x2f && path[1] == 0x73 && path[2] == 0x74 && path[3] == 0x61
        && path[4] == 0x74 && path[5] == 0x75 && path[6] == 0x73 {
        proof {
            assert(path@ =~= status_path());
        }
        Some(Endpoint::Status)
    } else {
        proof {
            if path@ == single_path() {
                assert(path@[0] == single_path()[0]);
            }
            if path@ == batch_path() {
                assert(forall|i: int| 0 <= i < 6 ==> path@[i] == batch_path()[i]);
            }
            if path@ == status_path() {
                assert(forall|i: int| 0 <= i < 7 ==> path@[i] == status_path()[i]);
            }
        }
        None
    }
}

/// The code sent for a request that failed.
pub fn code_of(e: GatewayError) -> (code: u16)
    ensures
        code == error_code(e),
{
    match e {
        GatewayError::MalformedInput => 400,
        GatewayError::EngineFailure => 500,
    }
}

/// Makes the response to a single lookup.
pub fn respond_single(r: Result<LookupResult, GatewayError>) -> (response: Response)
    ensures
        response == single_response(r),
{
    match r {
        Ok(LookupResult::Found(row)) => Response { code: 200, body: Body::Row(row) },
        Ok(LookupResult::NotFound) => Response { code: 404, body: Body::Empty },
        Err(e) => Response { code: code_of(e), body: Body::Empty },
    }
}

/// Makes the response to a batch lookup.
pub fn respond_batch(r: Result<Vec<LookupResult>, GatewayError>) -> (response: Response)
    ensures
        response == batch_response(r),
{
    match r {
        Ok(answers) => Response { code: 200, body: Body::Rows(answers) },
        Err(e) => Response { code: code_of(e), body: Body::Empty },
    }
}

/// Makes the response to a status request.
pub fn respond_status(s: Status) -> (response: Response)
    ensures
        response == status_response(s),
{
    Response { code: 200, body: Body::Status(s) }
}

/// What a single lookup sends for each outcome of the engine: the engine's
/// record itself with 200, nothing with 404 where the engine has no record,
/// nothing with 500 where the engine failed.
pub proof fn lemma_single_lookup_response(outcome: Result<Option<Row>, std::io::Error>)
    ensures
        outcome matches Ok(Some(row)) ==> single_response(answer_of(outcome)) == (Response {
            code: 200,
            body: Body::Row(row),
        }),
        outcome matches Ok(None) ==> single_response(answer_of(outcome)) == (Response {
            code: 404,
            body: Body::Empty,
        }),
        outcome is Err ==> single_response(answer_of(outcome)) == (Response {
            code: 500,
            body: Body::Empty,
        }),
{
}

/// Serves one request: `param` is the text of the operation's parameter
/// (`ip` or `ips`), if the request has it.
///
/// A request without its parameter, or with one that cannot be read, gets
/// 400 and the engine is not asked. Neither is it asked for an empty batch,
/// which gets 200 and no entry. What the engine then reports decides between
/// the other responses; the status is read from the handle alone.
pub fn serve(db: &Database, endpoint: Endpoint, param: Option<&[u8]>) -> (response: Response)
    ensures
        endpoint == Endpoint::Status ==> response == status_response(status_of(*db)),
        endpoint == Endpoint::Single && (param matches Some(text) ==> ip_of(text@) is None)
            ==> response == single_response(Err(GatewayError::MalformedInput)),
        endpoint == Endpoint::Single && (param matches Some(text) && ip_of(text@) is Some) ==> {
            ||| response.code == 200 && response.body is Row
            ||| response.code == 404 && response.body is Empty
            ||| response.code == 500 && response.body is Empty
        },
        endpoint == Endpoint::Batch && (param matches Some(text) ==> batch_of(text@) is None)
            ==> response == batch_response(Err(GatewayError::MalformedInput)),
        endpoint == Endpoint::Batch && (param matches Some(text) && text@.len() == 0)
            ==> response.code == 200 && (response.body matches Body::Rows(answers)
            && answers@.len() == 0),
        endpoint == Endpoint::Batch && (param matches Some(text) && batch_of(text@) is Some) ==> {
            ||| response.code == 200 && (response.body matches Body::Rows(answers)
                && param matches Some(text) && answers@.len() == batch_of(text@)->0.len())
            ||| response.code == 500 && response.body is Empty
        },
{
    match endpoint {
        Endpoint::Single => {
            let query = match param {
                Some(text) => SimpleQuery::parse(text),
                None => None,
            };
            match query {
                Some(query) => respond_single(simple_query(db, query.ip)),
                None => respond_single(Err(GatewayError::MalformedInput)),
            }
        },
        Endpoint::Batch => {
            let query = match param {
                Some(text) => BatchQuery::parse(text),
                None => None,
            };
            match query {
                Some(query) => respond_batch(batch_query(db, &query.ips)),
                None => respond_batch(Err(GatewayError::MalformedInput)),
            }
        },
        Endpoint::Status => respond_status(status(db)),
    }
}

} // verus!
