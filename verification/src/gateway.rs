//! The lookup gateway: what the service answers for one address, for a list
//! of addresses, and for a request for the database's status.

use vstd::prelude::*;
use ip2proxy::{Database, Row};
use vstd::slice::slice_subrange;
use crate::addr::{ip_of, IpAddress};
use crate::text::{lemma_split_nonempty, split, split_ranges};
use crate::engine::{
    engine_query, header_day, header_month, header_px, header_rows_ipv4, header_rows_ipv6,
    header_year,
};

verus! {

/// The answer for one address.
#[derive(Debug)]
pub enum LookupResult {
    /// The engine holds this record for the address.
    Found(Row),
    /// The engine holds no record for the address.
    NotFound,
}

/// Why a request could not be answered.
#[derive(Clone, Copy, Debug, PartialEq, Eq, Structural)]
pub enum GatewayError {
    /// The request's text is not what the operation takes.
    MalformedInput,
    /// The engine could not read its data.
    EngineFailure,
}

/// The header of the database as the status operation reports it.
#[derive(Clone, Copy, Debug, PartialEq, Eq, Structural)]
pub struct Status {
    pub px: u8,
    pub day: u8,
    pub month: u8,
    pub year: u8,
    pub rows_ipv4: u32,
    pub rows_ipv6: u32,
}

/// The status of a handle: its six header fields.
pub open spec fn status_of(db: Database) -> Status {
    Status {
        px: header_px(db),
        day: header_day(db),
        month: header_month(db),
        year: header_year(db),
        rows_ipv4: header_rows_ipv4(db),
        rows_ipv6: header_rows_ipv6(db),
    }
}

/// The answer that belongs to one outcome of the engine: a row is handed on
/// as it came, no row is `NotFound`, a read error is `EngineFailure`.
pub open spec fn answer_of(outcome: Result<Option<Row>, std::io::Error>) -> Result<
    LookupResult,
    GatewayError,
> {
    match outcome {
        Ok(Some(row)) => Ok(LookupResult::Found(row)),
        Ok(None) => Ok(LookupResult::NotFound),
        Err(_) => Err(GatewayError::EngineFailure),
    }
}

/// Turns one outcome of the engine into the gateway's answer.
pub fn answer(outcome: Result<Option<Row>, std::io::Error>) -> (r: Result<
    LookupResult,
    GatewayError,
>)
    ensures
        r == answer_of(outcome),
{
    match outcome {
        Ok(Some(row)) => Ok(LookupResult::Found(row)),
        Ok(None) => Ok(LookupResult::NotFound),
        Err(_) => Err(GatewayError::EngineFailure),
    }
}

/// Turns the outcomes of a batch's lookups into the batch's answer: as many
/// answers as outcomes, in the same order, each the answer that a single
/// lookup gives for that outcome. One failed lookup fails the batch.
pub fn batch_answer(outcomes: Vec<Result<Option<Row>, std::io::Error>>) -> (r: Result<
    Vec<LookupResult>,
    GatewayError,
>)
    ensures
        r is Ok <==> forall|i: int| 0 <= i < outcomes@.len() ==> (#[trigger] outcomes@[i]) is Ok,
        r matches Ok(answers) ==> {
            &&& answers@.len() == outcomes@.len()
            &&& forall|i: int|
                0 <= i < outcomes@.len() ==> answer_of(outcomes@[i]) == Ok::<
                    LookupResult,
                    GatewayError,
                >(#[trigger] answers@[i])
        },
        r matches Err(e) ==> e == GatewayError::EngineFailure,
{
    let ghost all = outcomes@;
    let mut answers: Vec<LookupResult> = Vec::new();
    let mut failed = false;
    for outcome in it: outcomes
        invariant
            it.seq() == all,
            answers@.len() <= it.index(),
            failed <==> exists|j: int| 0 <= j < it.index() && (#[trigger] all[j]) is Err,
            !failed ==> answers@.len() == it.index(),
            !failed ==> forall|j: int|
                0 <= j < it.index() ==> answer_of(all[j]) == Ok::<LookupResult, GatewayError>(
                    #[trigger] answers@[j],
                ),
    {
        match answer(outcome) {
            Ok(a) => {
                if !failed {
                    answers.push(a);
                }
            },
            Err(_) => {
                failed = true;
            },
        }
    }
    if failed {
        Err(GatewayError::EngineFailure)
    } else {
        Ok(answers)
    }
}

/// Looks one address up with every column selected, and answers as `answer`
/// does for what the engine reports.
///
/// The engine reads its file on every call, so which of the three answers
/// comes is not a function of the arguments: the contract states what holds
/// of all of them.
pub fn simple_query(db: &Database, ip: IpAddress) -> (r: Result<LookupResult, GatewayError>)
    ensures
        r matches Err(e) ==> e == GatewayError::EngineFailure,
{
    answer(engine_query(db, ip))
}

/// Looks a list of addresses up, one after the other and each on its own,
/// duplicates included, and answers as `batch_answer` does for what the
/// engine reports: one answer per address, in the order of the addresses.
///
/// For the empty list the engine is not asked, and the answer is the empty
/// list.
pub fn batch_query(db: &Database, ips: &Vec<IpAddress>) -> (r: Result<
    Vec<LookupResult>,
    GatewayError,
>)
    ensures
        ips@.len() == 0 ==> r is Ok,
        r matches Ok(answers) ==> answers@.len() == ips@.len(),
        r matches Err(e) ==> e == GatewayError::EngineFailure,
{
    let mut outcomes: Vec<Result<Option<Row>, std::io::Error>> = Vec::new();
    let mut i: usize = 0;
    while i < ips.len()
        invariant
            i <= ips@.len(),
            outcomes@.len() == i,
        decreases ips@.len() - i,
    {
        outcomes.push(engine_query(db, ips[i]));
        i += 1;
    }
    batch_answer(outcomes)
}

/// Reads the status from the handle's header. The same handle always gives
/// the same status.
pub fn status(db: &Database) -> (s: Status)
    ensures
        s == status_of(*db),
{
    Status {
        px: db.package_version(),
        day: db.day(),
        month: db.month(),
        year: db.year(),
        rows_ipv4: db.rows_ipv4(),
        rows_ipv6: db.rows_ipv6(),
    }
}

/// Two readings of the status of one handle are equal.
pub proof fn lemma_status_repeatable(db: Database, first: Status, second: Status)
    requires
        first == status_of(db),
        second == status_of(db),
    ensures
        first == second,
{
}

/// The parameter of a single lookup: one address.
#[derive(Clone, Copy, Debug, PartialEq, Eq, Structural)]
pub struct SimpleQuery {
    pub ip: IpAddress,
}

/// The parameter of a batch lookup: addresses in the order they were asked
/// for, duplicates kept.
#[derive(Debug, PartialEq, Eq)]
pub struct BatchQuery {
    pub ips: Vec<IpAddress>,
}

/// The addresses that a comma-separated list writes, if every field writes
/// one. The empty text is the empty list.
pub open spec fn batch_of(text: Seq<u8>) -> Option<Seq<IpAddress>> {
    let fields = split(text, 0x2c);
    if text.len() == 0 {
        Some(Seq::<IpAddress>::empty())
    } else if forall|k: int| 0 <= k < fields.len() ==> ip_of(#[trigger] fields[k]) is Some {
        Some(Seq::new(fields.len(), |k: int| ip_of(fields[k])->0))
    } else {
        None
    }
}

impl SimpleQuery {
    /// Reads the parameter of a single lookup. Text that is no address is
    /// refused.
    pub fn parse(text: &[u8]) -> (r: Option<SimpleQuery>)
        ensures
            match r {
                Some(query) => ip_of(text@) == Some(query.ip),
                None => ip_of(text@) is None,
            },
    {
        match IpAddress::parse(text) {
            Some(ip) => Some(SimpleQuery { ip }),
            None => None,
        }
    }
}

impl BatchQuery {
    /// Reads the parameter of a batch lookup. One field that is no address
    /// refuses the whole list.
    pub fn parse(text: &[u8]) -> (r: Option<BatchQuery>)
        ensures
            match r {
                Some(query) => batch_of(text@) == Some(query.ips@),
                None => batch_of(text@) is None,
            },
    {
        let mut ips: Vec<IpAddress> = Vec::new();
        if text.len() == 0 {
            return Some(BatchQuery { ips });
        }
        let ghost fields = split(text@, 0x2c);
        proof {
            assert(text@.subrange(0, text@.len() as int) =~= text@);
        }
        let ranges = split_ranges(text, 0, text.len(), 0x2c);
        let mut k: usize = 0;
        while k < ranges.len()
            invariant
                k <= ranges@.len(),
                text@.len() > 0,
                fields == split(text@, 0x2c),
                ranges@.len() == fields.len(),
                forall|j: int|
                    0 <= j < ranges@.len() ==> {
                        &&& (#[trigger] ranges@[j]).0 <= ranges@[j].1 <= text@.len()
                        &&& text@.subrange(ranges@[j].0 as int, ranges@[j].1 as int) == fields[j]
                    },
                ips@.len() == k,
                forall|j: int| 0 <= j < k ==> ip_of(fields[j]) == Some(#[trigger] ips@[j]),
            decreases ranges@.len() - k,
        {
            let field = slice_subrange(text, ranges[k].0, ranges[k].1);
            match IpAddress::parse(field) {
                Some(ip) => {
                    ips.push(ip);
                },
                None => {
                    proof {
                        assert(ip_of(fields[k as int]) is None);
                    }
                    return None;
                },
            }
            k += 1;
        }
        proof {
            assert forall|j: int| 0 <= j < fields.len() implies ip_of(
                #[trigger] fields[j],
            ) is Some by {
                assert(ip_of(fields[j]) == Some(ips@[j]));
            }
            assert(ips@ =~= Seq::new(fields.len(), |k: int| ip_of(fields[k])->0));
        }
        Some(BatchQuery { ips })
    }
}

} // verus!
