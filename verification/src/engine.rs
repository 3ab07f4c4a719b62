//! The lookup engine: the `ip2proxy` database handle and the record it
//! returns. Everything in this file is believed, not proved.

use vstd::prelude::*;
use crate::addr::IpAddress;

verus! {

/// The open database of the `ip2proxy` crate. Opaque to the verifier.
#[verifier::external_type_specification]
#[verifier::external_body]
pub struct ExDatabase(ip2proxy::Database);

/// A record of the `ip2proxy` crate. Opaque to the verifier: the library only
/// carries it from the engine to the caller.
#[verifier::external_type_specification]
#[verifier::external_body]
pub struct ExRow(ip2proxy::Row);

/// The error of a failed read. Opaque to the verifier.
#[verifier::external_type_specification]
#[verifier::external_body]
pub struct ExIoError(std::io::Error);

/// The package version (the `x` of `PXx`) held in a handle's header.
pub uninterp spec fn header_px(db: ip2proxy::Database) -> u8;

/// The day of the month held in a handle's header.
pub uninterp spec fn header_day(db: ip2proxy::Database) -> u8;

/// The month held in a handle's header.
pub uninterp spec fn header_month(db: ip2proxy::Database) -> u8;

/// The two-digit year held in a handle's header.
pub uninterp spec fn header_year(db: ip2proxy::Database) -> u8;

/// The number of IPv4 rows held in a handle's header.
pub uninterp spec fn header_rows_ipv4(db: ip2proxy::Database) -> u32;

/// The number of IPv6 rows held in a handle's header.
pub uninterp spec fn header_rows_ipv6(db: ip2proxy::Database) -> u32;

/// `ip2proxy::Database::package_version` returns the version byte of the
/// header, which was read once when the file was opened and is kept in the
/// handle.
pub assume_specification[ ip2proxy::Database::package_version ](
    db: &ip2proxy::Database,
) -> (px: u8)
    ensures
        px == header_px(*db),
;

/// `ip2proxy::Database::day` returns the day byte kept in the handle.
pub assume_specification[ ip2proxy::Database::day ](db: &ip2proxy::Database) -> (day: u8)
    ensures
        day == header_day(*db),
;

/// `ip2proxy::Database::month` returns the month byte kept in the handle.
pub assume_specification[ ip2proxy::Database::month ](db: &ip2proxy::Database) -> (month: u8)
    ensures
        month == header_month(*db),
;

/// `ip2proxy::Database::year` returns the year byte kept in the handle.
pub assume_specification[ ip2proxy::Database::year ](db: &ip2proxy::Database) -> (year: u8)
    ensures
        year == header_year(*db),
;

/// `ip2proxy::Database::rows_ipv4` returns the IPv4 row count kept in the
/// handle.
pub assume_specification[ ip2proxy::Database::rows_ipv4 ](db: &ip2proxy::Database) -> (rows: u32)
    ensures
        rows == header_rows_ipv4(*db),
;

/// `ip2proxy::Database::rows_ipv6` returns the IPv6 row count kept in the
/// handle.
pub assume_specification[ ip2proxy::Database::rows_ipv6 ](db: &ip2proxy::Database) -> (rows: u32)
    ensures
        rows == header_rows_ipv6(*db),
;

/// Calls `ip2proxy::Database::query` for one address with every column
/// selected. The engine reads the file on each call, so nothing is claimed of
/// the outcome: a row, no row, or a read error.
#[verifier::external_body]
pub(crate) fn engine_query(db: &ip2proxy::Database, addr: IpAddress) -> (outcome: Result<
    Option<ip2proxy::Row>,
    std::io::Error,
>) {
    match addr {
        IpAddress::V4(bits) => db.query(bits.to_be_bytes().into(), ip2proxy::Columns::all()),
        IpAddress::V6(bits) => db.query(bits.to_be_bytes().into(), ip2proxy::Columns::all()),
    }
}

} // verus!
