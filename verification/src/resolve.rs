//! From the text of an address to the country it lies in.

use vstd::prelude::*;
use vstd::string::StringExecFns;
use std::sync::Arc;
use crate::address::{address_octets, parse_address, ParsedAddress};
use crate::cache::{handed_out, slot_after, unshared, SharedCacheSlot};
use crate::database::{
    lookup_view, record_lookup, CountryRecord, DatabaseHandle, LookupError, OpenError,
    OpenErrorView,
};

verus! {

/// Why an address could not be resolved.
#[derive(Clone, Debug, PartialEq, Eq)]
pub enum ResolveError {
    /// The text is not an IP address.
    InvalidAddress,
    /// The database could not be opened. A later call tries again.
    DatabaseUnavailable(OpenError),
    /// The database is open, but the record of this address could not be
    /// decoded. Other addresses are not affected.
    RecordCorrupt(LookupError),
}

/// The model of a [`ResolveError`].
pub ghost enum ResolveErrorView {
    InvalidAddress,
    DatabaseUnavailable(OpenErrorView),
    RecordCorrupt(Seq<char>),
}

impl View for ResolveError {
    type V = ResolveErrorView;

    open spec fn view(&self) -> ResolveErrorView {
        match self {
            ResolveError::InvalidAddress => ResolveErrorView::InvalidAddress,
            ResolveError::DatabaseUnavailable(cause) => ResolveErrorView::DatabaseUnavailable(
                cause@,
            ),
            ResolveError::RecordCorrupt(cause) => ResolveErrorView::RecordCorrupt(cause@),
        }
    }
}

/// The text that describes an error: what went wrong and, where the
/// database is to blame, the cause that was reported.
pub open spec fn described(error: ResolveErrorView) -> Seq<char> {
    match error {
        ResolveErrorView::InvalidAddress => "invalid IP address"@,
        ResolveErrorView::DatabaseUnavailable(OpenErrorView::Unreadable(cause)) =>
            "database unreadable: "@ + cause,
        ResolveErrorView::DatabaseUnavailable(OpenErrorView::Malformed(cause)) =>
            "database malformed: "@ + cause,
        ResolveErrorView::RecordCorrupt(cause) => "record corrupt: "@ + cause,
    }
}

impl ResolveError {
    /// Describes the error in words, for a log or a message to the caller.
    pub fn describe(&self) -> (text: String)
        ensures
            text@ == described(self@),
    {
        match self {
            ResolveError::InvalidAddress => String::from_str("invalid IP address"),
            ResolveError::DatabaseUnavailable(OpenError::Unreadable(cause)) => {
                String::from_str("database unreadable: ").concat(cause.as_str())
            },
            ResolveError::DatabaseUnavailable(OpenError::Malformed(cause)) => {
                String::from_str("database malformed: ").concat(cause.as_str())
            },
            ResolveError::RecordCorrupt(cause) => {
                String::from_str("record corrupt: ").concat(cause.message.as_str())
            },
        }
    }
}

/// What resolving one address comes to.
#[derive(Clone, Debug, PartialEq, Eq)]
pub enum CountryResult {
    /// The address lies in the country with this ISO code.
    Found(String),
    /// The address is valid, and the database names no country for it.
    NotFound,
    /// The address could not be resolved.
    Error(ResolveError),
}

/// The model of a [`CountryResult`].
pub ghost enum CountryResultView {
    Found(Seq<char>),
    NotFound,
    Error(ResolveErrorView),
}

impl View for CountryResult {
    type V = CountryResultView;

    open spec fn view(&self) -> CountryResultView {
        match self {
            CountryResult::Found(code) => CountryResultView::Found(code@),
            CountryResult::NotFound => CountryResultView::NotFound,
            CountryResult::Error(error) => CountryResultView::Error(error@),
        }
    }
}

/// The result that a lookup comes to: a code is found, a missing record and
/// a record without a code are both not found, and an error of the reader
/// is a corrupt record.
pub open spec fn normalized(found: Result<Option<Option<Seq<char>>>, Seq<char>>) -> CountryResultView {
    match found {
        Ok(Some(Some(code))) => CountryResultView::Found(code),
        Ok(Some(None)) => CountryResultView::NotFound,
        Ok(None) => CountryResultView::NotFound,
        Err(cause) => CountryResultView::Error(ResolveErrorView::RecordCorrupt(cause)),
    }
}

/// The result for the address with the given octets in the database with
/// the given image.
pub open spec fn country_in(image: Seq<u8>, octets: Seq<u8>) -> CountryResultView {
    normalized(record_lookup(image, octets))
}

/// The result for the address with the given octets once the database has
/// been asked for with `acquired`.
pub open spec fn country_through(
    acquired: Result<DatabaseHandle, OpenError>,
    octets: Seq<u8>,
) -> CountryResultView {
    match acquired {
        Ok(handle) => country_in(handle@, octets),
        Err(cause) => CountryResultView::Error(ResolveErrorView::DatabaseUnavailable(cause@)),
    }
}

/// One call of [`resolve_country`] as a step: from what the slot held, what
/// opening would return and the text, to what the slot holds afterwards and
/// the result. The opening counts only where the text is an address and the
/// slot is empty.
pub open spec fn resolve_step(
    before: Option<DatabaseHandle>,
    outcome: Result<DatabaseHandle, OpenError>,
    text: Seq<char>,
) -> (Option<DatabaseHandle>, CountryResultView) {
    match address_octets(text) {
        None => (before, CountryResultView::Error(ResolveErrorView::InvalidAddress)),
        Some(octets) => match before {
            Some(kept) => (before, country_in(kept@, octets)),
            None => (slot_after(None, outcome), country_through(outcome, octets)),
        },
    }
}

/// Folds the result of a lookup into a [`CountryResult`].
pub fn normalize(found: Result<Option<CountryRecord>, LookupError>) -> (r: CountryResult)
    ensures
        r@ == normalized(lookup_view(found)),
{
    match found {
        Ok(Some(record)) => match record.iso_code {
            Some(code) => CountryResult::Found(code),
            None => CountryResult::NotFound,
        },
        Ok(None) => CountryResult::NotFound,
        Err(cause) => CountryResult::Error(ResolveError::RecordCorrupt(cause)),
    }
}

/// Looks `address` up in an opened database.
pub fn lookup_country(handle: &DatabaseHandle, address: ParsedAddress) -> (r: CountryResult)
    ensures
        r@ == country_in(handle@, address@),
{
    normalize(handle.lookup(address))
}

/// Looks `address` up in the database that was asked for with `acquired`:
/// a database that could not be opened is reported, an opened one is
/// queried.
pub fn resolve_with(acquired: Result<Arc<DatabaseHandle>, OpenError>, address: ParsedAddress) -> (r:
    CountryResult)
    ensures
        r@ == country_through(unshared(acquired), address@),
{
    match acquired {
        Ok(handle) => lookup_country(&handle, address),
        Err(cause) => CountryResult::Error(ResolveError::DatabaseUnavailable(cause)),
    }
}

/// Resolves the text of an IP address with a database that `acquire`
/// fetches.
///
/// The text is parsed first, and `acquire` is called only for a text that is
/// an address. This is the form for a slot behind a lock: `acquire` takes
/// the lock, calls [`SharedCacheSlot::get_or_open`] and releases the lock,
/// so that the lookup itself runs unlocked.
pub fn resolve_through<A: FnOnce() -> Result<Arc<DatabaseHandle>, OpenError>>(
    acquire: A,
    address_text: &str,
) -> (r: CountryResult)
    requires
        address_octets(address_text@) is Some ==> acquire.requires(()),
    ensures
        match address_octets(address_text@) {
            None => r@ == CountryResultView::Error(ResolveErrorView::InvalidAddress),
            Some(octets) => exists|acquired: Result<Arc<DatabaseHandle>, OpenError>|
                #![trigger acquire.ensures((), acquired)]
                acquire.ensures((), acquired) && r@ == country_through(unshared(acquired), octets),
        },
{
    match parse_address(address_text) {
        Some(address) => resolve_with(acquire(), address),
        None => CountryResult::Error(ResolveError::InvalidAddress),
    }
}

/// Resolves the text of an IP address to a country.
///
/// The text is parsed first: a text that is no address is reported without
/// touching the slot. Then the database is taken from `slot`, which opens it
/// with `opener` where it is still empty, and the address is looked up.
pub fn resolve_country<F: FnOnce() -> Result<DatabaseHandle, OpenError>>(
    slot: &mut SharedCacheSlot,
    opener: F,
    address_text: &str,
) -> (r: CountryResult)
    requires
        old(slot)@ is None && address_octets(address_text@) is Some ==> opener.requires(()),
    ensures
        exists|outcome: Result<DatabaseHandle, OpenError>|
            #![trigger resolve_step(old(slot)@, outcome, address_text@)]
            {
                &&& old(slot)@ is None && address_octets(address_text@) is Some
                    ==> opener.ensures((), outcome)
                &&& (final(slot)@, r@) == resolve_step(old(slot)@, outcome, address_text@)
            },
{
    let ghost before = slot@;
    let address = match parse_address(address_text) {
        Some(address) => address,
        None => {
            proof {
                let unused: Result<DatabaseHandle, OpenError> = arbitrary();
                assert((before, CountryResultView::Error(ResolveErrorView::InvalidAddress))
                    == resolve_step(before, unused, address_text@));
            }
            return CountryResult::Error(ResolveError::InvalidAddress);
        },
    };
    let acquired = slot.get_or_open(opener);
    let r = resolve_with(acquired, address);
    proof {
        let outcome = choose|outcome: Result<DatabaseHandle, OpenError>|
            #![trigger slot_after(before, outcome)]
            {
                &&& before is None ==> opener.ensures((), outcome)
                &&& slot@ == slot_after(before, outcome)
                &&& unshared(acquired) == handed_out(before, outcome)
            };
        assert((slot@, r@) == resolve_step(before, outcome, address_text@));
    }
    r
}

/// What a host that calls the lookup does with a result: the value that it
/// returns to its own caller, and the line that it writes to its log.
#[derive(Clone, Debug, PartialEq, Eq)]
pub struct HostReply {
    /// The country code, or the host's stand-in where there is none.
    pub value: String,
    /// The description of the error, where the result is one.
    pub log: Option<String>,
}

/// The line that is logged for a result: the description of its error, and
/// nothing for a result that is no error.
pub open spec fn logged(result: CountryResultView) -> Option<Seq<char>> {
    match result {
        CountryResultView::Error(error) => Some(described(error)),
        _ => None,
    }
}

/// The value that is returned for a result: the code that was found, else
/// `fallback`.
pub open spec fn returned(result: CountryResultView, fallback: Seq<char>) -> Seq<char> {
    match result {
        CountryResultView::Found(found) => found,
        _ => fallback,
    }
}

impl CountryResult {
    /// What a host does with the result, where `fallback` is its stand-in
    /// for a missing country: it returns the code or the stand-in, and logs
    /// an error.
    pub fn reply(&self, fallback: &str) -> (reply: HostReply)
        ensures
            reply.value@ == returned(self@, fallback@),
            match reply.log {
                Some(line) => logged(self@) == Some(line@),
                None => logged(self@) is None,
            },
    {
        let log = match self {
            CountryResult::Error(error) => Some(error.describe()),
            _ => None,
        };
        HostReply { value: self.code_or(fallback), log }
    }

    /// The country code where one was found, else `fallback`.
    pub fn code_or(&self, fallback: &str) -> (code: String)
        ensures
            code@ == returned(self@, fallback@),
    {
        match self {
            CountryResult::Found(found) => found.clone(),
            _ => String::from_str(fallback),
        }
    }
}

/// A text that is no address, or any text while the slot holds a database,
/// leaves the slot as it was; and the result of a later call is the one it
/// would have had without the earlier call.
pub proof fn law_lookups_do_not_interfere(
    kept: DatabaseHandle,
    first_outcome: Result<DatabaseHandle, OpenError>,
    first_text: Seq<char>,
    later_outcome: Result<DatabaseHandle, OpenError>,
    later_text: Seq<char>,
)
    ensures
        resolve_step(Some(kept), first_outcome, first_text).0 == Some(kept),
        resolve_step(
            resolve_step(Some(kept), first_outcome, first_text).0,
            later_outcome,
            later_text,
        ) == resolve_step(Some(kept), later_outcome, later_text),
        address_octets(first_text) is None ==> forall|before: Option<DatabaseHandle>|
            (#[trigger] resolve_step(before, first_outcome, first_text)).0 == before,
{
}

/// A record that lacks a country code is not found; it is never reported as
/// a corrupt record.
pub proof fn law_missing_code_is_not_found(image: Seq<u8>, octets: Seq<u8>)
    requires
        record_lookup(image, octets) == Ok::<Option<Option<Seq<char>>>, Seq<char>>(Some(None)),
    ensures
        country_in(image, octets) == CountryResultView::NotFound,
{
}

} // verus!
