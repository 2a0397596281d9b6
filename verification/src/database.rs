//! The opened database: a MaxMind DB image behind the `maxminddb` reader.

use vstd::prelude::*;
use crate::address::ParsedAddress;

verus! {

/// An opened geolocation database. It is never changed once opened, so any
/// number of lookups may share it.
///
/// The `maxminddb` reader inside is opaque to the verifier. What is stated
/// of a handle is stated of its view, the image it was opened from.
#[verifier::external_body]
pub struct DatabaseHandle {
    reader: maxminddb::Reader<Vec<u8>>,
}

/// The bytes that the reader inside `handle` holds: the image that was given
/// to `Reader::from_source`, which keeps it as its buffer.
pub uninterp spec fn opened_image(handle: DatabaseHandle) -> Seq<u8>;

/// The `ip_version` in the metadata of a reader over `image`: 4 for a
/// database of IPv4 addresses only, 6 for one that covers both families.
pub uninterp spec fn image_family(image: Seq<u8>) -> u16;

/// What a reader over `image` finds for the address with the given octets,
/// by `Reader::lookup` and then `LookupResult::decode` to a
/// `geoip2::Country`: `Ok(None)` where the database has no record for the
/// address, else the ISO code of the record's country (`None` where the
/// record names none), or the text of the reader's error.
pub uninterp spec fn image_lookup(image: Seq<u8>, octets: Seq<u8>) -> Result<
    Option<Option<Seq<char>>>,
    Seq<char>,
>;

impl View for DatabaseHandle {
    type V = Seq<u8>;

    /// The image that the handle was opened from.
    open spec fn view(&self) -> Seq<u8> {
        opened_image(*self)
    }
}

/// The country part of one database record.
#[derive(Clone, Debug, PartialEq, Eq)]
pub struct CountryRecord {
    /// The ISO code of the country, where the record has one.
    pub iso_code: Option<String>,
}

impl View for CountryRecord {
    type V = Option<Seq<char>>;

    open spec fn view(&self) -> Option<Seq<char>> {
        match self.iso_code {
            Some(code) => Some(code@),
            None => None,
        }
    }
}

/// Why a database could not be opened.
#[derive(Clone, Debug, PartialEq, Eq)]
pub enum OpenError {
    /// The image could not be read from where it is kept.
    Unreadable(String),
    /// The image is not a database that the reader accepts.
    Malformed(String),
}

/// The model of an [`OpenError`].
pub ghost enum OpenErrorView {
    Unreadable(Seq<char>),
    Malformed(Seq<char>),
}

impl View for OpenError {
    type V = OpenErrorView;

    open spec fn view(&self) -> OpenErrorView {
        match self {
            OpenError::Unreadable(cause) => OpenErrorView::Unreadable(cause@),
            OpenError::Malformed(cause) => OpenErrorView::Malformed(cause@),
        }
    }
}

/// Why a record could not be read from an opened database.
#[derive(Clone, Debug, PartialEq, Eq)]
pub struct LookupError {
    /// What the reader reported.
    pub message: String,
}

impl View for LookupError {
    type V = Seq<char>;

    open spec fn view(&self) -> Seq<char> {
        self.message@
    }
}

/// The marker that starts the metadata of a MaxMind DB image stands at
/// `at`: the bytes AB CD EF and then `MaxMind.com`.
pub open spec fn marker_at(image: Seq<u8>, at: int) -> bool {
    &&& 0 <= at
    &&& at + 14 <= image.len()
    &&& image[at] == 0xAB
    &&& image[at + 1] == 0xCD
    &&& image[at + 2] == 0xEF
    &&& image[at + 3] == 0x4D
    &&& image[at + 4] == 0x61
    &&& image[at + 5] == 0x78
    &&& image[at + 6] == 0x4D
    &&& image[at + 7] == 0x69
    &&& image[at + 8] == 0x6E
    &&& image[at + 9] == 0x64
    &&& image[at + 10] == 0x2E
    &&& image[at + 11] == 0x63
    &&& image[at + 12] == 0x6F
    &&& image[at + 13] == 0x6D
}

/// `image` holds a metadata marker. An image without one is no database.
pub open spec fn has_metadata(image: Seq<u8>) -> bool {
    exists|at: int| #[trigger] marker_at(image, at)
}

/// The record that a lookup yields. A database of IPv4 addresses has no
/// record for an IPv6 address; it is not asked. Every other answer is the
/// reader's.
pub open spec fn record_lookup(image: Seq<u8>, octets: Seq<u8>) -> Result<
    Option<Option<Seq<char>>>,
    Seq<char>,
> {
    if octets.len() == 16 && image_family(image) == 4 {
        Ok(None)
    } else {
        image_lookup(image, octets)
    }
}

/// The model of what the reader hands back for an address.
pub open spec fn raw_view(raw: Result<Option<Option<String>>, String>) -> Result<
    Option<Option<Seq<char>>>,
    Seq<char>,
> {
    match raw {
        Ok(Some(Some(code))) => Ok(Some(Some(code@))),
        Ok(Some(None)) => Ok(Some(None)),
        Ok(None) => Ok(None),
        Err(message) => Err(message@),
    }
}

/// The model of a lookup's result.
pub open spec fn lookup_view(found: Result<Option<CountryRecord>, LookupError>) -> Result<
    Option<Option<Seq<char>>>,
    Seq<char>,
> {
    match found {
        Ok(Some(record)) => Ok(Some(record@)),
        Ok(None) => Ok(None),
        Err(error) => Err(error@),
    }
}

/// Calls `maxminddb::Reader::from_source` on `bytes`.
///
/// Trusted: a reader that is returned keeps the bytes it was given as its
/// buffer, and an image in which the reader finds no metadata marker is
/// refused. Which of the other images the reader accepts is left open: it
/// validates the metadata, and the build time that it accepts depends on
/// the platform. An error is returned as its text.
#[verifier::external_body]
fn read_source(bytes: Vec<u8>) -> (r: Result<DatabaseHandle, String>)
    ensures
        r matches Ok(handle) ==> opened_image(handle) == bytes@,
        !has_metadata(bytes@) ==> r is Err,
{
    match maxminddb::Reader::from_source(bytes) {
        Ok(reader) => Ok(DatabaseHandle { reader }),
        Err(error) => Err(error.to_string()),
    }
}

/// Reads `ip_version` from `maxminddb::Reader::metadata`.
///
/// Trusted: the metadata was decoded from the image when the reader was
/// made and cannot be changed afterwards.
#[verifier::external_body]
fn read_family(handle: &DatabaseHandle) -> (family: u16)
    ensures
        family == image_family(opened_image(*handle)),
{
    handle.reader.metadata().ip_version
}

/// Calls `maxminddb::Reader::lookup` and decodes what it found to a
/// `geoip2::Country` with `LookupResult::decode`, of which the ISO code of
/// the country is kept.
///
/// Trusted: the answer depends on the image in the reader and on the
/// address alone. An error is returned as its text.
#[verifier::external_body]
fn read_country(handle: &DatabaseHandle, address: ParsedAddress) -> (r: Result<
    Option<Option<String>>,
    String,
>)
    ensures
        raw_view(r) == image_lookup(opened_image(*handle), address@),
{
    let ip = match address {
        ParsedAddress::V4(octets) => octets.into(),
        ParsedAddress::V6(octets) => octets.into(),
    };
    let hit = match handle.reader.lookup(ip) {
        Ok(hit) => hit,
        Err(error) => return Err(error.to_string()),
    };
    match hit.decode::<maxminddb::geoip2::Country>() {
        Ok(Some(record)) => Ok(Some(record.country.iso_code.map(str::to_owned))),
        Ok(None) => Ok(None),
        Err(error) => Err(error.to_string()),
    }
}

impl DatabaseHandle {
    /// Opens the database whose image is `bytes`.
    ///
    /// The reader decides whether the image is a database, and an image that
    /// it refuses is reported as malformed with the reader's words. An image
    /// without a metadata marker is always refused.
    pub fn open(bytes: Vec<u8>) -> (r: Result<DatabaseHandle, OpenError>)
        ensures
            match r {
                Ok(handle) => handle@ == bytes@ && has_metadata(bytes@),
                Err(error) => error is Malformed,
            },
    {
        match read_source(bytes) {
            Ok(handle) => Ok(handle),
            Err(message) => Err(OpenError::Malformed(message)),
        }
    }

    /// Opens the database from what reading its image came to: a failed read
    /// is reported as unreadable with its cause, and an image that was read
    /// is opened as [`DatabaseHandle::open`] says.
    pub fn open_read(read: Result<Vec<u8>, String>) -> (r: Result<DatabaseHandle, OpenError>)
        ensures
            match read {
                Ok(bytes) => match r {
                    Ok(handle) => handle@ == bytes@ && has_metadata(bytes@),
                    Err(error) => error is Malformed,
                },
                Err(cause) => r == Err::<DatabaseHandle, OpenError>(OpenError::Unreadable(cause)),
            },
    {
        match read {
            Ok(bytes) => DatabaseHandle::open(bytes),
            Err(cause) => Err(OpenError::Unreadable(cause)),
        }
    }

    /// Looks up the record of `address`.
    ///
    /// `Ok(None)` says that the database does not cover the address. A
    /// record without a country code is returned as such, not as a miss.
    pub fn lookup(&self, address: ParsedAddress) -> (r: Result<Option<CountryRecord>, LookupError>)
        ensures
            lookup_view(r) == record_lookup(self@, address@),
    {
        if let ParsedAddress::V6(_) = address {
            if read_family(self) == 4 {
                return Ok(None);
            }
        }
        match read_country(self, address) {
            Ok(Some(iso_code)) => Ok(Some(CountryRecord { iso_code })),
            Ok(None) => Ok(None),
            Err(message) => Err(LookupError { message }),
        }
    }
}

} // verus!
