//! The decisions of the adapter for S3-compatible object storage: how its
//! configuration reads, and how each call's outcome is classified into a
//! result or an error of the taxonomy. The calls themselves are made by the
//! application, which hands their outcomes in as plain values.
use crate::blob::Blob;
use crate::error::Error;
use crate::stream::ByteStream;
use vstd::prelude::*;

verus! {

/// How an S3-compatible storage service is reached. Absent fields fall back
/// to what the environment provides.
pub struct S3Config {
    pub bucket: String,
    pub endpoint: Option<String>,
    pub region: Option<String>,
    pub credentials: Option<S3Credentials>,
}

/// Explicit credentials for the storage service.
pub struct S3Credentials {
    pub access_key_id: String,
    pub secret_access_key: String,
}

impl Default for S3Config {
    fn default() -> (r: Self)
        ensures
            r.bucket@ == Seq::<char>::empty(),
            r.endpoint is None,
            r.region is None,
            r.credentials is None,
    {
        S3Config { bucket: String::new(), endpoint: None, region: None, credentials: None }
    }
}

/// Where the client's region comes from.
pub enum RegionChoice {
    /// The region that the environment provides.
    Ambient,
    /// The region that the client knows by this name.
    Named { name: String },
}

/// Whether the S3 client knows `name` as a region.
pub uninterp spec fn known_region(name: Seq<char>) -> bool;

/// Relies on rusoto_core's `Region::from_str`: whether it accepts `name`,
/// which depends on the name alone.
#[verifier::external_body]
fn is_known_region(name: &str) -> (r: bool)
    ensures
        r == known_region(name@),
{
    <rusoto_core::Region as std::str::FromStr>::from_str(name).is_ok()
}

/// The region for a configured name, given whether the client knows it: a
/// known name is used, and an unknown or absent one falls back to the
/// environment.
pub fn resolve_region(region: Option<String>, known: bool) -> (r: RegionChoice)
    ensures
        if region is Some && known {
            r matches RegionChoice::Named { name } && name@ == region->Some_0@
        } else {
            r is Ambient
        },
{
    match region {
        Some(name) if known => RegionChoice::Named { name },
        _ => RegionChoice::Ambient,
    }
}

impl S3Config {
    /// The region that a client for this configuration uses.
    pub fn region_choice(&self) -> (r: RegionChoice)
        ensures
            match self.region {
                None => r is Ambient,
                Some(s) => if known_region(s@) {
                    r matches RegionChoice::Named { name } && name@ == s@
                } else {
                    r is Ambient
                },
            },
    {
        match &self.region {
            None => RegionChoice::Ambient,
            Some(s) => {
                let known = is_known_region(s.as_str());
                resolve_region(Some(s.clone()), known)
            },
        }
    }
}

/// How a call to the storage service failed, as its client reported it.
/// `report` is the client's own description of the failure.
pub enum BackendFailure {
    /// The service's distinguished "no such key" error.
    NoSuchKey { report: String },
    /// A response that the client could not read as a known error.
    Unknown { status: u16, report: String },
    /// Any other failure: transport, credentials, validation, parsing.
    Other { report: String },
}

/// What a successful fetch returned: its body, if any, and its declared length.
pub struct GetResponse<S> {
    pub body: Option<S>,
    pub content_length: Option<i64>,
}

/// The client's description of a failure.
pub open spec fn report_of(f: BackendFailure) -> Seq<char> {
    match f {
        BackendFailure::NoSuchKey { report } => report@,
        BackendFailure::Unknown { report, .. } => report@,
        BackendFailure::Other { report } => report@,
    }
}

/// A fetch takes only the distinguished "no such key" error for absence.
pub open spec fn absent_on_get(f: BackendFailure) -> bool {
    f is NoSuchKey
}

/// An existence check also takes an unreadable response with status 404
/// for absence.
pub open spec fn absent_on_head(f: BackendFailure) -> bool {
    match f {
        BackendFailure::NoSuchKey { .. } => true,
        BackendFailure::Unknown { status, .. } => status == 404,
        BackendFailure::Other { .. } => false,
    }
}

/// A declared length that a blob's size can hold.
pub open spec fn usable_length(l: Option<i64>) -> bool {
    l matches Some(n) && 0 <= n && n <= usize::MAX
}

/// The error that a failure other than absence becomes: the client's report
/// kept as the cause.
pub open spec fn is_provider_error_for(e: Error, f: BackendFailure) -> bool {
    e matches Error::ProviderError { source } && source@ == report_of(f)
}

fn provider_error(f: BackendFailure) -> (r: Error)
    ensures
        is_provider_error_for(r, f),
{
    match f {
        BackendFailure::NoSuchKey { report } => Error::provider(report),
        BackendFailure::Unknown { report, .. } => Error::provider(report),
        BackendFailure::Other { report } => Error::provider(report),
    }
}

/// The result of fetching `key`: absent on "no such key", a blob over the
/// response body when it has one and a usable length, and an error otherwise.
pub fn get_outcome<S>(key: &str, response: Result<GetResponse<S>, BackendFailure>) -> (r: Result<
    Option<Blob<S>>,
    Error,
>)
    ensures
        match response {
            Err(f) => if absent_on_get(f) {
                r matches Ok(None)
            } else {
                r matches Err(e) && is_provider_error_for(e, f)
            },
            Ok(resp) => match resp.body {
                None => r matches Err(Error::BodyError { .. }),
                Some(body) => if usable_length(resp.content_length) {
                    r matches Ok(Some(b)) && b.key_spec() == key@ && b.size_spec()
                        == resp.content_length->Some_0 && b.content_spec() == body
                } else {
                    r matches Err(Error::BodyError { .. })
                },
            },
        },
{
    match response {
        Err(BackendFailure::NoSuchKey { .. }) => Ok(None),
        Err(f) => Err(provider_error(f)),
        Ok(resp) => match resp.body {
            None => Err(Error::body_error("no body found in S3 response")),
            Some(body) => match resp.content_length {
                Some(n) if 0 <= n && n as u64 <= usize::MAX as u64 => {
                    Ok(Some(Blob::new(key.to_owned(), n as usize, body)))
                },
                _ => Err(Error::body_error("no usable content length in S3 response")),
            },
        },
    }
}

/// The result of storing a blob of `key` and `size`: on success an empty blob
/// that carries the key and the size.
pub fn store_outcome(key: String, size: usize, response: Result<(), BackendFailure>) -> (r: Result<
    Blob<ByteStream>,
    Error,
>)
    ensures
        match response {
            Ok(_) => r matches Ok(b) && b.key_spec() == key@ && b.size_spec() == size
                && b.content_spec()@.len() == 0,
            Err(f) => r matches Err(e) && is_provider_error_for(e, f),
        },
{
    match response {
        Ok(_) => Ok(Blob::empty(key, size)),
        Err(f) => Err(provider_error(f)),
    }
}

/// The result of an existence check: present on success, absent on either
/// absence signal, an error otherwise.
pub fn head_outcome(response: Result<(), BackendFailure>) -> (r: Result<bool, Error>)
    ensures
        match response {
            Ok(_) => r matches Ok(true),
            Err(f) => if absent_on_head(f) {
                r matches Ok(false)
            } else {
                r matches Err(e) && is_provider_error_for(e, f)
            },
        },
{
    match response {
        Ok(_) => Ok(true),
        Err(BackendFailure::NoSuchKey { .. }) => Ok(false),
        Err(BackendFailure::Unknown { status, report }) => {
            if status == 404 {
                Ok(false)
            } else {
                Err(Error::provider(report))
            }
        },
        Err(f) => Err(provider_error(f)),
    }
}

/// The result of a deletion: every failure is an error; the service itself
/// accepts the deletion of an absent key.
pub fn delete_outcome(response: Result<(), BackendFailure>) -> (r: Result<(), Error>)
    ensures
        match response {
            Ok(_) => r is Ok,
            Err(f) => r matches Err(e) && is_provider_error_for(e, f),
        },
{
    match response {
        Ok(_) => Ok(()),
        Err(f) => Err(provider_error(f)),
    }
}

} // verus!
