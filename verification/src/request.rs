//! The operations on a place, each as the request that it sends.

use crate::message::{Method, Request, Response, Version};
use crate::types::{RequestError, RequestResult};
use vstd::prelude::*;

verus! {

/// A place that requests can be made at. Every operation is composed here
/// and sent elsewhere: what comes back is read by the transport.
pub trait Requestable {
    /// The URL that requests go to, serialized.
    spec fn target(&self) -> Seq<char>;

    /// The request that `method` makes with the body `data`: no headers of
    /// its own, and the version that requests have unless told otherwise.
    fn request(&self, method: Method, data: Option<serde_json::Value>) -> (res: Request)
        ensures
            res.method == method,
            res.uri@ == self.target(),
            res.version == Version::Http11,
            res.headers@.len() == 0,
            res.body == data,
    ;

    /// The request of `method` without a body, for an answer of which only
    /// the body is wanted.
    fn request_generic(&self, method: Method) -> (res: Request)
        ensures
            res.method == method,
            res.uri@ == self.target(),
            res.version == Version::Http11,
            res.headers@.len() == 0,
            res.body is None,
    {
        self.request(method, None)
    }

    /// Creates a child with a generated key: `POST` with `data` as the body.
    fn set(&self, data: serde_json::Value) -> (res: Request)
        ensures
            res.method == Method::Post,
            res.uri@ == self.target(),
            res.version == Version::Http11,
            res.headers@.len() == 0,
            res.body == Some(data),
    {
        self.request(Method::Post, Some(data))
    }

    /// Reads the value as text or as any JSON: `GET` without a body.
    fn get_as_string(&self) -> (res: Request)
        ensures
            res.method == Method::Get,
            res.uri@ == self.target(),
            res.version == Version::Http11,
            res.headers@.len() == 0,
            res.body is None,
    {
        self.request(Method::Get, None)
    }

    /// Reads the value: `GET` without a body.
    fn get(&self) -> (res: Request)
        ensures
            res.method == Method::Get,
            res.uri@ == self.target(),
            res.version == Version::Http11,
            res.headers@.len() == 0,
            res.body is None,
    {
        self.request_generic(Method::Get)
    }

    /// Removes the value: `DELETE` without a body.
    fn delete(&self) -> (res: Request)
        ensures
            res.method == Method::Delete,
            res.uri@ == self.target(),
            res.version == Version::Http11,
            res.headers@.len() == 0,
            res.body is None,
    {
        self.request(Method::Delete, None)
    }

    /// Merges `data` into the value: `PATCH` with `data` as the body.
    fn update(&self, data: serde_json::Value) -> (res: Request)
        ensures
            res.method == Method::Patch,
            res.uri@ == self.target(),
            res.version == Version::Http11,
            res.headers@.len() == 0,
            res.body == Some(data),
    {
        self.request(Method::Patch, Some(data))
    }
}

/// Keeps the body of an answer and gives up its envelope; a failure stays
/// the failure it is.
pub fn body_of<T, E>(outcome: RequestResult<Response<T>, E>) -> (res: RequestResult<T, E>)
    ensures
        match outcome {
            Ok(response) => res == Ok::<T, RequestError<E>>(response.body),
            Err(error) => res == Err::<T, RequestError<E>>(error),
        },
{
    match outcome {
        Ok(response) => Ok(response.into_body()),
        Err(err) => Err(err),
    }
}

} // verus!
