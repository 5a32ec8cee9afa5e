//! A request as the transport hands it over: a method, a path, and a body if
//! there was one.

use crate::order::same_id;
use vstd::prelude::*;

verus! {

/// The method of a request.
#[derive(Debug, Clone, Copy, PartialEq, Eq, Structural)]
pub enum Method {
    Get,
    Post,
    Put,
    Delete,
    Patch,
}

impl Default for Method {
    fn default() -> (r: Self)
        ensures
            r == Method::Get,
    {
        Method::Get
    }
}

/// The method that a name stands for, if it stands for one. Names are in
/// upper case.
pub open spec fn method_named(name: Seq<char>) -> Option<Method> {
    if name == "GET"@ {
        Some(Method::Get)
    } else if name == "POST"@ {
        Some(Method::Post)
    } else if name == "PUT"@ {
        Some(Method::Put)
    } else if name == "DELETE"@ {
        Some(Method::Delete)
    } else if name == "PATCH"@ {
        Some(Method::Patch)
    } else {
        None
    }
}

impl Method {
    /// Reads the name of a method.
    pub fn from_str(s: &str) -> (r: Result<Method, &'static str>)
        ensures
            match method_named(s@) {
                Some(method) => r == Ok::<Method, &'static str>(method),
                None => r.is_err() && r.unwrap_err()@ == "Invalid method"@,
            },
    {
        if same_id(s, "GET") {
            Ok(Method::Get)
        } else if same_id(s, "POST") {
            Ok(Method::Post)
        } else if same_id(s, "PUT") {
            Ok(Method::Put)
        } else if same_id(s, "DELETE") {
            Ok(Method::Delete)
        } else if same_id(s, "PATCH") {
            Ok(Method::Patch)
        } else {
            Err("Invalid method")
        }
    }
}

impl core::str::FromStr for Method {
    type Err = &'static str;

    /// Reads the name of a method, as `Method::from_str` does.
    fn from_str(s: &str) -> (r: Result<Method, &'static str>)
        ensures
            match method_named(s@) {
                Some(method) => r == Ok::<Method, &'static str>(method),
                None => r.is_err() && r.unwrap_err()@ == "Invalid method"@,
            },
    {
        Method::from_str(s)
    }
}

/// A request.
#[derive(Debug, Clone, PartialEq, Eq)]
pub struct Request {
    method: Method,
    uri: String,
    body: Option<String>,
}

pub struct RequestView {
    pub method: Method,
    pub uri: Seq<char>,
    pub body: Option<Seq<char>>,
}

impl View for Request {
    type V = RequestView;

    closed spec fn view(&self) -> RequestView {
        RequestView { method: self.method, uri: self.uri@, body: self.body.deep_view() }
    }
}

impl Default for Request {
    fn default() -> (r: Self)
        ensures
            r@ == (RequestView { method: Method::Get, uri: Seq::empty(), body: None }),
    {
        Request { method: Method::Get, uri: String::new(), body: None }
    }
}

impl Request {
    pub fn new(method: Method, uri: String, body: Option<String>) -> (r: Self)
        ensures
            r@ == (RequestView { method, uri: uri@, body: body.deep_view() }),
    {
        Request { method, uri, body }
    }

    pub fn uri(&self) -> (r: &str)
        ensures
            r@ == self@.uri,
    {
        self.uri.as_str()
    }

    pub fn set_uri(&mut self, uri: String)
        ensures
            final(self)@ == (RequestView { uri: uri@, ..old(self)@ }),
    {
        self.uri = uri;
    }

    pub fn body(&self) -> (r: Option<&String>)
        ensures
            r.deep_view() == self@.body,
    {
        self.body.as_ref()
    }

    pub fn set_body(&mut self, body: Option<String>)
        ensures
            final(self)@ == (RequestView { body: body.deep_view(), ..old(self)@ }),
    {
        self.body = body;
    }

    pub fn method(&self) -> (r: &Method)
        ensures
            *r == self@.method,
    {
        &self.method
    }

    /// Sets the method by its name. A name that stands for no method is
    /// refused, and the request stays as it is.
    pub fn set_method(&mut self, method: &str) -> (r: Result<(), &'static str>)
        ensures
            match method_named(method@) {
                Some(named) => r.is_ok() && final(self)@ == (RequestView {
                    method: named,
                    ..old(self)@
                }),
                None => r.is_err() && r.unwrap_err()@ == "Invalid method"@ && final(self)@ == old(
                    self,
                )@,
            },
    {
        match Method::from_str(method) {
            Ok(named) => {
                self.method = named;
                Ok(())
            },
            Err(reason) => Err(reason),
        }
    }
}

} // verus!
