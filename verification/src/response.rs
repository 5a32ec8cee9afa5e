//! A response as it is written to the reader: a status line, header lines, an
//! empty line, and the content if there is any.

use vstd::prelude::*;
use vstd::string::StringExecFns;

verus! {

/// A response that is being put together.
#[derive(Debug, Clone, PartialEq, Eq)]
pub struct Response<'a> {
    pub status_line: &'a str,
    pub headers: Vec<&'a str>,
    pub content: Option<&'a str>,
}

pub struct ResponseView {
    pub status_line: Seq<char>,
    pub headers: Seq<Seq<char>>,
    pub content: Option<Seq<char>>,
}

impl<'a> View for Response<'a> {
    type V = ResponseView;

    open spec fn view(&self) -> ResponseView {
        ResponseView {
            status_line: self.status_line@,
            headers: self.headers@.map_values(|header: &str| header@),
            content: match self.content {
                Some(content) => Some(content@),
                None => None,
            },
        }
    }
}

/// The header lines, each with its line end.
pub open spec fn header_lines(headers: Seq<Seq<char>>) -> Seq<char>
    decreases headers.len(),
{
    if headers.len() == 0 {
        Seq::empty()
    } else {
        header_lines(headers.drop_last()) + headers.last() + "\r\n"@
    }
}

impl ResponseView {
    /// The text of the response.
    pub open spec fn text(self) -> Seq<char> {
        self.status_line + "\r\n"@ + header_lines(self.headers) + "\r\n"@ + match self.content {
            Some(content) => content,
            None => Seq::empty(),
        }
    }
}

impl<'a> Response<'a> {
    /// A response that says that all went well, with no header and no content.
    pub fn new() -> (r: Self)
        ensures
            r@ == (ResponseView {
                status_line: "HTTP/1.1 200 OK"@,
                headers: Seq::empty(),
                content: None,
            }),
    {
        let r = Response { status_line: "HTTP/1.1 200 OK", headers: Vec::new(), content: None };
        assert(r@.headers =~= Seq::empty());
        r
    }

    pub fn status_line(self, status_line: &'a str) -> (r: Self)
        ensures
            r@ == (ResponseView { status_line: status_line@, ..self@ }),
    {
        Response { status_line, headers: self.headers, content: self.content }
    }

    pub fn set_status_line(&mut self, status_line: &'a str)
        ensures
            final(self)@ == (ResponseView { status_line: status_line@, ..old(self)@ }),
    {
        self.status_line = status_line;
    }

    pub fn append_header(self, header: &'a str) -> (r: Self)
        ensures
            r@ == (ResponseView { headers: self@.headers.push(header@), ..self@ }),
    {
        let mut headers = self.headers;
        headers.push(header);
        let r = Response { status_line: self.status_line, headers, content: self.content };
        assert(r@.headers =~= self@.headers.push(header@));
        r
    }

    pub fn body(self, content: &'a str) -> (r: Self)
        ensures
            r@ == (ResponseView { content: Some(content@), ..self@ }),
    {
        Response { status_line: self.status_line, headers: self.headers, content: Some(content) }
    }

    /// The text of the response, as it is sent.
    pub fn to_text(&self) -> (text: String)
        ensures
            text@ == self@.text(),
    {
        let mut text = String::new();
        text.append(self.status_line);
        text.append("\r\n");
        let ghost head = text@;
        let ghost headers = self@.headers;
        let mut i: usize = 0;
        assert(headers.take(0) =~= Seq::empty());
        while i < self.headers.len()
            invariant
                i <= self.headers.len(),
                headers == self@.headers,
                text@ == head + header_lines(headers.take(i as int)),
            decreases self.headers.len() - i,
        {
            text.append(self.headers[i]);
            text.append("\r\n");
            proof {
                assert(headers.take(i + 1).drop_last() =~= headers.take(i as int));
                assert(headers.take(i + 1).last() == self.headers[i as int]@);
                assert(text@ =~= head + header_lines(headers.take(i + 1)));
            }
            i += 1;
        }
        assert(headers.take(i as int) =~= headers);
        text.append("\r\n");
        match self.content {
            Some(content) => {
                text.append(content);
            },
            None => {
                assert(text@ =~= text@ + Seq::<char>::empty());
            },
        }
        assert(text@ =~= self@.text());
        text
    }
}

/// Why a request was not carried out.
#[derive(Debug, Clone, Copy, PartialEq, Eq, Structural)]
pub enum ErrorKind {
    /// The body of the request is malformed or incomplete.
    Validation,
    /// The id of an update or a deletion is not known.
    NotFound,
    /// The id of a new entry is taken.
    Conflict,
    /// A store failed.
    Storage,
    /// A page was asked for while no walk was under way.
    ProtocolState,
}

impl ErrorKind {
    /// The status line that tells a reader of the error.
    pub fn status_line(&self) -> (r: &'static str)
        ensures
            r@ == match *self {
                ErrorKind::Validation => "HTTP/1.1 400 BAD REQUEST"@,
                ErrorKind::NotFound => "HTTP/1.1 404 NOT FOUND"@,
                ErrorKind::Conflict => "HTTP/1.1 409 CONFLICT"@,
                ErrorKind::Storage => "HTTP/1.1 500 Internal Server Error"@,
                ErrorKind::ProtocolState => "HTTP/1.1 403 Forbidden"@,
            },
    {
        match self {
            ErrorKind::Validation => "HTTP/1.1 400 BAD REQUEST",
            ErrorKind::NotFound => "HTTP/1.1 404 NOT FOUND",
            ErrorKind::Conflict => "HTTP/1.1 409 CONFLICT",
            ErrorKind::Storage => "HTTP/1.1 500 Internal Server Error",
            ErrorKind::ProtocolState => "HTTP/1.1 403 Forbidden",
        }
    }

    /// The response that tells a reader of the error.
    pub fn response(&self) -> (r: Response<'static>)
        ensures
            r@ == (ResponseView {
                status_line: match *self {
                    ErrorKind::Validation => "HTTP/1.1 400 BAD REQUEST"@,
                    ErrorKind::NotFound => "HTTP/1.1 404 NOT FOUND"@,
                    ErrorKind::Conflict => "HTTP/1.1 409 CONFLICT"@,
                    ErrorKind::Storage => "HTTP/1.1 500 Internal Server Error"@,
                    ErrorKind::ProtocolState => "HTTP/1.1 403 Forbidden"@,
                },
                headers: Seq::empty(),
                content: None,
            }),
    {
        Response::new().status_line(self.status_line())
    }
}

} // verus!
