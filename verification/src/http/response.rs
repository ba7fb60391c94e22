//! Responses and their text on the wire.

use vstd::prelude::*;

use crate::http::http_header::{header_line, headers_view, HttpHeader};
use crate::text::{decimal, decimal_string};

verus! {

/// The status of a response.
#[derive(Debug, Clone, Copy, PartialEq, Eq, Structural)]
pub enum HttpStatusCode {
    Okay,
    NotFound,
    ServerError,
}

/// The number of a status.
pub open spec fn code_of(status: HttpStatusCode) -> nat {
    match status {
        HttpStatusCode::Okay => 200,
        HttpStatusCode::NotFound => 404,
        HttpStatusCode::ServerError => 500,
    }
}

/// The phrase of a status.
pub open spec fn phrase_of(status: HttpStatusCode) -> Seq<char> {
    match status {
        HttpStatusCode::Okay => "OK"@,
        HttpStatusCode::NotFound => "NOT FOUND"@,
        HttpStatusCode::ServerError => "INTERNAL SERVER ERROR"@,
    }
}

impl HttpStatusCode {
    /// The number of the status.
    pub fn get_code(&self) -> (code: usize)
        ensures
            code == code_of(*self),
    {
        match self {
            HttpStatusCode::Okay => 200,
            HttpStatusCode::NotFound => 404,
            HttpStatusCode::ServerError => 500,
        }
    }

    /// The phrase of the status.
    pub fn get_phrase(&self) -> (phrase: &'static str)
        ensures
            phrase@ == phrase_of(*self),
    {
        match self {
            HttpStatusCode::Okay => "OK",
            HttpStatusCode::NotFound => "NOT FOUND",
            HttpStatusCode::ServerError => "INTERNAL SERVER ERROR",
        }
    }
}

/// A response.
pub struct Response {
    pub http_version: String,
    pub status_code: HttpStatusCode,
    pub headers: Vec<HttpHeader>,
    pub body: String,
}

/// What a response holds.
pub struct ResponseView {
    pub http_version: Seq<char>,
    pub status_code: HttpStatusCode,
    pub headers: Seq<(Seq<char>, Seq<char>)>,
    pub body: Seq<char>,
}

impl View for Response {
    type V = ResponseView;

    open spec fn view(&self) -> ResponseView {
        ResponseView {
            http_version: self.http_version@,
            status_code: self.status_code,
            headers: headers_view(self.headers@),
            body: self.body@,
        }
    }
}

/// The number of bytes that a text takes in UTF-8.
pub open spec fn utf8_len(text: Seq<char>) -> nat {
    vstd::utf8::encode_utf8(text).len()
}

/// The lines of the headers, one after the other.
pub open spec fn header_lines(headers: Seq<(Seq<char>, Seq<char>)>) -> Seq<char> {
    headers.map_values(|h: (Seq<char>, Seq<char>)| header_line(h)).flatten()
}

/// A response on the wire: the status line, the header lines, an empty
/// line, the body.
pub open spec fn wire_text(response: ResponseView) -> Seq<char> {
    "HTTP/"@ + response.http_version + " "@ + decimal(code_of(response.status_code)) + " "@
        + phrase_of(response.status_code) + "\r\n"@ + header_lines(response.headers) + "\r\n"@
        + response.body
}

/// A response of version 1.1 without headers.
pub open spec fn plain(status_code: HttpStatusCode, body: Seq<char>) -> ResponseView {
    ResponseView { http_version: "1.1"@, status_code, headers: Seq::empty(), body }
}

/// A response of version 1.1 that carries `content` as HTML: its headers
/// give the number of bytes of the content and its type.
pub open spec fn html(status_code: HttpStatusCode, content: Seq<char>) -> ResponseView {
    ResponseView {
        http_version: "1.1"@,
        status_code,
        headers: seq![
            ("Content-Length"@, decimal(utf8_len(content))),
            ("Content-Type"@, "text/html"@),
        ],
        body: content,
    }
}

impl Response {
    /// A response with the status OK and the given body.
    pub fn ok(body: &str) -> (response: Self)
        ensures
            response@ == plain(HttpStatusCode::Okay, body@),
    {
        let response = Response {
            http_version: "1.1".to_owned(),
            status_code: HttpStatusCode::Okay,
            headers: Vec::new(),
            body: body.to_owned(),
        };
        proof {
            assert(response@.headers =~= Seq::empty());
        }
        response
    }

    /// A response with the status NOT FOUND and an empty body.
    pub fn not_found() -> (response: Self)
        ensures
            response@ == plain(HttpStatusCode::NotFound, Seq::empty()),
    {
        let response = Response {
            http_version: "1.1".to_owned(),
            status_code: HttpStatusCode::NotFound,
            headers: Vec::new(),
            body: String::new(),
        };
        proof {
            assert(response@.headers =~= Seq::empty());
        }
        response
    }

    /// A response that carries `content`, the text of an HTML file, with
    /// the given status.
    pub fn from_content(content: String, status_code: HttpStatusCode) -> (response: Self)
        ensures
            response@ == html(status_code, content@),
    {
        let content_length: usize = content.as_str().as_bytes().len();
        let mut headers: Vec<HttpHeader> = Vec::new();
        headers.push(
            HttpHeader { key: "Content-Length".to_owned(), value: decimal_string(content_length) },
        );
        headers.push(HttpHeader { key: "Content-Type".to_owned(), value: "text/html".to_owned() });
        let response = Response {
            http_version: "1.1".to_owned(),
            status_code,
            headers,
            body: content,
        };
        proof {
            assert(response@.headers =~= html(status_code, content@).headers);
        }
        response
    }

    /// The response on the wire.
    pub fn as_string(&self) -> (text: String)
        ensures
            text@ == wire_text(self@),
    {
        let mut text = "HTTP/".to_owned();
        text.append(self.http_version.as_str());
        text.append(" ");
        text.append(decimal_string(self.status_code.get_code()).as_str());
        text.append(" ");
        text.append(self.status_code.get_phrase());
        text.append("\r\n");
        let ghost head = text@;
        let ghost lines = headers_view(self.headers@).map_values(
            |h: (Seq<char>, Seq<char>)| header_line(h),
        );
        let mut i: usize = 0;
        while i < self.headers.len()
            invariant
                0 <= i <= self.headers.len(),
                lines == headers_view(self.headers@).map_values(
                    |h: (Seq<char>, Seq<char>)| header_line(h),
                ),
                text@ == head + lines.take(i as int).flatten(),
            decreases self.headers.len() - i,
        {
            let line = self.headers[i].parse();
            let ghost before = lines.take(i as int);
            text.append(line.as_str());
            proof {
                assert(lines.take(i + 1) =~= before.push(lines[i as int]));
                before.lemma_flatten_push(lines[i as int]);
            }
            i += 1;
        }
        proof {
            assert(lines.take(i as int) =~= lines);
        }
        text.append("\r\n");
        text.append(self.body.as_str());
        text
    }
}

/// On the wire, the response for NOT FOUND is its status line and an
/// empty line; it starts with `HTTP/1.1 404`.
pub proof fn lemma_not_found_on_the_wire()
    ensures
        wire_text(plain(HttpStatusCode::NotFound, Seq::empty()))
            == "HTTP/1.1 404 NOT FOUND\r\n\r\n"@,
        wire_text(plain(HttpStatusCode::NotFound, Seq::empty())).take(12) == "HTTP/1.1 404"@,
{
    reveal_strlit("HTTP/");
    reveal_strlit("1.1");
    reveal_strlit(" ");
    reveal_strlit("NOT FOUND");
    reveal_strlit("\r\n");
    reveal_strlit("HTTP/1.1 404 NOT FOUND\r\n\r\n");
    reveal_strlit("HTTP/1.1 404");
    reveal_with_fuel(decimal, 3);
    let response = plain(HttpStatusCode::NotFound, Seq::empty());
    assert(decimal(404) =~= seq!['4', '0', '4']);
    assert(header_lines(response.headers) =~= Seq::<char>::empty());
}

} // verus!
