//! Header lines.

use vstd::prelude::*;

verus! {

/// A header: a key and its value.
#[derive(Debug, Clone)]
pub struct HttpHeader {
    pub key: String,
    pub value: String,
}

impl View for HttpHeader {
    type V = (Seq<char>, Seq<char>);

    /// The key and the value.
    open spec fn view(&self) -> (Seq<char>, Seq<char>) {
        (self.key@, self.value@)
    }
}

/// The keys and values of a list of headers, in order.
pub open spec fn headers_view(headers: Seq<HttpHeader>) -> Seq<(Seq<char>, Seq<char>)> {
    headers.map_values(|h: HttpHeader| h@)
}

/// The line of a header on the wire: the key, a colon and a space, the
/// value, and the end of the line.
pub open spec fn header_line(header: (Seq<char>, Seq<char>)) -> Seq<char> {
    header.0 + ": "@ + header.1 + "\r\n"@
}

impl HttpHeader {
    /// The header's line on the wire.
    pub fn parse(&self) -> (line: String)
        ensures
            line@ == header_line(self@),
    {
        let mut line = self.key.clone();
        line.append(": ");
        line.append(self.value.as_str());
        line.append("\r\n");
        line
    }
}

} // verus!
