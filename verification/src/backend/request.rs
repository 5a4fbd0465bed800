//! DNS requests and the HTTP/3 headers that carry them.

use crate::encoding;
use crate::text;
use vstd::prelude::*;
use vstd::string::*;

verus! {

/// A raw HTTP header.
pub struct Header {
    pub name: Vec<u8>,
    pub value: Vec<u8>,
}

/// A raw HTTP header over its bytes.
#[verifier::ext_equal]
pub struct HeaderView {
    pub name: Seq<u8>,
    pub value: Seq<u8>,
}

impl View for Header {
    type V = HeaderView;

    open spec fn view(&self) -> HeaderView {
        HeaderView { name: self.name@, value: self.value@ }
    }
}

/// The views of a sequence of headers.
pub open spec fn header_views(headers: Seq<Header>) -> Seq<HeaderView> {
    headers.map_values(|header: Header| header@)
}

/// The header with this name and this value.
pub open spec fn header_of(name: Seq<char>, value: Seq<char>) -> HeaderView {
    HeaderView {
        name: vstd::utf8::encode_utf8(name),
        value: vstd::utf8::encode_utf8(value),
    }
}

impl Header {
    /// Creates a header from two texts.
    pub fn new(name: &str, value: &str) -> (header: Self)
        ensures
            header@ == header_of(name@, value@),
    {
        Header { name: name.as_bytes_vec(), value: value.as_bytes_vec() }
    }
}

/// The headers of a DNS-over-HTTPS query for `dns_payload`. A server that was configured with a
/// path gets the whole request line as its method.
pub open spec fn request_headers(
    server_name: Seq<char>,
    server_path: Option<Seq<char>>,
    dns_payload: Seq<u8>,
) -> Seq<HeaderView> {
    let query = "/dns-query?dns="@ + encoding::base64_text(dns_payload);
    match server_path {
        Some(path) => seq![
            header_of(":method"@, "GET "@ + path + query + " HTTP/1.1"@),
            header_of(":scheme"@, "https"@),
            header_of(":host"@, server_name),
            header_of("accept"@, "application/dns-message"@),
        ],
        None => seq![
            header_of(":method"@, "GET"@),
            header_of(":scheme"@, "https"@),
            header_of(":authority"@, server_name),
            header_of(":path"@, query),
            header_of("accept"@, "application/dns-message"@),
        ],
    }
}

/// A DNS request on its way to a server.
pub struct DoH3Request {
    /// When the request was made, in nanoseconds of the caller's monotonic clock.
    pub creation_time: u128,
    /// The packet from the tunnel that the response answers.
    pub request_packet: Vec<u8>,
    /// The headers of the query.
    pub payload: Vec<Header>,
}

impl DoH3Request {
    /// Creates a request at the time `now`, for the DNS message `payload` that came in
    /// `request_packet`.
    pub fn new(
        server_name: &str,
        server_path: Option<String>,
        request_packet: &[u8],
        payload: &[u8],
        now: u128,
    ) -> (request: Self)
        requires
            encoding::base64_len(payload@.len()) <= isize::MAX,
        ensures
            request.creation_time == now,
            request.request_packet@ == request_packet@,
            header_views(request.payload@) == request_headers(
                server_name@,
                text::optional_text(server_path),
                payload@,
            ),
    {
        DoH3Request {
            creation_time: now,
            request_packet: vstd::slice::slice_to_vec(request_packet),
            payload: Self::make_dns_request_header(server_name, server_path, payload),
        }
    }

    /// Returns the headers of a DNS-over-HTTPS query for `dns_payload`.
    pub fn make_dns_request_header(
        server_name: &str,
        server_path: Option<String>,
        dns_payload: &[u8],
    ) -> (headers: Vec<Header>)
        requires
            encoding::base64_len(dns_payload@.len()) <= isize::MAX,
        ensures
            header_views(headers@) == request_headers(
                server_name@,
                text::optional_text(server_path),
                dns_payload@,
            ),
            server_path is None ==> {
                &&& headers@.len() == 5
                &&& headers@[0].name@ == vstd::utf8::encode_utf8(":method"@)
                &&& headers@[0].value@ == vstd::utf8::encode_utf8("GET"@)
            },
    {
        let query = text::join(
            "/dns-query?dns=",
            encoding::base64_no_pad(dns_payload).as_str(),
        );
        match server_path {
            Some(path) => {
                let mut method = text::join("GET ", path.as_str());
                method.append(query.as_str());
                method.append(" HTTP/1.1");
                let headers = vec![
                    Header::new(":method", method.as_str()),
                    Header::new(":scheme", "https"),
                    Header::new(":host", server_name),
                    Header::new("accept", "application/dns-message"),
                ];
                assert(header_views(headers@) =~= request_headers(
                    server_name@,
                    Some(path@),
                    dns_payload@,
                ));
                headers
            },
            None => {
                let headers = vec![
                    Header::new(":method", "GET"),
                    Header::new(":scheme", "https"),
                    Header::new(":authority", server_name),
                    Header::new(":path", query.as_str()),
                    Header::new("accept", "application/dns-message"),
                ];
                assert(header_views(headers@) =~= request_headers(server_name@, None, dns_payload@));
                headers
            },
        }
    }
}

/// The names and values of headers as texts, for the log.
pub open spec fn header_texts(headers: Seq<HeaderView>) -> Seq<(Seq<char>, Seq<char>)> {
    headers.map_values(
        |header: HeaderView|
            (encoding::lossy_text(header.name), encoding::lossy_text(header.value)),
    )
}

/// Returns the names and values of `headers` as texts. What is valid UTF-8 is decoded as it stands.
pub fn headers_to_strings(headers: &Vec<Header>) -> (texts: Vec<(String, String)>)
    ensures
        texts@.map_values(|text: (String, String)| (text.0@, text.1@)) == header_texts(
            header_views(headers@),
        ),
        texts@.len() == headers@.len(),
        forall|i: int|
            0 <= i < headers@.len() ==> {
                &&& vstd::utf8::valid_utf8(headers@[i].name@) ==> (#[trigger] texts@[i]).0@
                    == vstd::utf8::decode_utf8(headers@[i].name@)
                &&& vstd::utf8::valid_utf8(headers@[i].value@) ==> texts@[i].1@
                    == vstd::utf8::decode_utf8(headers@[i].value@)
            },
{
    let mut texts: Vec<(String, String)> = Vec::new();
    let mut index: usize = 0;
    while index < headers.len()
        invariant
            index <= headers@.len(),
            texts@.len() == index,
            forall|i: int|
                0 <= i < index ==> (#[trigger] texts@[i]).0@ == encoding::lossy_text(
                    headers@[i].name@,
                ) && texts@[i].1@ == encoding::lossy_text(headers@[i].value@),
            forall|i: int|
                0 <= i < index ==> {
                    &&& vstd::utf8::valid_utf8(headers@[i].name@) ==> (#[trigger] texts@[i]).0@
                        == vstd::utf8::decode_utf8(headers@[i].name@)
                    &&& vstd::utf8::valid_utf8(headers@[i].value@) ==> texts@[i].1@
                        == vstd::utf8::decode_utf8(headers@[i].value@)
                },
        decreases headers@.len() - index,
    {
        let header = &headers[index];
        texts.push(
            (
                encoding::decode_lossy(header.name.as_slice()),
                encoding::decode_lossy(header.value.as_slice()),
            ),
        );
        index = index + 1;
    }
    assert(texts@.map_values(|text: (String, String)| (text.0@, text.1@)) =~= header_texts(
        header_views(headers@),
    ));
    texts
}

/// What two texts have between the same ends is the same if the texts are.
proof fn lemma_same_middle(
    front: Seq<char>,
    first: Seq<char>,
    second: Seq<char>,
    back: Seq<char>,
)
    requires
        front + first + back == front + second + back,
    ensures
        first == second,
{
    let whole = front + first + back;
    assert(whole.len() == front.len() + first.len() + back.len());
    assert((front + second + back).len() == front.len() + second.len() + back.len());
    assert(first =~= whole.subrange(front.len() as int, (front.len() + first.len()) as int));
    assert(second =~= whole.subrange(front.len() as int, (front.len() + second.len()) as int));
}

/// The headers carry the DNS message: two queries to a server with the same headers ask the same.
pub proof fn law_headers_carry_message(
    server_name: Seq<char>,
    server_path: Option<Seq<char>>,
    first: Seq<u8>,
    second: Seq<u8>,
)
    requires
        request_headers(server_name, server_path, first) == request_headers(
            server_name,
            server_path,
            second,
        ),
    ensures
        first == second,
{
    let first_text = encoding::base64_text(first);
    let second_text = encoding::base64_text(second);
    let start = "/dns-query?dns="@;
    let first_headers = request_headers(server_name, server_path, first);
    let second_headers = request_headers(server_name, server_path, second);
    match server_path {
        Some(path) => {
            let front = "GET "@ + path + start;
            let end = " HTTP/1.1"@;
            let first_method = "GET "@ + path + (start + first_text) + end;
            let second_method = "GET "@ + path + (start + second_text) + end;
            assert(first_headers[0] == header_of(":method"@, first_method));
            assert(second_headers[0] == header_of(":method"@, second_method));
            text::law_utf8_injective(first_method, second_method);
            assert(first_method =~= front + first_text + end);
            assert(second_method =~= front + second_text + end);
            lemma_same_middle(front, first_text, second_text, end);
        },
        None => {
            assert(first_headers[3] == header_of(":path"@, start + first_text));
            assert(second_headers[3] == header_of(":path"@, start + second_text));
            text::law_utf8_injective(start + first_text, start + second_text);
            assert(start + first_text + Seq::empty() =~= start + first_text);
            assert(start + second_text + Seq::empty() =~= start + second_text);
            lemma_same_middle(start, first_text, second_text, Seq::empty());
        },
    }
    encoding::law_base64_injective(first, second);
}

/// A header is the bytes of its name and the bytes of its value.
pub proof fn law_header_is_its_bytes(
    headers: Seq<Header>,
    index: int,
    name: Seq<char>,
    value: Seq<char>,
)
    requires
        0 <= index < headers.len(),
    ensures
        header_of(name, value).name == vstd::utf8::encode_utf8(name),
        header_of(name, value).value == vstd::utf8::encode_utf8(value),
        header_views(headers).len() == headers.len(),
        header_views(headers)[index].name == headers[index].name@,
        header_views(headers)[index].value == headers[index].value@,
{
}

/// Every query is a GET, whatever the message: the first of the five headers for a server without a
/// path is `:method` with the bytes of `GET`. The others name the scheme, the server, the path with the
/// message, and what is accepted.
pub proof fn law_query_is_a_get(server_name: Seq<char>, dns_payload: Seq<u8>)
    ensures
        ({
            let headers = request_headers(server_name, None, dns_payload);
            &&& headers.len() == 5
            &&& headers[0].name == seq![0x3au8, 0x6d, 0x65, 0x74, 0x68, 0x6f, 0x64]
            &&& headers[0].value == seq![0x47u8, 0x45, 0x54]
            &&& headers[1].name == vstd::utf8::encode_utf8(":scheme"@)
            &&& headers[1].value == vstd::utf8::encode_utf8("https"@)
            &&& headers[2].name == vstd::utf8::encode_utf8(":authority"@)
            &&& headers[2].value == vstd::utf8::encode_utf8(server_name)
            &&& headers[3].name == vstd::utf8::encode_utf8(":path"@)
            &&& headers[3].value == vstd::utf8::encode_utf8(
                "/dns-query?dns="@ + encoding::base64_text(dns_payload),
            )
            &&& headers[4].name == vstd::utf8::encode_utf8("accept"@)
            &&& headers[4].value == vstd::utf8::encode_utf8("application/dns-message"@)
        }),
{
    reveal_strlit(":method");
    reveal_strlit("GET");
    vstd::utf8::is_ascii_chars_encode_utf8(":method"@);
    vstd::utf8::is_ascii_chars_encode_utf8("GET"@);
    let headers = request_headers(server_name, None, dns_payload);
    assert(headers[0].name =~= seq![0x3au8, 0x6d, 0x65, 0x74, 0x68, 0x6f, 0x64]);
    assert(headers[0].value =~= seq![0x47u8, 0x45, 0x54]);
}

/// The four headers for a server with a path: the method is the whole request line, with the path in
/// front of the query; the others name the scheme, the server and what is accepted.
pub proof fn law_query_under_a_path(
    server_name: Seq<char>,
    path: Seq<char>,
    dns_payload: Seq<u8>,
)
    ensures
        ({
            let headers = request_headers(server_name, Some(path), dns_payload);
            &&& headers.len() == 4
            &&& headers[0].name == seq![0x3au8, 0x6d, 0x65, 0x74, 0x68, 0x6f, 0x64]
            &&& headers[0].value == vstd::utf8::encode_utf8(
                seq!['G', 'E', 'T', ' '] + path + "/dns-query?dns="@ + encoding::base64_text(
                    dns_payload,
                ) + " HTTP/1.1"@,
            )
            &&& headers[1].name == vstd::utf8::encode_utf8(":scheme"@)
            &&& headers[1].value == vstd::utf8::encode_utf8("https"@)
            &&& headers[2].name == vstd::utf8::encode_utf8(":host"@)
            &&& headers[2].value == vstd::utf8::encode_utf8(server_name)
            &&& headers[3].name == vstd::utf8::encode_utf8("accept"@)
            &&& headers[3].value == vstd::utf8::encode_utf8("application/dns-message"@)
        }),
{
    reveal_strlit(":method");
    reveal_strlit("GET ");
    vstd::utf8::is_ascii_chars_encode_utf8(":method"@);
    let headers = request_headers(server_name, Some(path), dns_payload);
    assert(headers[0].name =~= seq![0x3au8, 0x6d, 0x65, 0x74, 0x68, 0x6f, 0x64]);
    assert("GET "@ =~= seq!['G', 'E', 'T', ' ']);
    let query = "/dns-query?dns="@ + encoding::base64_text(dns_payload);
    assert("GET "@ + path + query + " HTTP/1.1"@ =~= seq!['G', 'E', 'T', ' '] + path
        + "/dns-query?dns="@ + encoding::base64_text(dns_payload) + " HTTP/1.1"@);
}

/// Of the headers for a server, only the value of one depends on the message: that of `:path`, or of
/// `:method` for a server with a path.
pub proof fn law_only_the_query_depends_on_the_message(
    server_name: Seq<char>,
    server_path: Option<Seq<char>>,
    first: Seq<u8>,
    second: Seq<u8>,
    index: int,
)
    requires
        0 <= index < request_headers(server_name, server_path, first).len(),
    ensures
        ({
            let one = request_headers(server_name, server_path, first);
            let other = request_headers(server_name, server_path, second);
            &&& one.len() == other.len()
            &&& one[index].name == other[index].name
            &&& server_path is None && index != 3 ==> one[index].value == other[index].value
            &&& server_path is Some && index != 0 ==> one[index].value == other[index].value
        }),
{
}

/// The text of a header is the text of its bytes, header by header.
pub proof fn law_header_texts(headers: Seq<HeaderView>, index: int)
    requires
        0 <= index < headers.len(),
    ensures
        header_texts(headers).len() == headers.len(),
        header_texts(headers)[index].0 == encoding::lossy_text(headers[index].name),
        header_texts(headers)[index].1 == encoding::lossy_text(headers[index].value),
{
}

} // verus!
