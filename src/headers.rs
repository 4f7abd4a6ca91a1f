//! Header lists and the rewriting of connection-management headers.
use vstd::prelude::*;

verus! {

/// One header line: its name and its raw value, as bytes.
pub struct Header {
    pub name: Vec<u8>,
    pub value: Vec<u8>,
}

impl View for Header {
    type V = (Seq<u8>, Seq<u8>);

    open spec fn view(&self) -> (Seq<u8>, Seq<u8>) {
        (self.name@, self.value@)
    }
}

impl Header {
    pub fn new(name: Vec<u8>, value: Vec<u8>) -> (r: Header)
        ensures
            r.name@ == name@,
            r.value@ == value@,
    {
        Header { name, value }
    }

    /// A copy whose name and value are those of `self`.
    pub fn duplicate(&self) -> (r: Header)
        ensures
            r@ == self@,
    {
        Header { name: self.name.clone(), value: self.value.clone() }
    }
}

/// The list of (name, value) pairs that a list of headers holds, in order.
pub open spec fn headers_view(hs: Seq<Header>) -> Seq<(Seq<u8>, Seq<u8>)> {
    hs.map_values(|h: Header| h@)
}

/// An ASCII byte with upper-case letters folded to lower case.
pub open spec fn ascii_lower(b: u8) -> u8 {
    if 'A' as u8 <= b && b <= 'Z' as u8 {
        (b + 32) as u8
    } else {
        b
    }
}

/// Header names compare without regard to ASCII case.
pub open spec fn names_match(a: Seq<u8>, b: Seq<u8>) -> bool {
    &&& a.len() == b.len()
    &&& forall|i: int| 0 <= i < a.len() ==> ascii_lower(#[trigger] a[i]) == ascii_lower(b[i])
}

pub open spec fn connection_name() -> Seq<u8> {
    seq![
        'C' as u8, 'o' as u8, 'n' as u8, 'n' as u8, 'e' as u8,
        'c' as u8, 't' as u8, 'i' as u8, 'o' as u8, 'n' as u8,
    ]
}

pub open spec fn proxy_connection_name() -> Seq<u8> {
    seq!['P' as u8, 'r' as u8, 'o' as u8, 'x' as u8, 'y' as u8, '-' as u8] + connection_name()
}

pub open spec fn keep_alive_value() -> Seq<u8> {
    seq![
        'K' as u8, 'e' as u8, 'e' as u8, 'p' as u8, '-' as u8,
        'A' as u8, 'l' as u8, 'i' as u8, 'v' as u8, 'e' as u8,
    ]
}

pub open spec fn close_value() -> Seq<u8> {
    seq!['c' as u8, 'l' as u8, 'o' as u8, 's' as u8, 'e' as u8]
}

/// Whether a header line survives the stripping of connection headers; with
/// `proxy_too`, `Proxy-Connection` is stripped as well as `Connection`.
pub open spec fn kept(proxy_too: bool) -> spec_fn((Seq<u8>, Seq<u8>)) -> bool {
    |h: (Seq<u8>, Seq<u8>)|
        !(names_match(h.0, connection_name()) || (proxy_too && names_match(
            h.0,
            proxy_connection_name(),
        )))
}

/// The headers sent to the origin: the incoming ones without `Connection`
/// and `Proxy-Connection`, then `Connection: Keep-Alive`.
pub open spec fn outbound_headers_of(incoming: Seq<(Seq<u8>, Seq<u8>)>) -> Seq<(Seq<u8>, Seq<u8>)> {
    incoming.filter(kept(true)).push((connection_name(), keep_alive_value()))
}

/// The headers returned to the client: the origin's without `Connection`,
/// then `Connection: close`.
pub open spec fn client_headers_of(origin: Seq<(Seq<u8>, Seq<u8>)>) -> Seq<(Seq<u8>, Seq<u8>)> {
    origin.filter(kept(false)).push((connection_name(), close_value()))
}

/// The outbound request's header set is the incoming one without its
/// `Connection` and `Proxy-Connection` lines, with `Connection: Keep-Alive`
/// added.
pub proof fn lemma_outbound_header_set(incoming: Seq<(Seq<u8>, Seq<u8>)>)
    ensures
        outbound_headers_of(incoming).to_set() == incoming.to_set().filter(kept(true)).insert(
            (connection_name(), keep_alive_value()),
        ),
{
    let out = outbound_headers_of(incoming);
    let kept_lines = incoming.filter(kept(true));
    broadcast use vstd::seq_lib::group_filter_ensures;

    assert forall|h: (Seq<u8>, Seq<u8>)| kept_lines.contains(h) <==> incoming.contains(h) && kept(
        true,
    )(h) by {
        if kept_lines.contains(h) {
            incoming.lemma_filter_contains_rev(kept(true), h);
            let k = choose|k: int| 0 <= k < kept_lines.len() && kept_lines[k] == h;
            incoming.lemma_filter_pred(kept(true), k);
        }
        if incoming.contains(h) && kept(true)(h) {
            let k = choose|k: int| 0 <= k < incoming.len() && incoming[k] == h;
            incoming.lemma_filter_contains(kept(true), k);
        }
    }
    assert forall|h: (Seq<u8>, Seq<u8>)| out.contains(h) <==> kept_lines.contains(h) || h == (
        connection_name(),
        keep_alive_value(),
    ) by {
        if out.contains(h) {
            let k = choose|k: int| 0 <= k < out.len() && out[k] == h;
            if k < kept_lines.len() {
                assert(kept_lines[k] == h);
            }
        }
        if kept_lines.contains(h) {
            let k = choose|k: int| 0 <= k < kept_lines.len() && kept_lines[k] == h;
            assert(out[k] == h);
        }
        if h == (connection_name(), keep_alive_value()) {
            assert(out[out.len() - 1] == h);
        }
    }
    assert(out.to_set() =~= incoming.to_set().filter(kept(true)).insert(
        (connection_name(), keep_alive_value()),
    ));
}

/// Whatever `Connection` lines the origin sent, the headers returned to the
/// client hold exactly one, `Connection: close`, and it comes last.
pub proof fn lemma_client_connection_close(origin: Seq<(Seq<u8>, Seq<u8>)>)
    ensures
        client_headers_of(origin).last() == (connection_name(), close_value()),
        forall|i: int|
            0 <= i < client_headers_of(origin).len() - 1 ==> !names_match(
                #[trigger] client_headers_of(origin)[i].0,
                connection_name(),
            ),
{
    let kept_lines = origin.filter(kept(false));
    broadcast use vstd::seq_lib::group_filter_ensures;

    assert forall|i: int| 0 <= i < client_headers_of(origin).len() - 1 implies !names_match(
        #[trigger] client_headers_of(origin)[i].0,
        connection_name(),
    ) by {
        assert(client_headers_of(origin)[i] == kept_lines[i]);
        assert(kept(false)(kept_lines[i]));
    }
}

fn lower_byte(b: u8) -> (r: u8)
    ensures
        r == ascii_lower(b),
{
    if 'A' as u8 <= b && b <= 'Z' as u8 {
        b + 32
    } else {
        b
    }
}

/// Compares two header names without regard to ASCII case.
pub fn name_matches(a: &[u8], b: &[u8]) -> (r: bool)
    ensures
        r == names_match(a@, b@),
{
    if a.len() != b.len() {
        return false;
    }
    let mut i: usize = 0;
    while i < a.len()
        invariant
            a@.len() == b@.len(),
            i <= a@.len(),
            forall|j: int| 0 <= j < i ==> ascii_lower(#[trigger] a@[j]) == ascii_lower(b@[j]),
        decreases a@.len() - i,
    {
        if lower_byte(a[i]) != lower_byte(b[i]) {
            return false;
        }
        i = i + 1;
    }
    true
}

/// The bytes of a fixed array, as a vector.
pub(crate) fn bytes_of<const N: usize>(a: [u8; N]) -> (r: Vec<u8>)
    ensures
        r@ == a@,
{
    vstd::slice::slice_to_vec(a.as_slice())
}

pub fn connection_bytes() -> (r: Vec<u8>)
    ensures
        r@ == connection_name(),
{
    let r = bytes_of(['C' as u8, 'o' as u8, 'n' as u8, 'n' as u8, 'e' as u8, 'c' as u8, 't' as u8, 'i' as u8, 'o' as u8, 'n' as u8]);
    assert(r@ =~= connection_name());
    r
}

fn proxy_connection_bytes() -> (r: Vec<u8>)
    ensures
        r@ == proxy_connection_name(),
{
    let r = bytes_of(['P' as u8, 'r' as u8, 'o' as u8, 'x' as u8, 'y' as u8, '-' as u8, 'C' as u8, 'o' as u8, 'n' as u8, 'n' as u8, 'e' as u8, 'c' as u8, 't' as u8, 'i' as u8, 'o' as u8, 'n' as u8]);
    assert(r@ =~= proxy_connection_name());
    r
}

fn keep_alive_bytes() -> (r: Vec<u8>)
    ensures
        r@ == keep_alive_value(),
{
    let r = bytes_of(['K' as u8, 'e' as u8, 'e' as u8, 'p' as u8, '-' as u8, 'A' as u8, 'l' as u8, 'i' as u8, 'v' as u8, 'e' as u8]);
    assert(r@ =~= keep_alive_value());
    r
}

fn close_bytes() -> (r: Vec<u8>)
    ensures
        r@ == close_value(),
{
    let r = bytes_of(['c' as u8, 'l' as u8, 'o' as u8, 's' as u8, 'e' as u8]);
    assert(r@ =~= close_value());
    r
}

/// Copies the header lines that `kept(proxy_too)` lets through, in order.
fn strip_connection_headers(hs: &Vec<Header>, proxy_too: bool) -> (r: Vec<Header>)
    ensures
        headers_view(r@) == headers_view(hs@).filter(kept(proxy_too)),
{
    let connection = connection_bytes();
    let proxy_connection = proxy_connection_bytes();
    let mut out: Vec<Header> = Vec::new();
    let mut i: usize = 0;
    while i < hs.len()
        invariant
            i <= hs@.len(),
            connection@ == connection_name(),
            proxy_connection@ == proxy_connection_name(),
            headers_view(out@) == headers_view(hs@).take(i as int).filter(kept(proxy_too)),
        decreases hs@.len() - i,
    {
        let h = &hs[i];
        let drop = name_matches(h.name.as_slice(), connection.as_slice()) || (proxy_too
            && name_matches(h.name.as_slice(), proxy_connection.as_slice()));
        proof {
            let pre = headers_view(hs@).take(i as int);
            assert(headers_view(hs@).take(i + 1) =~= pre.push(h@));
            pre.lemma_filter_push(h@, kept(proxy_too));
        }
        if !drop {
            let ghost before = out@;
            out.push(h.duplicate());
            assert(headers_view(out@) =~= headers_view(before).push(h@));
        }
        i = i + 1;
    }
    assert(headers_view(hs@).take(hs@.len() as int) =~= headers_view(hs@));
    out
}

/// The header list of the outbound request: the incoming headers without
/// `Connection` and `Proxy-Connection` (names compared without regard to
/// ASCII case), followed by `Connection: Keep-Alive`.
pub fn outbound_headers(incoming: &Vec<Header>) -> (r: Vec<Header>)
    ensures
        headers_view(r@) == outbound_headers_of(headers_view(incoming@)),
{
    let mut out = strip_connection_headers(incoming, true);
    let ghost before = out@;
    out.push(Header::new(connection_bytes(), keep_alive_bytes()));
    assert(headers_view(out@) =~= headers_view(before).push((connection_name(), keep_alive_value())));
    out
}

/// The header list returned to the client: the origin's headers without
/// `Connection`, followed by `Connection: close`.
pub fn client_headers(origin: &Vec<Header>) -> (r: Vec<Header>)
    ensures
        headers_view(r@) == client_headers_of(headers_view(origin@)),
{
    let mut out = strip_connection_headers(origin, false);
    let ghost before = out@;
    out.push(Header::new(connection_bytes(), close_bytes()));
    assert(headers_view(out@) =~= headers_view(before).push((connection_name(), close_value())));
    out
}

/// Whether `HeaderName::from_bytes` accepts the bytes as a header name.
pub uninterp spec fn header_name_accepted(name: Seq<u8>) -> bool;

/// A byte that a header value may hold: a tab, or a byte from the space on
/// other than DEL.
pub open spec fn value_byte_ok(b: u8) -> bool {
    (b >= ' ' as u8 && b != 127) || b == '\t' as u8
}

/// A header line that the outbound request can carry.
pub open spec fn header_accepted(h: (Seq<u8>, Seq<u8>)) -> bool {
    &&& header_name_accepted(h.0)
    &&& forall|i: int| 0 <= i < h.1.len() ==> value_byte_ok(#[trigger] h.1[i])
}

/// Relies on hyper::header::HeaderName::from_bytes (http 0.2): whether the
/// bytes form a valid header name.
#[verifier::external_body]
fn parses_as_header_name(name: &[u8]) -> (r: bool)
    ensures
        r == header_name_accepted(name@),
{
    hyper::header::HeaderName::from_bytes(name).is_ok()
}

/// Relies on hyper::header::HeaderValue::from_bytes (http 0.2): it accepts
/// exactly the byte strings whose every byte is a tab, or at least a space
/// and not DEL.
#[verifier::external_body]
fn parses_as_header_value(value: &[u8]) -> (r: bool)
    ensures
        r == (forall|i: int| 0 <= i < value@.len() ==> value_byte_ok(#[trigger] value@[i])),
{
    hyper::header::HeaderValue::from_bytes(value).is_ok()
}

/// Whether every header line can be carried by a request.
pub fn all_accepted(hs: &Vec<Header>) -> (r: bool)
    ensures
        r == (forall|i: int| 0 <= i < hs@.len() ==> header_accepted(#[trigger] headers_view(hs@)[i])),
{
    let mut i: usize = 0;
    while i < hs.len()
        invariant
            i <= hs@.len(),
            forall|j: int| 0 <= j < i ==> header_accepted(#[trigger] headers_view(hs@)[j]),
        decreases hs@.len() - i,
    {
        assert(headers_view(hs@)[i as int] == hs@[i as int]@);
        let name_ok = parses_as_header_name(hs[i].name.as_slice());
        let value_ok = parses_as_header_value(hs[i].value.as_slice());
        if !(name_ok && value_ok) {
            assert(headers_view(hs@)[i as int].0 == hs@[i as int].name@);
            assert(headers_view(hs@)[i as int].1 == hs@[i as int].value@);
            assert(!header_accepted(headers_view(hs@)[i as int]));
            return false;
        }
        i = i + 1;
    }
    true
}

} // verus!
