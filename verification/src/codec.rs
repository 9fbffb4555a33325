//! The on-disk form of a schema: a pretty-printed JSON object with
//! two-space indentation, the keys `name`, `version`, `endpoints` in
//! declaration order, and every endpoint field present. `enc_schema`
//! is the exact byte-level description of that form; `encode_schema`
//! produces it.
use vstd::prelude::*;

use crate::schema::{ep_views, ApiSchema, Endpoint, EndpointView, SchemaView};
use crate::text::{
    push_bytes, BACKSLASH, COLON, COMMA, CR, LBRACE, LBRACK, NL, QUOTE, RBRACE, RBRACK, SP, TAB,
};

verus! {

// --- string escaping -----------------------------------------------------

/// Lower-case hexadecimal digit for a value below 16.
pub open spec fn hex_digit(n: u8) -> u8 {
    if n < 10 {
        (48 + n) as u8
    } else {
        (87 + n) as u8
    }
}

/// How one byte appears inside a JSON string literal: quote and
/// backslash take a backslash escape, the named control characters take
/// their short escapes, other control bytes take a `\u00XX` escape, and
/// every other byte stands for itself.
pub open spec fn esc_byte(b: u8) -> Seq<u8> {
    if b == QUOTE {
        seq![BACKSLASH, QUOTE]
    } else if b == BACKSLASH {
        seq![BACKSLASH, BACKSLASH]
    } else if b == 8 {
        seq![BACKSLASH, 'b' as u8]
    } else if b == TAB {
        seq![BACKSLASH, 't' as u8]
    } else if b == NL {
        seq![BACKSLASH, 'n' as u8]
    } else if b == 12 {
        seq![BACKSLASH, 'f' as u8]
    } else if b == CR {
        seq![BACKSLASH, 'r' as u8]
    } else if b < 32 {
        seq![BACKSLASH, 'u' as u8, '0' as u8, '0' as u8, hex_digit(b / 16), hex_digit(b % 16)]
    } else {
        seq![b]
    }
}

/// A whole string body, escaped byte by byte.
pub open spec fn esc(s: Seq<u8>) -> Seq<u8>
    decreases s.len(),
{
    if s.len() == 0 {
        Seq::empty()
    } else {
        esc_byte(s[0]) + esc(s.skip(1))
    }
}

/// A JSON string literal: the escaped body between double quotes.
pub open spec fn quoted(s: Seq<u8>) -> Seq<u8> {
    seq![QUOTE] + esc(s) + seq![QUOTE]
}

// --- fixed scaffolding of the pretty-printed object -----------------------

pub open spec fn colon_sp() -> Seq<u8> {
    seq![COLON, SP]
}

pub open spec fn ws_obj() -> Seq<u8> {
    seq![NL, SP, SP]
}

pub open spec fn ws_ep_field() -> Seq<u8> {
    seq![NL, SP, SP, SP, SP, SP, SP]
}

pub open spec fn ws_ep_open() -> Seq<u8> {
    seq![SP, SP, SP, SP]
}

pub open spec fn ws_ep_close() -> Seq<u8> {
    seq![NL, SP, SP, SP, SP]
}

pub open spec fn key_name() -> Seq<u8> {
    seq![QUOTE, 'n' as u8, 'a' as u8, 'm' as u8, 'e' as u8, QUOTE]
}

pub open spec fn key_version() -> Seq<u8> {
    seq![
        QUOTE,
        'v' as u8,
        'e' as u8,
        'r' as u8,
        's' as u8,
        'i' as u8,
        'o' as u8,
        'n' as u8,
        QUOTE,
    ]
}

pub open spec fn key_endpoints() -> Seq<u8> {
    seq![
        QUOTE,
        'e' as u8,
        'n' as u8,
        'd' as u8,
        'p' as u8,
        'o' as u8,
        'i' as u8,
        'n' as u8,
        't' as u8,
        's' as u8,
        QUOTE,
    ]
}

pub open spec fn key_path() -> Seq<u8> {
    seq![QUOTE, 'p' as u8, 'a' as u8, 't' as u8, 'h' as u8, QUOTE]
}

pub open spec fn key_method() -> Seq<u8> {
    seq![QUOTE, 'm' as u8, 'e' as u8, 't' as u8, 'h' as u8, 'o' as u8, 'd' as u8, QUOTE]
}

pub open spec fn key_request() -> Seq<u8> {
    seq![
        QUOTE,
        'r' as u8,
        'e' as u8,
        'q' as u8,
        'u' as u8,
        'e' as u8,
        's' as u8,
        't' as u8,
        '_' as u8,
        'f' as u8,
        'o' as u8,
        'r' as u8,
        'm' as u8,
        'a' as u8,
        't' as u8,
        QUOTE,
    ]
}

pub open spec fn key_response() -> Seq<u8> {
    seq![
        QUOTE,
        'r' as u8,
        'e' as u8,
        's' as u8,
        'p' as u8,
        'o' as u8,
        'n' as u8,
        's' as u8,
        'e' as u8,
        '_' as u8,
        'f' as u8,
        'o' as u8,
        'r' as u8,
        'm' as u8,
        'a' as u8,
        't' as u8,
        QUOTE,
    ]
}

pub open spec fn head_name() -> Seq<u8> {
    seq![LBRACE] + ws_obj() + key_name() + colon_sp()
}

pub open spec fn mid_version() -> Seq<u8> {
    seq![COMMA] + ws_obj() + key_version() + colon_sp()
}

pub open spec fn mid_endpoints() -> Seq<u8> {
    seq![COMMA] + ws_obj() + key_endpoints() + colon_sp()
}

pub open spec fn obj_tail() -> Seq<u8> {
    seq![NL, RBRACE]
}

pub open spec fn ep_head() -> Seq<u8> {
    ws_ep_open() + seq![LBRACE] + ws_ep_field() + key_path() + colon_sp()
}

pub open spec fn ep_mid_method() -> Seq<u8> {
    seq![COMMA] + ws_ep_field() + key_method() + colon_sp()
}

pub open spec fn ep_mid_request() -> Seq<u8> {
    seq![COMMA] + ws_ep_field() + key_request() + colon_sp()
}

pub open spec fn ep_mid_response() -> Seq<u8> {
    seq![COMMA] + ws_ep_field() + key_response() + colon_sp()
}

pub open spec fn ep_tail() -> Seq<u8> {
    ws_ep_close() + seq![RBRACE]
}

pub open spec fn item_sep() -> Seq<u8> {
    seq![COMMA, NL]
}

pub open spec fn arr_open() -> Seq<u8> {
    seq![LBRACK, NL]
}

pub open spec fn arr_close() -> Seq<u8> {
    seq![NL, SP, SP, RBRACK]
}

pub open spec fn arr_empty() -> Seq<u8> {
    seq![LBRACK, RBRACK]
}

// --- the encoding itself ---------------------------------------------------

/// One endpoint object, indented for its place inside the array.
pub open spec fn enc_endpoint(e: EndpointView) -> Seq<u8> {
    ep_head() + quoted(e.path) + ep_mid_method() + quoted(e.method) + ep_mid_request() + quoted(
        e.request_format,
    ) + ep_mid_response() + quoted(e.response_format) + ep_tail()
}

/// The second and later endpoint objects, each preceded by the
/// separator.
pub open spec fn enc_rest(eps: Seq<EndpointView>) -> Seq<u8>
    decreases eps.len(),
{
    if eps.len() == 0 {
        Seq::empty()
    } else {
        item_sep() + enc_endpoint(eps[0]) + enc_rest(eps.skip(1))
    }
}

/// All endpoint objects, separated by `",\n"`.
pub open spec fn enc_items(eps: Seq<EndpointView>) -> Seq<u8> {
    if eps.len() == 0 {
        Seq::empty()
    } else {
        enc_endpoint(eps[0]) + enc_rest(eps.skip(1))
    }
}

/// The endpoints array: `[]` when empty, otherwise one object per line.
pub open spec fn enc_endpoints(eps: Seq<EndpointView>) -> Seq<u8> {
    if eps.len() == 0 {
        arr_empty()
    } else {
        arr_open() + enc_items(eps) + arr_close()
    }
}

/// The complete on-disk form of a schema.
pub open spec fn enc_schema(v: SchemaView) -> Seq<u8> {
    head_name() + quoted(v.name) + mid_version() + quoted(v.version) + mid_endpoints()
        + enc_endpoints(v.endpoints) + obj_tail()
}

// --- the encoder ------------------------------------------------------------

/// Lower-case hexadecimal digit of a value below 16.
fn hex_digit_of(n: u8) -> (r: u8)
    requires
        n < 16,
    ensures
        r == hex_digit(n),
{
    if n < 10 {
        48 + n
    } else {
        87 + n
    }
}

/// Appends the escaped body of `s`.
fn push_escaped(out: &mut Vec<u8>, s: &Vec<u8>)
    ensures
        final(out)@ == old(out)@ + esc(s@),
{
    let ghost start = out@;
    let mut i: usize = 0;
    proof {
        assert(s@.skip(0) =~= s@);
    }
    while i < s.len()
        invariant
            0 <= i <= s.len(),
            out@ + esc(s@.skip(i as int)) == start + esc(s@),
        decreases s.len() - i,
    {
        let ghost before = out@;
        proof {
            assert(s@.skip(i as int).len() > 0);
            assert(s@.skip(i as int)[0] == s@[i as int]);
            assert(s@.skip(i as int).skip(1) =~= s@.skip(i + 1));
        }
        let b = s[i];
        if b == QUOTE {
            out.push(BACKSLASH);
            out.push(QUOTE);
        } else if b == BACKSLASH {
            out.push(BACKSLASH);
            out.push(BACKSLASH);
        } else if b == 8 {
            out.push(BACKSLASH);
            out.push('b' as u8);
        } else if b == TAB {
            out.push(BACKSLASH);
            out.push('t' as u8);
        } else if b == NL {
            out.push(BACKSLASH);
            out.push('n' as u8);
        } else if b == 12 {
            out.push(BACKSLASH);
            out.push('f' as u8);
        } else if b == CR {
            out.push(BACKSLASH);
            out.push('r' as u8);
        } else if b < 32 {
            out.push(BACKSLASH);
            out.push('u' as u8);
            out.push('0' as u8);
            out.push('0' as u8);
            out.push(hex_digit_of(b / 16));
            out.push(hex_digit_of(b % 16));
        } else {
            out.push(b);
        }
        assert(out@ =~= before + esc_byte(s@[i as int]));
        assert(out@ + esc(s@.skip(i + 1)) =~= start + esc(s@));
        i = i + 1;
    }
    assert(s@.skip(i as int) =~= Seq::<u8>::empty());
    assert(out@ =~= start + esc(s@));
}

/// Appends the JSON string literal for `s`.
fn push_quoted(out: &mut Vec<u8>, s: &Vec<u8>)
    ensures
        final(out)@ == old(out)@ + quoted(s@),
{
    out.push(QUOTE);
    push_escaped(out, s);
    out.push(QUOTE);
    assert(out@ =~= old(out)@ + quoted(s@));
}

/// Appends one endpoint object.
fn push_endpoint(out: &mut Vec<u8>, e: &Endpoint)
    ensures
        final(out)@ == old(out)@ + enc_endpoint(e@),
{
    let head: [u8; 20] = [
        SP,
        SP,
        SP,
        SP,
        LBRACE,
        NL,
        SP,
        SP,
        SP,
        SP,
        SP,
        SP,
        QUOTE,
        'p' as u8,
        'a' as u8,
        't' as u8,
        'h' as u8,
        QUOTE,
        COLON,
        SP,
    ];
    push_bytes(out, head.as_slice());
    assert(head@ =~= ep_head());
    push_quoted(out, &e.path);
    let midm: [u8; 18] = [
        COMMA,
        NL,
        SP,
        SP,
        SP,
        SP,
        SP,
        SP,
        QUOTE,
        'm' as u8,
        'e' as u8,
        't' as u8,
        'h' as u8,
        'o' as u8,
        'd' as u8,
        QUOTE,
        COLON,
        SP,
    ];
    push_bytes(out, midm.as_slice());
    assert(midm@ =~= ep_mid_method());
    push_quoted(out, &e.method);
    let midrq: [u8; 26] = [
        COMMA,
        NL,
        SP,
        SP,
        SP,
        SP,
        SP,
        SP,
        QUOTE,
        'r' as u8,
        'e' as u8,
        'q' as u8,
        'u' as u8,
        'e' as u8,
        's' as u8,
        't' as u8,
        '_' as u8,
        'f' as u8,
        'o' as u8,
        'r' as u8,
        'm' as u8,
        'a' as u8,
        't' as u8,
        QUOTE,
        COLON,
        SP,
    ];
    push_bytes(out, midrq.as_slice());
    assert(midrq@ =~= ep_mid_request());
    push_quoted(out, &e.request_format);
    let midrs: [u8; 27] = [
        COMMA,
        NL,
        SP,
        SP,
        SP,
        SP,
        SP,
        SP,
        QUOTE,
        'r' as u8,
        'e' as u8,
        's' as u8,
        'p' as u8,
        'o' as u8,
        'n' as u8,
        's' as u8,
        'e' as u8,
        '_' as u8,
        'f' as u8,
        'o' as u8,
        'r' as u8,
        'm' as u8,
        'a' as u8,
        't' as u8,
        QUOTE,
        COLON,
        SP,
    ];
    push_bytes(out, midrs.as_slice());
    assert(midrs@ =~= ep_mid_response());
    push_quoted(out, &e.response_format);
    let tail: [u8; 6] = [NL, SP, SP, SP, SP, RBRACE];
    push_bytes(out, tail.as_slice());
    assert(tail@ =~= ep_tail());
    assert(out@ =~= old(out)@ + enc_endpoint(e@));
}

/// Appends the endpoints array.
fn push_endpoints(out: &mut Vec<u8>, eps: &Vec<Endpoint>)
    ensures
        final(out)@ == old(out)@ + enc_endpoints(ep_views(eps@)),
{
    let ghost epsv = ep_views(eps@);
    let ghost before_arr = out@;
    let n = eps.len();
    assert(epsv.len() == n);
    if n == 0 {
        out.push(LBRACK);
        out.push(RBRACK);
        assert(out@ =~= before_arr + enc_endpoints(epsv));
    } else {
        out.push(LBRACK);
        out.push(NL);
        let ghost pre = out@;
        assert(pre =~= before_arr + arr_open());
        assert(epsv[0] == eps@[0]@);
        push_endpoint(out, &eps[0]);
        let mut i: usize = 1;
        assert(out@ + enc_rest(epsv.skip(1)) == pre + enc_items(epsv)) by {
            assert(out@ == pre + enc_endpoint(epsv[0]));
        }
        while i < n
            invariant
                1 <= i <= n,
                n == eps.len(),
                epsv == ep_views(eps@),
                pre == before_arr + arr_open(),
                before_arr == old(out)@,
                out@ + enc_rest(epsv.skip(i as int)) == pre + enc_items(epsv),
            decreases n - i,
        {
            let ghost before = out@;
            proof {
                assert(epsv.skip(i as int).len() > 0);
                assert(epsv.skip(i as int)[0] == epsv[i as int]);
                assert(epsv.skip(i as int).skip(1) =~= epsv.skip(i + 1));
                assert(epsv[i as int] == eps@[i as int]@);
            }
            out.push(COMMA);
            out.push(NL);
            push_endpoint(out, &eps[i]);
            assert(out@ =~= before + item_sep() + enc_endpoint(epsv[i as int]));
            assert(out@ + enc_rest(epsv.skip(i + 1)) =~= pre + enc_items(epsv));
            i = i + 1;
        }
        assert(epsv.skip(i as int) =~= Seq::<EndpointView>::empty());
        assert(out@ =~= pre + enc_items(epsv));
        let close: [u8; 4] = [NL, SP, SP, RBRACK];
        push_bytes(out, close.as_slice());
        assert(close@ =~= arr_close());
        assert(out@ =~= before_arr + enc_endpoints(epsv));
    }
}

/// Encodes a schema to its pretty-printed JSON bytes: exactly
/// `enc_schema` of its view.
pub fn encode_schema(schema: &ApiSchema) -> (r: Vec<u8>)
    ensures
        r@ == enc_schema(schema@),
{
    let mut out: Vec<u8> = Vec::new();
    let head: [u8; 12] = [
        LBRACE,
        NL,
        SP,
        SP,
        QUOTE,
        'n' as u8,
        'a' as u8,
        'm' as u8,
        'e' as u8,
        QUOTE,
        COLON,
        SP,
    ];
    push_bytes(&mut out, head.as_slice());
    assert(head@ =~= head_name());
    push_quoted(&mut out, &schema.name);
    let midv: [u8; 15] = [
        COMMA,
        NL,
        SP,
        SP,
        QUOTE,
        'v' as u8,
        'e' as u8,
        'r' as u8,
        's' as u8,
        'i' as u8,
        'o' as u8,
        'n' as u8,
        QUOTE,
        COLON,
        SP,
    ];
    push_bytes(&mut out, midv.as_slice());
    assert(midv@ =~= mid_version());
    push_quoted(&mut out, &schema.version);
    let mide: [u8; 17] = [
        COMMA,
        NL,
        SP,
        SP,
        QUOTE,
        'e' as u8,
        'n' as u8,
        'd' as u8,
        'p' as u8,
        'o' as u8,
        'i' as u8,
        'n' as u8,
        't' as u8,
        's' as u8,
        QUOTE,
        COLON,
        SP,
    ];
    push_bytes(&mut out, mide.as_slice());
    assert(mide@ =~= mid_endpoints());
    push_endpoints(&mut out, &schema.endpoints);
    out.push(NL);
    out.push(RBRACE);
    assert(out@ =~= enc_schema(schema@));
    out
}

} // verus!
