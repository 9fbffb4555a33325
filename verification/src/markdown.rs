//! The Markdown renderer: a deterministic, byte-exact formatter from a
//! schema to its documentation text. `spec_markdown` gives the exact
//! layout; `render_markdown` produces it.
use vstd::prelude::*;

use crate::decode::dec;
use crate::schema::{ApiSchema, Endpoint, EndpointView, SchemaView};
use crate::text::push_bytes;

verus! {

pub open spec fn md_title() -> Seq<u8> {
    seq![
        '#' as u8,
        ' ' as u8,
        'A' as u8,
        'P' as u8,
        'I' as u8,
        ' ' as u8,
        'D' as u8,
        'o' as u8,
        'c' as u8,
        'u' as u8,
        'm' as u8,
        'e' as u8,
        'n' as u8,
        't' as u8,
        'a' as u8,
        't' as u8,
        'i' as u8,
        'o' as u8,
        'n' as u8,
        ' ' as u8,
        'f' as u8,
        'o' as u8,
        'r' as u8,
        ' ' as u8,
    ]
}

pub open spec fn md_version_hdr() -> Seq<u8> {
    seq![
        '#' as u8,
        '#' as u8,
        ' ' as u8,
        'V' as u8,
        'e' as u8,
        'r' as u8,
        's' as u8,
        'i' as u8,
        'o' as u8,
        'n' as u8,
        ':' as u8,
        ' ' as u8,
    ]
}

pub open spec fn md_endpoints_hdr() -> Seq<u8> {
    seq![
        '#' as u8,
        '#' as u8,
        ' ' as u8,
        'E' as u8,
        'n' as u8,
        'd' as u8,
        'p' as u8,
        'o' as u8,
        'i' as u8,
        'n' as u8,
        't' as u8,
        's' as u8,
        '\n' as u8,
        '\n' as u8,
    ]
}

pub open spec fn md_path_label() -> Seq<u8> {
    seq![
        '-' as u8,
        ' ' as u8,
        '*' as u8,
        '*' as u8,
        'P' as u8,
        'a' as u8,
        't' as u8,
        'h' as u8,
        '*' as u8,
        '*' as u8,
        ':' as u8,
        ' ' as u8,
    ]
}

pub open spec fn md_method_label() -> Seq<u8> {
    seq![
        '\n' as u8,
        ' ' as u8,
        ' ' as u8,
        '*' as u8,
        '*' as u8,
        'M' as u8,
        'e' as u8,
        't' as u8,
        'h' as u8,
        'o' as u8,
        'd' as u8,
        '*' as u8,
        '*' as u8,
        ':' as u8,
        ' ' as u8,
    ]
}

pub open spec fn md_request_label() -> Seq<u8> {
    seq![
        '\n' as u8,
        ' ' as u8,
        ' ' as u8,
        '*' as u8,
        '*' as u8,
        'R' as u8,
        'e' as u8,
        'q' as u8,
        'u' as u8,
        'e' as u8,
        's' as u8,
        't' as u8,
        ' ' as u8,
        'F' as u8,
        'o' as u8,
        'r' as u8,
        'm' as u8,
        'a' as u8,
        't' as u8,
        '*' as u8,
        '*' as u8,
        ':' as u8,
        ' ' as u8,
    ]
}

pub open spec fn md_response_label() -> Seq<u8> {
    seq![
        '\n' as u8,
        ' ' as u8,
        ' ' as u8,
        '*' as u8,
        '*' as u8,
        'R' as u8,
        'e' as u8,
        's' as u8,
        'p' as u8,
        'o' as u8,
        'n' as u8,
        's' as u8,
        'e' as u8,
        ' ' as u8,
        'F' as u8,
        'o' as u8,
        'r' as u8,
        'm' as u8,
        'a' as u8,
        't' as u8,
        '*' as u8,
        '*' as u8,
        ':' as u8,
        ' ' as u8,
    ]
}

pub open spec fn blank_line() -> Seq<u8> {
    seq!['\n' as u8, '\n' as u8]
}

/// One endpoint block: the four labeled lines and a trailing blank line.
pub open spec fn md_endpoint(e: EndpointView) -> Seq<u8> {
    md_path_label() + e.path + md_method_label() + e.method + md_request_label()
        + e.request_format + md_response_label() + e.response_format + blank_line()
}

/// All endpoint blocks, in order.
pub open spec fn md_endpoints(eps: Seq<EndpointView>) -> Seq<u8>
    decreases eps.len(),
{
    if eps.len() == 0 {
        Seq::empty()
    } else {
        md_endpoint(eps[0]) + md_endpoints(eps.skip(1))
    }
}

/// The whole document: title, version header, endpoints header, blocks.
pub open spec fn spec_markdown(v: SchemaView) -> Seq<u8> {
    md_title() + v.name + blank_line() + md_version_hdr() + v.version + blank_line()
        + md_endpoints_hdr() + md_endpoints(v.endpoints)
}

/// Appends one endpoint block.
fn push_md_endpoint(out: &mut Vec<u8>, e: &Endpoint)
    ensures
        final(out)@ == old(out)@ + md_endpoint(e@),
{
    let lp: [u8; 12] = ['-' as u8, ' ' as u8, '*' as u8, '*' as u8, 'P' as u8, 'a' as u8,
        't' as u8, 'h' as u8, '*' as u8, '*' as u8, ':' as u8, ' ' as u8];
    push_bytes(out, lp.as_slice());
    assert(lp@ =~= md_path_label());
    push_bytes(out, e.path.as_slice());
    let lm: [u8; 15] = ['\n' as u8, ' ' as u8, ' ' as u8, '*' as u8, '*' as u8, 'M' as u8,
        'e' as u8, 't' as u8, 'h' as u8, 'o' as u8, 'd' as u8, '*' as u8, '*' as u8, ':' as u8,
        ' ' as u8];
    push_bytes(out, lm.as_slice());
    assert(lm@ =~= md_method_label());
    push_bytes(out, e.method.as_slice());
    let lrq: [u8; 23] = [
        '\n' as u8,
        ' ' as u8,
        ' ' as u8,
        '*' as u8,
        '*' as u8,
        'R' as u8,
        'e' as u8,
        'q' as u8,
        'u' as u8,
        'e' as u8,
        's' as u8,
        't' as u8,
        ' ' as u8,
        'F' as u8,
        'o' as u8,
        'r' as u8,
        'm' as u8,
        'a' as u8,
        't' as u8,
        '*' as u8,
        '*' as u8,
        ':' as u8,
        ' ' as u8,
    ];
    push_bytes(out, lrq.as_slice());
    assert(lrq@ =~= md_request_label());
    push_bytes(out, e.request_format.as_slice());
    let lrs: [u8; 24] = [
        '\n' as u8,
        ' ' as u8,
        ' ' as u8,
        '*' as u8,
        '*' as u8,
        'R' as u8,
        'e' as u8,
        's' as u8,
        'p' as u8,
        'o' as u8,
        'n' as u8,
        's' as u8,
        'e' as u8,
        ' ' as u8,
        'F' as u8,
        'o' as u8,
        'r' as u8,
        'm' as u8,
        'a' as u8,
        't' as u8,
        '*' as u8,
        '*' as u8,
        ':' as u8,
        ' ' as u8,
    ];
    push_bytes(out, lrs.as_slice());
    assert(lrs@ =~= md_response_label());
    push_bytes(out, e.response_format.as_slice());
    out.push('\n' as u8);
    out.push('\n' as u8);
    assert(out@ =~= old(out)@ + md_endpoint(e@));
}

/// Renders the documentation for a schema: exactly `spec_markdown` of
/// its view, so the output is a function of the schema content alone.
pub fn render_markdown(schema: &ApiSchema) -> (r: Vec<u8>)
    ensures
        r@ == spec_markdown(schema@),
{
    let ghost epsv = schema@.endpoints;
    let mut out: Vec<u8> = Vec::new();
    let t: [u8; 24] = [
        '#' as u8,
        ' ' as u8,
        'A' as u8,
        'P' as u8,
        'I' as u8,
        ' ' as u8,
        'D' as u8,
        'o' as u8,
        'c' as u8,
        'u' as u8,
        'm' as u8,
        'e' as u8,
        'n' as u8,
        't' as u8,
        'a' as u8,
        't' as u8,
        'i' as u8,
        'o' as u8,
        'n' as u8,
        ' ' as u8,
        'f' as u8,
        'o' as u8,
        'r' as u8,
        ' ' as u8,
    ];
    push_bytes(&mut out, t.as_slice());
    assert(t@ =~= md_title());
    push_bytes(&mut out, schema.name.as_slice());
    out.push('\n' as u8);
    out.push('\n' as u8);
    let hv: [u8; 12] = ['#' as u8, '#' as u8, ' ' as u8, 'V' as u8, 'e' as u8, 'r' as u8,
        's' as u8, 'i' as u8, 'o' as u8, 'n' as u8, ':' as u8, ' ' as u8];
    push_bytes(&mut out, hv.as_slice());
    assert(hv@ =~= md_version_hdr());
    push_bytes(&mut out, schema.version.as_slice());
    out.push('\n' as u8);
    out.push('\n' as u8);
    let he: [u8; 14] = ['#' as u8, '#' as u8, ' ' as u8, 'E' as u8, 'n' as u8, 'd' as u8,
        'p' as u8, 'o' as u8, 'i' as u8, 'n' as u8, 't' as u8, 's' as u8, '\n' as u8, '\n' as u8];
    push_bytes(&mut out, he.as_slice());
    assert(he@ =~= md_endpoints_hdr());
    let ghost pre = out@;
    assert(pre =~= md_title() + schema@.name + blank_line() + md_version_hdr() + schema@.version
        + blank_line() + md_endpoints_hdr());
    let mut i: usize = 0;
    proof {
        assert(epsv.skip(0) =~= epsv);
    }
    while i < schema.endpoints.len()
        invariant
            0 <= i <= schema.endpoints.len(),
            epsv == schema@.endpoints,
            pre == md_title() + schema@.name + blank_line() + md_version_hdr() + schema@.version
                + blank_line() + md_endpoints_hdr(),
            out@ + md_endpoints(epsv.skip(i as int)) == pre + md_endpoints(epsv),
        decreases schema.endpoints.len() - i,
    {
        let ghost before = out@;
        proof {
            assert(epsv.skip(i as int).len() > 0);
            assert(epsv.skip(i as int)[0] == epsv[i as int]);
            assert(epsv.skip(i as int).skip(1) =~= epsv.skip(i + 1));
            assert(epsv[i as int] == schema.endpoints@[i as int]@);
        }
        push_md_endpoint(&mut out, &schema.endpoints[i]);
        assert(out@ + md_endpoints(epsv.skip(i + 1)) =~= pre + md_endpoints(epsv));
        i = i + 1;
    }
    assert(epsv.skip(i as int) =~= Seq::<EndpointView>::empty());
    assert(out@ =~= spec_markdown(schema@));
    out
}

/// The documentation is a pure function of the schema content: any two
/// schemas decoded from the same stored bytes render to byte-identical
/// Markdown.
pub proof fn lemma_docs_deterministic(c: Seq<u8>, v1: SchemaView, v2: SchemaView)
    requires
        dec(c) == Some(v1),
        dec(c) == Some(v2),
    ensures
        spec_markdown(v1) == spec_markdown(v2),
{
}

} // verus!
