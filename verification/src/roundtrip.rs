//! The round-trip law: decoding the encoding of any schema yields that
//! schema back. The proof walks the spec-level parser over the
//! spec-level encoding, one token at a time.
use vstd::prelude::*;

use crate::codec::{arr_open, colon_sp, enc_endpoint, enc_endpoints, enc_items, enc_rest,
    enc_schema, ep_mid_method, ep_mid_request, ep_mid_response, ep_tail, esc, esc_byte,
    hex_digit, item_sep, key_endpoints, key_method, key_name, key_path, key_request,
    key_response, key_version, obj_tail, quoted, ws_ep_close, ws_ep_field, ws_ep_open, ws_obj};
use crate::decode::{dec, hex_val, is_hex, p_endpoint, p_endpoints, p_ep_list, p_esc_code,
    p_field, p_key, p_lit, p_schema, p_strbody, p_sym, p_qstr};
use crate::schema::{EndpointView, SchemaView};
use crate::text::{is_ws, lemma_ws_run, ws_end, BACKSLASH, COLON, COMMA, LBRACE, LBRACK, NL,
    QUOTE, RBRACE, RBRACK, SP};

verus! {

/// A concatenation read at `i` splits into its two parts.
proof fn lemma_split(s: Seq<u8>, i: int, a: Seq<u8>, b: Seq<u8>)
    requires
        0 <= i,
        i + a.len() + b.len() <= s.len(),
        s.subrange(i, i + a.len() + b.len()) == a + b,
    ensures
        s.subrange(i, i + a.len()) == a,
        s.subrange(i + a.len(), i + a.len() + b.len()) == b,
{
    assert(s.subrange(i, i + a.len()) =~= a) by {
        assert forall|k: int| 0 <= k < a.len() implies s.subrange(i, i + a.len())[k] == a[k] by {
            assert(s.subrange(i, i + a.len() + b.len())[k] == (a + b)[k]);
        }
    }
    assert(s.subrange(i + a.len(), i + a.len() + b.len()) =~= b) by {
        assert forall|k: int| 0 <= k < b.len() implies s.subrange(
            i + a.len(),
            i + a.len() + b.len(),
        )[k] == b[k] by {
            assert(s.subrange(i + a.len(), i + a.len() + b.len())[k] == s[i + a.len() + k]);
            assert(s.subrange(i, i + a.len() + b.len())[a.len() + k] == s[i + a.len() + k]);
            assert((a + b)[a.len() + k] == b[k]);
        }
    }
}

/// A whitespace run read at `i` is skipped up to the first byte after it.
proof fn lemma_ws_end_over(s: Seq<u8>, i: int, w: Seq<u8>)
    requires
        0 <= i,
        i + w.len() <= s.len(),
        s.subrange(i, i + w.len()) == w,
        forall|k: int| 0 <= k < w.len() ==> is_ws(#[trigger] w[k]),
        i + w.len() == s.len() || !is_ws(s[i + w.len()]),
    ensures
        ws_end(s, i) == i + w.len(),
{
    assert forall|k: int| i <= k < i + w.len() implies is_ws(#[trigger] s[k]) by {
        assert(s.subrange(i, i + w.len())[k - i] == w[k - i]);
    }
    lemma_ws_run(s, i, i + w.len());
}

/// The value of a hexadecimal digit is recovered from the digit.
proof fn lemma_hex_digit(n: u8)
    requires
        n < 16,
    ensures
        is_hex(hex_digit(n)),
        hex_val(hex_digit(n)) == n,
{
}

/// A quoted, escaped string body parses back to the string itself:
/// reading at `i` the escaped bytes of `x` followed by the closing
/// quote yields exactly `x`.
proof fn lemma_parse_quoted(s: Seq<u8>, i: int, x: Seq<u8>)
    requires
        0 <= i,
        i + esc(x).len() + 1 <= s.len(),
        s.subrange(i, i + esc(x).len() + 1) == esc(x) + seq![QUOTE],
    ensures
        p_strbody(s, i) == Some((x, i + esc(x).len() + 1)),
    decreases x.len(),
{
    if x.len() == 0 {
        assert(esc(x) == Seq::<u8>::empty());
        assert(s.subrange(i, i + 1) =~= seq![QUOTE]);
        assert(s[i] == s.subrange(i, i + 1)[0]);
        assert(x =~= Seq::<u8>::empty());
    } else {
        let b = x[0];
        let x1 = x.skip(1);
        assert(esc(x) == esc_byte(b) + esc(x1));
        let eb = esc_byte(b);
        let rest = esc(x1) + seq![QUOTE];
        assert(esc(x) + seq![QUOTE] =~= eb + rest);
        lemma_split(s, i, eb, rest);
        let j = i + eb.len();
        assert forall|k: int| 0 <= k < eb.len() implies s[i + k] == eb[k] by {
            assert(s.subrange(i, i + eb.len())[k] == eb[k]);
        }
        lemma_parse_quoted(s, j, x1);
        assert(seq![b] + x1 =~= x);
        if b == QUOTE || b == BACKSLASH || b == 8 || b == 9 || b == 10 || b == 12 || b == 13 {
            assert(s[i] == BACKSLASH);
            assert(p_esc_code(s, i) == Some((b, i + 2)));
        } else if b < 32 {
            assert(s[i] == BACKSLASH);
            assert(s[i + 1] == 'u' as u8);
            assert(s[i + 2] == '0' as u8);
            assert(s[i + 3] == '0' as u8);
            assert(s[i + 4] == hex_digit(b / 16));
            assert(s[i + 5] == hex_digit(b % 16));
            lemma_hex_digit(b / 16);
            lemma_hex_digit(b % 16);
            assert(16 * hex_val(s[i + 4]) + hex_val(s[i + 5]) == b);
            assert(p_esc_code(s, i) == Some((b, i + 6)));
        } else {
            assert(s[i] == b);
        }
    }
}

/// A field `"key": "value"` preceded by a whitespace run parses to the
/// value.
proof fn lemma_p_field(s: Seq<u8>, i: int, w: Seq<u8>, k: Seq<u8>, x: Seq<u8>)
    requires
        0 <= i,
        i + w.len() + k.len() + 2 + quoted(x).len() <= s.len(),
        s.subrange(i, i + w.len() + k.len() + 2 + quoted(x).len()) == w + k + colon_sp() + quoted(
            x,
        ),
        forall|m: int| 0 <= m < w.len() ==> is_ws(#[trigger] w[m]),
        k.len() > 0,
        k[0] == QUOTE,
    ensures
        p_field(s, i, k) == Some((x, i + w.len() + k.len() + 2 + quoted(x).len())),
{
    let r1 = k + colon_sp() + quoted(x);
    assert(w + k + colon_sp() + quoted(x) =~= w + r1);
    lemma_split(s, i, w, r1);
    let a = i + w.len();
    let r2 = colon_sp() + quoted(x);
    assert(r1 =~= k + r2);
    lemma_split(s, a, k, r2);
    let i1 = a + k.len();
    let r3 = seq![SP] + quoted(x);
    assert(r2 =~= seq![COLON] + r3);
    lemma_split(s, i1, seq![COLON], r3);
    let i2 = i1 + 1;
    let r4 = quoted(x);
    assert(r3 =~= seq![SP] + r4);
    lemma_split(s, i2, seq![SP], r4);
    let a2 = i2 + 1;
    let r5 = esc(x) + seq![QUOTE];
    assert(r4 =~= seq![QUOTE] + r5);
    lemma_split(s, a2, seq![QUOTE], r5);
    // the key begins with a quote, so the whitespace run before it stops there
    assert(s[a] == k[0]) by {
        assert(s.subrange(a, a + k.len())[0] == k[0]);
    }
    lemma_ws_end_over(s, i, w);
    assert(p_key(s, i, k) == Some(i1));
    assert(s[i1] == COLON) by {
        assert(s.subrange(i1, i1 + 1)[0] == COLON);
    }
    assert(ws_end(s, i1) == i1);
    assert(p_sym(s, i1, COLON) == Some(i2));
    assert(s[i2] == SP) by {
        assert(s.subrange(i2, i2 + 1)[0] == SP);
    }
    assert(s[a2] == QUOTE) by {
        assert(s.subrange(a2, a2 + 1)[0] == QUOTE);
    }
    lemma_ws_end_over(s, i2, seq![SP]);
    lemma_parse_quoted(s, a2 + 1, x);
    assert(p_qstr(s, i2) == Some((x, a2 + 1 + esc(x).len() + 1)));
}

/// One encoded endpoint object, preceded by a whitespace run, parses to
/// its view.
#[verifier::rlimit(60)]
proof fn lemma_p_endpoint(s: Seq<u8>, i: int, w: Seq<u8>, e: EndpointView)
    requires
        0 <= i,
        i + w.len() + enc_endpoint(e).len() <= s.len(),
        s.subrange(i, i + w.len() + enc_endpoint(e).len()) == w + enc_endpoint(e),
        forall|m: int| 0 <= m < w.len() ==> is_ws(#[trigger] w[m]),
    ensures
        p_endpoint(s, i) == Some((e, i + w.len() + enc_endpoint(e).len())),
{
    let g1 = w + ws_ep_open();
    let g3 = ws_ep_field() + key_path() + colon_sp() + quoted(e.path);
    let g5 = ws_ep_field() + key_method() + colon_sp() + quoted(e.method);
    let g7 = ws_ep_field() + key_request() + colon_sp() + quoted(e.request_format);
    let g9 = ws_ep_field() + key_response() + colon_sp() + quoted(e.response_format);
    let g10 = ws_ep_close();
    let r10 = g10 + seq![RBRACE];
    let r9 = g9 + r10;
    let r8 = seq![COMMA] + r9;
    let r7 = g7 + r8;
    let r6 = seq![COMMA] + r7;
    let r5 = g5 + r6;
    let r4 = seq![COMMA] + r5;
    let r3 = g3 + r4;
    let r2 = seq![LBRACE] + r3;
    assert(w + enc_endpoint(e) =~= g1 + r2);
    lemma_split(s, i, g1, r2);
    let p2 = i + g1.len();
    lemma_split(s, p2, seq![LBRACE], r3);
    let i1 = p2 + 1;
    lemma_split(s, i1, g3, r4);
    let i2 = i1 + g3.len();
    lemma_split(s, i2, seq![COMMA], r5);
    let i3 = i2 + 1;
    lemma_split(s, i3, g5, r6);
    let i4 = i3 + g5.len();
    lemma_split(s, i4, seq![COMMA], r7);
    let i5 = i4 + 1;
    lemma_split(s, i5, g7, r8);
    let i6 = i5 + g7.len();
    lemma_split(s, i6, seq![COMMA], r9);
    let i7 = i6 + 1;
    lemma_split(s, i7, g9, r10);
    let i8 = i7 + g9.len();
    lemma_split(s, i8, g10, seq![RBRACE]);
    let i9 = i8 + g10.len();
    assert(s[p2] == LBRACE) by {
        assert(s.subrange(p2, p2 + 1)[0] == LBRACE);
    }
    assert forall|k: int| 0 <= k < g1.len() implies is_ws(#[trigger] g1[k]) by {
        if k < w.len() {
            assert(g1[k] == w[k]);
        } else {
            assert(g1[k] == ws_ep_open()[k - w.len()]);
        }
    }
    lemma_ws_end_over(s, i, g1);
    assert(p_sym(s, i, LBRACE) == Some(i1));
    lemma_p_field(s, i1, ws_ep_field(), key_path(), e.path);
    assert(p_field(s, i1, key_path()) == Some((e.path, i2)));
    assert(s[i2] == COMMA) by {
        assert(s.subrange(i2, i2 + 1)[0] == COMMA);
    }
    assert(ws_end(s, i2) == i2);
    assert(p_sym(s, i2, COMMA) == Some(i3));
    lemma_p_field(s, i3, ws_ep_field(), key_method(), e.method);
    assert(s[i4] == COMMA) by {
        assert(s.subrange(i4, i4 + 1)[0] == COMMA);
    }
    assert(ws_end(s, i4) == i4);
    assert(p_sym(s, i4, COMMA) == Some(i5));
    lemma_p_field(s, i5, ws_ep_field(), key_request(), e.request_format);
    assert(s[i6] == COMMA) by {
        assert(s.subrange(i6, i6 + 1)[0] == COMMA);
    }
    assert(ws_end(s, i6) == i6);
    assert(p_sym(s, i6, COMMA) == Some(i7));
    lemma_p_field(s, i7, ws_ep_field(), key_response(), e.response_format);
    assert(s[i9] == RBRACE) by {
        assert(s.subrange(i9, i9 + 1)[0] == RBRACE);
    }
    lemma_ws_end_over(s, i8, g10);
    assert(p_sym(s, i8, RBRACE) == Some(i9 + 1));
    assert(EndpointView {
        path: e.path,
        method: e.method,
        request_format: e.request_format,
        response_format: e.response_format,
    } =~= e);
    assert(i9 + 1 == i + w.len() + enc_endpoint(e).len());
}

/// The items of a non-empty array, from the newline after the opening
/// bracket through the closing bracket, parse to the endpoint views.
#[verifier::rlimit(60)]
proof fn lemma_p_ep_list(s: Seq<u8>, i: int, eps: Seq<EndpointView>)
    requires
        eps.len() >= 1,
        0 <= i,
        i + 1 + enc_items(eps).len() + 4 <= s.len(),
        s.subrange(i, i + 1 + enc_items(eps).len() + 4) == seq![NL] + enc_items(eps) + seq![
            NL,
            SP,
            SP,
            RBRACK,
        ],
    ensures
        p_ep_list(s, i) == Some((eps, i + 1 + enc_items(eps).len() + 4)),
    decreases eps.len(),
{
    let e0 = eps[0];
    let tail = seq![NL, SP, SP, RBRACK];
    let its = enc_items(eps);
    assert(its == enc_endpoint(e0) + enc_rest(eps.skip(1)));
    if eps.len() == 1 {
        assert(eps.skip(1).len() == 0);
        assert(enc_rest(eps.skip(1)) == Seq::<u8>::empty());
        assert(seq![NL] + its + tail =~= (seq![NL] + enc_endpoint(e0)) + tail);
        lemma_split(s, i, seq![NL] + enc_endpoint(e0), tail);
        let j = i + 1 + enc_endpoint(e0).len();
        assert(s.subrange(i, j) == seq![NL] + enc_endpoint(e0));
        lemma_p_endpoint(s, i, seq![NL], e0);
        assert(p_endpoint(s, i) == Some((e0, j)));
        assert forall|m: int| 0 <= m < 4 implies s[j + m] == tail[m] by {
            assert(s.subrange(j, j + 4)[m] == tail[m]);
        }
        assert(s.subrange(j, j + 3) =~= seq![NL, SP, SP]);
        lemma_ws_end_over(s, j, seq![NL, SP, SP]);
        assert(ws_end(s, j) == j + 3);
        assert(s[j + 3] == RBRACK);
        assert(p_sym(s, j, COMMA) is None);
        assert(p_sym(s, j, RBRACK) == Some(j + 4));
        assert(seq![e0] =~= eps);
    } else {
        let eps1 = eps.skip(1);
        assert(eps1.len() >= 1);
        assert(enc_rest(eps1) == item_sep() + enc_endpoint(eps1[0]) + enc_rest(eps1.skip(1)));
        assert(enc_items(eps1) == enc_endpoint(eps1[0]) + enc_rest(eps1.skip(1)));
        assert(enc_rest(eps1) =~= item_sep() + enc_items(eps1));
        let r1 = seq![COMMA] + (seq![NL] + enc_items(eps1) + tail);
        assert(seq![NL] + its + tail =~= (seq![NL] + enc_endpoint(e0)) + r1);
        lemma_split(s, i, seq![NL] + enc_endpoint(e0), r1);
        let j = i + 1 + enc_endpoint(e0).len();
        lemma_p_endpoint(s, i, seq![NL], e0);
        assert(p_endpoint(s, i) == Some((e0, j)));
        lemma_split(s, j, seq![COMMA], seq![NL] + enc_items(eps1) + tail);
        assert(s[j] == COMMA) by {
            assert(s.subrange(j, j + 1)[0] == COMMA);
        }
        assert(ws_end(s, j) == j);
        assert(p_sym(s, j, COMMA) == Some(j + 1));
        let j2 = j + 1;
        lemma_p_ep_list(s, j2, eps1);
        assert(p_ep_list(s, j2) == Some((eps1, j2 + 1 + enc_items(eps1).len() + 4)));
        assert(seq![e0] + eps1 =~= eps);
        assert(j2 + 1 + enc_items(eps1).len() + 4 == i + 1 + its.len() + 4);
    }
}

/// The encoded endpoints array, preceded by a whitespace run, parses to
/// the endpoint views.
#[verifier::rlimit(100)]
proof fn lemma_p_endpoints(s: Seq<u8>, i: int, w: Seq<u8>, eps: Seq<EndpointView>)
    requires
        0 <= i,
        i + w.len() + enc_endpoints(eps).len() <= s.len(),
        s.subrange(i, i + w.len() + enc_endpoints(eps).len()) == w + enc_endpoints(eps),
        forall|m: int| 0 <= m < w.len() ==> is_ws(#[trigger] w[m]),
    ensures
        p_endpoints(s, i) == Some((eps, i + w.len() + enc_endpoints(eps).len())),
{
    if eps.len() == 0 {
        assert(enc_endpoints(eps) == seq![LBRACK, RBRACK]);
        assert(w + enc_endpoints(eps) =~= w + (seq![LBRACK] + seq![RBRACK]));
        lemma_split(s, i, w, seq![LBRACK] + seq![RBRACK]);
        let j = i + w.len();
        lemma_split(s, j, seq![LBRACK], seq![RBRACK]);
        assert(s[j] == LBRACK) by {
            assert(s.subrange(j, j + 1)[0] == LBRACK);
        }
        assert(s[j + 1] == RBRACK) by {
            assert(s.subrange(j + 1, j + 2)[0] == RBRACK);
        }
        lemma_ws_end_over(s, i, w);
        assert(p_sym(s, i, LBRACK) == Some(j + 1));
        assert(ws_end(s, j + 1) == j + 1);
        assert(Seq::<EndpointView>::empty() =~= eps);
    } else {
        let its = enc_items(eps);
        let tail = seq![NL, SP, SP, RBRACK];
        assert(enc_endpoints(eps) == arr_open() + its + tail);
        let body = seq![NL] + its + tail;
        assert(w + enc_endpoints(eps) =~= (w + seq![LBRACK]) + body);
        lemma_split(s, i, w + seq![LBRACK], body);
        let j = i + w.len() + 1;
        lemma_split(s, i, w, seq![LBRACK]);
        assert(s[j - 1] == LBRACK) by {
            assert(s.subrange(i + w.len(), i + w.len() + 1)[0] == LBRACK);
        }
        lemma_ws_end_over(s, i, w);
        assert(p_sym(s, i, LBRACK) == Some(j));
        // after the bracket: a newline, the four-space indent, then the
        // first endpoint's opening brace
        let e0 = eps[0];
        assert(its == enc_endpoint(e0) + enc_rest(eps.skip(1)));
        assert(enc_endpoint(e0)[0] == SP && enc_endpoint(e0)[1] == SP && enc_endpoint(e0)[2] == SP
            && enc_endpoint(e0)[3] == SP && enc_endpoint(e0)[4] == LBRACE) by {
            assert(enc_endpoint(e0) == (ws_ep_open() + seq![LBRACE] + ws_ep_field() + key_path()
                + colon_sp()) + quoted(e0.path) + ep_mid_method() + quoted(e0.method)
                + ep_mid_request() + quoted(e0.request_format) + ep_mid_response() + quoted(
                e0.response_format,
            ) + ep_tail());
        }
        assert(s.subrange(j, j + body.len()) == body);
        assert forall|m: int| 0 <= m < 6 implies s[j + m] == body[m] by {
            assert(s.subrange(j, j + body.len())[m] == body[m]);
        }
        assert(body[0] == NL);
        assert(body[1] == its[0] && body[2] == its[1] && body[3] == its[2] && body[4] == its[3]
            && body[5] == its[4]);
        assert(its[0] == SP && its[1] == SP && its[2] == SP && its[3] == SP && its[4] == LBRACE);
        assert(s.subrange(j, j + 5) =~= seq![NL, SP, SP, SP, SP]);
        lemma_ws_end_over(s, j, seq![NL, SP, SP, SP, SP]);
        let a = ws_end(s, j);
        assert(a == j + 5);
        assert(s[a] == LBRACE);
        assert(!(a < s.len() && s[a] == RBRACK));
        lemma_p_ep_list(s, j, eps);
        assert(p_ep_list(s, j) == Some((eps, j + 1 + its.len() + 4)));
        assert(j + 1 + its.len() + 4 == i + w.len() + enc_endpoints(eps).len());
    }
}

/// The encoding of a schema decomposes into its tokens at the expected
/// offsets.
#[verifier::rlimit(100)]
proof fn lemma_schema_layout(v: SchemaView)
    ensures
        ({
            let s = enc_schema(v);
            let g2 = ws_obj() + key_name() + colon_sp() + quoted(v.name);
            let g4 = ws_obj() + key_version() + colon_sp() + quoted(v.version);
            let g6 = ws_obj() + key_endpoints();
            let g9 = seq![SP] + enc_endpoints(v.endpoints);
            let i2: int = 1 + g2.len() as int;
            let i4: int = i2 + 1 + g4.len() as int;
            let i6: int = i4 + 1 + g6.len() as int;
            let i8: int = i6 + 1 + g9.len() as int;
            &&& s.len() == i8 + 2
            &&& s.subrange(0, 1) == seq![LBRACE]
            &&& s.subrange(1, i2) == g2
            &&& s.subrange(i2, i2 + 1) == seq![COMMA]
            &&& s.subrange(i2 + 1, i4) == g4
            &&& s.subrange(i4, i4 + 1) == seq![COMMA]
            &&& s.subrange(i4 + 1, i6) == g6
            &&& s.subrange(i6, i6 + 1) == seq![COLON]
            &&& s.subrange(i6 + 1, i8) == g9
            &&& s.subrange(i8, i8 + 1) == seq![NL]
            &&& s.subrange(i8 + 1, i8 + 2) == seq![RBRACE]
        }),
{
    let s = enc_schema(v);
    let g2 = ws_obj() + key_name() + colon_sp() + quoted(v.name);
    let g4 = ws_obj() + key_version() + colon_sp() + quoted(v.version);
    let g6 = ws_obj() + key_endpoints();
    let g9 = seq![SP] + enc_endpoints(v.endpoints);
    let r8 = g9 + obj_tail();
    let r7 = seq![COLON] + r8;
    let r6 = g6 + r7;
    let r5 = seq![COMMA] + r6;
    let r4 = g4 + r5;
    let r3 = seq![COMMA] + r4;
    let r2 = g2 + r3;
    assert(s =~= seq![LBRACE] + r2);
    assert(s.subrange(0, s.len() as int) =~= s);
    lemma_split(s, 0, seq![LBRACE], r2);
    let i1 = 1int;
    lemma_split(s, i1, g2, r3);
    let i2 = i1 + g2.len();
    lemma_split(s, i2, seq![COMMA], r4);
    let i3 = i2 + 1;
    lemma_split(s, i3, g4, r5);
    let i4 = i3 + g4.len();
    lemma_split(s, i4, seq![COMMA], r6);
    let i5 = i4 + 1;
    lemma_split(s, i5, g6, r7);
    let i6 = i5 + g6.len();
    lemma_split(s, i6, seq![COLON], r8);
    let i7 = i6 + 1;
    lemma_split(s, i7, g9, obj_tail());
    let i8 = i7 + g9.len();
    assert(obj_tail() =~= seq![NL] + seq![RBRACE]);
    lemma_split(s, i8, seq![NL], seq![RBRACE]);
}

/// Round trip: decoding the encoding of any schema yields the schema.
#[verifier::rlimit(100)]
pub proof fn lemma_round_trip(v: SchemaView)
    ensures
        dec(enc_schema(v)) == Some(v),
{
    let s = enc_schema(v);
    let g2 = ws_obj() + key_name() + colon_sp() + quoted(v.name);
    let g4 = ws_obj() + key_version() + colon_sp() + quoted(v.version);
    let g6 = ws_obj() + key_endpoints();
    let g9 = seq![SP] + enc_endpoints(v.endpoints);
    lemma_schema_layout(v);
    let i1 = 1int;
    let i2 = i1 + g2.len();
    let i3 = i2 + 1;
    let i4 = i3 + g4.len();
    let i5 = i4 + 1;
    let i6 = i5 + g6.len();
    let i7 = i6 + 1;
    let i8 = i7 + g9.len();
    let i9 = i8 + 1;
    assert(s[0] == LBRACE) by {
        assert(s.subrange(0, 1)[0] == LBRACE);
    }
    assert(ws_end(s, 0) == 0);
    assert(p_sym(s, 0, LBRACE) == Some(i1));
    lemma_p_field(s, i1, ws_obj(), key_name(), v.name);
    assert(p_field(s, i1, key_name()) == Some((v.name, i2)));
    assert(s[i2] == COMMA) by {
        assert(s.subrange(i2, i2 + 1)[0] == COMMA);
    }
    assert(ws_end(s, i2) == i2);
    assert(p_sym(s, i2, COMMA) == Some(i3));
    lemma_p_field(s, i3, ws_obj(), key_version(), v.version);
    assert(p_field(s, i3, key_version()) == Some((v.version, i4)));
    assert(s[i4] == COMMA) by {
        assert(s.subrange(i4, i4 + 1)[0] == COMMA);
    }
    assert(ws_end(s, i4) == i4);
    assert(p_sym(s, i4, COMMA) == Some(i5));
    lemma_split(s, i5, ws_obj(), key_endpoints());
    assert(s[i5 + 3] == QUOTE) by {
        assert(s.subrange(i5 + 3, i6)[0] == key_endpoints()[0]);
    }
    lemma_ws_end_over(s, i5, ws_obj());
    assert(p_key(s, i5, key_endpoints()) == Some(i6)) by {
        assert(p_lit(s, i5 + 3, key_endpoints()) == Some(i6));
    }
    assert(s[i6] == COLON) by {
        assert(s.subrange(i6, i6 + 1)[0] == COLON);
    }
    assert(ws_end(s, i6) == i6);
    assert(p_sym(s, i6, COLON) == Some(i7));
    lemma_p_endpoints(s, i7, seq![SP], v.endpoints);
    assert(p_endpoints(s, i7) == Some((v.endpoints, i8)));
    assert(s[i8] == NL) by {
        assert(s.subrange(i8, i8 + 1)[0] == NL);
    }
    assert(s[i9] == RBRACE) by {
        assert(s.subrange(i9, i9 + 1)[0] == RBRACE);
    }
    assert(s.subrange(i8, i8 + 1) =~= seq![NL]);
    lemma_ws_end_over(s, i8, seq![NL]);
    assert(p_sym(s, i8, RBRACE) == Some(i9 + 1));
    assert(i9 + 1 == s.len());
    assert(p_schema(s, 0) == Some(
        (SchemaView { name: v.name, version: v.version, endpoints: v.endpoints }, i9 + 1),
    ));
    assert(SchemaView { name: v.name, version: v.version, endpoints: v.endpoints } =~= v);
    assert(ws_end(s, i9 + 1) == s.len());
}

} // verus!

