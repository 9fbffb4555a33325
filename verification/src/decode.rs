//! Decoding the on-disk JSON form back into a schema. The grammar the
//! decoder accepts is given by the spec-level parser `p_schema`/`dec`:
//! the object and endpoint keys in declaration order, arbitrary JSON
//! whitespace between tokens, and string literals whose escapes are
//! those the encoder emits (plus `\/` and the upper-case hex digits).
//! `decode_schema` returns exactly what `dec` denotes.
use vstd::prelude::*;

use crate::codec::{key_endpoints, key_method, key_name, key_path, key_request, key_response,
    key_version};
use crate::schema::{ep_views, ApiSchema, Endpoint, EndpointView, SchemaView};
use crate::text::{is_ws, ws_end, BACKSLASH, COLON, COMMA, CR, LBRACE, LBRACK, NL, QUOTE, RBRACE,
    RBRACK, SP, TAB};

verus! {

// --- spec-level parser -----------------------------------------------------

pub open spec fn is_hex(c: u8) -> bool {
    (48 <= c <= 57) || (97 <= c <= 102) || (65 <= c <= 70)
}

/// Value of a hexadecimal digit.
pub open spec fn hex_val(c: u8) -> u8 {
    if 48 <= c <= 57 {
        (c - 48) as u8
    } else if 97 <= c <= 102 {
        (c - 87) as u8
    } else {
        (c - 55) as u8
    }
}

/// The literal `lit` read at position `i`, no whitespace skipped.
pub open spec fn p_lit(s: Seq<u8>, i: int, lit: Seq<u8>) -> Option<int> {
    if i + lit.len() <= s.len() && s.subrange(i, i + lit.len()) == lit {
        Some(i + lit.len())
    } else {
        None
    }
}

/// One symbol byte after optional whitespace.
pub open spec fn p_sym(s: Seq<u8>, i: int, c: u8) -> Option<int> {
    let a = ws_end(s, i);
    if a < s.len() && s[a] == c {
        Some(a + 1)
    } else {
        None
    }
}

/// A quoted key after optional whitespace.
pub open spec fn p_key(s: Seq<u8>, i: int, k: Seq<u8>) -> Option<int> {
    p_lit(s, ws_end(s, i), k)
}

/// One escape sequence, read at the backslash.
pub open spec fn p_esc_code(s: Seq<u8>, i: int) -> Option<(u8, int)> {
    if i + 2 <= s.len() {
        let c = s[i + 1];
        if c == QUOTE {
            Some((QUOTE, i + 2))
        } else if c == BACKSLASH {
            Some((BACKSLASH, i + 2))
        } else if c == '/' as u8 {
            Some(('/' as u8, i + 2))
        } else if c == 'b' as u8 {
            Some((8u8, i + 2))
        } else if c == 't' as u8 {
            Some((TAB, i + 2))
        } else if c == 'n' as u8 {
            Some((NL, i + 2))
        } else if c == 'f' as u8 {
            Some((12u8, i + 2))
        } else if c == 'r' as u8 {
            Some((CR, i + 2))
        } else if c == 'u' as u8 {
            if i + 6 <= s.len() && s[i + 2] == '0' as u8 && s[i + 3] == '0' as u8 && is_hex(
                s[i + 4],
            ) && is_hex(s[i + 5]) && 16 * hex_val(s[i + 4]) + hex_val(s[i + 5]) < 32 {
                Some(((16 * hex_val(s[i + 4]) + hex_val(s[i + 5])) as u8, i + 6))
            } else {
                None
            }
        } else {
            None
        }
    } else {
        None
    }
}

/// The body of a string literal, read after the opening quote; yields
/// the unescaped bytes and the position after the closing quote.
pub open spec fn p_strbody(s: Seq<u8>, i: int) -> Option<(Seq<u8>, int)>
    decreases s.len() - i,
    when 0 <= i <= s.len()
{
    if i >= s.len() {
        None
    } else if s[i] == QUOTE {
        Some((Seq::empty(), i + 1))
    } else if s[i] == BACKSLASH {
        match p_esc_code(s, i) {
            None => None,
            Some((b, j)) => if i < j <= s.len() {
                match p_strbody(s, j) {
                    None => None,
                    Some((t, k)) => Some((seq![b] + t, k)),
                }
            } else {
                None
            },
        }
    } else if s[i] >= 32 {
        match p_strbody(s, i + 1) {
            None => None,
            Some((t, k)) => Some((seq![s[i]] + t, k)),
        }
    } else {
        None
    }
}

/// A whole string literal after optional whitespace.
pub open spec fn p_qstr(s: Seq<u8>, i: int) -> Option<(Seq<u8>, int)> {
    let a = ws_end(s, i);
    if a < s.len() && s[a] == QUOTE {
        p_strbody(s, a + 1)
    } else {
        None
    }
}

/// `"key": "value"`.
pub open spec fn p_field(s: Seq<u8>, i: int, k: Seq<u8>) -> Option<(Seq<u8>, int)> {
    match p_key(s, i, k) {
        None => None,
        Some(i1) => match p_sym(s, i1, COLON) {
            None => None,
            Some(i2) => p_qstr(s, i2),
        },
    }
}

/// One endpoint object, its four fields in declaration order.
pub open spec fn p_endpoint(s: Seq<u8>, i: int) -> Option<(EndpointView, int)> {
    match p_sym(s, i, LBRACE) {
        None => None,
        Some(i1) => match p_field(s, i1, key_path()) {
            None => None,
            Some((path, i2)) => match p_sym(s, i2, COMMA) {
                None => None,
                Some(i3) => match p_field(s, i3, key_method()) {
                    None => None,
                    Some((method, i4)) => match p_sym(s, i4, COMMA) {
                        None => None,
                        Some(i5) => match p_field(s, i5, key_request()) {
                            None => None,
                            Some((rq, i6)) => match p_sym(s, i6, COMMA) {
                                None => None,
                                Some(i7) => match p_field(s, i7, key_response()) {
                                    None => None,
                                    Some((rs, i8)) => match p_sym(s, i8, RBRACE) {
                                        None => None,
                                        Some(i9) => Some(
                                            (
                                                EndpointView {
                                                    path,
                                                    method,
                                                    request_format: rq,
                                                    response_format: rs,
                                                },
                                                i9,
                                            ),
                                        ),
                                    },
                                },
                            },
                        },
                    },
                },
            },
        },
    }
}

/// One or more endpoint objects separated by commas, then the closing
/// bracket.
pub open spec fn p_ep_list(s: Seq<u8>, i: int) -> Option<(Seq<EndpointView>, int)>
    decreases s.len() - i,
    when 0 <= i <= s.len()
{
    match p_endpoint(s, i) {
        None => None,
        Some((e, j)) => match p_sym(s, j, COMMA) {
            Some(j2) => if i < j2 <= s.len() {
                match p_ep_list(s, j2) {
                    None => None,
                    Some((es, k)) => Some((seq![e] + es, k)),
                }
            } else {
                None
            },
            None => match p_sym(s, j, RBRACK) {
                None => None,
                Some(j2) => Some((seq![e], j2)),
            },
        },
    }
}

/// The endpoints array, empty or not.
pub open spec fn p_endpoints(s: Seq<u8>, i: int) -> Option<(Seq<EndpointView>, int)> {
    match p_sym(s, i, LBRACK) {
        None => None,
        Some(j) => {
            let a = ws_end(s, j);
            if a < s.len() && s[a] == RBRACK {
                Some((Seq::empty(), a + 1))
            } else {
                p_ep_list(s, j)
            }
        },
    }
}

/// The schema object, its three keys in declaration order.
pub open spec fn p_schema(s: Seq<u8>, i: int) -> Option<(SchemaView, int)> {
    match p_sym(s, i, LBRACE) {
        None => None,
        Some(i1) => match p_field(s, i1, key_name()) {
            None => None,
            Some((name, i2)) => match p_sym(s, i2, COMMA) {
                None => None,
                Some(i3) => match p_field(s, i3, key_version()) {
                    None => None,
                    Some((version, i4)) => match p_sym(s, i4, COMMA) {
                        None => None,
                        Some(i5) => match p_key(s, i5, key_endpoints()) {
                            None => None,
                            Some(i6) => match p_sym(s, i6, COLON) {
                                None => None,
                                Some(i7) => match p_endpoints(s, i7) {
                                    None => None,
                                    Some((eps, i8)) => match p_sym(s, i8, RBRACE) {
                                        None => None,
                                        Some(i9) => Some(
                                            (SchemaView { name, version, endpoints: eps }, i9),
                                        ),
                                    },
                                },
                            },
                        },
                    },
                },
            },
        },
    }
}

/// What a byte string denotes as a schema: the object parsed from the
/// front, with nothing but whitespace after it.
pub open spec fn dec(s: Seq<u8>) -> Option<SchemaView> {
    match p_schema(s, 0) {
        None => None,
        Some((v, j)) => if 0 <= j <= s.len() && ws_end(s, j) == s.len() {
            Some(v)
        } else {
            None
        },
    }
}

// --- executable parser -------------------------------------------------------

/// Whitespace test on one byte.
fn ws_byte(b: u8) -> (r: bool)
    ensures
        r == is_ws(b),
{
    b == SP || b == NL || b == CR || b == TAB
}

/// Skips whitespace.
fn ws_skip(v: &Vec<u8>, i: usize) -> (a: usize)
    requires
        i <= v.len(),
    ensures
        a as int == ws_end(v@, i as int),
        i <= a <= v.len(),
{
    let mut a = i;
    while a < v.len() && ws_byte(v[a])
        invariant
            i <= a <= v.len(),
            ws_end(v@, i as int) == ws_end(v@, a as int),
        decreases v.len() - a,
    {
        a = a + 1;
    }
    a
}

/// Reads the literal `lit` at `i`, no whitespace skipped.
fn match_lit(v: &Vec<u8>, i: usize, lit: &[u8]) -> (r: Option<usize>)
    requires
        i <= v.len(),
    ensures
        (match r {
            None => p_lit(v@, i as int, lit@) is None,
            Some(j) => p_lit(v@, i as int, lit@) == Some(j as int) && j <= v.len(),
        }),
{
    if v.len() - i < lit.len() {
        return None;
    }
    let mut k: usize = 0;
    while k < lit.len()
        invariant
            0 <= k <= lit.len(),
            i + lit.len() <= v.len(),
            forall|m: int| 0 <= m < k ==> v@[i + m] == lit@[m],
        decreases lit.len() - k,
    {
        if v[i + k] != lit[k] {
            assert(v@.subrange(i as int, i + lit@.len())[k as int] != lit@[k as int]);
            return None;
        }
        k = k + 1;
    }
    assert(v@.subrange(i as int, i + lit@.len()) =~= lit@);
    Some(i + lit.len())
}

/// Reads one symbol byte after optional whitespace.
fn expect_sym(v: &Vec<u8>, i: usize, c: u8) -> (r: Option<usize>)
    requires
        i <= v.len(),
    ensures
        (match r {
            None => p_sym(v@, i as int, c) is None,
            Some(j) => p_sym(v@, i as int, c) == Some(j as int) && j <= v.len(),
        }),
{
    let a = ws_skip(v, i);
    if a < v.len() && v[a] == c {
        Some(a + 1)
    } else {
        None
    }
}

/// Value of a hexadecimal digit byte.
fn hex_val_of(c: u8) -> (r: u8)
    requires
        is_hex(c),
    ensures
        r == hex_val(c),
        r < 16,
{
    if 48 <= c && c <= 57 {
        c - 48
    } else if 97 <= c && c <= 102 {
        c - 87
    } else {
        c - 55
    }
}

/// Hexadecimal digit test on one byte.
fn hex_byte(c: u8) -> (r: bool)
    ensures
        r == is_hex(c),
{
    (48 <= c && c <= 57) || (97 <= c && c <= 102) || (65 <= c && c <= 70)
}

/// Reads one escape sequence at the backslash.
fn parse_esc(v: &Vec<u8>, i: usize) -> (r: Option<(u8, usize)>)
    requires
        i <= v.len(),
    ensures
        (match r {
            None => p_esc_code(v@, i as int) is None,
            Some(p) => p_esc_code(v@, i as int) == Some((p.0, p.1 as int)) && i < p.1 <= v.len(),
        }),
{
    if v.len() - i < 2 {
        return None;
    }
    let c = v[i + 1];
    if c == QUOTE {
        Some((QUOTE, i + 2))
    } else if c == BACKSLASH {
        Some((BACKSLASH, i + 2))
    } else if c == '/' as u8 {
        Some(('/' as u8, i + 2))
    } else if c == 'b' as u8 {
        Some((8u8, i + 2))
    } else if c == 't' as u8 {
        Some((TAB, i + 2))
    } else if c == 'n' as u8 {
        Some((NL, i + 2))
    } else if c == 'f' as u8 {
        Some((12u8, i + 2))
    } else if c == 'r' as u8 {
        Some((CR, i + 2))
    } else if c == 'u' as u8 {
        if v.len() - i >= 6 && v[i + 2] == '0' as u8 && v[i + 3] == '0' as u8 && hex_byte(v[i + 4])
            && hex_byte(v[i + 5]) {
            let hv: u8 = 16 * hex_val_of(v[i + 4]) + hex_val_of(v[i + 5]);
            if hv < 32 {
                Some((hv, i + 6))
            } else {
                None
            }
        } else {
            None
        }
    } else {
        None
    }
}

/// Reads a string body after the opening quote, unescaping as it goes.
fn parse_strbody(v: &Vec<u8>, i: usize) -> (r: Option<(Vec<u8>, usize)>)
    requires
        i <= v.len(),
    ensures
        (match r {
            None => p_strbody(v@, i as int) is None,
            Some(p) => p_strbody(v@, i as int) == Some((p.0@, p.1 as int)) && p.1 <= v.len(),
        }),
{
    let mut acc: Vec<u8> = Vec::new();
    let mut pos = i;
    loop
        invariant
            i <= pos <= v.len(),
            ({
                let full = p_strbody(v@, i as int);
                match p_strbody(v@, pos as int) {
                    None => full is None,
                    Some((t, k)) => full == Some((acc@ + t, k)),
                }
            }),
        decreases v.len() - pos,
    {
        if pos >= v.len() {
            return None;
        }
        let b = v[pos];
        if b == QUOTE {
            assert(acc@ + Seq::<u8>::empty() =~= acc@);
            return Some((acc, pos + 1));
        } else if b == BACKSLASH {
            match parse_esc(v, pos) {
                None => {
                    return None;
                },
                Some((e, j)) => {
                    let ghost acc0 = acc@;
                    acc.push(e);
                    proof {
                        if p_strbody(v@, j as int) is Some {
                            let (t, k) = p_strbody(v@, j as int)->Some_0;
                            assert(acc0 + (seq![e] + t) =~= acc@ + t);
                        }
                    }
                    pos = j;
                },
            }
        } else if b >= 32 {
            let ghost acc0 = acc@;
            acc.push(b);
            proof {
                if p_strbody(v@, pos + 1) is Some {
                    let (t, k) = p_strbody(v@, pos + 1)->Some_0;
                    assert(acc0 + (seq![b] + t) =~= acc@ + t);
                }
            }
            pos = pos + 1;
        } else {
            return None;
        }
    }
}

/// Reads a string literal after optional whitespace.
fn parse_qstr(v: &Vec<u8>, i: usize) -> (r: Option<(Vec<u8>, usize)>)
    requires
        i <= v.len(),
    ensures
        (match r {
            None => p_qstr(v@, i as int) is None,
            Some(p) => p_qstr(v@, i as int) == Some((p.0@, p.1 as int)) && p.1 <= v.len(),
        }),
{
    let a = ws_skip(v, i);
    if a < v.len() && v[a] == QUOTE {
        parse_strbody(v, a + 1)
    } else {
        None
    }
}

/// Reads `"key": "value"`.
fn parse_field(v: &Vec<u8>, i: usize, key: &[u8]) -> (r: Option<(Vec<u8>, usize)>)
    requires
        i <= v.len(),
    ensures
        (match r {
            None => p_field(v@, i as int, key@) is None,
            Some(p) => p_field(v@, i as int, key@) == Some((p.0@, p.1 as int)) && p.1 <= v.len(),
        }),
{
    let a = ws_skip(v, i);
    let i1 = match match_lit(v, a, key) {
        Some(j) => j,
        None => {
            return None;
        },
    };
    let i2 = match expect_sym(v, i1, COLON) {
        Some(j) => j,
        None => {
            return None;
        },
    };
    parse_qstr(v, i2)
}

/// Reads one endpoint object.
fn parse_endpoint(v: &Vec<u8>, i: usize) -> (r: Option<(Endpoint, usize)>)
    requires
        i <= v.len(),
    ensures
        (match r {
            None => p_endpoint(v@, i as int) is None,
            Some(p) => p_endpoint(v@, i as int) == Some((p.0@, p.1 as int)) && p.1 <= v.len(),
        }),
{
    let i1 = match expect_sym(v, i, LBRACE) {
        Some(j) => j,
        None => {
            return None;
        },
    };
    let kp: [u8; 6] = [QUOTE, 'p' as u8, 'a' as u8, 't' as u8, 'h' as u8, QUOTE];
    assert(kp@ =~= key_path());
    let (path, i2) = match parse_field(v, i1, kp.as_slice()) {
        Some(p) => p,
        None => {
            return None;
        },
    };
    let i3 = match expect_sym(v, i2, COMMA) {
        Some(j) => j,
        None => {
            return None;
        },
    };
    let km: [u8; 8] = [QUOTE, 'm' as u8, 'e' as u8, 't' as u8, 'h' as u8, 'o' as u8, 'd' as u8,
        QUOTE];
    assert(km@ =~= key_method());
    let (method, i4) = match parse_field(v, i3, km.as_slice()) {
        Some(p) => p,
        None => {
            return None;
        },
    };
    let i5 = match expect_sym(v, i4, COMMA) {
        Some(j) => j,
        None => {
            return None;
        },
    };
    let krq: [u8; 16] = [
        QUOTE,
        'r' as u8,
        'e' as u8,
        'q' as u8,
        'u' as u8,
        'e' as u8,
        's' as u8,
        't' as u8,
        '_' as u8,
        'f' as u8,
        'o' as u8,
        'r' as u8,
        'm' as u8,
        'a' as u8,
        't' as u8,
        QUOTE,
    ];
    assert(krq@ =~= key_request());
    let (rq, i6) = match parse_field(v, i5, krq.as_slice()) {
        Some(p) => p,
        None => {
            return None;
        },
    };
    let i7 = match expect_sym(v, i6, COMMA) {
        Some(j) => j,
        None => {
            return None;
        },
    };
    let krs: [u8; 17] = [
        QUOTE,
        'r' as u8,
        'e' as u8,
        's' as u8,
        'p' as u8,
        'o' as u8,
        'n' as u8,
        's' as u8,
        'e' as u8,
        '_' as u8,
        'f' as u8,
        'o' as u8,
        'r' as u8,
        'm' as u8,
        'a' as u8,
        't' as u8,
        QUOTE,
    ];
    assert(krs@ =~= key_response());
    let (rs, i8) = match parse_field(v, i7, krs.as_slice()) {
        Some(p) => p,
        None => {
            return None;
        },
    };
    let i9 = match expect_sym(v, i8, RBRACE) {
        Some(j) => j,
        None => {
            return None;
        },
    };
    let e = Endpoint { path, method, request_format: rq, response_format: rs };
    Some((e, i9))
}

/// Reads the endpoint objects of a non-empty array, up to and including
/// the closing bracket.
fn parse_ep_list(v: &Vec<u8>, i: usize) -> (r: Option<(Vec<Endpoint>, usize)>)
    requires
        i <= v.len(),
    ensures
        (match r {
            None => p_ep_list(v@, i as int) is None,
            Some(p) => p_ep_list(v@, i as int) == Some((ep_views(p.0@), p.1 as int)) && p.1
                <= v.len(),
        }),
{
    let mut eps: Vec<Endpoint> = Vec::new();
    let mut pos = i;
    loop
        invariant
            i <= pos <= v.len(),
            ({
                let full = p_ep_list(v@, i as int);
                match p_ep_list(v@, pos as int) {
                    None => full is None,
                    Some((es, k)) => full == Some((ep_views(eps@) + es, k)),
                }
            }),
        decreases v.len() - pos,
    {
        let (e, j) = match parse_endpoint(v, pos) {
            Some(p) => p,
            None => {
                return None;
            },
        };
        let ghost eps0 = eps@;
        eps.push(e);
        match expect_sym(v, j, COMMA) {
            Some(j2) => {
                if j2 <= pos {
                    return None;
                }
                proof {
                    if p_ep_list(v@, j2 as int) is Some {
                        let (es2, k) = p_ep_list(v@, j2 as int)->Some_0;
                        assert(ep_views(eps0) + (seq![e@] + es2) =~= ep_views(eps@) + es2);
                    }
                }
                pos = j2;
            },
            None => {
                match expect_sym(v, j, RBRACK) {
                    Some(j2) => {
                        assert(ep_views(eps0) + seq![e@] =~= ep_views(eps@));
                        assert(ep_views(eps@) + Seq::<EndpointView>::empty() =~= ep_views(eps@));
                        return Some((eps, j2));
                    },
                    None => {
                        return None;
                    },
                }
            },
        }
    }
}

/// Reads the endpoints array.
fn parse_endpoints(v: &Vec<u8>, i: usize) -> (r: Option<(Vec<Endpoint>, usize)>)
    requires
        i <= v.len(),
    ensures
        (match r {
            None => p_endpoints(v@, i as int) is None,
            Some(p) => p_endpoints(v@, i as int) == Some((ep_views(p.0@), p.1 as int)) && p.1
                <= v.len(),
        }),
{
    let j = match expect_sym(v, i, LBRACK) {
        Some(j) => j,
        None => {
            return None;
        },
    };
    let a = ws_skip(v, j);
    if a < v.len() && v[a] == RBRACK {
        let eps: Vec<Endpoint> = Vec::new();
        assert(ep_views(eps@) =~= Seq::<EndpointView>::empty());
        Some((eps, a + 1))
    } else {
        parse_ep_list(v, j)
    }
}

/// Reads the schema object.
fn parse_schema(v: &Vec<u8>, i: usize) -> (r: Option<(ApiSchema, usize)>)
    requires
        i <= v.len(),
    ensures
        (match r {
            None => p_schema(v@, i as int) is None,
            Some(p) => p_schema(v@, i as int) == Some((p.0@, p.1 as int)) && p.1 <= v.len(),
        }),
{
    let i1 = match expect_sym(v, i, LBRACE) {
        Some(j) => j,
        None => {
            return None;
        },
    };
    let kn: [u8; 6] = [QUOTE, 'n' as u8, 'a' as u8, 'm' as u8, 'e' as u8, QUOTE];
    assert(kn@ =~= key_name());
    let (name, i2) = match parse_field(v, i1, kn.as_slice()) {
        Some(p) => p,
        None => {
            return None;
        },
    };
    let i3 = match expect_sym(v, i2, COMMA) {
        Some(j) => j,
        None => {
            return None;
        },
    };
    let kv: [u8; 9] = [QUOTE, 'v' as u8, 'e' as u8, 'r' as u8, 's' as u8, 'i' as u8, 'o' as u8,
        'n' as u8, QUOTE];
    assert(kv@ =~= key_version());
    let (version, i4) = match parse_field(v, i3, kv.as_slice()) {
        Some(p) => p,
        None => {
            return None;
        },
    };
    let i5 = match expect_sym(v, i4, COMMA) {
        Some(j) => j,
        None => {
            return None;
        },
    };
    let ke: [u8; 11] = [
        QUOTE,
        'e' as u8,
        'n' as u8,
        'd' as u8,
        'p' as u8,
        'o' as u8,
        'i' as u8,
        'n' as u8,
        't' as u8,
        's' as u8,
        QUOTE,
    ];
    assert(ke@ =~= key_endpoints());
    let a5 = ws_skip(v, i5);
    let i6 = match match_lit(v, a5, ke.as_slice()) {
        Some(j) => j,
        None => {
            return None;
        },
    };
    let i7 = match expect_sym(v, i6, COLON) {
        Some(j) => j,
        None => {
            return None;
        },
    };
    let (eps, i8) = match parse_endpoints(v, i7) {
        Some(p) => p,
        None => {
            return None;
        },
    };
    let i9 = match expect_sym(v, i8, RBRACE) {
        Some(j) => j,
        None => {
            return None;
        },
    };
    let schema = ApiSchema { name, version, endpoints: eps };
    Some((schema, i9))
}

/// Decodes the on-disk bytes into a schema: exactly what `dec` denotes.
pub fn decode_schema(content: &Vec<u8>) -> (r: Option<ApiSchema>)
    ensures
        (match r {
            None => dec(content@) is None,
            Some(schema) => dec(content@) == Some(schema@),
        }),
{
    let (schema, j) = match parse_schema(content, 0) {
        Some(p) => p,
        None => {
            return None;
        },
    };
    let a = ws_skip(content, j);
    if a == content.len() {
        Some(schema)
    } else {
        None
    }
}

} // verus!
