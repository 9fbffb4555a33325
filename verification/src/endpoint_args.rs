//! The endpoint argument parser: each command-line endpoint argument is
//! a comma-delimited record `path,method,request_format,response_format`.
//! Fields are split on the comma byte with no escaping and no trimming;
//! missing trailing fields take defaults (`GET` for the method, the empty
//! string elsewhere), and fields beyond the fourth are discarded.
use vstd::prelude::*;

use crate::schema::{ep_views, Endpoint, EndpointView};
use crate::text::{byte_views, copy_bytes, COMMA};

verus! {

/// Splitting on commas: the empty input is one empty field; a leading
/// comma opens a new empty field; any other byte extends the first field.
pub open spec fn split_commas(s: Seq<u8>) -> Seq<Seq<u8>>
    decreases s.len(),
{
    if s.len() == 0 {
        seq![Seq::<u8>::empty()]
    } else if s[0] == COMMA {
        seq![Seq::<u8>::empty()] + split_commas(s.skip(1))
    } else {
        let rest = split_commas(s.skip(1));
        seq![seq![s[0]] + rest[0]] + rest.skip(1)
    }
}

/// The method defaults to `GET`.
pub open spec fn default_method() -> Seq<u8> {
    seq![71u8, 69u8, 84u8]
}

/// How one endpoint record is filled from its split fields: the first
/// four fields are assigned in order, missing ones default.
pub open spec fn endpoint_of_fields(f: Seq<Seq<u8>>) -> EndpointView {
    EndpointView {
        path: if f.len() >= 1 {
            f[0]
        } else {
            Seq::<u8>::empty()
        },
        method: if f.len() >= 2 {
            f[1]
        } else {
            default_method()
        },
        request_format: if f.len() >= 3 {
            f[2]
        } else {
            Seq::<u8>::empty()
        },
        response_format: if f.len() >= 4 {
            f[3]
        } else {
            Seq::<u8>::empty()
        },
    }
}

/// The endpoint denoted by one comma-delimited argument.
pub open spec fn endpoint_of_arg(a: Seq<u8>) -> EndpointView {
    endpoint_of_fields(split_commas(a))
}

/// The endpoints denoted by a sequence of arguments, in input order.
pub open spec fn endpoints_of_args(a: Seq<Seq<u8>>) -> Seq<EndpointView> {
    a.map_values(|x: Seq<u8>| endpoint_of_arg(x))
}

/// Splits `arg` on every comma byte, with no escaping and no trimming.
pub fn split_fields(arg: &Vec<u8>) -> (r: Vec<Vec<u8>>)
    ensures
        byte_views(r@) == split_commas(arg@),
{
    let ghost s = arg@;
    let mut done: Vec<Vec<u8>> = Vec::new();
    let mut cur: Vec<u8> = Vec::new();
    let mut i: usize = 0;
    proof {
        assert(s.skip(0) =~= s);
        assert(split_commas(s).len() >= 1);
        assert(cur@ + split_commas(s)[0] =~= split_commas(s)[0]);
        assert(split_commas(s) =~~= byte_views(done@) + seq![cur@ + split_commas(s.skip(0))[0]]
            + split_commas(s.skip(0)).skip(1));
    }
    while i < arg.len()
        invariant
            0 <= i <= arg.len(),
            s == arg@,
            split_commas(s) == byte_views(done@) + seq![cur@ + split_commas(s.skip(i as int))[0]]
                + split_commas(s.skip(i as int)).skip(1),
        decreases arg.len() - i,
    {
        let ghost rem = split_commas(s.skip(i as int));
        let ghost rem1 = split_commas(s.skip(i + 1));
        let ghost done0 = done@;
        let ghost cur0 = cur@;
        proof {
            assert(s.skip(i as int).len() > 0);
            assert(s.skip(i as int)[0] == s[i as int]);
            assert(s.skip(i as int).skip(1) =~= s.skip(i + 1));
            assert(rem1.len() >= 1);
        }
        if arg[i] == COMMA {
            done.push(cur);
            cur = Vec::new();
            proof {
                assert(rem == seq![Seq::<u8>::empty()] + rem1);
                assert(done@.last()@ == cur0);
                assert(done@.drop_last() == done0);
                assert(split_commas(s) =~~= byte_views(done@) + seq![cur@ + rem1[0]] + rem1.skip(
                    1,
                ));
            }
        } else {
            let b = arg[i];
            cur.push(b);
            proof {
                assert(rem == seq![seq![s[i as int]] + rem1[0]] + rem1.skip(1));
                assert(rem[0] == seq![s[i as int]] + rem1[0]);
                assert(cur@ == cur0.push(b));
                assert(cur@ + rem1[0] =~= cur0 + rem[0]);
                assert(split_commas(s) =~~= byte_views(done@) + seq![cur@ + rem1[0]] + rem1.skip(
                    1,
                ));
            }
        }
        i = i + 1;
    }
    let ghost done0 = done@;
    let ghost cur0 = cur@;
    done.push(cur);
    proof {
        assert(s.skip(i as int) =~= Seq::<u8>::empty());
        assert(split_commas(s.skip(i as int)) == seq![Seq::<u8>::empty()]);
        assert(done@.last()@ == cur0);
        assert(byte_views(done@) =~~= split_commas(s));
    }
    done
}

/// Returns the default method label, `GET`.
fn default_method_bytes() -> (r: Vec<u8>)
    ensures
        r@ == default_method(),
{
    let mut v: Vec<u8> = Vec::new();
    v.push(71);
    v.push(69);
    v.push(84);
    assert(v@ =~= default_method());
    v
}

/// Decodes one comma-delimited argument into an endpoint record,
/// assigning the first four fields in order and defaulting the rest.
pub fn parse_endpoint_arg(arg: &Vec<u8>) -> (e: Endpoint)
    ensures
        e@ == endpoint_of_arg(arg@),
{
    let fields = split_fields(arg);
    let ghost f = split_commas(arg@);
    assert(f.len() == fields@.len());
    assert(forall|k: int| 0 <= k < fields@.len() ==> f[k] == (#[trigger] fields@[k])@);
    let n = fields.len();
    let path = if n >= 1 {
        copy_bytes(&fields[0])
    } else {
        Vec::new()
    };
    let method = if n >= 2 {
        copy_bytes(&fields[1])
    } else {
        default_method_bytes()
    };
    let request_format = if n >= 3 {
        copy_bytes(&fields[2])
    } else {
        Vec::new()
    };
    let response_format = if n >= 4 {
        copy_bytes(&fields[3])
    } else {
        Vec::new()
    };
    let e = Endpoint { path, method, request_format, response_format };
    assert(e@ =~= endpoint_of_arg(arg@));
    e
}

/// Decodes every argument, preserving input order.
pub fn parse_endpoint_args(args: &Vec<Vec<u8>>) -> (r: Vec<Endpoint>)
    ensures
        ep_views(r@) == endpoints_of_args(byte_views(args@)),
{
    let mut out: Vec<Endpoint> = Vec::new();
    let mut i: usize = 0;
    while i < args.len()
        invariant
            0 <= i <= args.len(),
            out@.len() == i,
            forall|k: int|
                0 <= k < i ==> (#[trigger] out@[k])@ == endpoint_of_arg(args@[k]@),
        decreases args.len() - i,
    {
        let e = parse_endpoint_arg(&args[i]);
        out.push(e);
        i = i + 1;
    }
    assert(ep_views(out@) =~= endpoints_of_args(byte_views(args@)));
    out
}

} // verus!
