//! The command handlers: everything the three subcommands decide or
//! compute, short of the file and console input/output itself. The
//! caller reads or writes files and prints messages; the handlers say
//! exactly which bytes go where.
use vstd::prelude::*;

use crate::codec::{enc_schema, encode_schema};
use crate::decode::{dec, decode_schema};
use crate::endpoint_args::{endpoints_of_args, parse_endpoint_args};
use crate::listing::ext_json;
use crate::markdown::{render_markdown, spec_markdown};
use crate::schema::{ApiSchema, SchemaView};
use crate::text::{byte_views, copy_bytes, push_bytes};

verus! {

/// `<name>.json`.
pub open spec fn json_file_name(name: Seq<u8>) -> Seq<u8> {
    name + ext_json()
}

/// `<name>_docs.md`.
pub open spec fn docs_file_name(name: Seq<u8>) -> Seq<u8> {
    name + seq![
        '_' as u8,
        'd' as u8,
        'o' as u8,
        'c' as u8,
        's' as u8,
        '.' as u8,
        'm' as u8,
        'd' as u8,
    ]
}

/// `Created schema: <name>.json`.
pub open spec fn created_message(name: Seq<u8>) -> Seq<u8> {
    seq![
        'C' as u8,
        'r' as u8,
        'e' as u8,
        'a' as u8,
        't' as u8,
        'e' as u8,
        'd' as u8,
        ' ' as u8,
        's' as u8,
        'c' as u8,
        'h' as u8,
        'e' as u8,
        'm' as u8,
        'a' as u8,
        ':' as u8,
        ' ' as u8,
    ] + name + ext_json()
}

/// `Schema file <name>.json not found.`
pub open spec fn not_found_message(name: Seq<u8>) -> Seq<u8> {
    seq![
        'S' as u8,
        'c' as u8,
        'h' as u8,
        'e' as u8,
        'm' as u8,
        'a' as u8,
        ' ' as u8,
        'f' as u8,
        'i' as u8,
        'l' as u8,
        'e' as u8,
        ' ' as u8,
    ] + name + ext_json() + seq![
        ' ' as u8,
        'n' as u8,
        'o' as u8,
        't' as u8,
        ' ' as u8,
        'f' as u8,
        'o' as u8,
        'u' as u8,
        'n' as u8,
        'd' as u8,
        '.' as u8,
    ]
}

/// `Documentation generated: <name>_docs.md`.
pub open spec fn docs_generated_message(name: Seq<u8>) -> Seq<u8> {
    seq![
        'D' as u8,
        'o' as u8,
        'c' as u8,
        'u' as u8,
        'm' as u8,
        'e' as u8,
        'n' as u8,
        't' as u8,
        'a' as u8,
        't' as u8,
        'i' as u8,
        'o' as u8,
        'n' as u8,
        ' ' as u8,
        'g' as u8,
        'e' as u8,
        'n' as u8,
        'e' as u8,
        'r' as u8,
        'a' as u8,
        't' as u8,
        'e' as u8,
        'd' as u8,
        ':' as u8,
        ' ' as u8,
    ] + docs_file_name(name)
}

/// The schema denoted by the `create` arguments.
pub open spec fn schema_of_args(name: Seq<u8>, version: Seq<u8>, args: Seq<Seq<u8>>) -> SchemaView {
    SchemaView { name, version, endpoints: endpoints_of_args(args) }
}

/// The bytes `create` persists, as a function of the arguments alone.
pub open spec fn create_content(name: Seq<u8>, version: Seq<u8>, args: Seq<Seq<u8>>) -> Seq<u8> {
    enc_schema(schema_of_args(name, version, args))
}

/// Builds `<name>.json`.
pub fn schema_file_name(name: &Vec<u8>) -> (r: Vec<u8>)
    ensures
        r@ == json_file_name(name@),
{
    let mut r = copy_bytes(name);
    let e: [u8; 5] = ['.' as u8, 'j' as u8, 's' as u8, 'o' as u8, 'n' as u8];
    push_bytes(&mut r, e.as_slice());
    assert(r@ =~= json_file_name(name@));
    r
}

/// Builds the schema record from the `create` arguments.
pub fn build_schema(name: &Vec<u8>, version: &Vec<u8>, endpoint_args: &Vec<Vec<u8>>) -> (r:
    ApiSchema)
    ensures
        r@ == schema_of_args(name@, version@, byte_views(endpoint_args@)),
{
    let r = ApiSchema {
        name: copy_bytes(name),
        version: copy_bytes(version),
        endpoints: parse_endpoint_args(endpoint_args),
    };
    assert(r@ =~= schema_of_args(name@, version@, byte_views(endpoint_args@)));
    r
}

/// Everything the `create` command writes and prints.
pub struct CreatePlan {
    pub file_name: Vec<u8>,
    pub content: Vec<u8>,
    pub message: Vec<u8>,
}

/// The `create` handler: file name, file content and status line for
/// the given arguments.
pub fn create_plan(name: &Vec<u8>, version: &Vec<u8>, endpoint_args: &Vec<Vec<u8>>) -> (p:
    CreatePlan)
    ensures
        p.file_name@ == json_file_name(name@),
        p.content@ == create_content(name@, version@, byte_views(endpoint_args@)),
        p.message@ == created_message(name@),
{
    let schema = build_schema(name, version, endpoint_args);
    let content = encode_schema(&schema);
    let file_name = schema_file_name(name);
    let mut message: Vec<u8> = Vec::new();
    let lit: [u8; 16] = ['C' as u8, 'r' as u8, 'e' as u8, 'a' as u8, 't' as u8, 'e' as u8,
        'd' as u8, ' ' as u8, 's' as u8, 'c' as u8, 'h' as u8, 'e' as u8, 'm' as u8, 'a' as u8,
        ':' as u8, ' ' as u8];
    push_bytes(&mut message, lit.as_slice());
    push_bytes(&mut message, name.as_slice());
    let e: [u8; 5] = ['.' as u8, 'j' as u8, 's' as u8, 'o' as u8, 'n' as u8];
    push_bytes(&mut message, e.as_slice());
    assert(message@ =~= created_message(name@));
    CreatePlan { file_name, content, message }
}

/// What the `generate-docs` command does once the schema file has been
/// probed: report it missing, fail on a malformed file, or emit the
/// documentation.
pub enum DocsOutcome {
    NotFound { message: Vec<u8> },
    DecodeFailed,
    Generated { file_name: Vec<u8>, content: Vec<u8>, message: Vec<u8> },
}

/// The `generate-docs` handler. `file` is the content of
/// `<name>.json`, or `None` when that file does not exist.
pub fn docs_plan(name: &Vec<u8>, file: Option<&Vec<u8>>) -> (r: DocsOutcome)
    ensures
        (match file {
            None => r matches DocsOutcome::NotFound { message } && message@ == not_found_message(
                name@,
            ),
            Some(c) => match dec(c@) {
                None => r is DecodeFailed,
                Some(v) => r matches DocsOutcome::Generated { file_name, content, message }
                    && file_name@ == docs_file_name(name@) && content@ == spec_markdown(v)
                    && message@ == docs_generated_message(name@),
            },
        }),
{
    match file {
        None => {
            let mut message: Vec<u8> = Vec::new();
            let l1: [u8; 12] = ['S' as u8, 'c' as u8, 'h' as u8, 'e' as u8, 'm' as u8, 'a' as u8,
                ' ' as u8, 'f' as u8, 'i' as u8, 'l' as u8, 'e' as u8, ' ' as u8];
            push_bytes(&mut message, l1.as_slice());
            push_bytes(&mut message, name.as_slice());
            let e: [u8; 5] = ['.' as u8, 'j' as u8, 's' as u8, 'o' as u8, 'n' as u8];
            push_bytes(&mut message, e.as_slice());
            let l2: [u8; 11] = [' ' as u8, 'n' as u8, 'o' as u8, 't' as u8, ' ' as u8, 'f' as u8,
                'o' as u8, 'u' as u8, 'n' as u8, 'd' as u8, '.' as u8];
            push_bytes(&mut message, l2.as_slice());
            assert(message@ =~= not_found_message(name@));
            DocsOutcome::NotFound { message }
        },
        Some(c) => {
            match decode_schema(c) {
                None => DocsOutcome::DecodeFailed,
                Some(schema) => {
                    let content = render_markdown(&schema);
                    let mut file_name = copy_bytes(name);
                    let sfx: [u8; 8] = ['_' as u8, 'd' as u8, 'o' as u8, 'c' as u8, 's' as u8,
                        '.' as u8, 'm' as u8, 'd' as u8];
                    push_bytes(&mut file_name, sfx.as_slice());
                    assert(file_name@ =~= docs_file_name(name@));
                    let mut message: Vec<u8> = Vec::new();
                    let lit: [u8; 25] = [
                        'D' as u8,
                        'o' as u8,
                        'c' as u8,
                        'u' as u8,
                        'm' as u8,
                        'e' as u8,
                        'n' as u8,
                        't' as u8,
                        'a' as u8,
                        't' as u8,
                        'i' as u8,
                        'o' as u8,
                        'n' as u8,
                        ' ' as u8,
                        'g' as u8,
                        'e' as u8,
                        'n' as u8,
                        'e' as u8,
                        'r' as u8,
                        'a' as u8,
                        't' as u8,
                        'e' as u8,
                        'd' as u8,
                        ':' as u8,
                        ' ' as u8,
                    ];
                    push_bytes(&mut message, lit.as_slice());
                    push_bytes(&mut message, name.as_slice());
                    push_bytes(&mut message, sfx.as_slice());
                    assert(message@ =~= docs_generated_message(name@));
                    DocsOutcome::Generated { file_name, content, message }
                },
            }
        },
    }
}

/// Idempotent create: the persisted bytes are a function of the
/// arguments alone, so running `create` twice with identical arguments
/// writes identical file content.
pub proof fn lemma_create_idempotent(
    n1: Seq<u8>,
    v1: Seq<u8>,
    a1: Seq<Seq<u8>>,
    n2: Seq<u8>,
    v2: Seq<u8>,
    a2: Seq<Seq<u8>>,
)
    requires
        n1 == n2,
        v1 == v2,
        a1 == a2,
    ensures
        create_content(n1, v1, a1) == create_content(n2, v2, a2),
{
}

} // verus!
