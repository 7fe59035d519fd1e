use hmcdk::abi::{AbiInteger, AbiPrimitive};
use hmcdk::argument::ArgumentError;
use hmcdk::codegen::{
    contract, exit_code, get_assignment_from_arg, respond, Assignment, Diagnostic, Invocation,
    Refusal, FAILURE, SUCCESS,
};
use hmcdk::error::{from_str, Error};
use hmcdk::reader::{BUF_SIZE, SENTINEL};
use hmcdk::syntax::{FnArg, ItemFn, Pat, PathArguments, PathSegment, ReturnType, Type, TypePath};
use hmcdk::types::ToBytes;
use hmcdk::value::TypedValue;

fn plain(ident: &str) -> Type {
    Type::Path(TypePath {
        segments: vec![PathSegment { ident: ident.to_string(), arguments: PathArguments::Absent }],
    })
}

fn param(name: &str, ty: Type) -> FnArg {
    FnArg::Typed { pat: Pat::Ident(name.to_string()), ty }
}

fn function(inputs: Vec<FnArg>) -> ItemFn {
    ItemFn { attrs: vec![], ident: "transfer".to_string(), inputs, output: ReturnType::Default }
}

/// Pages the arguments out as the host does and counts its requests.
struct Arguments {
    args: Vec<Vec<u8>>,
    requests: Vec<(usize, usize)>,
}

impl Arguments {
    fn get_arg(&mut self, index: usize, offset: usize, buf: &mut [u8]) -> i32 {
        self.requests.push((index, offset));
        match self.args.get(index) {
            None => SENTINEL,
            Some(value) => {
                if offset >= value.len() {
                    return 0;
                }
                let n = std::cmp::min(buf.len(), value.len() - offset);
                buf[..n].copy_from_slice(&value[offset..offset + n]);
                n as i32
            }
        }
    }
}

fn invoke(
    kinds: Vec<AbiPrimitive>,
    args: Vec<Vec<u8>>,
) -> (Result<Vec<TypedValue>, Error>, Vec<(usize, usize)>) {
    let mut host = Arguments { args, requests: vec![] };
    let mut invocation = Invocation::new(kinds, BUF_SIZE);
    let mut buf = [0u8; BUF_SIZE];
    while let Some((index, offset)) = invocation.request() {
        let ret = host.get_arg(index, offset, &mut buf);
        invocation.answer(ret, &buf);
    }
    (invocation.finish().unwrap(), host.requests)
}

#[test]
fn entry_point_is_planned_from_the_parameters() {
    let f = function(vec![param("to", plain("Address")), param("amount", plain("i64"))]);
    let entry = contract(&f).unwrap();
    assert_eq!(entry.export_name, "transfer");
    assert_eq!(entry.fn_name, "__transfer");
    assert_eq!(
        entry.assignments,
        vec![
            Assignment { name: "to".to_string(), kind: AbiPrimitive::Address, index: 0 },
            Assignment {
                name: "amount".to_string(),
                kind: AbiPrimitive::Integer(AbiInteger::I64),
                index: 1
            },
        ]
    );
    let none = contract(&function(vec![])).unwrap();
    assert_eq!(none.assignments, vec![]);
}

#[test]
fn entry_point_is_rejected_with_its_first_bad_parameter() {
    let f = function(vec![
        param("a", plain("u8")),
        param("b", plain("usize")),
        FnArg::Receiver,
    ]);
    assert_eq!(
        contract(&f),
        Err(Diagnostic {
            index: 1,
            refusal: Refusal::Unresolved(ArgumentError::UnsupportedType("usize".to_string())),
        })
    );
}

#[test]
fn parameters_that_cannot_be_decoded() {
    assert_eq!(get_assignment_from_arg(&FnArg::Receiver, 0), Err(Refusal::ReceiverNotSupported));
    assert_eq!(
        get_assignment_from_arg(&FnArg::Typed { pat: Pat::Other, ty: plain("u8") }, 1),
        Err(Refusal::NoParameterName)
    );
    assert_eq!(
        get_assignment_from_arg(&param("x", Type::Other), 2),
        Err(Refusal::InvalidArgType)
    );
    assert_eq!(
        get_assignment_from_arg(&FnArg::Typed { pat: Pat::Other, ty: Type::Other }, 2),
        Err(Refusal::NoParameterName)
    );
    assert_eq!(
        get_assignment_from_arg(&param("x", Type::Path(TypePath { segments: vec![] })), 3),
        Err(Refusal::Unresolved(ArgumentError::UnrecognizedType))
    );
    assert_eq!(
        get_assignment_from_arg(&param("flag", plain("bool")), 7),
        Ok(Assignment { name: "flag".to_string(), kind: AbiPrimitive::Bool, index: 7 })
    );
}

#[test]
fn arguments_are_decoded_in_order() {
    let kinds = vec![
        AbiPrimitive::Address,
        AbiPrimitive::Integer(AbiInteger::I64),
        AbiPrimitive::Bytes,
    ];
    let long = vec![5u8; 300];
    let (args, requests) = invoke(kinds, vec![vec![1; 20], 5i64.to_bytes(), long.clone()]);
    assert_eq!(
        args,
        Ok(vec![TypedValue::Address([1; 20]), TypedValue::I64(5), TypedValue::Bytes(long)])
    );
    assert_eq!(requests, vec![(0, 0), (1, 0), (2, 0), (2, 128), (2, 256)]);
}

#[test]
fn invocation_without_parameters_asks_nothing() {
    let (args, requests) = invoke(vec![], vec![vec![1]]);
    assert_eq!(args, Ok(vec![]));
    assert_eq!(requests, vec![]);
}

#[test]
fn decoding_stops_at_the_first_failure() {
    let kinds = vec![
        AbiPrimitive::Integer(AbiInteger::U8),
        AbiPrimitive::Integer(AbiInteger::I64),
        AbiPrimitive::Bool,
    ];
    let (args, requests) = invoke(kinds.clone(), vec![vec![1], vec![0; 4], vec![1]]);
    assert_eq!(args, Err(Error::LengthMismatch { expected: 8, actual: 4 }));
    assert_eq!(requests, vec![(0, 0), (1, 0)]);

    let (args, requests) = invoke(kinds.clone(), vec![vec![1]]);
    assert_eq!(args, Err(Error::NotFound));
    assert_eq!(requests, vec![(0, 0), (1, 0)]);

    let (args, _) = invoke(kinds, vec![vec![1], vec![0; 8], vec![2]]);
    assert_eq!(args, Err(Error::InvalidBoolValue(2)));
}

#[test]
fn invocation_that_is_over_stays_as_it_is() {
    let mut invocation = Invocation::new(vec![AbiPrimitive::Bool], 4);
    assert_eq!(invocation.request(), Some((0, 0)));
    invocation.answer(1, &[1, 0, 0, 0]);
    assert_eq!(invocation.request(), None);
    invocation.answer(1, &[0, 0, 0, 0]);
    assert_eq!(invocation.finish(), Some(Ok(vec![TypedValue::Bool(true)])));

    let mut pending = Invocation::new(vec![AbiPrimitive::Bytes], 2);
    pending.answer(2, &[1, 2]);
    assert_eq!(pending.request(), Some((0, 2)));
    assert_eq!(pending.finish(), None);
}

#[test]
fn outcomes_become_replies() {
    let reply = respond(&Ok(Some(TypedValue::I64(8))));
    assert_eq!(reply.response, Some(vec![0, 0, 0, 0, 0, 0, 0, 8]));
    assert_eq!(reply.log, None);
    assert!(reply.success);

    let reply = respond(&Ok(None));
    assert_eq!(reply.response, None);
    assert_eq!(reply.log, None);
    assert!(reply.success);

    let reply = respond(&Err(from_str("invalid signer")));
    assert_eq!(reply.log, Some(b"invalid signer".to_vec()));
    assert_eq!(reply.response, Some(b"invalid signer".to_vec()));
    assert!(!reply.success);

    let reply = respond(&Err(Error::LengthMismatch { expected: 20, actual: 3 }));
    assert_eq!(reply.log, Some(b"a length of bytes must be 20, but got 3".to_vec()));
}

#[test]
fn exit_codes() {
    assert_eq!(SUCCESS, 0);
    assert_eq!(FAILURE, -1);
    assert_eq!(exit_code(true, None), 0);
    assert_eq!(exit_code(true, Some(0)), 0);
    assert_eq!(exit_code(true, Some(-1)), -1);
    assert_eq!(exit_code(true, Some(1)), -1);
    assert_eq!(exit_code(false, None), -1);
    assert_eq!(exit_code(false, Some(0)), -1);
}
