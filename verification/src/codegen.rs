//! The dispatch generator: from the signature of a typed function to an
//! entry point that the host can call without arguments.
//!
//! At build time an entry point is planned from the function's parameters;
//! one whose parameters cannot be decoded is rejected.  At run time an
//! invocation reads and decodes the arguments in the order of the
//! parameters, stops at the first that fails, and turns the function's
//! outcome into a response, a log line and a return code.

use crate::abi::AbiPrimitive;
use crate::api::Reply;
use crate::argument::{resolve, resolve_type, ArgumentError, ArgumentErrorView};
use crate::error::{message_of, Error};
use crate::reader::{outcome, page, start, step, unread, ChunkedReader, ReadStatus, ReaderView};
use crate::syntax::{FnArg, ItemFn, Pat, Type};
use crate::types::{ToBytes, R};
use crate::value::{decode_value, encode_value, lemma_decode_then_encode, TypedValue, TypedView};
use vstd::prelude::*;
use vstd::slice::slice_to_vec;
use vstd::string::StringExecFns;
use vstd::utf8::encode_utf8;

verus! {

/// The code that an entry point returns to the host on success.
pub const SUCCESS: i32 = 0;

/// The code that an entry point returns to the host on failure.
pub const FAILURE: i32 = -1;

/// Why a parameter cannot be decoded from an argument.
#[derive(Debug, Clone, PartialEq, Eq)]
pub enum Refusal {
    /// The parameter is `self`.
    ReceiverNotSupported,
    /// The parameter is a pattern, not a name.
    NoParameterName,
    /// The type is not written as a path.
    InvalidArgType,
    /// The type does not resolve to the vocabulary.
    Unresolved(ArgumentError),
}

/// A refusal as specifications speak of it.
pub ghost enum RefusalView {
    ReceiverNotSupported,
    NoParameterName,
    InvalidArgType,
    Unresolved(ArgumentErrorView),
}

impl View for Refusal {
    type V = RefusalView;

    open spec fn view(&self) -> RefusalView {
        match *self {
            Refusal::ReceiverNotSupported => RefusalView::ReceiverNotSupported,
            Refusal::NoParameterName => RefusalView::NoParameterName,
            Refusal::InvalidArgType => RefusalView::InvalidArgType,
            Refusal::Unresolved(e) => RefusalView::Unresolved(e@),
        }
    }
}

/// The diagnostic for an entry point that is rejected: the position of the
/// offending parameter and what is wrong with it.
#[derive(Debug, Clone, PartialEq, Eq)]
pub struct Diagnostic {
    pub index: usize,
    pub refusal: Refusal,
}

/// The plan for one parameter: the argument at `index` is decoded as
/// `kind` and bound to `name`.
#[derive(Debug, Clone, PartialEq, Eq)]
pub struct Assignment {
    pub name: String,
    pub kind: AbiPrimitive,
    pub index: usize,
}

/// An assignment as specifications speak of it.
pub ghost struct AssignmentView {
    pub name: Seq<char>,
    pub kind: AbiPrimitive,
    pub index: nat,
}

impl View for Assignment {
    type V = AssignmentView;

    open spec fn view(&self) -> AssignmentView {
        AssignmentView { name: self.name@, kind: self.kind, index: self.index as nat }
    }
}

/// The views of a list of assignments.
pub open spec fn assignment_views(assignments: Seq<Assignment>) -> Seq<AssignmentView> {
    Seq::new(assignments.len(), |i: int| assignments[i]@)
}

/// The plan of an entry point.
#[derive(Debug, Clone, PartialEq, Eq)]
pub struct EntryPoint {
    /// The name under which the host calls the entry point: the function's.
    pub export_name: String,
    /// The name of the generated function: the function's behind `__`.
    pub fn_name: String,
    pub assignments: Vec<Assignment>,
}

/// The plan for the parameter at `index`, or why it has none.
pub open spec fn assignment_of(arg: FnArg, index: nat) -> Result<AssignmentView, RefusalView> {
    match arg {
        FnArg::Receiver => Err(RefusalView::ReceiverNotSupported),
        FnArg::Typed { pat: Pat::Other, .. } => Err(RefusalView::NoParameterName),
        FnArg::Typed { pat: Pat::Ident(name), ty } => match ty {
            Type::Other => Err(RefusalView::InvalidArgType),
            Type::Path(_) => match resolve(ty) {
                Ok(kind) => Ok(AssignmentView { name: name@, kind, index }),
                Err(e) => Err(RefusalView::Unresolved(e)),
            },
        },
    }
}

/// The plans for the parameters of a function, in order, or the position
/// and refusal of the first that has none.
pub open spec fn assignments_of(args: Seq<FnArg>) -> Result<Seq<AssignmentView>, (nat, RefusalView)>
    decreases args.len(),
{
    if args.len() == 0 {
        Ok(Seq::empty())
    } else {
        match assignments_of(args.drop_last()) {
            Err(e) => Err(e),
            Ok(assignments) => match assignment_of(args.last(), (args.len() - 1) as nat) {
                Ok(assignment) => Ok(assignments.push(assignment)),
                Err(refusal) => Err(((args.len() - 1) as nat, refusal)),
            },
        }
    }
}

pub fn get_assignment_from_arg(arg: &FnArg, index: usize) -> (r: Result<Assignment, Refusal>)
    ensures
        match r {
            Ok(a) => assignment_of(*arg, index as nat) == Ok::<AssignmentView, RefusalView>(a@),
            Err(e) => assignment_of(*arg, index as nat) == Err::<AssignmentView, RefusalView>(e@),
        },
{
    match arg {
        FnArg::Typed { pat, ty } => {
            match pat {
                Pat::Ident(name) => {
                    match ty {
                        Type::Path(_) => match resolve_type(ty) {
                            Ok(kind) => Ok(Assignment { name: name.clone(), kind, index }),
                            Err(e) => Err(Refusal::Unresolved(e)),
                        },
                        Type::Other => Err(Refusal::InvalidArgType),
                    }
                },
                Pat::Other => Err(Refusal::NoParameterName),
            }
        },
        FnArg::Receiver => Err(Refusal::ReceiverNotSupported),
    }
}

/// Plans the entry point for the function `f`, or rejects it with the
/// diagnostic for its first parameter that cannot be decoded.
pub fn contract(f: &ItemFn) -> (r: Result<EntryPoint, Diagnostic>)
    ensures
        match r {
            Ok(entry) => {
                &&& entry.export_name@ == f.ident@
                &&& entry.fn_name@ == "__"@ + f.ident@
                &&& assignments_of(f.inputs@) == Ok::<Seq<AssignmentView>, (nat, RefusalView)>(
                    assignment_views(entry.assignments@),
                )
            },
            Err(d) => assignments_of(f.inputs@) == Err::<Seq<AssignmentView>, (nat, RefusalView)>(
                (d.index as nat, d.refusal@),
            ),
        },
{
    let mut assignments: Vec<Assignment> = Vec::new();
    let mut c: usize = 0;
    assert(f.inputs@.take(0) =~= Seq::<FnArg>::empty());
    assert(assignment_views(assignments@) =~= Seq::<AssignmentView>::empty());
    while c < f.inputs.len()
        invariant
            c <= f.inputs@.len(),
            assignments_of(f.inputs@.take(c as int)) == Ok::<
                Seq<AssignmentView>,
                (nat, RefusalView),
            >(assignment_views(assignments@)),
        decreases f.inputs@.len() - c,
    {
        proof {
            assert(f.inputs@.take(c + 1).drop_last() =~= f.inputs@.take(c as int));
            assert(f.inputs@.take(c + 1).last() == f.inputs@[c as int]);
        }
        match get_assignment_from_arg(&f.inputs[c], c) {
            Ok(assignment) => {
                let ghost before = assignment_views(assignments@);
                assignments.push(assignment);
                assert(assignment_views(assignments@) =~= before.push(assignment@));
            },
            Err(refusal) => {
                proof {
                    lemma_assignments_error(f.inputs@, c + 1);
                }
                return Err(Diagnostic { index: c, refusal });
            },
        }
        c = c + 1;
    }
    assert(f.inputs@.take(c as int) =~= f.inputs@);
    let fn_name = "__".to_owned().concat(f.ident.as_str());
    Ok(EntryPoint { export_name: f.ident.clone(), fn_name, assignments })
}

proof fn lemma_assignments_error(args: Seq<FnArg>, n: int)
    requires
        0 <= n <= args.len(),
        assignments_of(args.take(n)) is Err,
    ensures
        assignments_of(args) == assignments_of(args.take(n)),
    decreases args.len() - n,
{
    if n < args.len() {
        assert(args.take(n + 1).drop_last() =~= args.take(n));
        lemma_assignments_error(args, n + 1);
    } else {
        assert(args.take(n) =~= args);
    }
}

/// The reading and decoding of the arguments of one invocation.
pub struct Invocation {
    kinds: Vec<AbiPrimitive>,
    args: Vec<TypedValue>,
    reader: ChunkedReader,
    failure: Option<Error>,
}

/// An invocation as specifications speak of it.
pub ghost struct InvocationView {
    /// The types of the parameters, in order.
    pub kinds: Seq<AbiPrimitive>,
    /// The arguments decoded so far.
    pub args: Seq<TypedView>,
    /// The read of the next argument.
    pub reader: ReaderView,
    /// The error that ended the invocation, if one did.
    pub failure: Option<Error>,
}

/// The views of a list of values.
pub open spec fn typed_views(args: Seq<TypedValue>) -> Seq<TypedView> {
    Seq::new(args.len(), |i: int| args[i]@)
}

impl View for Invocation {
    type V = InvocationView;

    closed spec fn view(&self) -> InvocationView {
        InvocationView {
            kinds: self.kinds@,
            args: typed_views(self.args@),
            reader: self.reader@,
            failure: self.failure,
        }
    }
}

impl InvocationView {
    /// Each argument decoded so far is a value of its parameter's type,
    /// and the read of the next one is under way.
    pub open spec fn wf(self) -> bool {
        &&& self.args.len() <= self.kinds.len()
        &&& forall|i: int|
            0 <= i < self.args.len() ==> (#[trigger] self.args[i]).kind() == self.kinds[i]
                && self.args[i].in_range()
        &&& self.reader.status == ReadStatus::Pending
    }

    /// Whether an argument is still to be read: none has failed and not
    /// all are there.
    pub open spec fn reading(self) -> bool {
        self.failure is None && self.args.len() < self.kinds.len()
    }
}

/// An invocation before its first request.
pub open spec fn begin(kinds: Seq<AbiPrimitive>, capacity: nat) -> InvocationView {
    InvocationView { kinds, args: Seq::empty(), reader: start(capacity), failure: None }
}

/// The invocation after the host has answered `ret` to the request for the
/// next page of the next argument.
///
/// While the argument is incomplete only its read goes on.  A complete
/// argument is decoded as the type of its parameter and joins the others.
/// An argument that the host does not have, or that does not decode, ends
/// the invocation with its error: no later argument is asked for.
pub open spec fn answer(v: InvocationView, ret: int, buf: Seq<u8>) -> InvocationView {
    if !v.reading() {
        v
    } else {
        let reader = step(v.reader, ret, buf);
        let fresh = start(v.reader.capacity);
        match outcome(reader) {
            None => InvocationView { reader, ..v },
            Some(Ok(bytes)) => match decode_value(v.kinds[v.args.len() as int], bytes) {
                Ok(value) => InvocationView { args: v.args.push(value), reader: fresh, ..v },
                Err(e) => InvocationView { failure: Some(e), reader: fresh, ..v },
            },
            Some(Err(e)) => InvocationView { failure: Some(e), reader: fresh, ..v },
        }
    }
}

/// What a finished invocation hands to the function: all the arguments,
/// or the error of the first that failed; `None` while one is being read.
pub open spec fn arguments_of(v: InvocationView) -> Option<Result<Seq<TypedView>, Error>> {
    match v.failure {
        Some(e) => Some(Err(e)),
        None => if v.args.len() < v.kinds.len() {
            None
        } else {
            Some(Ok(v.args))
        },
    }
}

/// Reading goes on from a well-formed invocation to a well-formed one.
pub proof fn lemma_answer_wf(v: InvocationView, ret: int, buf: Seq<u8>)
    requires
        v.wf(),
    ensures
        answer(v, ret, buf).wf(),
        answer(v, ret, buf).kinds == v.kinds,
        v.args.is_prefix_of(answer(v, ret, buf).args),
{
    if v.reading() {
        let reader = step(v.reader, ret, buf);
        match outcome(reader) {
            Some(Ok(bytes)) => {
                let kind = v.kinds[v.args.len() as int];
                if decode_value(kind, bytes) is Ok {
                    lemma_decode_then_encode(kind, bytes);
                }
            },
            _ => {},
        }
    }
}

/// The argument at `index` in a host that holds the arguments `held`.
pub open spec fn held_argument(held: Seq<Seq<u8>>, index: nat) -> Option<Seq<u8>> {
    if index < held.len() {
        Some(held[index as int])
    } else {
        None
    }
}

/// The arguments `held`, decoded as the types `kinds` in order, or the
/// error of the first that is missing or does not decode.
pub open spec fn decode_arguments(kinds: Seq<AbiPrimitive>, held: Seq<Seq<u8>>) -> Result<
    Seq<TypedView>,
    Error,
>
    decreases kinds.len(),
{
    if kinds.len() == 0 {
        Ok(Seq::empty())
    } else {
        match decode_arguments(kinds.drop_last(), held) {
            Err(e) => Err(e),
            Ok(args) => match held_argument(held, (kinds.len() - 1) as nat) {
                None => Err(Error::NotFound),
                Some(bytes) => match decode_value(kinds.last(), bytes) {
                    Ok(value) => Ok(args.push(value)),
                    Err(e) => Err(e),
                },
            },
        }
    }
}

/// The parameters whose arguments an invocation has still to read.
pub open spec fn parameters_left(v: InvocationView) -> nat {
    if v.reading() {
        (v.kinds.len() - v.args.len()) as nat
    } else {
        0
    }
}

/// The end of an invocation against a host that holds the arguments
/// `held`: each request is answered with the page asked for.
pub open spec fn invoke(v: InvocationView, held: Seq<Seq<u8>>) -> InvocationView
    decreases parameters_left(v), unread(held_argument(held, v.args.len()), v.reader),
{
    if !v.reading() || v.reader.capacity == 0 || v.reader.status != ReadStatus::Pending {
        v
    } else {
        let (ret, data) = page(
            held_argument(held, v.args.len()),
            v.reader.value.len(),
            v.reader.capacity,
        );
        invoke(answer(v, ret, data), held)
    }
}

proof fn lemma_decode_arguments_error(kinds: Seq<AbiPrimitive>, held: Seq<Seq<u8>>, n: int)
    requires
        0 <= n <= kinds.len(),
        decode_arguments(kinds.take(n), held) is Err,
    ensures
        decode_arguments(kinds, held) == decode_arguments(kinds.take(n), held),
    decreases kinds.len() - n,
{
    if n < kinds.len() {
        assert(kinds.take(n + 1).drop_last() =~= kinds.take(n));
        lemma_decode_arguments_error(kinds, held, n + 1);
    } else {
        assert(kinds.take(n) =~= kinds);
    }
}

proof fn lemma_invoke_from(v: InvocationView, held: Seq<Seq<u8>>)
    requires
        v.failure is None,
        v.args.len() <= v.kinds.len(),
        decode_arguments(v.kinds.take(v.args.len() as int), held) == Ok::<Seq<TypedView>, Error>(
            v.args,
        ),
        v.reader.status == ReadStatus::Pending,
        v.reader.capacity > 0,
        match held_argument(held, v.args.len()) {
            Some(bytes) => v.reader.value.len() <= bytes.len() && v.reader.value == bytes.take(
                v.reader.value.len() as int,
            ),
            None => true,
        },
    ensures
        arguments_of(invoke(v, held)) == Some(decode_arguments(v.kinds, held)),
    decreases parameters_left(v), unread(held_argument(held, v.args.len()), v.reader),
{
    let n = v.args.len() as int;
    if !v.reading() {
        assert(v.kinds.take(n) =~= v.kinds);
    } else {
        let capacity = v.reader.capacity as int;
        let (ret, data) = page(held_argument(held, v.args.len()), v.reader.value.len(), v.reader.capacity);
        let next = answer(v, ret, data);
        let reader = step(v.reader, ret, data);
        assert(invoke(v, held) == invoke(next, held));
        assert(v.kinds.take(n + 1).drop_last() =~= v.kinds.take(n));
        assert(v.kinds.take(n + 1).last() == v.kinds[n]);
        match held_argument(held, v.args.len()) {
            None => {
                assert(next.failure == Some(Error::NotFound));
                lemma_decode_arguments_error(v.kinds, held, n + 1);
            },
            Some(bytes) => {
                let offset = v.reader.value.len() as int;
                let left = bytes.len() - offset;
                if left >= capacity {
                    assert(reader.value =~= bytes.take(offset + capacity));
                    assert(next.args == v.args);
                    lemma_invoke_from(next, held);
                } else {
                    if left == 0 {
                        assert(v.reader.value =~= bytes);
                    } else {
                        assert(reader.value =~= bytes);
                    }
                    assert(outcome(reader) == Some(Ok::<Seq<u8>, Error>(bytes)));
                    match decode_value(v.kinds[n], bytes) {
                        Ok(value) => {
                            assert(next.args == v.args.push(value));
                            assert(next.reader.value =~= Seq::<u8>::empty());
                            match held_argument(held, next.args.len()) {
                                Some(b) => {
                                    assert(b.take(0) =~= Seq::<u8>::empty());
                                },
                                None => {},
                            }
                            lemma_invoke_from(next, held);
                        },
                        Err(e) => {
                            assert(next.failure == Some(e));
                            lemma_decode_arguments_error(v.kinds, held, n + 1);
                        },
                    }
                }
            },
        }
    }
}

/// Positional, fail-fast decoding: against a host that holds the arguments
/// `held`, an invocation ends with the arguments decoded as the types of
/// the parameters, in order, or with the error of the first argument that
/// is missing or does not decode.
pub proof fn lemma_invoke(kinds: Seq<AbiPrimitive>, held: Seq<Seq<u8>>, capacity: nat)
    requires
        capacity > 0,
    ensures
        arguments_of(invoke(begin(kinds, capacity), held)) == Some(decode_arguments(kinds, held)),
{
    assert(kinds.take(0) =~= Seq::<AbiPrimitive>::empty());
    match held_argument(held, 0) {
        Some(b) => {
            assert(b.take(0) =~= Seq::<u8>::empty());
        },
        None => {},
    }
    lemma_invoke_from(begin(kinds, capacity), held);
}

impl Invocation {
    /// Starts an invocation of a function with parameters of the types
    /// `kinds`; arguments are read in pages of `capacity` bytes.
    pub fn new(kinds: Vec<AbiPrimitive>, capacity: usize) -> (invocation: Invocation)
        ensures
            invocation@ == begin(kinds@, capacity as nat),
            invocation@.wf(),
    {
        let invocation = Invocation {
            kinds,
            args: Vec::new(),
            reader: ChunkedReader::new(capacity),
            failure: None,
        };
        assert(typed_views(invocation.args@) =~= Seq::<TypedView>::empty());
        invocation
    }

    /// The request to make of the host: the index of the argument to read
    /// and the offset of its next page.  `None` once the invocation is over.
    pub fn request(&self) -> (next: Option<(usize, usize)>)
        ensures
            next == if self@.reading() {
                Some((self@.args.len() as usize, self@.reader.value.len() as usize))
            } else {
                None
            },
    {
        if self.failure.is_none() && self.args.len() < self.kinds.len() {
            Some((self.args.len(), self.reader.offset()))
        } else {
            None
        }
    }

    /// Takes the host's answer `ret` to the last request, with the buffer
    /// that the host wrote to.
    pub fn answer(&mut self, ret: i32, buf: &[u8])
        ensures
            final(self)@ == answer(old(self)@, ret as int, buf@),
    {
        if self.failure.is_some() || self.args.len() >= self.kinds.len() {
            return ;
        }
        self.reader.feed(ret, buf);
        match self.reader.take_result() {
            None => {},
            Some(Ok(bytes)) => {
                let kind = self.kinds[self.args.len()];
                match TypedValue::from_bytes(kind, bytes.as_slice()) {
                    Ok(value) => {
                        let ghost before = typed_views(self.args@);
                        self.args.push(value);
                        assert(typed_views(self.args@) =~= before.push(value@));
                    },
                    Err(e) => {
                        self.failure = Some(e);
                    },
                }
            },
            Some(Err(e)) => {
                self.failure = Some(e);
            },
        }
    }

    /// The arguments once all are decoded, or the error that ended the
    /// invocation; `None` while an argument is being read.
    pub fn finish(self) -> (r: Option<Result<Vec<TypedValue>, Error>>)
        ensures
            match r {
                None => arguments_of(self@) is None,
                Some(Ok(args)) => arguments_of(self@) == Some(
                    Ok::<Seq<TypedView>, Error>(typed_views(args@)),
                ),
                Some(Err(e)) => arguments_of(self@) == Some(Err::<Seq<TypedView>, Error>(e)),
            },
    {
        match self.failure {
            Some(e) => Some(Err(e)),
            None => if self.args.len() < self.kinds.len() {
                None
            } else {
                Some(Ok(self.args))
            },
        }
    }
}

/// Turns the outcome of the function into what the entry point leaves
/// behind: the encoded value as the response; nothing for an empty
/// success; for an error its message, in the log and as the response.
pub fn respond(outcome: &R<TypedValue>) -> (reply: Reply)
    ensures
        match *outcome {
            Ok(Some(v)) => {
                &&& reply.success
                &&& reply.log is None
                &&& reply.response matches Some(bytes) && bytes@ == encode_value(v@)
            },
            Ok(None) => reply.success && reply.log is None && reply.response is None,
            Err(e) => {
                &&& !reply.success
                &&& reply.log matches Some(line) && line@ == encode_utf8(message_of(e))
                &&& reply.response matches Some(bytes) && bytes@ == encode_utf8(message_of(e))
            },
        },
{
    match outcome {
        Ok(Some(v)) => Reply { log: None, response: Some(v.to_bytes()), success: true },
        Ok(None) => Reply { log: None, response: None, success: true },
        Err(e) => {
            let text = e.message();
            let line = slice_to_vec(text.as_str().as_bytes());
            let bytes = slice_to_vec(text.as_str().as_bytes());
            Reply { log: Some(line), response: Some(bytes), success: false }
        },
    }
}

/// The code that the entry point returns: success only if the function
/// succeeded and the host took the response, where there was one.
pub fn exit_code(success: bool, set_response: Option<i32>) -> (code: i32)
    ensures
        code == if success && (set_response is None || set_response == Some(0i32)) {
            SUCCESS
        } else {
            FAILURE
        },
{
    if !success {
        FAILURE
    } else {
        match set_response {
            None => SUCCESS,
            Some(ret) => if ret == 0 {
                SUCCESS
            } else {
                FAILURE
            },
        }
    }
}

} // verus!
