//! The interface extractor: from the declarations of a contract's source to
//! the catalog of its entry points.
//!
//! A function is an entry point if it carries the attribute `contract`.
//! `contract(readonly)` marks one that only reads the state.

use crate::argument::{
    argument_of, from_name_and_type, resolved, Argument, ArgumentError, ArgumentErrorView,
    ArgumentView,
};
use crate::syntax::{Attribute, AttributeArgs, FnArg, ItemFn, Pat, ReturnType};
use crate::utils::str_eq;
use vstd::prelude::*;

verus! {

/// An entry point of a contract, as the catalog describes it.
#[derive(Debug, Clone, PartialEq, Eq)]
pub struct Function {
    /// The kind of the record: always `function`.
    pub kind: String,
    pub name: String,
    /// Whether the entry point only reads the state.
    pub simulate: bool,
    pub inputs: Vec<Argument>,
    /// The result, if the entry point has one.
    pub outputs: Vec<Argument>,
}

/// An entry point as specifications speak of it.
pub ghost struct FunctionView {
    pub kind: Seq<char>,
    pub name: Seq<char>,
    pub simulate: bool,
    pub inputs: Seq<ArgumentView>,
    pub outputs: Seq<ArgumentView>,
}

/// The views of a list of inputs or outputs.
pub open spec fn argument_views(arguments: Seq<Argument>) -> Seq<ArgumentView> {
    Seq::new(arguments.len(), |i: int| arguments[i]@)
}

impl View for Function {
    type V = FunctionView;

    open spec fn view(&self) -> FunctionView {
        FunctionView {
            kind: self.kind@,
            name: self.name@,
            simulate: self.simulate,
            inputs: argument_views(self.inputs@),
            outputs: argument_views(self.outputs@),
        }
    }
}

/// The views of a list of entry points.
pub open spec fn function_views(functions: Seq<Function>) -> Seq<FunctionView> {
    Seq::new(functions.len(), |i: int| functions[i]@)
}

/// What the annotations of a function say of it.
pub ghost struct Marks {
    /// The function is an entry point.
    pub contract: bool,
    /// An annotation marks it read-only.
    pub readonly: bool,
}

/// What `syn::parse_str::<syn::Ident>` makes of a text: the identifier that
/// the text is, or the message of the parser's error.
pub uninterp spec fn parsed_ident(tokens: Seq<char>) -> Result<Seq<char>, Seq<char>>;

/// The outcome of parsing, seen through the views of its texts.
pub open spec fn text_result(r: Result<String, String>) -> Result<Seq<char>, Seq<char>> {
    match r {
        Ok(text) => Ok(text@),
        Err(msg) => Err(msg@),
    }
}

/// Calls `syn::parse_str::<syn::Ident>` on `tokens`.  The parser reads
/// nothing but its input, so the outcome is the one that `parsed_ident`
/// names: the identifier as text, or the error as the message it displays.
/// Nothing is claimed of which texts are identifiers.
#[verifier::external_body]
fn parse_ident(tokens: &str) -> (r: Result<String, String>)
    ensures
        text_result(r) == parsed_ident(tokens@),
{
    match syn::parse_str::<syn::Ident>(tokens) {
        Ok(ident) => Ok(ident.to_string()),
        Err(err) => Err(err.to_string()),
    }
}

/// What the argument of an entry-point annotation says, given what the
/// parser made of it: the identifier `readonly` marks the entry point
/// read-only, any other identifier does not, and what is no identifier is
/// an error.
pub open spec fn readonly_of(parsed: Result<Seq<char>, Seq<char>>) -> Result<
    bool,
    ArgumentErrorView,
> {
    match parsed {
        Ok(ident) => Ok(ident == "readonly"@),
        Err(msg) => Err(ArgumentErrorView::InvalidAnnotation(msg)),
    }
}

/// Reads the argument of an entry-point annotation from what the parser
/// made of it.
pub fn annotation_argument(parsed: Result<String, String>) -> (r: Result<bool, ArgumentError>)
    ensures
        match r {
            Ok(readonly) => readonly_of(text_result(parsed)) == Ok::<bool, ArgumentErrorView>(
                readonly,
            ),
            Err(e) => readonly_of(text_result(parsed)) == Err::<bool, ArgumentErrorView>(e@),
        },
{
    match parsed {
        Ok(ident) => Ok(str_eq(ident.as_str(), "readonly")),
        Err(msg) => Err(ArgumentError::InvalidAnnotation(msg)),
    }
}

/// Whether an attribute is the entry-point annotation.
pub open spec fn is_contract(attr: Attribute) -> bool {
    attr.path@.len() == 1 && attr.path@[0]@ == "contract"@
}

/// What the attributes of a function say, read in order.  An entry-point
/// annotation may stand without an argument.  The first one whose
/// argument is not a single identifier is an error.
pub open spec fn marks_of(attrs: Seq<Attribute>) -> Result<Marks, ArgumentErrorView>
    decreases attrs.len(),
{
    if attrs.len() == 0 {
        Ok(Marks { contract: false, readonly: false })
    } else {
        match marks_of(attrs.drop_last()) {
            Err(e) => Err(e),
            Ok(marks) => if is_contract(attrs.last()) {
                match attrs.last().args {
                    AttributeArgs::Absent => Ok(Marks { contract: true, ..marks }),
                    AttributeArgs::Delimited(tokens) => match readonly_of(
                        parsed_ident(tokens@),
                    ) {
                        Ok(readonly) => Ok(
                            Marks { contract: true, readonly: marks.readonly || readonly },
                        ),
                        Err(e) => Err(e),
                    },
                    AttributeArgs::Malformed(msg) => Err(
                        ArgumentErrorView::InvalidAnnotation(msg@),
                    ),
                }
            } else {
                Ok(marks)
            },
        }
    }
}

/// The entry of the catalog for a parameter.
pub open spec fn input_of(arg: FnArg) -> Result<ArgumentView, ArgumentErrorView> {
    match arg {
        FnArg::Typed { pat: Pat::Ident(name), ty } => argument_of(name@, ty),
        FnArg::Typed { pat: Pat::Other, .. } => Err(ArgumentErrorView::UnrecognizedType),
        FnArg::Receiver => Err(ArgumentErrorView::UnrecognizedType),
    }
}

/// The entries for the parameters of a function, in the order of their
/// declaration, or the error of the first that has none.
pub open spec fn inputs_of(args: Seq<FnArg>) -> Result<Seq<ArgumentView>, ArgumentErrorView>
    decreases args.len(),
{
    if args.len() == 0 {
        Ok(Seq::empty())
    } else {
        match inputs_of(args.drop_last()) {
            Err(e) => Err(e),
            Ok(inputs) => match input_of(args.last()) {
                Ok(input) => Ok(inputs.push(input)),
                Err(e) => Err(e),
            },
        }
    }
}

/// The entries for the result of a function: none where no type is
/// written, else one without a name.
pub open spec fn outputs_of(output: ReturnType) -> Result<Seq<ArgumentView>, ArgumentErrorView> {
    match output {
        ReturnType::Default => Ok(Seq::empty()),
        ReturnType::Type(ty) => match argument_of(Seq::empty(), ty) {
            Ok(output) => Ok(seq![output]),
            Err(e) => Err(e),
        },
    }
}

/// The entry of the catalog for a function: none where it is no entry
/// point.  A malformed annotation is reported first, then the result's
/// type, then the parameters' types in order.
pub open spec fn descriptor_of(f: ItemFn) -> Result<Option<FunctionView>, ArgumentErrorView> {
    match marks_of(f.attrs@) {
        Err(e) => Err(e),
        Ok(marks) => if !marks.contract {
            Ok(None)
        } else {
            match outputs_of(f.output) {
                Err(e) => Err(e),
                Ok(outputs) => match inputs_of(f.inputs@) {
                    Err(e) => Err(e),
                    Ok(inputs) => Ok(
                        Some(
                            FunctionView {
                                kind: "function"@,
                                name: f.ident@,
                                simulate: marks.readonly,
                                inputs,
                                outputs,
                            },
                        ),
                    ),
                },
            }
        },
    }
}

/// The outcome of describing one function, seen through views.
pub open spec fn described(r: Result<Option<Function>, ArgumentError>) -> Result<
    Option<FunctionView>,
    ArgumentErrorView,
> {
    match r {
        Ok(Some(f)) => Ok(Some(f@)),
        Ok(None) => Ok(None),
        Err(e) => Err(e@),
    }
}

pub fn get_argument_from_arg(arg: &FnArg) -> (r: Result<Argument, ArgumentError>)
    ensures
        resolved(r) == input_of(*arg),
{
    match arg {
        FnArg::Typed { pat, ty } => match pat {
            Pat::Ident(name) => from_name_and_type(name, ty),
            Pat::Other => Err(ArgumentError::UnrecognizedType),
        },
        FnArg::Receiver => Err(ArgumentError::UnrecognizedType),
    }
}

pub fn get_return_type(rtype: &ReturnType) -> (r: Result<Option<Argument>, ArgumentError>)
    ensures
        match r {
            Ok(Some(a)) => outputs_of(*rtype) == Ok::<Seq<ArgumentView>, ArgumentErrorView>(
                seq![a@],
            ),
            Ok(None) => outputs_of(*rtype) == Ok::<Seq<ArgumentView>, ArgumentErrorView>(
                Seq::empty(),
            ),
            Err(e) => outputs_of(*rtype) == Err::<Seq<ArgumentView>, ArgumentErrorView>(e@),
        },
{
    match rtype {
        ReturnType::Default => Ok(None),
        ReturnType::Type(ty) => {
            let name = String::new();
            match from_name_and_type(&name, ty) {
                Ok(a) => Ok(Some(a)),
                Err(e) => Err(e),
            }
        },
    }
}

/// Describes one function for the catalog.
pub fn from_item_fn(f: &ItemFn) -> (r: Result<Option<Function>, ArgumentError>)
    ensures
        described(r) == descriptor_of(*f),
{
    let mut is_contract: bool = false;
    let mut is_readonly: bool = false;
    let mut i: usize = 0;
    assert(f.attrs@.take(0) =~= Seq::<Attribute>::empty());
    while i < f.attrs.len()
        invariant
            i <= f.attrs@.len(),
            marks_of(f.attrs@.take(i as int)) == Ok::<Marks, ArgumentErrorView>(
                Marks { contract: is_contract, readonly: is_readonly },
            ),
        decreases f.attrs@.len() - i,
    {
        let a = &f.attrs[i];
        proof {
            assert(f.attrs@.take(i + 1).drop_last() =~= f.attrs@.take(i as int));
            assert(f.attrs@.take(i + 1).last() == f.attrs@[i as int]);
        }
        if a.path.len() == 1 && str_eq(a.path[0].as_str(), "contract") {
            match &a.args {
                AttributeArgs::Absent => {
                    is_contract = true;
                },
                AttributeArgs::Delimited(tokens) => {
                    match annotation_argument(parse_ident(tokens.as_str())) {
                        Ok(readonly) => {
                            is_contract = true;
                            if readonly {
                                is_readonly = true;
                            }
                        },
                        Err(e) => {
                            proof {
                                lemma_marks_error(f.attrs@, i + 1);
                            }
                            return Err(e);
                        },
                    }
                },
                AttributeArgs::Malformed(msg) => {
                    proof {
                        lemma_marks_error(f.attrs@, i + 1);
                    }
                    return Err(ArgumentError::InvalidAnnotation(msg.clone()));
                },
            }
        }
        i = i + 1;
    }
    assert(f.attrs@.take(i as int) =~= f.attrs@);
    if !is_contract {
        return Ok(None);
    }
    let outputs: Vec<Argument> = match get_return_type(&f.output) {
        Ok(Some(rt)) => {
            let mut outputs: Vec<Argument> = Vec::new();
            outputs.push(rt);
            assert(argument_views(outputs@) =~= seq![rt@]);
            outputs
        },
        Ok(None) => {
            let outputs: Vec<Argument> = Vec::new();
            assert(argument_views(outputs@) =~= Seq::<ArgumentView>::empty());
            outputs
        },
        Err(e) => {
            return Err(e);
        },
    };
    let mut inputs: Vec<Argument> = Vec::new();
    let mut j: usize = 0;
    assert(f.inputs@.take(0) =~= Seq::<FnArg>::empty());
    assert(argument_views(inputs@) =~= Seq::<ArgumentView>::empty());
    while j < f.inputs.len()
        invariant
            j <= f.inputs@.len(),
            marks_of(f.attrs@) == Ok::<Marks, ArgumentErrorView>(
                Marks { contract: true, readonly: is_readonly },
            ),
            outputs_of(f.output) == Ok::<Seq<ArgumentView>, ArgumentErrorView>(
                argument_views(outputs@),
            ),
            inputs_of(f.inputs@.take(j as int)) == Ok::<Seq<ArgumentView>, ArgumentErrorView>(
                argument_views(inputs@),
            ),
        decreases f.inputs@.len() - j,
    {
        proof {
            assert(f.inputs@.take(j + 1).drop_last() =~= f.inputs@.take(j as int));
            assert(f.inputs@.take(j + 1).last() == f.inputs@[j as int]);
        }
        match get_argument_from_arg(&f.inputs[j]) {
            Ok(input) => {
                let ghost before = argument_views(inputs@);
                inputs.push(input);
                assert(argument_views(inputs@) =~= before.push(input@));
            },
            Err(e) => {
                proof {
                    lemma_inputs_error(f.inputs@, j + 1);
                }
                return Err(e);
            },
        }
        j = j + 1;
    }
    assert(f.inputs@.take(j as int) =~= f.inputs@);
    Ok(
        Some(
            Function {
                kind: "function".to_owned(),
                name: f.ident.clone(),
                simulate: is_readonly,
                inputs,
                outputs,
            },
        ),
    )
}

/// Collects the entry points among the functions that it is shown.
pub struct FnVisitor {
    /// The entry points seen so far, in the order in which they were seen.
    pub functions: Vec<Function>,
    /// The error of the last function that could not be described.
    pub error: Option<ArgumentError>,
}

/// What a visitor holds, as specifications speak of it.
pub ghost struct VisitorView {
    pub functions: Seq<FunctionView>,
    pub error: Option<ArgumentErrorView>,
}

impl View for FnVisitor {
    type V = VisitorView;

    open spec fn view(&self) -> VisitorView {
        VisitorView {
            functions: function_views(self.functions@),
            error: match self.error {
                Some(e) => Some(e@),
                None => None,
            },
        }
    }
}

/// What a visitor holds after it has seen `node`: an entry point is added
/// to the catalog, another function changes nothing, and one that cannot be
/// described leaves its error.
pub open spec fn visit(v: VisitorView, node: ItemFn) -> VisitorView {
    match descriptor_of(node) {
        Ok(Some(f)) => VisitorView { functions: v.functions.push(f), ..v },
        Ok(None) => v,
        Err(e) => VisitorView { error: Some(e), ..v },
    }
}

/// What a visitor holds after it has seen `items` in order.
pub open spec fn visit_all(v: VisitorView, items: Seq<ItemFn>) -> VisitorView
    decreases items.len(),
{
    if items.len() == 0 {
        v
    } else {
        visit(visit_all(v, items.drop_last()), items.last())
    }
}

/// The catalog of the entry points among `items`, in the order of their
/// declaration, or the error of the last function that cannot be described.
pub open spec fn catalog_of(items: Seq<ItemFn>) -> Result<Seq<FunctionView>, ArgumentErrorView> {
    let seen = visit_all(VisitorView { functions: Seq::empty(), error: None }, items);
    match seen.error {
        Some(e) => Err(e),
        None => Ok(seen.functions),
    }
}

impl FnVisitor {
    /// A visitor that has seen nothing.
    pub fn new() -> (visitor: FnVisitor)
        ensures
            visitor@ == (VisitorView { functions: Seq::empty(), error: None }),
    {
        let visitor = FnVisitor { functions: Vec::new(), error: None };
        assert(function_views(visitor.functions@) =~= Seq::<FunctionView>::empty());
        visitor
    }

    pub fn visit_item_fn(&mut self, node: &ItemFn)
        ensures
            final(self)@ == visit(old(self)@, *node),
    {
        match from_item_fn(node) {
            Ok(Some(f)) => {
                let ghost before = function_views(self.functions@);
                self.functions.push(f);
                assert(function_views(self.functions@) =~= before.push(f@));
            },
            Ok(None) => {},
            Err(x) => {
                self.error = Some(x);
            },
        }
    }
}

/// Extracts the catalog of a contract from its functions.
pub fn extract(items: &[ItemFn]) -> (r: Result<Vec<Function>, ArgumentError>)
    ensures
        match r {
            Ok(functions) => catalog_of(items@) == Ok::<Seq<FunctionView>, ArgumentErrorView>(
                function_views(functions@),
            ),
            Err(e) => catalog_of(items@) == Err::<Seq<FunctionView>, ArgumentErrorView>(e@),
        },
{
    let mut visitor = FnVisitor::new();
    let mut i: usize = 0;
    assert(items@.take(0) =~= Seq::<ItemFn>::empty());
    while i < items.len()
        invariant
            i <= items@.len(),
            visitor@ == visit_all(
                VisitorView { functions: Seq::empty(), error: None },
                items@.take(i as int),
            ),
        decreases items@.len() - i,
    {
        proof {
            assert(items@.take(i + 1).drop_last() =~= items@.take(i as int));
            assert(items@.take(i + 1).last() == items@[i as int]);
        }
        visitor.visit_item_fn(&items[i]);
        i = i + 1;
    }
    assert(items@.take(i as int) =~= items@);
    match visitor.error {
        Some(e) => Err(e),
        None => Ok(visitor.functions),
    }
}

proof fn lemma_marks_error(attrs: Seq<Attribute>, n: int)
    requires
        0 <= n <= attrs.len(),
        marks_of(attrs.take(n)) is Err,
    ensures
        marks_of(attrs) == marks_of(attrs.take(n)),
    decreases attrs.len() - n,
{
    if n < attrs.len() {
        assert(attrs.take(n + 1).drop_last() =~= attrs.take(n));
        lemma_marks_error(attrs, n + 1);
    } else {
        assert(attrs.take(n) =~= attrs);
    }
}

proof fn lemma_inputs_error(args: Seq<FnArg>, n: int)
    requires
        0 <= n <= args.len(),
        inputs_of(args.take(n)) is Err,
    ensures
        inputs_of(args) == inputs_of(args.take(n)),
    decreases args.len() - n,
{
    if n < args.len() {
        assert(args.take(n + 1).drop_last() =~= args.take(n));
        lemma_inputs_error(args, n + 1);
    } else {
        assert(args.take(n) =~= args);
    }
}

} // verus!
