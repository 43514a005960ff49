//! A structural verifier for [`MirModule`], run once before any LLVM lowering.
//!
//! Backend codegen trusts a long list of MIR invariants without checking them
//! in one place: in-range block and local ids, a terminator on every block, no
//! instructions after it, locals whose declared type codegen can actually
//! materialize, and enum variant indices that fit the enum's declared shape.
//! This module turns violations into a single, descriptive, pre-codegen pass.
//!
//! # What is checked
//! - Every [`BlockId`] a terminator names is in range for the function.
//! - Every [`LocalId`] named anywhere in a function (params, instructions,
//!   rvalues) is in range for that function's `locals`.
//! - Every block is non-empty and ends with a terminator
//!   ([`MirInst::Return`], [`MirInst::Goto`], or [`MirInst::If`]); no
//!   instruction follows the terminator in the same block.
//! - No declared type (function return type, local type, struct/enum field
//!   type, foreign function signature) contains a bare [`Type::Param`].
//! - No declared type contains a [`Type::App`] application other than the fixed
//!   set of canonical runtime types that codegen special-cases by hand.
//! - `Rvalue::EnumConstruct`/`Rvalue::EnumPayload` variant indices are within
//!   bounds for the named enum's declared variant list, when the enum is found
//!   in the module's `enum_types`.
//! - `BinaryOp::And`/`BinaryOp::Or` never occur as a raw `Rvalue::Binary`.
//! - Within a single straight-line block: a local is never read again after
//!   an explicit [`MirInst::Drop`] of it, unless a later [`MirInst::Assign`]
//!   in that same block reinitializes it first.
//!
//! # What is deliberately not checked
//! - Dropping the same local twice in a block: the drop glue of a guard nulls
//!   its storage, so that a second drop is an intentional no-op.
//! - Cross-block dataflow for moves and drops.
//! - `Rvalue::Move(x)` as a drop event: trivially copyable locals are read
//!   again after being moved from.
//! - Reachability, and the existence of named structs and enums.

use std::collections::HashSet;

use vstd::prelude::*;

use crate::ast::BinaryOp;
use crate::debug_text::{debug_types, type_list_debug};
use crate::diag::{diagnostics_view, error_view, Diagnostic};
use crate::mir::{
    insts_view, locals_view, BlockId, BorrowedClosureCapture, ClosureCapture, Local, LocalId,
    LocalView, MirBlock, MirExternFunction, MirFunction, MirFunctionView, MirInst, MirInstView,
    MirModule, MirValue, Rvalue, RvalueView,
};
use crate::table::{value_of, NameMap};
use crate::text::{concat3, decimal, decimal_text};
use crate::thread::{
    is_canonical_scoped_thread_handle, is_canonical_thread_handle,
    private_scoped_thread_handle_result, PRIVATE_SCOPED_THREAD_HANDLE_TYPE,
    SCOPED_THREAD_HANDLE_TYPE, THREAD_HANDLE_TYPE,
};
use crate::types::{
    canonical_argument, type_option_view, types_view, EnumType, EnumVariant, StructType, Type,
    TypeView,
};

verus! {

/// One structural problem found in a [`MirModule`], with enough location
/// information to find it again without re-running the pass.
#[derive(Debug, Clone, PartialEq, Eq)]
pub struct VerifyError {
    /// The function the problem was found in, or a pseudo-function that names
    /// the struct, enum or foreign declaration for problems found in
    /// module-level type/signature declarations.
    pub function: String,
    pub block: Option<BlockId>,
    pub inst_index: Option<usize>,
    pub message: String,
}

pub struct VerifyErrorView {
    pub function: Seq<char>,
    pub block: Option<BlockId>,
    pub inst_index: Option<usize>,
    pub message: Seq<char>,
}

impl View for VerifyError {
    type V = VerifyErrorView;

    open spec fn view(&self) -> VerifyErrorView {
        VerifyErrorView {
            function: self.function@,
            block: self.block,
            inst_index: self.inst_index,
            message: self.message@,
        }
    }
}

pub open spec fn errors_view(errors: Seq<VerifyError>) -> Seq<VerifyErrorView> {
    Seq::new(errors.len(), |i: int| errors[i]@)
}

impl VerifyErrorView {
    /// The rendered problem with its location.
    pub open spec fn text(self) -> Seq<char> {
        let function = "in `"@ + self.function + "`"@;
        let block = match self.block {
            Some(block) => function + " bb"@ + decimal_text(block.0 as nat),
            None => function,
        };
        let inst = match self.inst_index {
            Some(index) => block + "["@ + decimal_text(index as nat) + "]"@,
            None => block,
        };
        inst + ": "@ + self.message
    }
}

impl VerifyError {
    fn new(function: String, message: String) -> (error: VerifyError)
        ensures
            error@ == problem(function@, message@),
    {
        VerifyError { function, block: None, inst_index: None, message }
    }

    /// Renders the problem with its location.
    pub fn message_text(&self) -> (text: String)
        ensures
            text@ == self@.text(),
    {
        let mut text = concat3("in `", self.function.as_str(), "`");
        match self.block {
            Some(block) => {
                text.append(" bb");
                text.append(decimal(block.0 as u64).as_str());
            },
            None => {},
        }
        match self.inst_index {
            Some(index) => {
                text.append("[");
                text.append(decimal(index as u64).as_str());
                text.append("]");
            },
            None => {},
        }
        text.append(": ");
        text.append(self.message.as_str());
        text
    }

    /// Render as an error [`Diagnostic`]. MIR carries no source spans, so the
    /// diagnostic's span is always `None`; callers that have a way to map a
    /// function name back to a span should attach one themselves.
    pub fn to_diagnostic(&self) -> (diagnostic: Diagnostic)
        ensures
            diagnostic@ == error_view(self@.text(), None),
    {
        Diagnostic::error(self.message_text(), None)
    }
}

/// Convert verifier errors into error [`Diagnostic`]s, in order.
pub fn errors_to_diagnostics(errors: &[VerifyError]) -> (diagnostics: Vec<Diagnostic>)
    ensures
        diagnostics_view(diagnostics@) == Seq::new(
            errors@.len(),
            |i: int| error_view(errors@[i]@.text(), None),
        ),
{
    let mut diagnostics: Vec<Diagnostic> = Vec::new();
    let mut i: usize = 0;
    while i < errors.len()
        invariant
            i <= errors.len(),
            diagnostics.len() == i,
            forall|j: int|
                0 <= j < i ==> (#[trigger] diagnostics[j])@ == error_view(errors@[j]@.text(), None),
        decreases errors.len() - i,
    {
        diagnostics.push(errors[i].to_diagnostic());
        i += 1;
    }
    assert(diagnostics_view(diagnostics@) =~= Seq::new(
        errors@.len(),
        |i: int| error_view(errors@[i]@.text(), None),
    ));
    diagnostics
}

/// The rendered problems from position `i` on, one per line, after `text`.
pub open spec fn error_lines_from(
    text: Seq<char>,
    errors: Seq<VerifyErrorView>,
    i: int,
) -> Seq<char>
    decreases errors.len() - i,
{
    if i < 0 || i >= errors.len() {
        text
    } else {
        let line = if i == 0 {
            text
        } else {
            text + "\n"@
        };
        error_lines_from(line + errors[i].text(), errors, i + 1)
    }
}

/// Render every error as one multi-line string, suitable for an error report
/// right before LLVM lowering starts.
pub fn format_errors(errors: &[VerifyError]) -> (text: String)
    ensures
        text@ == error_lines_from(""@, errors_view(errors@), 0),
{
    let ghost views = errors_view(errors@);
    let mut text = "".to_owned();
    let mut i: usize = 0;
    while i < errors.len()
        invariant
            i <= errors.len(),
            views == errors_view(errors@),
            error_lines_from(text@, views, i as int) == error_lines_from(""@, views, 0),
        decreases errors.len() - i,
    {
        assert(views[i as int] == errors[i as int]@);
        if i > 0 {
            text.append("\n");
        }
        text.append(errors[i].message_text().as_str());
        i += 1;
    }
    text
}

proof fn earlier_lines_come_first(
    text: Seq<char>,
    first: Seq<VerifyErrorView>,
    second: Seq<VerifyErrorView>,
    i: int,
)
    requires
        0 <= i <= first.len(),
    ensures
        error_lines_from(text, first + second, i) == error_lines_from(
            error_lines_from(text, first, i),
            first + second,
            first.len() as int,
        ),
    decreases first.len() - i,
{
    if i < first.len() {
        let line = if i == 0 {
            text
        } else {
            text + "\n"@
        };
        assert((first + second)[i] == first[i]);
        earlier_lines_come_first(line + first[i].text(), first, second, i + 1);
    }
}

proof fn later_lines_follow(
    before: Seq<char>,
    text: Seq<char>,
    first: Seq<VerifyErrorView>,
    second: Seq<VerifyErrorView>,
    i: int,
)
    requires
        0 < i,
    ensures
        error_lines_from(before + text, first + second, first.len() + i) == before
            + error_lines_from(text, second, i),
    decreases second.len() - i,
{
    if i < second.len() {
        let line = text + "\n"@ + second[i].text();
        assert((first + second)[first.len() + i] == second[i]);
        assert(before + text + "\n"@ + second[i].text() =~= before + line);
        later_lines_follow(before, line, first, second, i + 1);
    }
}

/// Reports can be rendered in parts: the text of two lists of problems after each
/// other is the text of the first, a line break, and the text of the second, and a
/// list without problems adds nothing.
pub proof fn reports_are_rendered_in_parts(
    first: Seq<VerifyErrorView>,
    second: Seq<VerifyErrorView>,
)
    ensures
        error_lines_from(""@, first + second, 0) == (if first.len() == 0 {
            error_lines_from(""@, second, 0)
        } else if second.len() == 0 {
            error_lines_from(""@, first, 0)
        } else {
            error_lines_from(""@, first, 0) + "\n"@ + error_lines_from(""@, second, 0)
        }),
{
    if first.len() == 0 {
        assert(first + second =~= second);
    } else if second.len() == 0 {
        assert(first + second =~= first);
    } else {
        reveal_strlit("");
        let above = error_lines_from(""@, first, 0);
        let line = second[0].text();
        earlier_lines_come_first(""@, first, second, 0);
        assert((first + second)[first.len() as int] == second[0]);
        later_lines_follow(above + "\n"@, line, first, second, 1);
        assert(""@ + line =~= line);
    }
}

/// A problem without a place inside a function.
pub open spec fn problem(function: Seq<char>, message: Seq<char>) -> VerifyErrorView {
    VerifyErrorView { function, block: None, inst_index: None, message }
}

/// A problem at an instruction.
pub open spec fn problem_at(site: Site, message: Seq<char>) -> VerifyErrorView {
    VerifyErrorView {
        function: site.function,
        block: Some(site.block),
        inst_index: Some(site.inst),
        message,
    }
}

/// The place of an instruction.
pub struct Site {
    pub function: Seq<char>,
    pub block: BlockId,
    pub inst: usize,
}

pub open spec fn local_id_text(id: LocalId) -> Seq<char> {
    "LocalId("@ + decimal_text(id.0 as nat) + ")"@
}

pub open spec fn block_id_text(id: BlockId) -> Seq<char> {
    "BlockId("@ + decimal_text(id.0 as nat) + ")"@
}

fn local_id_string(id: LocalId) -> (text: String)
    ensures
        text@ == local_id_text(id),
{
    concat3("LocalId(", decimal(id.0 as u64).as_str(), ")")
}

fn block_id_string(id: BlockId) -> (text: String)
    ensures
        text@ == block_id_text(id),
{
    concat3("BlockId(", decimal(id.0 as u64).as_str(), ")")
}

fn report(errors: &mut Vec<VerifyError>, error: VerifyError)
    ensures
        errors_view(final(errors)@) == errors_view(old(errors)@) + seq![error@],
{
    errors.push(error);
    assert(errors_view(errors@) =~= errors_view(old(errors)@) + seq![error@]);
}

fn report_at(
    errors: &mut Vec<VerifyError>,
    function: &String,
    block: BlockId,
    inst: usize,
    message: String,
)
    ensures
        errors_view(final(errors)@) == errors_view(old(errors)@) + seq![
            problem_at(Site { function: function@, block, inst }, message@),
        ],
{
    report(
        errors,
        VerifyError {
            function: function.clone(),
            block: Some(block),
            inst_index: Some(inst),
            message,
        },
    );
}

/// The canonical runtime applications that codegen materializes directly:
/// `Arc`, `Mutex` and its guard, the thread handles, and the channel endpoints.
pub open spec fn recognized_app(ty: TypeView) -> bool {
    ||| ty.is_arc()
    ||| ty.is_mutex()
    ||| ty.is_mutex_guard()
    ||| ty.is_spsc_sender()
    ||| ty.is_spsc_receiver()
    ||| canonical_argument(ty, THREAD_HANDLE_TYPE@) is Some
    ||| canonical_argument(ty, SCOPED_THREAD_HANDLE_TYPE@) is Some
    ||| canonical_argument(ty, PRIVATE_SCOPED_THREAD_HANDLE_TYPE@) is Some
}

fn is_recognized_type_app(ty: &Type) -> (recognized: bool)
    ensures
        recognized == recognized_app(ty@),
{
    ty.is_arc() || ty.is_mutex() || ty.is_mutex_guard() || ty.is_spsc_sender()
        || ty.is_spsc_receiver() || is_canonical_thread_handle(ty)
        || is_canonical_scoped_thread_handle(ty) || private_scoped_thread_handle_result(
        ty,
    ).is_some()
}

/// Whether codegen can materialize a declared type: no generic parameter is
/// left in it, and every generic application is one of the recognized ones.
pub open spec fn valid_type(ty: TypeView) -> bool
    decreases ty,
{
    match ty {
        TypeView::Param(_) => false,
        TypeView::App { base, args } => recognized_app(ty) && forall|i: int|
            0 <= i < args.len() ==> valid_type(#[trigger] args[i]),
        TypeView::Ref(inner, _) => valid_type(*inner),
        TypeView::Array(inner, _) => valid_type(*inner),
        TypeView::Own(inner) => valid_type(*inner),
        TypeView::RawPtr(inner) => valid_type(*inner),
        TypeView::Shared(inner) => valid_type(*inner),
        TypeView::Function { params, ret } => valid_type(*ret) && forall|i: int|
            0 <= i < params.len() ==> valid_type(#[trigger] params[i]),
        TypeView::BorrowedFunction { params, ret, .. } => valid_type(*ret) && forall|i: int|
            0 <= i < params.len() ==> valid_type(#[trigger] params[i]),
        TypeView::Tuple(elements) => forall|i: int|
            0 <= i < elements.len() ==> valid_type(#[trigger] elements[i]),
        _ => true,
    }
}

/// What is wrong with a declared type: the first offending part in it.
pub open spec fn type_problem(ty: TypeView) -> Option<Seq<char>>
    decreases ty, 0nat,
{
    match ty {
        TypeView::Param(name) => Some(
            "generic types must be monomorphized before codegen (param: "@ + name + ")"@,
        ),
        TypeView::App { base, args } => if recognized_app(ty) {
            types_problem_from(args, 0)
        } else {
            Some(
                "generic types must be monomorphized before codegen (app: "@ + base + "<"@
                    + type_list_debug(""@, args, 0) + ">)"@,
            )
        },
        TypeView::Ref(inner, _) => type_problem(*inner),
        TypeView::Array(inner, _) => type_problem(*inner),
        TypeView::Own(inner) => type_problem(*inner),
        TypeView::RawPtr(inner) => type_problem(*inner),
        TypeView::Shared(inner) => type_problem(*inner),
        TypeView::Function { params, ret } => match types_problem_from(params, 0) {
            Some(message) => Some(message),
            None => type_problem(*ret),
        },
        TypeView::BorrowedFunction { params, ret, .. } => match types_problem_from(params, 0) {
            Some(message) => Some(message),
            None => type_problem(*ret),
        },
        TypeView::Tuple(elements) => types_problem_from(elements, 0),
        _ => None,
    }
}

pub open spec fn types_problem_from(types: Seq<TypeView>, i: int) -> Option<Seq<char>>
    decreases types, types.len() - i,
{
    if i < 0 || i >= types.len() {
        None
    } else {
        match type_problem(types[i]) {
            Some(message) => Some(message),
            None => types_problem_from(types, i + 1),
        }
    }
}

/// Recursively check that `ty` contains no bare `Type::Param` and no
/// unrecognized `Type::App`. Depth is bounded by the type's own structure.
fn check_type(ty: &Type) -> (result: Result<(), String>)
    ensures
        match result {
            Ok(()) => type_problem(ty@) is None,
            Err(message) => type_problem(ty@) == Some(message@),
        },
    decreases ty, 0nat,
{
    match ty {
        Type::Param(name) => Err(
            concat3(
                "generic types must be monomorphized before codegen (param: ",
                name.as_str(),
                ")",
            ),
        ),
        Type::App { base, args } => {
            if is_recognized_type_app(ty) {
                check_types(args)
            } else {
                let mut message = concat3(
                    "generic types must be monomorphized before codegen (app: ",
                    base.as_str(),
                    "<",
                );
                message.append(debug_types(args).as_str());
                message.append(">)");
                Err(message)
            }
        },
        Type::Ref(inner, _) => check_type(inner),
        Type::Array(inner, _) => check_type(inner),
        Type::Own(inner) => check_type(inner),
        Type::RawPtr(inner) => check_type(inner),
        Type::Shared(inner) => check_type(inner),
        Type::Function { params, ret } => match check_types(params) {
            Ok(()) => check_type(ret),
            Err(message) => Err(message),
        },
        Type::BorrowedFunction { params, ret, .. } => match check_types(params) {
            Ok(()) => check_type(ret),
            Err(message) => Err(message),
        },
        Type::Tuple(elements) => check_types(elements),
        _ => Ok(()),
    }
}

fn check_types(types: &Vec<Type>) -> (result: Result<(), String>)
    ensures
        match result {
            Ok(()) => types_problem_from(types_view(types@), 0) is None,
            Err(message) => types_problem_from(types_view(types@), 0) == Some(message@),
        },
    decreases types, 0nat,
{
    let ghost views = types_view(types@);
    let mut i: usize = 0;
    while i < types.len()
        invariant
            i <= types.len(),
            views == types_view(types@),
            types_problem_from(views, i as int) == types_problem_from(views, 0),
        decreases types.len() - i,
    {
        assert(views[i as int] == types[i as int]@);
        match check_type(&types[i]) {
            Ok(()) => {},
            Err(message) => {
                return Err(message);
            },
        }
        i += 1;
    }
    Ok(())
}

pub open spec fn value_locals(value: MirValue) -> Seq<LocalId> {
    match value {
        MirValue::Local(id) => seq![id],
        _ => Seq::empty(),
    }
}

pub open spec fn optional_value_locals(value: Option<MirValue>) -> Seq<LocalId> {
    match value {
        Some(value) => value_locals(value),
        None => Seq::empty(),
    }
}

pub open spec fn values_locals_from(values: Seq<MirValue>, i: int) -> Seq<LocalId>
    decreases values.len() - i,
{
    if i < 0 || i >= values.len() {
        Seq::empty()
    } else {
        value_locals(values[i]) + values_locals_from(values, i + 1)
    }
}

pub open spec fn fields_locals_from(fields: Seq<(Seq<char>, MirValue)>, i: int) -> Seq<LocalId>
    decreases fields.len() - i,
{
    if i < 0 || i >= fields.len() {
        Seq::empty()
    } else {
        value_locals(fields[i].1) + fields_locals_from(fields, i + 1)
    }
}

/// Every local that an rvalue names, in order.
pub open spec fn rvalue_locals(value: RvalueView) -> Seq<LocalId> {
    match value {
        RvalueView::Move(local) => seq![local],
        RvalueView::Deref { base, .. } => seq![base],
        RvalueView::Binary { lhs, rhs, .. } => value_locals(lhs) + value_locals(rhs),
        RvalueView::Cast { value, .. } => value_locals(value),
        RvalueView::Call { args, .. } => values_locals_from(args, 0),
        RvalueView::MakeClosure { captures, .. } => {
            Seq::new(captures.len(), |i: int| captures[i].local)
        },
        RvalueView::MakeBorrowedClosure { captures, .. } => {
            Seq::new(captures.len(), |i: int| captures[i].local)
        },
        RvalueView::CallIndirect { callee, args, .. } => seq![callee] + values_locals_from(args, 0),
        RvalueView::CallIndirectShared { callee, args, .. } => {
            seq![callee] + values_locals_from(args, 0)
        },
        RvalueView::CallIndirectMut { callee, args, .. } => {
            seq![callee] + values_locals_from(args, 0)
        },
        RvalueView::ThreadSpawnUnit { task, out_handle } => seq![task] + seq![out_handle],
        RvalueView::ThreadSpawnResult { task, out_handle, .. } => seq![task] + seq![out_handle],
        RvalueView::ThreadJoinUnit { handle } => seq![handle],
        RvalueView::ThreadJoinResult { handle, out_result, .. } => seq![handle] + seq![out_result],
        RvalueView::ThreadDetachUnit { handle } => seq![handle],
        RvalueView::ThreadHandleFromRaw { raw } => seq![raw],
        RvalueView::ThreadHandleIntoRaw { handle } => seq![handle],
        RvalueView::ThreadErrorFromStatus { status } => value_locals(status),
        RvalueView::ThreadScopeCreate { out_scope } => seq![out_scope],
        RvalueView::ThreadScopeExit { scope } => seq![scope],
        RvalueView::ThreadScopeFromRaw { raw } => seq![raw],
        RvalueView::ThreadScopeDrain { scope } => seq![scope],
        RvalueView::ScopedThreadSpawnUnit { scope, task, out_handle } => {
            seq![scope] + seq![task] + seq![out_handle]
        },
        RvalueView::ScopedThreadSpawnResult { scope, task, out_handle, .. } => {
            seq![scope] + seq![task] + seq![out_handle]
        },
        RvalueView::ScopedThreadJoinUnit { handle } => seq![handle],
        RvalueView::ScopedThreadJoinResult { handle, out_result, .. } => {
            seq![handle] + seq![out_result]
        },
        RvalueView::ScopedThreadHandleFromRaw { raw, .. } => seq![raw],
        RvalueView::ScopedThreadHandleIntoRaw { handle, .. } => seq![handle],
        RvalueView::StructLit { field_values, .. } => fields_locals_from(field_values, 0),
        RvalueView::FieldAccess { base, .. } => seq![base],
        RvalueView::FieldRef { base, .. } => seq![base],
        RvalueView::Ref { base, .. } => seq![base],
        RvalueView::ArrayLit { elements, .. } => values_locals_from(elements, 0),
        RvalueView::ArrayIndex { base, index, .. } => seq![base] + value_locals(index),
        RvalueView::ArrayLen { base } => seq![base],
        RvalueView::VecWithCapacity { capacity, .. } => value_locals(capacity),
        RvalueView::VecPush { vec, value, .. } => seq![vec] + value_locals(value),
        RvalueView::VecPop { vec, .. } => seq![vec],
        RvalueView::VecLen { vec } => seq![vec],
        RvalueView::VecIndex { vec, index, .. } => seq![vec] + value_locals(index),
        RvalueView::VecIndexRef { vec, index, .. } => seq![vec] + value_locals(index),
        RvalueView::MapWithCapacity { capacity, .. } => value_locals(capacity),
        RvalueView::MapAdd { map, key, value, .. } => {
            seq![map] + value_locals(key) + value_locals(value)
        },
        RvalueView::MapUpdate { map, key, value, .. } => {
            seq![map] + value_locals(key) + value_locals(value)
        },
        RvalueView::MapDel { map, key, .. } => seq![map] + value_locals(key),
        RvalueView::MapGet { map, key, .. } => seq![map] + value_locals(key),
        RvalueView::MapHas { map, key, .. } => seq![map] + value_locals(key),
        RvalueView::MapKeys { map, .. } => seq![map],
        RvalueView::MapVals { map, .. } => seq![map],
        RvalueView::FileOpen { path, .. } => value_locals(path),
        RvalueView::FileReadToString { file } => seq![file],
        RvalueView::FileWriteString { file, contents } => seq![file] + value_locals(contents),
        RvalueView::FileClose { file } => seq![file],
        RvalueView::StringLen { base } => seq![base],
        RvalueView::StringConcat { base, value } => seq![base] + value_locals(value),
        RvalueView::StringSlice { base, start, len } => {
            seq![base] + value_locals(start) + value_locals(len)
        },
        RvalueView::StringTrim { base } => seq![base],
        RvalueView::StringSplit { base, sep } => seq![base] + value_locals(sep),
        RvalueView::StringStartsWith { base, needle } => seq![base] + value_locals(needle),
        RvalueView::StringEndsWith { base, needle } => seq![base] + value_locals(needle),
        RvalueView::StringClone { base } => seq![base],
        RvalueView::OwnNew { value, .. } => value_locals(value),
        RvalueView::OwnIntoRaw { base, .. } => seq![base],
        RvalueView::OwnFromRaw { ptr, .. } => value_locals(ptr),
        RvalueView::SharedNew { value, .. } => value_locals(value),
        RvalueView::SharedClone { base, .. } => seq![base],
        RvalueView::ArcNew { value, .. } => value_locals(value),
        RvalueView::ArcClone { base, .. } => seq![base],
        RvalueView::ArcBorrow { base, .. } => seq![base],
        RvalueView::MutexNew { value, .. } => value_locals(value),
        RvalueView::MutexLock { base, .. } => seq![base],
        RvalueView::MutexTryLock { base, .. } => seq![base],
        RvalueView::MutexGuardIsAcquired { guard, .. } => seq![guard],
        RvalueView::MutexGuardBorrow { guard, .. } => seq![guard],
        RvalueView::SpscChannelNew { capacity, out_receiver, .. } => {
            value_locals(capacity) + seq![out_receiver]
        },
        RvalueView::SpscTrySend { sender, value, out_unsent, .. } => {
            seq![sender] + seq![value] + seq![out_unsent]
        },
        RvalueView::SpscTryRecv { receiver, out_value, .. } => seq![receiver] + seq![out_value],
        RvalueView::AtomicNew { value, .. } => value_locals(value),
        RvalueView::AtomicLoad { atomic, .. } => seq![atomic],
        RvalueView::AtomicStore { atomic, value, .. } => seq![atomic] + value_locals(value),
        RvalueView::AtomicRmw { atomic, value, .. } => seq![atomic] + value_locals(value),
        RvalueView::AtomicCompareExchange { atomic, expected, desired, .. } => {
            seq![atomic] + value_locals(expected) + value_locals(desired)
        },
        RvalueView::EnumConstruct { payload, .. } => optional_value_locals(payload),
        RvalueView::EnumTag { base } => seq![base],
        RvalueView::EnumPayload { base, .. } => seq![base],
        _ => Seq::empty(),
    }
}

/// Local ids that an rvalue only initializes (never reads). A dropped local
/// written through one of these is being freshly reinitialized, exactly like an
/// `Assign` target.
pub open spec fn write_only_targets(value: RvalueView) -> Seq<LocalId> {
    match value {
        RvalueView::ThreadSpawnUnit { out_handle, .. } => seq![out_handle],
        RvalueView::ThreadSpawnResult { out_handle, .. } => seq![out_handle],
        RvalueView::ScopedThreadSpawnUnit { out_handle, .. } => seq![out_handle],
        RvalueView::ScopedThreadSpawnResult { out_handle, .. } => seq![out_handle],
        RvalueView::ThreadJoinResult { out_result, .. } => seq![out_result],
        RvalueView::ScopedThreadJoinResult { out_result, .. } => seq![out_result],
        RvalueView::ThreadScopeCreate { out_scope } => seq![out_scope],
        RvalueView::SpscChannelNew { out_receiver, .. } => seq![out_receiver],
        RvalueView::SpscTrySend { out_unsent, .. } => seq![out_unsent],
        RvalueView::SpscTryRecv { out_value, .. } => seq![out_value],
        _ => Seq::empty(),
    }
}

/// Every local that an rvalue reads.
pub open spec fn rvalue_reads(value: RvalueView) -> Seq<LocalId> {
    kept_from(rvalue_locals(value), write_only_targets(value), 0)
}

/// The ids from position `i` on that are not among `excluded`.
pub open spec fn kept_from(ids: Seq<LocalId>, excluded: Seq<LocalId>, i: int) -> Seq<LocalId>
    decreases ids.len() - i,
{
    if i < 0 || i >= ids.len() {
        Seq::empty()
    } else if excluded.contains(ids[i]) {
        kept_from(ids, excluded, i + 1)
    } else {
        seq![ids[i]] + kept_from(ids, excluded, i + 1)
    }
}

/// Every local that an instruction names.
pub open spec fn inst_locals(inst: MirInstView) -> Seq<LocalId> {
    match inst {
        MirInstView::Assign { local, value } => seq![local] + rvalue_locals(value),
        MirInstView::AssignField { base, value, .. } => seq![base] + rvalue_locals(value),
        MirInstView::AssignIndex { base, index, value } => seq![base] + value_locals(index)
            + rvalue_locals(value),
        MirInstView::Return(value) => optional_value_locals(value),
        MirInstView::If { cond, .. } => value_locals(cond),
        MirInstView::Drop(id) => seq![id],
        MirInstView::DropThreadHandle(id) => seq![id],
        MirInstView::DropThreadScope(id) => seq![id],
        MirInstView::DrainThreadScope(id) => seq![id],
        MirInstView::DropScopedThreadHandle(id) => seq![id],
        _ => Seq::empty(),
    }
}

/// Every local that an instruction reads. An `Assign`'s own target is a
/// definition, and the operand of a `Drop` is the drop event itself.
pub open spec fn inst_reads(inst: MirInstView) -> Seq<LocalId> {
    match inst {
        MirInstView::Assign { value, .. } => rvalue_reads(value),
        MirInstView::AssignField { base, value, .. } => seq![base] + rvalue_reads(value),
        MirInstView::AssignIndex { base, index, value } => seq![base] + value_locals(index)
            + rvalue_reads(value),
        MirInstView::Drop(_) => Seq::empty(),
        _ => inst_locals(inst),
    }
}

fn push_local(out: &mut Vec<LocalId>, id: LocalId)
    ensures
        final(out)@ == old(out)@ + seq![id],
{
    out.push(id);
}

fn push_value(out: &mut Vec<LocalId>, value: &MirValue)
    ensures
        final(out)@ == old(out)@ + value_locals(*value),
{
    match value {
        MirValue::Local(id) => {
            out.push(*id);
        },
        _ => {},
    }
}

fn push_optional_value(out: &mut Vec<LocalId>, value: &Option<MirValue>)
    ensures
        final(out)@ == old(out)@ + optional_value_locals(*value),
{
    match value {
        Some(value) => push_value(out, value),
        None => {},
    }
}

fn push_values(out: &mut Vec<LocalId>, values: &Vec<MirValue>)
    ensures
        final(out)@ == old(out)@ + values_locals_from(values@, 0),
{
    let mut i: usize = 0;
    while i < values.len()
        invariant
            i <= values.len(),
            out@ + values_locals_from(values@, i as int) == old(out)@ + values_locals_from(
                values@,
                0,
            ),
        decreases values.len() - i,
    {
        let ghost before = out@;
        push_value(out, &values[i]);
        assert(out@ + values_locals_from(values@, i + 1) =~= before + values_locals_from(
            values@,
            i as int,
        ));
        i += 1;
    }
}

fn push_field_values(out: &mut Vec<LocalId>, fields: &Vec<(String, MirValue)>)
    ensures
        final(out)@ == old(out)@ + fields_locals_from(
            crate::mir::field_values_view(fields@),
            0,
        ),
{
    let ghost views = crate::mir::field_values_view(fields@);
    let mut i: usize = 0;
    while i < fields.len()
        invariant
            i <= fields.len(),
            views == crate::mir::field_values_view(fields@),
            out@ + fields_locals_from(views, i as int) == old(out)@ + fields_locals_from(views, 0),
        decreases fields.len() - i,
    {
        let ghost before = out@;
        push_value(out, &fields[i].1);
        assert(out@ + fields_locals_from(views, i + 1) =~= before + fields_locals_from(
            views,
            i as int,
        ));
        i += 1;
    }
}

fn push_captures(out: &mut Vec<LocalId>, captures: &Vec<ClosureCapture>)
    ensures
        final(out)@ == old(out)@ + Seq::new(captures@.len(), |i: int| captures@[i].local),
{
    let mut i: usize = 0;
    while i < captures.len()
        invariant
            i <= captures.len(),
            out@ == old(out)@ + Seq::new(i as nat, |i: int| captures@[i].local),
        decreases captures.len() - i,
    {
        out.push(captures[i].local);
        i += 1;
    }
}

fn push_borrowed_captures(out: &mut Vec<LocalId>, captures: &Vec<BorrowedClosureCapture>)
    ensures
        final(out)@ == old(out)@ + Seq::new(captures@.len(), |i: int| captures@[i].local),
{
    let mut i: usize = 0;
    while i < captures.len()
        invariant
            i <= captures.len(),
            out@ == old(out)@ + Seq::new(i as nat, |i: int| captures@[i].local),
        decreases captures.len() - i,
    {
        out.push(captures[i].local);
        i += 1;
    }
}

#[verifier::rlimit(50)]
fn collect_rvalue_locals(value: &Rvalue, out: &mut Vec<LocalId>)
    ensures
        final(out)@ == old(out)@ + rvalue_locals(value@),
{
    match value {
        Rvalue::Move(local) => push_local(out, *local),
        Rvalue::Deref { base, .. } => push_local(out, *base),
        Rvalue::Binary { lhs, rhs, .. } => {
            push_value(out, lhs);
            push_value(out, rhs);
        },
        Rvalue::Cast { value, .. } => push_value(out, value),
        Rvalue::Call { args, .. } => push_values(out, args),
        Rvalue::MakeClosure { captures, .. } => push_captures(out, captures),
        Rvalue::MakeBorrowedClosure { captures, .. } => push_borrowed_captures(out, captures),
        Rvalue::CallIndirect { callee, args, .. } => {
            push_local(out, *callee);
            push_values(out, args);
        },
        Rvalue::CallIndirectShared { callee, args, .. } => {
            push_local(out, *callee);
            push_values(out, args);
        },
        Rvalue::CallIndirectMut { callee, args, .. } => {
            push_local(out, *callee);
            push_values(out, args);
        },
        Rvalue::ThreadSpawnUnit { task, out_handle } => {
            push_local(out, *task);
            push_local(out, *out_handle);
        },
        Rvalue::ThreadSpawnResult { task, out_handle, .. } => {
            push_local(out, *task);
            push_local(out, *out_handle);
        },
        Rvalue::ThreadJoinUnit { handle } => push_local(out, *handle),
        Rvalue::ThreadJoinResult { handle, out_result, .. } => {
            push_local(out, *handle);
            push_local(out, *out_result);
        },
        Rvalue::ThreadDetachUnit { handle } => push_local(out, *handle),
        Rvalue::ThreadHandleFromRaw { raw } => push_local(out, *raw),
        Rvalue::ThreadHandleIntoRaw { handle } => push_local(out, *handle),
        Rvalue::ThreadErrorFromStatus { status } => push_value(out, status),
        Rvalue::ThreadScopeCreate { out_scope } => push_local(out, *out_scope),
        Rvalue::ThreadScopeExit { scope } => push_local(out, *scope),
        Rvalue::ThreadScopeFromRaw { raw } => push_local(out, *raw),
        Rvalue::ThreadScopeDrain { scope } => push_local(out, *scope),
        Rvalue::ScopedThreadSpawnUnit { scope, task, out_handle } => {
            push_local(out, *scope);
            push_local(out, *task);
            push_local(out, *out_handle);
        },
        Rvalue::ScopedThreadSpawnResult { scope, task, out_handle, .. } => {
            push_local(out, *scope);
            push_local(out, *task);
            push_local(out, *out_handle);
        },
        Rvalue::ScopedThreadJoinUnit { handle } => push_local(out, *handle),
        Rvalue::ScopedThreadJoinResult { handle, out_result, .. } => {
            push_local(out, *handle);
            push_local(out, *out_result);
        },
        Rvalue::ScopedThreadHandleFromRaw { raw, .. } => push_local(out, *raw),
        Rvalue::ScopedThreadHandleIntoRaw { handle, .. } => push_local(out, *handle),
        Rvalue::StructLit { field_values, .. } => push_field_values(out, field_values),
        Rvalue::FieldAccess { base, .. } => push_local(out, *base),
        Rvalue::FieldRef { base, .. } => push_local(out, *base),
        Rvalue::Ref { base, .. } => push_local(out, *base),
        Rvalue::ArrayLit { elements, .. } => push_values(out, elements),
        Rvalue::ArrayIndex { base, index, .. } => {
            push_local(out, *base);
            push_value(out, index);
        },
        Rvalue::ArrayLen { base } => push_local(out, *base),
        Rvalue::VecWithCapacity { capacity, .. } => push_value(out, capacity),
        Rvalue::VecPush { vec, value, .. } => {
            push_local(out, *vec);
            push_value(out, value);
        },
        Rvalue::VecPop { vec, .. } => push_local(out, *vec),
        Rvalue::VecLen { vec } => push_local(out, *vec),
        Rvalue::VecIndex { vec, index, .. } => {
            push_local(out, *vec);
            push_value(out, index);
        },
        Rvalue::VecIndexRef { vec, index, .. } => {
            push_local(out, *vec);
            push_value(out, index);
        },
        Rvalue::MapWithCapacity { capacity, .. } => push_value(out, capacity),
        Rvalue::MapAdd { map, key, value, .. } => {
            push_local(out, *map);
            push_value(out, key);
            push_value(out, value);
        },
        Rvalue::MapUpdate { map, key, value, .. } => {
            push_local(out, *map);
            push_value(out, key);
            push_value(out, value);
        },
        Rvalue::MapDel { map, key, .. } => {
            push_local(out, *map);
            push_value(out, key);
        },
        Rvalue::MapGet { map, key, .. } => {
            push_local(out, *map);
            push_value(out, key);
        },
        Rvalue::MapHas { map, key, .. } => {
            push_local(out, *map);
            push_value(out, key);
        },
        Rvalue::MapKeys { map, .. } => push_local(out, *map),
        Rvalue::MapVals { map, .. } => push_local(out, *map),
        Rvalue::FileOpen { path, .. } => push_value(out, path),
        Rvalue::FileReadToString { file } => push_local(out, *file),
        Rvalue::FileWriteString { file, contents } => {
            push_local(out, *file);
            push_value(out, contents);
        },
        Rvalue::FileClose { file } => push_local(out, *file),
        Rvalue::StringLen { base } => push_local(out, *base),
        Rvalue::StringConcat { base, value } => {
            push_local(out, *base);
            push_value(out, value);
        },
        Rvalue::StringSlice { base, start, len } => {
            push_local(out, *base);
            push_value(out, start);
            push_value(out, len);
        },
        Rvalue::StringTrim { base } => push_local(out, *base),
        Rvalue::StringSplit { base, sep } => {
            push_local(out, *base);
            push_value(out, sep);
        },
        Rvalue::StringStartsWith { base, needle } => {
            push_local(out, *base);
            push_value(out, needle);
        },
        Rvalue::StringEndsWith { base, needle } => {
            push_local(out, *base);
            push_value(out, needle);
        },
        Rvalue::StringClone { base } => push_local(out, *base),
        Rvalue::OwnNew { value, .. } => push_value(out, value),
        Rvalue::OwnIntoRaw { base, .. } => push_local(out, *base),
        Rvalue::OwnFromRaw { ptr, .. } => push_value(out, ptr),
        Rvalue::SharedNew { value, .. } => push_value(out, value),
        Rvalue::SharedClone { base, .. } => push_local(out, *base),
        Rvalue::ArcNew { value, .. } => push_value(out, value),
        Rvalue::ArcClone { base, .. } => push_local(out, *base),
        Rvalue::ArcBorrow { base, .. } => push_local(out, *base),
        Rvalue::MutexNew { value, .. } => push_value(out, value),
        Rvalue::MutexLock { base, .. } => push_local(out, *base),
        Rvalue::MutexTryLock { base, .. } => push_local(out, *base),
        Rvalue::MutexGuardIsAcquired { guard, .. } => push_local(out, *guard),
        Rvalue::MutexGuardBorrow { guard, .. } => push_local(out, *guard),
        Rvalue::SpscChannelNew { capacity, out_receiver, .. } => {
            push_value(out, capacity);
            push_local(out, *out_receiver);
        },
        Rvalue::SpscTrySend { sender, value, out_unsent, .. } => {
            push_local(out, *sender);
            push_local(out, *value);
            push_local(out, *out_unsent);
        },
        Rvalue::SpscTryRecv { receiver, out_value, .. } => {
            push_local(out, *receiver);
            push_local(out, *out_value);
        },
        Rvalue::AtomicNew { value, .. } => push_value(out, value),
        Rvalue::AtomicLoad { atomic, .. } => push_local(out, *atomic),
        Rvalue::AtomicStore { atomic, value, .. } => {
            push_local(out, *atomic);
            push_value(out, value);
        },
        Rvalue::AtomicRmw { atomic, value, .. } => {
            push_local(out, *atomic);
            push_value(out, value);
        },
        Rvalue::AtomicCompareExchange { atomic, expected, desired, .. } => {
            push_local(out, *atomic);
            push_value(out, expected);
            push_value(out, desired);
        },
        Rvalue::EnumConstruct { payload, .. } => push_optional_value(out, payload),
        Rvalue::EnumTag { base } => push_local(out, *base),
        Rvalue::EnumPayload { base, .. } => push_local(out, *base),
        Rvalue::ConstInt(_)
        | Rvalue::ConstFloat(_)
        | Rvalue::ConstBool(_)
        | Rvalue::StringLit { .. }
        | Rvalue::FunctionRef { .. }
        | Rvalue::VecNew { .. }
        | Rvalue::MapNew { .. }
        | Rvalue::RawPtrNull { .. }
        | Rvalue::AtomicFence { .. }
        | Rvalue::AtomicIsLockFree { .. } => {},
    }
}

fn rvalue_write_only_targets(value: &Rvalue) -> (targets: Vec<LocalId>)
    ensures
        targets@ == write_only_targets(value@),
{
    match value {
        Rvalue::ThreadSpawnUnit { out_handle, .. } => vec![*out_handle],
        Rvalue::ThreadSpawnResult { out_handle, .. } => vec![*out_handle],
        Rvalue::ScopedThreadSpawnUnit { out_handle, .. } => vec![*out_handle],
        Rvalue::ScopedThreadSpawnResult { out_handle, .. } => vec![*out_handle],
        Rvalue::ThreadJoinResult { out_result, .. } => vec![*out_result],
        Rvalue::ScopedThreadJoinResult { out_result, .. } => vec![*out_result],
        Rvalue::ThreadScopeCreate { out_scope } => vec![*out_scope],
        Rvalue::SpscChannelNew { out_receiver, .. } => vec![*out_receiver],
        Rvalue::SpscTrySend { out_unsent, .. } => vec![*out_unsent],
        Rvalue::SpscTryRecv { out_value, .. } => vec![*out_value],
        _ => Vec::new(),
    }
}

fn contains_id(ids: &Vec<LocalId>, id: LocalId) -> (found: bool)
    ensures
        found == ids@.contains(id),
{
    let mut i: usize = 0;
    while i < ids.len()
        invariant
            i <= ids.len(),
            forall|j: int| 0 <= j < i ==> ids@[j] != id,
        decreases ids.len() - i,
    {
        if ids[i] == id {
            return true;
        }
        i += 1;
    }
    false
}

fn push_rvalue_reads(value: &Rvalue, out: &mut Vec<LocalId>)
    ensures
        final(out)@ == old(out)@ + rvalue_reads(value@),
{
    let mut all: Vec<LocalId> = Vec::new();
    collect_rvalue_locals(value, &mut all);
    let write_only = rvalue_write_only_targets(value);
    assert(all@ =~= rvalue_locals(value@));
    let mut i: usize = 0;
    while i < all.len()
        invariant
            i <= all.len(),
            out@ + kept_from(all@, write_only@, i as int) == old(out)@ + kept_from(
                all@,
                write_only@,
                0,
            ),
        decreases all.len() - i,
    {
        let ghost before = out@;
        if !contains_id(&write_only, all[i]) {
            out.push(all[i]);
        }
        assert(out@ + kept_from(all@, write_only@, i + 1) =~= before + kept_from(
            all@,
            write_only@,
            i as int,
        ));
        i += 1;
    }
}

fn collect_all_locals_in_inst(inst: &MirInst, out: &mut Vec<LocalId>)
    ensures
        final(out)@ == old(out)@ + inst_locals(inst@),
{
    match inst {
        MirInst::Assign { local, value } => {
            push_local(out, *local);
            collect_rvalue_locals(value, out);
        },
        MirInst::AssignField { base, value, .. } => {
            push_local(out, *base);
            collect_rvalue_locals(value, out);
        },
        MirInst::AssignIndex { base, index, value } => {
            push_local(out, *base);
            push_value(out, index);
            collect_rvalue_locals(value, out);
        },
        MirInst::Return(value) => push_optional_value(out, value),
        MirInst::Goto(_) => {},
        MirInst::If { cond, .. } => push_value(out, cond),
        MirInst::Drop(id) => push_local(out, *id),
        MirInst::DropThreadHandle(id) => push_local(out, *id),
        MirInst::DropThreadScope(id) => push_local(out, *id),
        MirInst::DrainThreadScope(id) => push_local(out, *id),
        MirInst::DropScopedThreadHandle(id) => push_local(out, *id),
        MirInst::Nop => {},
    }
}

/// Like [`collect_all_locals_in_inst`], but excludes an `Assign`'s own write
/// target (that is a definition, not a use) so it is safe to feed straight
/// into the same-block use-after-drop check.
fn collect_read_locals_in_inst(inst: &MirInst, out: &mut Vec<LocalId>)
    ensures
        final(out)@ == old(out)@ + inst_reads(inst@),
{
    match inst {
        MirInst::Assign { value, .. } => push_rvalue_reads(value, out),
        MirInst::AssignField { base, value, .. } => {
            push_local(out, *base);
            push_rvalue_reads(value, out);
        },
        MirInst::AssignIndex { base, index, value } => {
            push_local(out, *base);
            push_value(out, index);
            push_rvalue_reads(value, out);
        },
        MirInst::Drop(_) => {},
        _ => collect_all_locals_in_inst(inst, out),
    }
}

pub open spec fn terminates(inst: MirInstView) -> bool {
    inst is Return || inst is Goto || inst is If
}

fn is_terminator(inst: &MirInst) -> (terminator: bool)
    ensures
        terminator == terminates(inst@),
{
    match inst {
        MirInst::Return(_) | MirInst::Goto(_) | MirInst::If { .. } => true,
        _ => false,
    }
}

/// The blocks that an instruction may continue at.
pub open spec fn targets(inst: MirInstView) -> Seq<BlockId> {
    match inst {
        MirInstView::Goto(block) => seq![block],
        MirInstView::If { then_bb, else_bb, .. } => seq![then_bb, else_bb],
        _ => Seq::empty(),
    }
}

fn terminator_targets(inst: &MirInst) -> (blocks: Vec<BlockId>)
    ensures
        blocks@ == targets(inst@),
{
    match inst {
        MirInst::Goto(block) => vec![*block],
        MirInst::If { then_bb, else_bb, .. } => vec![*then_bb, *else_bb],
        _ => Vec::new(),
    }
}

/// The rvalue an instruction carries, if any.
pub open spec fn carried_rvalue(inst: MirInstView) -> Option<RvalueView> {
    match inst {
        MirInstView::Assign { value, .. } => Some(value),
        MirInstView::AssignField { value, .. } => Some(value),
        MirInstView::AssignIndex { value, .. } => Some(value),
        _ => None,
    }
}

fn rvalue_of(inst: &MirInst) -> (value: Option<&Rvalue>)
    ensures
        match value {
            Some(value) => carried_rvalue(inst@) == Some(value@),
            None => carried_rvalue(inst@) is None,
        },
{
    match inst {
        MirInst::Assign { value, .. } => Some(value),
        MirInst::AssignField { value, .. } => Some(value),
        MirInst::AssignIndex { value, .. } => Some(value),
        _ => None,
    }
}

/// The problems of the ids from position `i` on that are out of range.
pub open spec fn local_range_errors(
    site: Site,
    ids: Seq<LocalId>,
    n_locals: nat,
    i: int,
) -> Seq<VerifyErrorView>
    decreases ids.len() - i,
{
    if i < 0 || i >= ids.len() {
        Seq::empty()
    } else {
        let rest = local_range_errors(site, ids, n_locals, i + 1);
        if ids[i].0 >= n_locals {
            seq![
                problem_at(
                    site,
                    "references out-of-range local "@ + local_id_text(ids[i])
                        + " (function has "@ + decimal_text(n_locals) + " locals)"@,
                ),
            ] + rest
        } else {
            rest
        }
    }
}

fn check_local_ranges(
    function: &String,
    block: BlockId,
    inst: usize,
    ids: &Vec<LocalId>,
    n_locals: usize,
    errors: &mut Vec<VerifyError>,
)
    ensures
        errors_view(final(errors)@) == errors_view(old(errors)@) + local_range_errors(
            Site { function: function@, block, inst },
            ids@,
            n_locals as nat,
            0,
        ),
{
    let ghost site = Site { function: function@, block, inst };
    let mut i: usize = 0;
    while i < ids.len()
        invariant
            i <= ids.len(),
            site == (Site { function: function@, block, inst }),
            errors_view(errors@) + local_range_errors(site, ids@, n_locals as nat, i as int)
                == errors_view(old(errors)@) + local_range_errors(site, ids@, n_locals as nat, 0),
        decreases ids.len() - i,
    {
        let ghost before = errors_view(errors@);
        if ids[i].0 as usize >= n_locals {
            let mut message = concat3(
                "references out-of-range local ",
                local_id_string(ids[i]).as_str(),
                " (function has ",
            );
            message.append(decimal(n_locals as u64).as_str());
            message.append(" locals)");
            report_at(errors, function, block, inst, message);
        }
        assert(errors_view(errors@) + local_range_errors(site, ids@, n_locals as nat, i + 1)
            =~= before + local_range_errors(site, ids@, n_locals as nat, i as int));
        i += 1;
    }
}

/// The problems of the target blocks from position `i` on that are out of range.
pub open spec fn block_range_errors(
    site: Site,
    blocks: Seq<BlockId>,
    n_blocks: nat,
    i: int,
) -> Seq<VerifyErrorView>
    decreases blocks.len() - i,
{
    if i < 0 || i >= blocks.len() {
        Seq::empty()
    } else {
        let rest = block_range_errors(site, blocks, n_blocks, i + 1);
        if blocks[i].0 >= n_blocks {
            seq![
                problem_at(
                    site,
                    "references out-of-range block "@ + block_id_text(blocks[i])
                        + " (function has "@ + decimal_text(n_blocks) + " blocks)"@,
                ),
            ] + rest
        } else {
            rest
        }
    }
}

fn check_block_ranges(
    function: &String,
    block: BlockId,
    inst: usize,
    blocks: &Vec<BlockId>,
    n_blocks: usize,
    errors: &mut Vec<VerifyError>,
)
    ensures
        errors_view(final(errors)@) == errors_view(old(errors)@) + block_range_errors(
            Site { function: function@, block, inst },
            blocks@,
            n_blocks as nat,
            0,
        ),
{
    let ghost site = Site { function: function@, block, inst };
    let mut i: usize = 0;
    while i < blocks.len()
        invariant
            i <= blocks.len(),
            site == (Site { function: function@, block, inst }),
            errors_view(errors@) + block_range_errors(site, blocks@, n_blocks as nat, i as int)
                == errors_view(old(errors)@) + block_range_errors(
                site,
                blocks@,
                n_blocks as nat,
                0,
            ),
        decreases blocks.len() - i,
    {
        let ghost before = errors_view(errors@);
        if blocks[i].0 as usize >= n_blocks {
            let mut message = concat3(
                "references out-of-range block ",
                block_id_string(blocks[i]).as_str(),
                " (function has ",
            );
            message.append(decimal(n_blocks as u64).as_str());
            message.append(" blocks)");
            report_at(errors, function, block, inst, message);
        }
        assert(errors_view(errors@) + block_range_errors(site, blocks@, n_blocks as nat, i + 1)
            =~= before + block_range_errors(site, blocks@, n_blocks as nat, i as int));
        i += 1;
    }
}

pub open spec fn logical_op_text(op: BinaryOp) -> Option<Seq<char>> {
    match op {
        BinaryOp::And => Some("And"@),
        BinaryOp::Or => Some("Or"@),
        _ => None,
    }
}

/// The problem of a logical operator that was not lowered to control flow.
pub open spec fn logical_errors(site: Site, value: RvalueView) -> Seq<VerifyErrorView> {
    match value {
        RvalueView::Binary { op, .. } => match logical_op_text(op) {
            Some(op) => seq![
                problem_at(
                    site,
                    "raw `"@ + op
                        + "` reached MIR as an eager Rvalue::Binary; logical operators must be lowered to control flow (see lower_logical) before codegen"@,
                ),
            ],
            None => Seq::empty(),
        },
        _ => Seq::empty(),
    }
}

fn check_no_logical_binary(
    value: &Rvalue,
    function: &String,
    block: BlockId,
    inst: usize,
    errors: &mut Vec<VerifyError>,
)
    ensures
        errors_view(final(errors)@) == errors_view(old(errors)@) + logical_errors(
            Site { function: function@, block, inst },
            value@,
        ),
{
    match value {
        Rvalue::Binary { op, .. } => {
            let op_text = match op {
                BinaryOp::And => "And",
                BinaryOp::Or => "Or",
                _ => {
                    return ;
                },
            };
            let message = concat3(
                "raw `",
                op_text,
                "` reached MIR as an eager Rvalue::Binary; logical operators must be lowered to control flow (see lower_logical) before codegen",
            );
            report_at(errors, function, block, inst, message);
        },
        _ => {},
    }
}

/// The enum that a local holds, directly or behind a reference.
pub open spec fn enum_name_of(base: LocalId, locals: Seq<LocalView>) -> Option<Seq<char>> {
    if base.0 >= locals.len() {
        None
    } else {
        match locals[base.0 as int].ty {
            Some(TypeView::Enum(name)) => Some(name),
            Some(TypeView::Ref(inner, _)) => match *inner {
                TypeView::Enum(name) => Some(name),
                _ => None,
            },
            _ => None,
        }
    }
}

fn resolve_enum_name(base: LocalId, locals: &Vec<Local>) -> (name: Option<&str>)
    ensures
        match name {
            Some(name) => enum_name_of(base, locals_view(locals@)) == Some(name@),
            None => enum_name_of(base, locals_view(locals@)) is None,
        },
{
    if base.0 as usize >= locals.len() {
        return None;
    }
    assert(locals_view(locals@)[base.0 as int] == locals[base.0 as int]@);
    match &locals[base.0 as usize].ty {
        Some(ty) => match ty {
            Type::Enum(name) => Some(name.as_str()),
            Type::Ref(inner, _) => {
                let target: &Type = inner;
                assert(*(ty@->Ref_0) == target@);
                match target {
                    Type::Enum(name) => Some(name.as_str()),
                    _ => None,
                }
            },
            _ => None,
        },
        None => None,
    }
}

/// The problem of a variant index that its enum does not have.
pub open spec fn variant_errors(
    site: Site,
    enums: Seq<(Seq<char>, EnumType)>,
    operation: Seq<char>,
    name: Seq<char>,
    variant_index: u32,
) -> Seq<VerifyErrorView> {
    match value_of(enums, name) {
        Some(definition) => if variant_index >= definition.variants@.len() {
            seq![
                problem_at(
                    site,
                    operation + " variant index "@ + decimal_text(variant_index as nat)
                        + " out of range for enum `"@ + name + "` ("@ + decimal_text(
                        definition.variants@.len(),
                    ) + " variant(s))"@,
                ),
            ]
        } else {
            Seq::empty()
        },
        None => Seq::empty(),
    }
}

fn check_variant(
    function: &String,
    block: BlockId,
    inst: usize,
    enums: &NameMap<EnumType>,
    operation: &str,
    name: &str,
    variant_index: u32,
    errors: &mut Vec<VerifyError>,
)
    ensures
        errors_view(final(errors)@) == errors_view(old(errors)@) + variant_errors(
            Site { function: function@, block, inst },
            enums@,
            operation@,
            name@,
            variant_index,
        ),
{
    match enums.get(name) {
        Some(definition) => {
            if variant_index as usize >= definition.variants.len() {
                let mut message = concat3(
                    operation,
                    " variant index ",
                    decimal(variant_index as u64).as_str(),
                );
                message.append(" out of range for enum `");
                message.append(name);
                message.append("` (");
                message.append(decimal(definition.variants.len() as u64).as_str());
                message.append(" variant(s))");
                report_at(errors, function, block, inst, message);
            }
        },
        None => {},
    }
}

/// The problems of the enum variant that an rvalue names.
pub open spec fn enum_index_errors(
    site: Site,
    enums: Seq<(Seq<char>, EnumType)>,
    locals: Seq<LocalView>,
    value: RvalueView,
) -> Seq<VerifyErrorView> {
    match value {
        RvalueView::EnumConstruct { enum_name, variant_index, .. } => variant_errors(
            site,
            enums,
            "EnumConstruct"@,
            enum_name,
            variant_index,
        ),
        RvalueView::EnumPayload { base, variant_index, .. } => match enum_name_of(base, locals) {
            Some(name) => variant_errors(site, enums, "EnumPayload"@, name, variant_index),
            None => Seq::empty(),
        },
        _ => Seq::empty(),
    }
}

fn check_enum_indices(
    value: &Rvalue,
    locals: &Vec<Local>,
    enums: &NameMap<EnumType>,
    function: &String,
    block: BlockId,
    inst: usize,
    errors: &mut Vec<VerifyError>,
)
    ensures
        errors_view(final(errors)@) == errors_view(old(errors)@) + enum_index_errors(
            Site { function: function@, block, inst },
            enums@,
            locals_view(locals@),
            value@,
        ),
{
    match value {
        Rvalue::EnumConstruct { enum_name, variant_index, .. } => {
            check_variant(
                function,
                block,
                inst,
                enums,
                "EnumConstruct",
                enum_name.as_str(),
                *variant_index,
                errors,
            );
        },
        Rvalue::EnumPayload { base, variant_index, .. } => {
            match resolve_enum_name(*base, locals) {
                Some(name) => {
                    check_variant(
                        function,
                        block,
                        inst,
                        enums,
                        "EnumPayload",
                        name,
                        *variant_index,
                        errors,
                    );
                },
                None => {},
            }
        },
        _ => {},
    }
}

/// The problems of the ids from position `i` on that are read after a drop.
pub open spec fn stale_read_errors(
    site: Site,
    reads: Seq<LocalId>,
    dropped: Set<u32>,
    i: int,
) -> Seq<VerifyErrorView>
    decreases reads.len() - i,
{
    if i < 0 || i >= reads.len() {
        Seq::empty()
    } else {
        let rest = stale_read_errors(site, reads, dropped, i + 1);
        if dropped.contains(reads[i].0) {
            seq![
                problem_at(
                    site,
                    "local "@ + local_id_text(reads[i])
                        + " used after being dropped in this block"@,
                ),
            ] + rest
        } else {
            rest
        }
    }
}

fn check_stale_reads(
    function: &String,
    block: BlockId,
    inst: usize,
    reads: &Vec<LocalId>,
    dropped: &HashSet<u32>,
    errors: &mut Vec<VerifyError>,
)
    ensures
        errors_view(final(errors)@) == errors_view(old(errors)@) + stale_read_errors(
            Site { function: function@, block, inst },
            reads@,
            dropped@,
            0,
        ),
{
    let ghost site = Site { function: function@, block, inst };
    let mut i: usize = 0;
    while i < reads.len()
        invariant
            i <= reads.len(),
            site == (Site { function: function@, block, inst }),
            errors_view(errors@) + stale_read_errors(site, reads@, dropped@, i as int)
                == errors_view(old(errors)@) + stale_read_errors(site, reads@, dropped@, 0),
        decreases reads.len() - i,
    {
        let ghost before = errors_view(errors@);
        if dropped.contains(&reads[i].0) {
            let message = concat3(
                "local ",
                local_id_string(reads[i]).as_str(),
                " used after being dropped in this block",
            );
            report_at(errors, function, block, inst, message);
        }
        assert(errors_view(errors@) + stale_read_errors(site, reads@, dropped@, i + 1) =~= before
            + stale_read_errors(site, reads@, dropped@, i as int));
        i += 1;
    }
}

/// The dropped locals without the ids from position `i` on.
pub open spec fn reinitialized(dropped: Set<u32>, ids: Seq<LocalId>, i: int) -> Set<u32>
    decreases ids.len() - i,
{
    if i < 0 || i >= ids.len() {
        dropped
    } else {
        reinitialized(dropped.remove(ids[i].0), ids, i + 1)
    }
}

fn reinitialize(dropped: &mut HashSet<u32>, ids: &Vec<LocalId>)
    ensures
        final(dropped)@ == reinitialized(old(dropped)@, ids@, 0),
{
    let mut i: usize = 0;
    while i < ids.len()
        invariant
            i <= ids.len(),
            reinitialized(dropped@, ids@, i as int) == reinitialized(old(dropped)@, ids@, 0),
        decreases ids.len() - i,
    {
        dropped.remove(&ids[i].0);
        i += 1;
    }
}

/// The locals that are dropped after an instruction. An `Assign` target, or an
/// rvalue's destination field, is freshly initialized by it; the base of a
/// field or index assignment is mutated through.
pub open spec fn dropped_after(dropped: Set<u32>, inst: MirInstView) -> Set<u32> {
    match inst {
        MirInstView::Drop(id) => dropped.insert(id.0),
        MirInstView::Assign { local, value } => reinitialized(
            dropped.remove(local.0),
            write_only_targets(value),
            0,
        ),
        MirInstView::AssignField { value, .. } => reinitialized(
            dropped,
            write_only_targets(value),
            0,
        ),
        MirInstView::AssignIndex { value, .. } => reinitialized(
            dropped,
            write_only_targets(value),
            0,
        ),
        _ => dropped,
    }
}

fn update_dropped(dropped: &mut HashSet<u32>, inst: &MirInst)
    ensures
        final(dropped)@ == dropped_after(old(dropped)@, inst@),
{
    match inst {
        MirInst::Drop(id) => {
            dropped.insert(id.0);
        },
        MirInst::Assign { local, value } => {
            dropped.remove(&local.0);
            let targets = rvalue_write_only_targets(value);
            reinitialize(dropped, &targets);
        },
        MirInst::AssignField { value, .. } => {
            let targets = rvalue_write_only_targets(value);
            reinitialize(dropped, &targets);
        },
        MirInst::AssignIndex { value, .. } => {
            let targets = rvalue_write_only_targets(value);
            reinitialize(dropped, &targets);
        },
        _ => {},
    }
}

/// The problems of one instruction, given the locals dropped before it.
pub open spec fn inst_errors(
    func: MirFunctionView,
    enums: Seq<(Seq<char>, EnumType)>,
    site: Site,
    inst: MirInstView,
    is_last: bool,
    dropped: Set<u32>,
) -> Seq<VerifyErrorView> {
    let placement = if terminates(inst) && !is_last {
        seq![problem_at(site, "instruction follows a terminator in the same block"@)]
    } else {
        Seq::empty()
    };
    let value = match carried_rvalue(inst) {
        Some(value) => enum_index_errors(site, enums, func.locals, value) + logical_errors(
            site,
            value,
        ),
        None => Seq::empty(),
    };
    local_range_errors(site, inst_locals(inst), func.locals.len(), 0) + block_range_errors(
        site,
        targets(inst),
        func.blocks.len(),
        0,
    ) + placement + value + stale_read_errors(site, inst_reads(inst), dropped, 0)
}

/// The problems of a block's instructions from position `i` on.
pub open spec fn insts_errors_from(
    func: MirFunctionView,
    enums: Seq<(Seq<char>, EnumType)>,
    block: BlockId,
    insts: Seq<MirInstView>,
    dropped: Set<u32>,
    i: int,
) -> Seq<VerifyErrorView>
    decreases insts.len() - i,
{
    if i < 0 || i >= insts.len() {
        Seq::empty()
    } else {
        inst_errors(
            func,
            enums,
            Site { function: func.name, block, inst: i as usize },
            insts[i],
            i == insts.len() - 1,
            dropped,
        ) + insts_errors_from(
            func,
            enums,
            block,
            insts,
            dropped_after(dropped, insts[i]),
            i + 1,
        )
    }
}

/// The problems of a block.
pub open spec fn block_errors(
    func: MirFunctionView,
    enums: Seq<(Seq<char>, EnumType)>,
    block: BlockId,
    insts: Seq<MirInstView>,
) -> Seq<VerifyErrorView> {
    if insts.len() == 0 {
        seq![
            VerifyErrorView {
                function: func.name,
                block: Some(block),
                inst_index: None,
                message: "block is empty; missing a terminator"@,
            },
        ]
    } else {
        let ending = if terminates(insts.last()) {
            Seq::empty()
        } else {
            seq![
                problem_at(
                    Site { function: func.name, block, inst: (insts.len() - 1) as usize },
                    "block does not end with a terminator"@,
                ),
            ]
        };
        insts_errors_from(func, enums, block, insts, Set::empty(), 0) + ending
    }
}

fn verify_inst(
    func: &MirFunction,
    enums: &NameMap<EnumType>,
    block: BlockId,
    index: usize,
    inst: &MirInst,
    is_last: bool,
    dropped: &HashSet<u32>,
    errors: &mut Vec<VerifyError>,
)
    ensures
        errors_view(final(errors)@) == errors_view(old(errors)@) + inst_errors(
            func@,
            enums@,
            Site { function: func.name@, block, inst: index },
            inst@,
            is_last,
            dropped@,
        ),
{
    let name = &func.name;
    let ghost site = Site { function: name@, block, inst: index };
    let ghost e0 = errors_view(errors@);
    let mut ids: Vec<LocalId> = Vec::new();
    collect_all_locals_in_inst(inst, &mut ids);
    assert(ids@ =~= inst_locals(inst@));
    check_local_ranges(name, block, index, &ids, func.locals.len(), errors);
    let ghost part1 = local_range_errors(site, inst_locals(inst@), func@.locals.len(), 0);
    let blocks = terminator_targets(inst);
    check_block_ranges(name, block, index, &blocks, func.blocks.len(), errors);
    let ghost part2 = block_range_errors(site, targets(inst@), func@.blocks.len(), 0);
    let ghost e2 = errors_view(errors@);
    if is_terminator(inst) && !is_last {
        report_at(
            errors,
            name,
            block,
            index,
            "instruction follows a terminator in the same block".to_owned(),
        );
    }
    let ghost e3 = errors_view(errors@);
    let ghost part3: Seq<VerifyErrorView> = if terminates(inst@) && !is_last {
        seq![problem_at(site, "instruction follows a terminator in the same block"@)]
    } else {
        Seq::empty()
    };
    assert(e3 =~= e2 + part3);
    match rvalue_of(inst) {
        Some(value) => {
            check_enum_indices(value, &func.locals, enums, name, block, index, errors);
            check_no_logical_binary(value, name, block, index, errors);
        },
        None => {},
    }
    let ghost part4: Seq<VerifyErrorView> = match carried_rvalue(inst@) {
        Some(value) => enum_index_errors(site, enums@, func@.locals, value) + logical_errors(
            site,
            value,
        ),
        None => Seq::empty(),
    };
    assert(errors_view(errors@) =~= e3 + part4);
    let mut reads: Vec<LocalId> = Vec::new();
    collect_read_locals_in_inst(inst, &mut reads);
    assert(reads@ =~= inst_reads(inst@));
    check_stale_reads(name, block, index, &reads, dropped, errors);
    let ghost part5 = stale_read_errors(site, inst_reads(inst@), dropped@, 0);
    assert(e0 + part1 + part2 + part3 + part4 + part5 =~= e0 + (part1 + part2 + part3 + part4
        + part5));
}

fn verify_block(
    func: &MirFunction,
    enums: &NameMap<EnumType>,
    block_id: BlockId,
    block: &MirBlock,
    errors: &mut Vec<VerifyError>,
)
    ensures
        errors_view(final(errors)@) == errors_view(old(errors)@) + block_errors(
            func@,
            enums@,
            block_id,
            insts_view(block.insts@),
        ),
{
    if block.insts.len() == 0 {
        report(
            errors,
            VerifyError {
                function: func.name.clone(),
                block: Some(block_id),
                inst_index: None,
                message: "block is empty; missing a terminator".to_owned(),
            },
        );
        return ;
    }
    let ghost insts = insts_view(block.insts@);
    let ghost start = errors_view(errors@);
    let mut dropped: HashSet<u32> = HashSet::new();
    let last_index: usize = block.insts.len() - 1;
    let mut i: usize = 0;
    while i < block.insts.len()
        invariant
            i <= block.insts.len(),
            last_index == block.insts.len() - 1,
            insts == insts_view(block.insts@),
            errors_view(errors@) + insts_errors_from(
                func@,
                enums@,
                block_id,
                insts,
                dropped@,
                i as int,
            ) == start + insts_errors_from(func@, enums@, block_id, insts, Set::empty(), 0),
        decreases block.insts.len() - i,
    {
        let ghost before = errors_view(errors@);
        let ghost dropped_before = dropped@;
        let inst = &block.insts[i];
        assert(insts[i as int] == inst@);
        verify_inst(func, enums, block_id, i, inst, i == last_index, &dropped, errors);
        update_dropped(&mut dropped, inst);
        assert(errors_view(errors@) + insts_errors_from(
            func@,
            enums@,
            block_id,
            insts,
            dropped@,
            i + 1,
        ) =~= before + insts_errors_from(
            func@,
            enums@,
            block_id,
            insts,
            dropped_before,
            i as int,
        ));
        i += 1;
    }
    assert(errors_view(errors@) =~= start + insts_errors_from(
        func@,
        enums@,
        block_id,
        insts,
        Set::empty(),
        0,
    ));
    assert(insts.last() == block.insts[last_index as int]@);
    if !is_terminator(&block.insts[last_index]) {
        report_at(
            errors,
            &func.name,
            block_id,
            last_index,
            "block does not end with a terminator".to_owned(),
        );
    }
    assert(errors_view(errors@) =~= start + block_errors(func@, enums@, block_id, insts));
}

/// The problems of the blocks from position `i` on.
pub open spec fn blocks_errors_from(
    func: MirFunctionView,
    enums: Seq<(Seq<char>, EnumType)>,
    i: int,
) -> Seq<VerifyErrorView>
    decreases func.blocks.len() - i,
{
    if i < 0 || i >= func.blocks.len() {
        Seq::empty()
    } else {
        block_errors(func, enums, BlockId(i as u32), func.blocks[i]) + blocks_errors_from(
            func,
            enums,
            i + 1,
        )
    }
}

/// The problems of the parameters from position `i` on.
pub open spec fn param_errors_from(func: MirFunctionView, i: int) -> Seq<VerifyErrorView>
    decreases func.params.len() - i,
{
    if i < 0 || i >= func.params.len() {
        Seq::empty()
    } else {
        let rest = param_errors_from(func, i + 1);
        if func.params[i].0 >= func.locals.len() {
            seq![
                problem(
                    func.name,
                    "param "@ + decimal_text(i as nat) + " references out-of-range local "@
                        + local_id_text(func.params[i]) + " (function has "@ + decimal_text(
                        func.locals.len(),
                    ) + " locals)"@,
                ),
            ] + rest
        } else {
            rest
        }
    }
}

/// The problem of a declared type, introduced by `subject`.
pub open spec fn declared_type_errors(
    function: Seq<char>,
    subject: Seq<char>,
    ty: Option<TypeView>,
) -> Seq<VerifyErrorView> {
    match ty {
        Some(ty) => match type_problem(ty) {
            Some(message) => seq![problem(function, subject + message)],
            None => Seq::empty(),
        },
        None => Seq::empty(),
    }
}

fn check_declared_type(
    function: &String,
    subject: String,
    ty: &Option<Type>,
    errors: &mut Vec<VerifyError>,
)
    ensures
        errors_view(final(errors)@) == errors_view(old(errors)@) + declared_type_errors(
            function@,
            subject@,
            type_option_view(*ty),
        ),
{
    match ty {
        Some(ty) => check_type_of(function, subject, ty, errors),
        None => {},
    }
}

fn check_type_of(function: &String, subject: String, ty: &Type, errors: &mut Vec<VerifyError>)
    ensures
        errors_view(final(errors)@) == errors_view(old(errors)@) + declared_type_errors(
            function@,
            subject@,
            Some(ty@),
        ),
{
    match check_type(ty) {
        Ok(()) => {},
        Err(message) => {
            let mut text = subject;
            text.append(message.as_str());
            report(errors, VerifyError::new(function.clone(), text));
        },
    }
}

/// The problems of the declared types of the locals from position `i` on.
pub open spec fn local_type_errors_from(func: MirFunctionView, i: int) -> Seq<VerifyErrorView>
    decreases func.locals.len() - i,
{
    if i < 0 || i >= func.locals.len() {
        Seq::empty()
    } else {
        declared_type_errors(
            func.name,
            "local "@ + decimal_text(i as nat) + " has invalid type: "@,
            func.locals[i].ty,
        ) + local_type_errors_from(func, i + 1)
    }
}

/// The problems of a function.
pub open spec fn function_errors(
    func: MirFunctionView,
    enums: Seq<(Seq<char>, EnumType)>,
) -> Seq<VerifyErrorView> {
    let body = if func.blocks.len() == 0 {
        seq![problem(func.name, "function has no basic blocks"@)]
    } else {
        blocks_errors_from(func, enums, 0)
    };
    param_errors_from(func, 0) + declared_type_errors(
        func.name,
        "return type is invalid: "@,
        func.ret_type,
    ) + local_type_errors_from(func, 0) + body
}

fn verify_function(func: &MirFunction, enums: &NameMap<EnumType>, errors: &mut Vec<VerifyError>)
    ensures
        errors_view(final(errors)@) == errors_view(old(errors)@) + function_errors(func@, enums@),
{
    let name = &func.name;
    let ghost e0 = errors_view(errors@);
    verify_params(func, errors);
    check_declared_type(name, "return type is invalid: ".to_owned(), &func.ret_type, errors);
    verify_local_types(func, errors);
    let ghost head = param_errors_from(func@, 0) + declared_type_errors(
        func@.name,
        "return type is invalid: "@,
        func@.ret_type,
    ) + local_type_errors_from(func@, 0);
    assert(errors_view(errors@) =~= e0 + head);
    if func.blocks.len() == 0 {
        report(
            errors,
            VerifyError::new(name.clone(), "function has no basic blocks".to_owned()),
        );
        assert(errors_view(errors@) =~= e0 + function_errors(func@, enums@));
        return ;
    }
    let ghost start = errors_view(errors@);
    let mut i: usize = 0;
    while i < func.blocks.len()
        invariant
            i <= func.blocks.len(),
                errors_view(errors@) + blocks_errors_from(func@, enums@, i as int) == start
                + blocks_errors_from(func@, enums@, 0),
        decreases func.blocks.len() - i,
    {
        let ghost before = errors_view(errors@);
        assert(func@.blocks[i as int] == insts_view(func.blocks[i as int].insts@));
        verify_block(func, enums, BlockId(i as u32), &func.blocks[i], errors);
        assert(errors_view(errors@) + blocks_errors_from(func@, enums@, i + 1) =~= before
            + blocks_errors_from(func@, enums@, i as int));
        i += 1;
    }
    assert(errors_view(errors@) =~= e0 + function_errors(func@, enums@));
}

fn verify_params(func: &MirFunction, errors: &mut Vec<VerifyError>)
    ensures
        errors_view(final(errors)@) == errors_view(old(errors)@) + param_errors_from(func@, 0),
{
    let ghost start = errors_view(errors@);
    let mut i: usize = 0;
    while i < func.params.len()
        invariant
            i <= func.params.len(),
            errors_view(errors@) + param_errors_from(func@, i as int) == start + param_errors_from(
                func@,
                0,
            ),
        decreases func.params.len() - i,
    {
        let ghost before = errors_view(errors@);
        let param = func.params[i];
        if param.0 as usize >= func.locals.len() {
            let mut message = concat3(
                "param ",
                decimal(i as u64).as_str(),
                " references out-of-range local ",
            );
            message.append(local_id_string(param).as_str());
            message.append(" (function has ");
            message.append(decimal(func.locals.len() as u64).as_str());
            message.append(" locals)");
            report(errors, VerifyError::new(func.name.clone(), message));
        }
        assert(errors_view(errors@) + param_errors_from(func@, i + 1) =~= before
            + param_errors_from(func@, i as int));
        i += 1;
    }
    assert(errors_view(errors@) =~= start + param_errors_from(func@, 0));
}

fn verify_local_types(func: &MirFunction, errors: &mut Vec<VerifyError>)
    ensures
        errors_view(final(errors)@) == errors_view(old(errors)@) + local_type_errors_from(
            func@,
            0,
        ),
{
    let ghost start = errors_view(errors@);
    let mut i: usize = 0;
    while i < func.locals.len()
        invariant
            i <= func.locals.len(),
            errors_view(errors@) + local_type_errors_from(func@, i as int) == start
                + local_type_errors_from(func@, 0),
        decreases func.locals.len() - i,
    {
        let ghost before = errors_view(errors@);
        assert(func@.locals[i as int] == func.locals[i as int]@);
        let subject = concat3("local ", decimal(i as u64).as_str(), " has invalid type: ");
        check_declared_type(&func.name, subject, &func.locals[i].ty, errors);
        assert(errors_view(errors@) + local_type_errors_from(func@, i + 1) =~= before
            + local_type_errors_from(func@, i as int));
        i += 1;
    }
    assert(errors_view(errors@) =~= start + local_type_errors_from(func@, 0));
}

/// The problems of the parameters of a foreign function from position `i` on.
pub open spec fn foreign_param_errors_from(
    label: Seq<char>,
    params: Seq<Type>,
    i: int,
) -> Seq<VerifyErrorView>
    decreases params.len() - i,
{
    if i < 0 || i >= params.len() {
        Seq::empty()
    } else {
        declared_type_errors(
            label,
            "param "@ + decimal_text(i as nat) + " has invalid type: "@,
            Some(params[i]@),
        ) + foreign_param_errors_from(label, params, i + 1)
    }
}

/// The problems of a foreign function's signature.
pub open spec fn foreign_errors(ext: MirExternFunction) -> Seq<VerifyErrorView> {
    let label = "extern "@ + ext.name@;
    foreign_param_errors_from(label, ext.params@, 0) + declared_type_errors(
        label,
        "return type is invalid: "@,
        type_option_view(ext.ret_type),
    )
}

fn verify_extern_function(ext: &MirExternFunction, errors: &mut Vec<VerifyError>)
    ensures
        errors_view(final(errors)@) == errors_view(old(errors)@) + foreign_errors(*ext),
{
    let mut label = "extern ".to_owned();
    label.append(ext.name.as_str());
    let ghost start = errors_view(errors@);
    let mut i: usize = 0;
    while i < ext.params.len()
        invariant
            i <= ext.params.len(),
            errors_view(errors@) + foreign_param_errors_from(label@, ext.params@, i as int)
                == start + foreign_param_errors_from(label@, ext.params@, 0),
        decreases ext.params.len() - i,
    {
        let ghost before = errors_view(errors@);
        let subject = concat3("param ", decimal(i as u64).as_str(), " has invalid type: ");
        check_type_of(&label, subject, &ext.params[i], errors);
        assert(errors_view(errors@) + foreign_param_errors_from(label@, ext.params@, i + 1)
            =~= before + foreign_param_errors_from(label@, ext.params@, i as int));
        i += 1;
    }
    check_declared_type(&label, "return type is invalid: ".to_owned(), &ext.ret_type, errors);
    assert(errors_view(errors@) =~= start + foreign_errors(*ext));
}

/// The problems of a struct's fields from position `i` on.
pub open spec fn field_errors_from(
    name: Seq<char>,
    fields: Seq<(String, Type)>,
    i: int,
) -> Seq<VerifyErrorView>
    decreases fields.len() - i,
{
    if i < 0 || i >= fields.len() {
        Seq::empty()
    } else {
        declared_type_errors(
            "struct "@ + name,
            "field `"@ + fields[i].0@ + "` has invalid type: "@,
            Some(fields[i].1@),
        ) + field_errors_from(name, fields, i + 1)
    }
}

/// The problems of the structs from position `i` on.
pub open spec fn struct_errors_from(
    structs: Seq<(Seq<char>, StructType)>,
    i: int,
) -> Seq<VerifyErrorView>
    decreases structs.len() - i,
{
    if i < 0 || i >= structs.len() {
        Seq::empty()
    } else {
        field_errors_from(structs[i].0, structs[i].1.fields@, 0) + struct_errors_from(
            structs,
            i + 1,
        )
    }
}

fn verify_fields(name: &String, fields: &Vec<(String, Type)>, errors: &mut Vec<VerifyError>)
    ensures
        errors_view(final(errors)@) == errors_view(old(errors)@) + field_errors_from(
            name@,
            fields@,
            0,
        ),
{
    let mut label = "struct ".to_owned();
    label.append(name.as_str());
    let ghost start = errors_view(errors@);
    let mut i: usize = 0;
    while i < fields.len()
        invariant
            i <= fields.len(),
            label@ == "struct "@ + name@,
            errors_view(errors@) + field_errors_from(name@, fields@, i as int) == start
                + field_errors_from(name@, fields@, 0),
        decreases fields.len() - i,
    {
        let ghost before = errors_view(errors@);
        let subject = concat3("field `", fields[i].0.as_str(), "` has invalid type: ");
        check_type_of(&label, subject, &fields[i].1, errors);
        assert(errors_view(errors@) + field_errors_from(name@, fields@, i + 1) =~= before
            + field_errors_from(name@, fields@, i as int));
        i += 1;
    }
    assert(errors_view(errors@) =~= start + field_errors_from(name@, fields@, 0));
}

fn verify_structs(structs: &NameMap<StructType>, errors: &mut Vec<VerifyError>)
    ensures
        errors_view(final(errors)@) == errors_view(old(errors)@) + struct_errors_from(structs@, 0),
{
    let ghost start = errors_view(errors@);
    let mut i: usize = 0;
    while i < structs.len()
        invariant
            i <= structs@.len(),
            errors_view(errors@) + struct_errors_from(structs@, i as int) == start
                + struct_errors_from(structs@, 0),
        decreases structs@.len() - i,
    {
        let ghost before = errors_view(errors@);
        verify_fields(structs.name_at(i), &structs.value_at(i).fields, errors);
        assert(errors_view(errors@) + struct_errors_from(structs@, i + 1) =~= before
            + struct_errors_from(structs@, i as int));
        i += 1;
    }
    assert(errors_view(errors@) =~= start + struct_errors_from(structs@, 0));
}

/// The problems of an enum's payloads from position `i` on.
pub open spec fn payload_errors_from(
    name: Seq<char>,
    variants: Seq<EnumVariant>,
    i: int,
) -> Seq<VerifyErrorView>
    decreases variants.len() - i,
{
    if i < 0 || i >= variants.len() {
        Seq::empty()
    } else {
        declared_type_errors(
            "enum "@ + name,
            "variant `"@ + variants[i].name@ + "` payload has invalid type: "@,
            type_option_view(variants[i].payload),
        ) + payload_errors_from(name, variants, i + 1)
    }
}

/// The problems of the enums from position `i` on.
pub open spec fn enum_errors_from(
    enums: Seq<(Seq<char>, EnumType)>,
    i: int,
) -> Seq<VerifyErrorView>
    decreases enums.len() - i,
{
    if i < 0 || i >= enums.len() {
        Seq::empty()
    } else {
        payload_errors_from(enums[i].0, enums[i].1.variants@, 0) + enum_errors_from(enums, i + 1)
    }
}

fn verify_payloads(name: &String, variants: &Vec<EnumVariant>, errors: &mut Vec<VerifyError>)
    ensures
        errors_view(final(errors)@) == errors_view(old(errors)@) + payload_errors_from(
            name@,
            variants@,
            0,
        ),
{
    let mut label = "enum ".to_owned();
    label.append(name.as_str());
    let ghost start = errors_view(errors@);
    let mut i: usize = 0;
    while i < variants.len()
        invariant
            i <= variants.len(),
            label@ == "enum "@ + name@,
            errors_view(errors@) + payload_errors_from(name@, variants@, i as int) == start
                + payload_errors_from(name@, variants@, 0),
        decreases variants.len() - i,
    {
        let ghost before = errors_view(errors@);
        let subject = concat3(
            "variant `",
            variants[i].name.as_str(),
            "` payload has invalid type: ",
        );
        check_declared_type(&label, subject, &variants[i].payload, errors);
        assert(errors_view(errors@) + payload_errors_from(name@, variants@, i + 1) =~= before
            + payload_errors_from(name@, variants@, i as int));
        i += 1;
    }
    assert(errors_view(errors@) =~= start + payload_errors_from(name@, variants@, 0));
}

fn verify_enums(enums: &NameMap<EnumType>, errors: &mut Vec<VerifyError>)
    ensures
        errors_view(final(errors)@) == errors_view(old(errors)@) + enum_errors_from(enums@, 0),
{
    let ghost start = errors_view(errors@);
    let mut i: usize = 0;
    while i < enums.len()
        invariant
            i <= enums@.len(),
            errors_view(errors@) + enum_errors_from(enums@, i as int) == start + enum_errors_from(
                enums@,
                0,
            ),
        decreases enums@.len() - i,
    {
        let ghost before = errors_view(errors@);
        verify_payloads(enums.name_at(i), &enums.value_at(i).variants, errors);
        assert(errors_view(errors@) + enum_errors_from(enums@, i + 1) =~= before
            + enum_errors_from(enums@, i as int));
        i += 1;
    }
    assert(errors_view(errors@) =~= start + enum_errors_from(enums@, 0));
}

/// The problems of the foreign functions from position `i` on.
pub open spec fn foreigns_errors_from(foreigns: Seq<MirExternFunction>, i: int) -> Seq<
    VerifyErrorView,
>
    decreases foreigns.len() - i,
{
    if i < 0 || i >= foreigns.len() {
        Seq::empty()
    } else {
        foreign_errors(foreigns[i]) + foreigns_errors_from(foreigns, i + 1)
    }
}

/// The problems of the functions from position `i` on.
pub open spec fn functions_errors_from(
    functions: Seq<MirFunction>,
    enums: Seq<(Seq<char>, EnumType)>,
    i: int,
) -> Seq<VerifyErrorView>
    decreases functions.len() - i,
{
    if i < 0 || i >= functions.len() {
        Seq::empty()
    } else {
        function_errors(functions[i]@, enums) + functions_errors_from(functions, enums, i + 1)
    }
}

/// The problems of a module, in the order in which they are reported.
pub open spec fn module_errors(module: MirModule) -> Seq<VerifyErrorView> {
    struct_errors_from(module.struct_types@, 0) + enum_errors_from(module.enum_types@, 0)
        + foreigns_errors_from(module.extern_functions@, 0) + functions_errors_from(
        module.functions@,
        module.enum_types@,
        0,
    )
}

/// Verify every function, foreign declaration, and type definition in
/// `module`. Returns every problem found (never stops at the first one) so a
/// caller can report them all at once; an empty vector means the module is
/// well-formed enough for backend codegen to trust.
///
/// This never clones `module` and does a single linear pass over it (plus a
/// bounded-depth recursive walk per declared `Type`, which is proportional to
/// that type's own size, not the program's).
pub fn verify_module(module: &MirModule) -> (errors: Vec<VerifyError>)
    ensures
        errors_view(errors@) == module_errors(*module),
{
    let mut errors: Vec<VerifyError> = Vec::new();
    assert(errors_view(errors@) =~= Seq::empty());
    verify_structs(&module.struct_types, &mut errors);
    verify_enums(&module.enum_types, &mut errors);
    let ghost types = struct_errors_from(module.struct_types@, 0) + enum_errors_from(
        module.enum_types@,
        0,
    );
    assert(errors_view(errors@) =~= types);
    let mut i: usize = 0;
    while i < module.extern_functions.len()
        invariant
            i <= module.extern_functions.len(),
            errors_view(errors@) + foreigns_errors_from(module.extern_functions@, i as int)
                == types + foreigns_errors_from(module.extern_functions@, 0),
        decreases module.extern_functions.len() - i,
    {
        let ghost before = errors_view(errors@);
        verify_extern_function(&module.extern_functions[i], &mut errors);
        assert(errors_view(errors@) + foreigns_errors_from(module.extern_functions@, i + 1)
            =~= before + foreigns_errors_from(module.extern_functions@, i as int));
        i += 1;
    }
    let ghost declared = types + foreigns_errors_from(module.extern_functions@, 0);
    assert(errors_view(errors@) =~= declared);
    let mut k: usize = 0;
    while k < module.functions.len()
        invariant
            k <= module.functions.len(),
            errors_view(errors@) + functions_errors_from(
                module.functions@,
                module.enum_types@,
                k as int,
            ) == declared + functions_errors_from(module.functions@, module.enum_types@, 0),
        decreases module.functions.len() - k,
    {
        let ghost before = errors_view(errors@);
        verify_function(&module.functions[k], &module.enum_types, &mut errors);
        assert(errors_view(errors@) + functions_errors_from(
            module.functions@,
            module.enum_types@,
            k + 1,
        ) =~= before + functions_errors_from(module.functions@, module.enum_types@, k as int));
        k += 1;
    }
    assert(errors_view(errors@) =~= module_errors(*module));
    errors
}

proof fn problem_free_types_are_valid(ty: TypeView)
    ensures
        type_problem(ty) is None == valid_type(ty),
    decreases ty, 0nat,
{
    match ty {
        TypeView::App { args, .. } => {
            problem_free_lists_are_valid(args, 0);
        },
        TypeView::Ref(inner, _) => problem_free_types_are_valid(*inner),
        TypeView::Array(inner, _) => problem_free_types_are_valid(*inner),
        TypeView::Own(inner) => problem_free_types_are_valid(*inner),
        TypeView::RawPtr(inner) => problem_free_types_are_valid(*inner),
        TypeView::Shared(inner) => problem_free_types_are_valid(*inner),
        TypeView::Function { params, ret } => {
            problem_free_lists_are_valid(params, 0);
            problem_free_types_are_valid(*ret);
        },
        TypeView::BorrowedFunction { params, ret, .. } => {
            problem_free_lists_are_valid(params, 0);
            problem_free_types_are_valid(*ret);
        },
        TypeView::Tuple(elements) => {
            problem_free_lists_are_valid(elements, 0);
        },
        _ => {},
    }
}

proof fn problem_free_lists_are_valid(types: Seq<TypeView>, i: int)
    requires
        0 <= i,
    ensures
        types_problem_from(types, i) is None == (forall|j: int|
            i <= j < types.len() ==> valid_type(#[trigger] types[j])),
    decreases types, types.len() - i,
{
    if i < types.len() {
        problem_free_types_are_valid(types[i]);
        problem_free_lists_are_valid(types, i + 1);
    }
}

/// Whether every id names one of `count` locals.
pub open spec fn locals_in_range(ids: Seq<LocalId>, count: nat) -> bool {
    forall|i: int| 0 <= i < ids.len() ==> (#[trigger] ids[i]).0 < count
}

/// Whether every id names one of `count` blocks.
pub open spec fn blocks_in_range(ids: Seq<BlockId>, count: nat) -> bool {
    forall|i: int| 0 <= i < ids.len() ==> (#[trigger] ids[i]).0 < count
}

/// Whether the variant that an rvalue names exists, as far as its enum is known.
pub open spec fn variant_in_range(
    enums: Seq<(Seq<char>, EnumType)>,
    locals: Seq<LocalView>,
    value: RvalueView,
) -> bool {
    let named = match value {
        RvalueView::EnumConstruct { enum_name, variant_index, .. } => Some(
            (enum_name, variant_index),
        ),
        RvalueView::EnumPayload { base, variant_index, .. } => match enum_name_of(base, locals) {
            Some(name) => Some((name, variant_index)),
            None => None,
        },
        _ => None,
    };
    match named {
        Some((name, index)) => match value_of(enums, name) {
            Some(definition) => index < definition.variants@.len(),
            None => true,
        },
        None => true,
    }
}

/// Whether an rvalue is an eager logical operator.
pub open spec fn is_logical(value: RvalueView) -> bool {
    match value {
        RvalueView::Binary { op, .. } => op == BinaryOp::And || op == BinaryOp::Or,
        _ => false,
    }
}

/// Whether an instruction gives the local a fresh value.
pub open spec fn initializes(inst: MirInstView, id: LocalId) -> bool {
    ||| inst matches MirInstView::Assign { local, .. } && local == id
    ||| carried_rvalue(inst) matches Some(value) && write_only_targets(value).contains(id)
}

/// Whether the local has been dropped before position `i` of a block and not
/// been initialized since.
pub open spec fn is_dropped_at(insts: Seq<MirInstView>, id: LocalId, i: int) -> bool {
    exists|d: int|
        0 <= d < i && #[trigger] insts[d] == MirInstView::Drop(id) && forall|k: int|
            d < k < i ==> !initializes(#[trigger] insts[k], id)
}

/// What codegen relies on at one instruction of a block.
pub open spec fn well_formed_inst(
    func: MirFunctionView,
    enums: Seq<(Seq<char>, EnumType)>,
    insts: Seq<MirInstView>,
    i: int,
) -> bool {
    &&& locals_in_range(inst_locals(insts[i]), func.locals.len())
    &&& blocks_in_range(targets(insts[i]), func.blocks.len())
    &&& terminates(insts[i]) == (i == insts.len() - 1)
    &&& match carried_rvalue(insts[i]) {
        Some(value) => variant_in_range(enums, func.locals, value) && !is_logical(value),
        None => true,
    }
    &&& forall|k: int|
        0 <= k < inst_reads(insts[i]).len() ==> !is_dropped_at(
            insts,
            #[trigger] inst_reads(insts[i])[k],
            i,
        )
}

/// What codegen relies on of a block: it ends with its only terminator, and
/// each instruction is well formed.
pub open spec fn well_formed_block(
    func: MirFunctionView,
    enums: Seq<(Seq<char>, EnumType)>,
    insts: Seq<MirInstView>,
) -> bool {
    insts.len() > 0 && forall|i: int|
        0 <= i < insts.len() ==> #[trigger] well_formed_inst(func, enums, insts, i)
}

/// Whether a declared type is absent or valid.
pub open spec fn valid_declaration(ty: Option<TypeView>) -> bool {
    match ty {
        Some(ty) => valid_type(ty),
        None => true,
    }
}

/// What codegen relies on of a function.
pub open spec fn well_formed_function(
    func: MirFunctionView,
    enums: Seq<(Seq<char>, EnumType)>,
) -> bool {
    &&& locals_in_range(func.params, func.locals.len())
    &&& valid_declaration(func.ret_type)
    &&& forall|i: int|
        0 <= i < func.locals.len() ==> valid_declaration((#[trigger] func.locals[i]).ty)
    &&& func.blocks.len() > 0
    &&& forall|i: int|
        0 <= i < func.blocks.len() ==> well_formed_block(func, enums, #[trigger] func.blocks[i])
}

/// What codegen relies on of a foreign function.
pub open spec fn well_formed_foreign(ext: MirExternFunction) -> bool {
    &&& forall|i: int| 0 <= i < ext.params@.len() ==> valid_type((#[trigger] ext.params@[i])@)
    &&& valid_declaration(type_option_view(ext.ret_type))
}

/// Whether the field types of a struct are valid.
pub open spec fn valid_fields(fields: Seq<(String, Type)>) -> bool {
    forall|i: int| 0 <= i < fields.len() ==> valid_type((#[trigger] fields[i]).1@)
}

/// Whether the payload types of an enum are valid.
pub open spec fn valid_payloads(variants: Seq<EnumVariant>) -> bool {
    forall|i: int|
        0 <= i < variants.len() ==> valid_declaration(
            type_option_view((#[trigger] variants[i]).payload),
        )
}

/// What codegen relies on of a module.
pub open spec fn well_formed_module(module: MirModule) -> bool {
    &&& forall|i: int|
        0 <= i < module.struct_types@.len() ==> valid_fields(
            (#[trigger] module.struct_types@[i]).1.fields@,
        )
    &&& forall|i: int|
        0 <= i < module.enum_types@.len() ==> valid_payloads(
            (#[trigger] module.enum_types@[i]).1.variants@,
        )
    &&& forall|i: int|
        0 <= i < module.extern_functions@.len() ==> well_formed_foreign(
            #[trigger] module.extern_functions@[i],
        )
    &&& forall|i: int|
        0 <= i < module.functions@.len() ==> well_formed_function(
            (#[trigger] module.functions@[i])@,
            module.enum_types@,
        )
}

proof fn last_function_comes_last(
    functions: Seq<MirFunction>,
    function: MirFunction,
    enums: Seq<(Seq<char>, EnumType)>,
    i: int,
)
    requires
        0 <= i <= functions.len(),
    ensures
        functions_errors_from(functions.push(function), enums, i) == functions_errors_from(
            functions,
            enums,
            i,
        ) + function_errors(function@, enums),
    decreases functions.len() - i,
{
    let more = functions.push(function);
    if i < functions.len() {
        last_function_comes_last(functions, function, enums, i + 1);
        assert(more[i] == functions[i]);
        assert(functions_errors_from(more, enums, i) =~= functions_errors_from(
            functions,
            enums,
            i,
        ) + function_errors(function@, enums));
    } else {
        assert(more[i] == function);
        assert(functions_errors_from(more, enums, i + 1) =~= Seq::empty());
        assert(functions_errors_from(more, enums, i) =~= function_errors(function@, enums));
        assert(functions_errors_from(functions, enums, i) =~= Seq::empty());
    }
}

/// One more function adds its own problems to the report of a module, after all
/// others, and changes nothing else in it.
pub proof fn a_function_adds_only_its_own_problems(
    module: MirModule,
    more: MirModule,
    function: MirFunction,
)
    requires
        more.struct_types@ == module.struct_types@,
        more.enum_types@ == module.enum_types@,
        more.extern_functions@ == module.extern_functions@,
        more.functions@ == module.functions@.push(function),
    ensures
        module_errors(more) == module_errors(module) + function_errors(
            function@,
            module.enum_types@,
        ),
{
    last_function_comes_last(module.functions@, function, module.enum_types@, 0);
    assert(module_errors(more) =~= module_errors(module) + function_errors(
        function@,
        module.enum_types@,
    ));
}

/// The verifier reports nothing exactly for the modules that have every
/// property that codegen relies on.
pub proof fn no_errors_means_well_formed(module: MirModule)
    ensures
        module_errors(module).len() == 0 <==> well_formed_module(module),
{
    structs_outcome(module.struct_types@, 0);
    enums_outcome(module.enum_types@, 0);
    foreigns_outcome(module.extern_functions@, 0);
    functions_outcome(module.functions@, module.enum_types@, 0);
}

proof fn declared_outcome(function: Seq<char>, subject: Seq<char>, ty: Option<TypeView>)
    ensures
        declared_type_errors(function, subject, ty).len() == 0 <==> valid_declaration(ty),
{
    match ty {
        Some(ty) => problem_free_types_are_valid(ty),
        None => {},
    }
}

proof fn structs_outcome(structs: Seq<(Seq<char>, StructType)>, i: int)
    requires
        0 <= i,
    ensures
        struct_errors_from(structs, i).len() == 0 <==> forall|j: int|
            i <= j < structs.len() ==> valid_fields((#[trigger] structs[j]).1.fields@),
    decreases structs.len() - i,
{
    if i < structs.len() {
        structs_outcome(structs, i + 1);
        fields_outcome(structs[i].0, structs[i].1.fields@, 0);
    }
}

proof fn fields_outcome(name: Seq<char>, fields: Seq<(String, Type)>, i: int)
    requires
        0 <= i,
    ensures
        field_errors_from(name, fields, i).len() == 0 <==> forall|j: int|
            i <= j < fields.len() ==> valid_type((#[trigger] fields[j]).1@),
    decreases fields.len() - i,
{
    if i < fields.len() {
        fields_outcome(name, fields, i + 1);
        declared_outcome(
            "struct "@ + name,
            "field `"@ + fields[i].0@ + "` has invalid type: "@,
            Some(fields[i].1@),
        );
    }
}

proof fn enums_outcome(enums: Seq<(Seq<char>, EnumType)>, i: int)
    requires
        0 <= i,
    ensures
        enum_errors_from(enums, i).len() == 0 <==> forall|j: int|
            i <= j < enums.len() ==> valid_payloads((#[trigger] enums[j]).1.variants@),
    decreases enums.len() - i,
{
    if i < enums.len() {
        enums_outcome(enums, i + 1);
        payloads_outcome(enums[i].0, enums[i].1.variants@, 0);
    }
}

proof fn payloads_outcome(name: Seq<char>, variants: Seq<EnumVariant>, i: int)
    requires
        0 <= i,
    ensures
        payload_errors_from(name, variants, i).len() == 0 <==> forall|j: int|
            i <= j < variants.len() ==> valid_declaration(
                type_option_view((#[trigger] variants[j]).payload),
            ),
    decreases variants.len() - i,
{
    if i < variants.len() {
        payloads_outcome(name, variants, i + 1);
        declared_outcome(
            "enum "@ + name,
            "variant `"@ + variants[i].name@ + "` payload has invalid type: "@,
            type_option_view(variants[i].payload),
        );
    }
}

proof fn foreigns_outcome(foreigns: Seq<MirExternFunction>, i: int)
    requires
        0 <= i,
    ensures
        foreigns_errors_from(foreigns, i).len() == 0 <==> forall|j: int|
            i <= j < foreigns.len() ==> well_formed_foreign(#[trigger] foreigns[j]),
    decreases foreigns.len() - i,
{
    if i < foreigns.len() {
        foreigns_outcome(foreigns, i + 1);
        let label = "extern "@ + foreigns[i].name@;
        foreign_params_outcome(label, foreigns[i].params@, 0);
        declared_outcome(
            label,
            "return type is invalid: "@,
            type_option_view(foreigns[i].ret_type),
        );
    }
}

proof fn foreign_params_outcome(label: Seq<char>, params: Seq<Type>, i: int)
    requires
        0 <= i,
    ensures
        foreign_param_errors_from(label, params, i).len() == 0 <==> forall|j: int|
            i <= j < params.len() ==> valid_type((#[trigger] params[j])@),
    decreases params.len() - i,
{
    if i < params.len() {
        foreign_params_outcome(label, params, i + 1);
        declared_outcome(
            label,
            "param "@ + decimal_text(i as nat) + " has invalid type: "@,
            Some(params[i]@),
        );
    }
}

proof fn functions_outcome(
    functions: Seq<MirFunction>,
    enums: Seq<(Seq<char>, EnumType)>,
    i: int,
)
    requires
        0 <= i,
    ensures
        functions_errors_from(functions, enums, i).len() == 0 <==> forall|j: int|
            i <= j < functions.len() ==> well_formed_function(
                (#[trigger] functions[j])@,
                enums,
            ),
    decreases functions.len() - i,
{
    if i < functions.len() {
        functions_outcome(functions, enums, i + 1);
        function_outcome(functions[i]@, enums);
    }
}

proof fn function_outcome(func: MirFunctionView, enums: Seq<(Seq<char>, EnumType)>)
    ensures
        function_errors(func, enums).len() == 0 <==> well_formed_function(func, enums),
{
    params_outcome(func, 0);
    declared_outcome(func.name, "return type is invalid: "@, func.ret_type);
    local_types_outcome(func, 0);
    blocks_outcome(func, enums, 0);
}

proof fn params_outcome(func: MirFunctionView, i: int)
    requires
        0 <= i,
    ensures
        param_errors_from(func, i).len() == 0 <==> forall|j: int|
            i <= j < func.params.len() ==> (#[trigger] func.params[j]).0 < func.locals.len(),
    decreases func.params.len() - i,
{
    if i < func.params.len() {
        params_outcome(func, i + 1);
    }
}

proof fn local_types_outcome(func: MirFunctionView, i: int)
    requires
        0 <= i,
    ensures
        local_type_errors_from(func, i).len() == 0 <==> forall|j: int|
            i <= j < func.locals.len() ==> valid_declaration((#[trigger] func.locals[j]).ty),
    decreases func.locals.len() - i,
{
    if i < func.locals.len() {
        local_types_outcome(func, i + 1);
        declared_outcome(
            func.name,
            "local "@ + decimal_text(i as nat) + " has invalid type: "@,
            func.locals[i].ty,
        );
    }
}

proof fn blocks_outcome(func: MirFunctionView, enums: Seq<(Seq<char>, EnumType)>, i: int)
    requires
        0 <= i,
    ensures
        blocks_errors_from(func, enums, i).len() == 0 <==> forall|j: int|
            i <= j < func.blocks.len() ==> well_formed_block(
                func,
                enums,
                #[trigger] func.blocks[j],
            ),
    decreases func.blocks.len() - i,
{
    if i < func.blocks.len() {
        blocks_outcome(func, enums, i + 1);
        block_outcome(func, enums, BlockId(i as u32), func.blocks[i]);
    }
}

/// The dropped locals before position `i` of a block.
pub open spec fn dropped_before(insts: Seq<MirInstView>, i: int) -> Set<u32>
    decreases i,
{
    if i <= 0 {
        Set::empty()
    } else {
        dropped_after(dropped_before(insts, i - 1), insts[i - 1])
    }
}

proof fn reinitialized_is_removal(dropped: Set<u32>, ids: Seq<LocalId>, i: int, id: LocalId)
    requires
        0 <= i,
    ensures
        reinitialized(dropped, ids, i).contains(id.0) == (dropped.contains(id.0) && forall|j: int|
            i <= j < ids.len() ==> #[trigger] ids[j] != id),
    decreases ids.len() - i,
{
    if i < ids.len() {
        reinitialized_is_removal(dropped.remove(ids[i].0), ids, i + 1, id);
        if ids[i].0 == id.0 {
            assert(ids[i] == id);
        }
    }
}

/// The tracked set holds exactly the locals that were dropped and not
/// initialized since.
pub proof fn dropped_locals_are_tracked(insts: Seq<MirInstView>, id: LocalId, i: int)
    requires
        0 <= i <= insts.len(),
    ensures
        dropped_before(insts, i).contains(id.0) == is_dropped_at(insts, id, i),
    decreases i,
{
    if i > 0 {
        dropped_locals_are_tracked(insts, id, i - 1);
        let last = insts[i - 1];
        let before = dropped_before(insts, i - 1);
        match carried_rvalue(last) {
            Some(value) => {
                let cleared = match last {
                    MirInstView::Assign { local, .. } => before.remove(local.0),
                    _ => before,
                };
                reinitialized_is_removal(cleared, write_only_targets(value), 0, id);
                match last {
                    MirInstView::Assign { local, .. } => {
                        if local.0 == id.0 {
                            assert(local == id);
                        }
                    },
                    _ => {},
                }
            },
            None => {},
        }
        if last == MirInstView::Drop(id) {
            assert(is_dropped_at(insts, id, i));
        } else {
            if is_dropped_at(insts, id, i) {
                let d = choose|d: int|
                    0 <= d < i && #[trigger] insts[d] == MirInstView::Drop(id) && forall|k: int|
                        d < k < i ==> !initializes(#[trigger] insts[k], id);
                assert(d != i - 1);
                assert(!initializes(insts[i - 1], id));
                assert(is_dropped_at(insts, id, i - 1));
            }
            if is_dropped_at(insts, id, i - 1) && !initializes(last, id) {
                let d = choose|d: int|
                    0 <= d < i - 1 && #[trigger] insts[d] == MirInstView::Drop(id) && forall|
                        k: int,
                    |
                        d < k < i - 1 ==> !initializes(#[trigger] insts[k], id);
                assert forall|k: int| d < k < i implies !initializes(#[trigger] insts[k], id) by {
                    if k == i - 1 {
                        assert(insts[k] == last);
                    }
                }
                assert(is_dropped_at(insts, id, i));
            }
        }
        match last {
            MirInstView::Drop(other) => {
                if other.0 == id.0 {
                    assert(other == id);
                }
            },
            _ => {},
        }
    }
}

proof fn block_outcome(
    func: MirFunctionView,
    enums: Seq<(Seq<char>, EnumType)>,
    block: BlockId,
    insts: Seq<MirInstView>,
)
    ensures
        block_errors(func, enums, block, insts).len() == 0 <==> well_formed_block(
            func,
            enums,
            insts,
        ),
{
    if insts.len() > 0 {
        insts_outcome(func, enums, block, insts, 0);
        if block_errors(func, enums, block, insts).len() == 0 {
            assert forall|i: int| 0 <= i < insts.len() implies #[trigger] well_formed_inst(
                func,
                enums,
                insts,
                i,
            ) by {
                assert(inst_is_clean(func, enums, insts, i));
                if i == insts.len() - 1 {
                    assert(insts[i] == insts.last());
                }
            }
        }
        if well_formed_block(func, enums, insts) {
            assert forall|i: int| 0 <= i < insts.len() implies #[trigger] inst_is_clean(
                func,
                enums,
                insts,
                i,
            ) by {
                assert(well_formed_inst(func, enums, insts, i));
            }
            assert(well_formed_inst(func, enums, insts, insts.len() - 1));
        }
    }
}

/// Well-formedness of an instruction without the demand that the last one is a
/// terminator.
spec fn inst_is_clean(
    func: MirFunctionView,
    enums: Seq<(Seq<char>, EnumType)>,
    insts: Seq<MirInstView>,
    i: int,
) -> bool {
    &&& locals_in_range(inst_locals(insts[i]), func.locals.len())
    &&& blocks_in_range(targets(insts[i]), func.blocks.len())
    &&& terminates(insts[i]) ==> i == insts.len() - 1
    &&& match carried_rvalue(insts[i]) {
        Some(value) => variant_in_range(enums, func.locals, value) && !is_logical(value),
        None => true,
    }
    &&& forall|k: int|
        0 <= k < inst_reads(insts[i]).len() ==> !is_dropped_at(
            insts,
            #[trigger] inst_reads(insts[i])[k],
            i,
        )
}

proof fn insts_outcome(
    func: MirFunctionView,
    enums: Seq<(Seq<char>, EnumType)>,
    block: BlockId,
    insts: Seq<MirInstView>,
    i: int,
)
    requires
        0 <= i <= insts.len(),
    ensures
        insts_errors_from(func, enums, block, insts, dropped_before(insts, i), i).len() == 0
            <==> forall|j: int|
            i <= j < insts.len() ==> #[trigger] inst_is_clean(func, enums, insts, j),
    decreases insts.len() - i,
{
    if i < insts.len() {
        insts_outcome(func, enums, block, insts, i + 1);
        inst_outcome(func, enums, block, insts, i);
    }
}

proof fn inst_outcome(
    func: MirFunctionView,
    enums: Seq<(Seq<char>, EnumType)>,
    block: BlockId,
    insts: Seq<MirInstView>,
    i: int,
)
    requires
        0 <= i < insts.len(),
    ensures
        inst_errors(
            func,
            enums,
            Site { function: func.name, block, inst: i as usize },
            insts[i],
            i == insts.len() - 1,
            dropped_before(insts, i),
        ).len() == 0 <==> inst_is_clean(func, enums, insts, i),
{
    let site = Site { function: func.name, block, inst: i as usize };
    local_ranges_outcome(site, inst_locals(insts[i]), func.locals.len(), 0);
    block_ranges_outcome(site, targets(insts[i]), func.blocks.len(), 0);
    let reads = inst_reads(insts[i]);
    stale_reads_outcome(site, reads, dropped_before(insts, i), 0);
    assert forall|k: int| 0 <= k < reads.len() implies dropped_before(insts, i).contains(
        (#[trigger] reads[k]).0,
    ) == is_dropped_at(insts, reads[k], i) by {
        dropped_locals_are_tracked(insts, reads[k], i);
    }
}

proof fn local_ranges_outcome(site: Site, ids: Seq<LocalId>, count: nat, i: int)
    requires
        0 <= i,
    ensures
        local_range_errors(site, ids, count, i).len() == 0 <==> forall|j: int|
            i <= j < ids.len() ==> (#[trigger] ids[j]).0 < count,
    decreases ids.len() - i,
{
    if i < ids.len() {
        local_ranges_outcome(site, ids, count, i + 1);
    }
}

proof fn block_ranges_outcome(site: Site, ids: Seq<BlockId>, count: nat, i: int)
    requires
        0 <= i,
    ensures
        block_range_errors(site, ids, count, i).len() == 0 <==> forall|j: int|
            i <= j < ids.len() ==> (#[trigger] ids[j]).0 < count,
    decreases ids.len() - i,
{
    if i < ids.len() {
        block_ranges_outcome(site, ids, count, i + 1);
    }
}

proof fn stale_reads_outcome(site: Site, reads: Seq<LocalId>, dropped: Set<u32>, i: int)
    requires
        0 <= i,
    ensures
        stale_read_errors(site, reads, dropped, i).len() == 0 <==> forall|j: int|
            i <= j < reads.len() ==> !dropped.contains((#[trigger] reads[j]).0),
    decreases reads.len() - i,
{
    if i < reads.len() {
        stale_reads_outcome(site, reads, dropped, i + 1);
    }
}

} // verus!
