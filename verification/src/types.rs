//! The compiler's type language.

use vstd::prelude::*;

use crate::atomic::AtomicScalar;
use crate::text::same_text;

verus! {

/// Canonical compiler identity for the thread-safe reference-counted owner.
/// Aliases and qualified source paths must resolve to this constructor before
/// MIR is emitted; arbitrary user structs named `Arc` are not accepted by the
/// backend through nominal/source-name matching.
pub const ARC_TYPE_CONSTRUCTOR: &'static str = "std::sync::Arc";

/// Canonical compiler identities for exclusive shared mutation and its lexical,
/// nonescaping lock token.
pub const MUTEX_TYPE_CONSTRUCTOR: &'static str = "std::sync::Mutex";

pub const MUTEX_GUARD_TYPE_CONSTRUCTOR: &'static str = "std::sync::MutexGuard";

/// Canonical compiler identities for the two unique endpoints of a bounded
/// single-producer/single-consumer ring. These are deliberately distinct nominal
/// applications even though both lower to a pointer to the same compiler-owned
/// allocation.
pub const SPSC_SENDER_TYPE_CONSTRUCTOR: &'static str = "std::sync::spsc::Sender";

pub const SPSC_RECEIVER_TYPE_CONSTRUCTOR: &'static str = "std::sync::spsc::Receiver";

#[derive(Debug, Clone, Copy, PartialEq, Eq, Hash, Structural)]
pub enum Mutability {
    Immutable,
    Mutable,
}

/// A non-owning callable capability whose environment is valid only for a
/// compiler-proven region.
///
/// `Fn` permits repeatable shared access to the environment. `FnMut` permits
/// repeatable exclusive access. Owned, consuming callables remain represented by
/// [`Type::Function`].
#[derive(Debug, Clone, Copy, PartialEq, Eq, Hash, Structural)]
pub enum BorrowedCallableKind {
    Fn,
    FnMut,
}

#[derive(Debug, Hash)]
pub enum Type {
    I8,
    I32,
    I64,
    U8,
    U32,
    U64,
    Usize,
    F32,
    F64,
    Bool,
    Char,
    Str,
    String,
    Void,
    Named(String),
    Enum(String),
    Param(String),
    App { base: String, args: Vec<Type> },
    Ref(Box<Type>, Mutability),
    Array(Box<Type>, usize),
    Own(Box<Type>),
    RawPtr(Box<Type>),
    Shared(Box<Type>),
    /// A non-Copy scalar atomic. Its backing storage may only be accessed by
    /// atomic MIR operations.
    Atomic(AtomicScalar),
    /// An owned, once-callable value.
    ///
    /// The backend represents this as an erased `{ env, invoke, drop }` carrier.
    Function { params: Vec<Type>, ret: Box<Type> },
    /// A borrowed, repeatable callable view.
    ///
    /// This uses the same physical carrier as [`Type::Function`], but does not
    /// own or consume `env`. Lifetime and exclusivity checks are a frontend
    /// responsibility.
    BorrowedFunction { kind: BorrowedCallableKind, params: Vec<Type>, ret: Box<Type> },
    Tuple(Vec<Type>),
}

/// The mathematical model of a [`Type`]: the same tree over character sequences.
pub enum TypeView {
    I8,
    I32,
    I64,
    U8,
    U32,
    U64,
    Usize,
    F32,
    F64,
    Bool,
    Char,
    Str,
    String,
    Void,
    Named(Seq<char>),
    Enum(Seq<char>),
    Param(Seq<char>),
    App { base: Seq<char>, args: Seq<TypeView> },
    Ref(Box<TypeView>, Mutability),
    Array(Box<TypeView>, usize),
    Own(Box<TypeView>),
    RawPtr(Box<TypeView>),
    Shared(Box<TypeView>),
    Atomic(AtomicScalar),
    Function { params: Seq<TypeView>, ret: Box<TypeView> },
    BorrowedFunction { kind: BorrowedCallableKind, params: Seq<TypeView>, ret: Box<TypeView> },
    Tuple(Seq<TypeView>),
}

impl View for Type {
    type V = TypeView;

    open spec fn view(&self) -> TypeView {
        type_view(*self)
    }
}

pub open spec fn type_view(ty: Type) -> TypeView
    decreases ty,
{
    match ty {
        Type::I8 => TypeView::I8,
        Type::I32 => TypeView::I32,
        Type::I64 => TypeView::I64,
        Type::U8 => TypeView::U8,
        Type::U32 => TypeView::U32,
        Type::U64 => TypeView::U64,
        Type::Usize => TypeView::Usize,
        Type::F32 => TypeView::F32,
        Type::F64 => TypeView::F64,
        Type::Bool => TypeView::Bool,
        Type::Char => TypeView::Char,
        Type::Str => TypeView::Str,
        Type::String => TypeView::String,
        Type::Void => TypeView::Void,
        Type::Named(name) => TypeView::Named(name@),
        Type::Enum(name) => TypeView::Enum(name@),
        Type::Param(name) => TypeView::Param(name@),
        Type::App { base, args } => TypeView::App { base: base@, args: types_view(args@) },
        Type::Ref(inner, mutability) => TypeView::Ref(Box::new(type_view(*inner)), mutability),
        Type::Array(inner, len) => TypeView::Array(Box::new(type_view(*inner)), len),
        Type::Own(inner) => TypeView::Own(Box::new(type_view(*inner))),
        Type::RawPtr(inner) => TypeView::RawPtr(Box::new(type_view(*inner))),
        Type::Shared(inner) => TypeView::Shared(Box::new(type_view(*inner))),
        Type::Atomic(scalar) => TypeView::Atomic(scalar),
        Type::Function { params, ret } => TypeView::Function {
            params: types_view(params@),
            ret: Box::new(type_view(*ret)),
        },
        Type::BorrowedFunction { kind, params, ret } => TypeView::BorrowedFunction {
            kind,
            params: types_view(params@),
            ret: Box::new(type_view(*ret)),
        },
        Type::Tuple(elements) => TypeView::Tuple(types_view(elements@)),
    }
}

pub open spec fn types_view(types: Seq<Type>) -> Seq<TypeView>
    decreases types,
{
    Seq::new(
        types.len(),
        |i: int|
            if 0 <= i < types.len() {
                type_view(types[i])
            } else {
                arbitrary()
            },
    )
}

pub open spec fn type_option_view(ty: Option<Type>) -> Option<TypeView> {
    match ty {
        Some(ty) => Some(ty@),
        None => None,
    }
}

impl Clone for Type {
    fn clone(&self) -> (copy: Type)
        ensures
            copy@ == self@,
        decreases self,
    {
        match self {
            Type::I8 => Type::I8,
            Type::I32 => Type::I32,
            Type::I64 => Type::I64,
            Type::U8 => Type::U8,
            Type::U32 => Type::U32,
            Type::U64 => Type::U64,
            Type::Usize => Type::Usize,
            Type::F32 => Type::F32,
            Type::F64 => Type::F64,
            Type::Bool => Type::Bool,
            Type::Char => Type::Char,
            Type::Str => Type::Str,
            Type::String => Type::String,
            Type::Void => Type::Void,
            Type::Named(name) => Type::Named(name.clone()),
            Type::Enum(name) => Type::Enum(name.clone()),
            Type::Param(name) => Type::Param(name.clone()),
            Type::App { base, args } => Type::App { base: base.clone(), args: clone_types(args) },
            Type::Ref(inner, mutability) => Type::Ref(Box::new((**inner).clone()), *mutability),
            Type::Array(inner, len) => Type::Array(Box::new((**inner).clone()), *len),
            Type::Own(inner) => Type::Own(Box::new((**inner).clone())),
            Type::RawPtr(inner) => Type::RawPtr(Box::new((**inner).clone())),
            Type::Shared(inner) => Type::Shared(Box::new((**inner).clone())),
            Type::Atomic(scalar) => Type::Atomic(*scalar),
            Type::Function { params, ret } => Type::Function {
                params: clone_types(params),
                ret: Box::new((**ret).clone()),
            },
            Type::BorrowedFunction { kind, params, ret } => Type::BorrowedFunction {
                kind: *kind,
                params: clone_types(params),
                ret: Box::new((**ret).clone()),
            },
            Type::Tuple(elements) => Type::Tuple(clone_types(elements)),
        }
    }
}

pub fn clone_types(types: &Vec<Type>) -> (copy: Vec<Type>)
    ensures
        types_view(copy@) == types_view(types@),
    decreases types,
{
    let mut copy: Vec<Type> = Vec::new();
    let mut i: usize = 0;
    while i < types.len()
        invariant
            i <= types.len(),
            copy.len() == i,
            forall|j: int| 0 <= j < i ==> (#[trigger] copy[j])@ == types[j]@,
        decreases types.len() - i,
    {
        copy.push(types[i].clone());
        i += 1;
    }
    assert(types_view(copy@) =~= types_view(types@));
    copy
}

pub open spec fn type_ref_view(ty: Option<&Type>) -> Option<TypeView> {
    match ty {
        Some(ty) => Some(ty@),
        None => None,
    }
}

impl PartialEq for Type {
    fn eq(&self, other: &Type) -> (same: bool) {
        same_type(self, other)
    }
}

impl vstd::std_specs::cmp::PartialEqSpecImpl for Type {
    open spec fn obeys_eq_spec() -> bool {
        true
    }

    open spec fn eq_spec(&self, other: &Type) -> bool {
        self@ == other@
    }
}

impl Eq for Type {

}

/// Structural equality of two types.
pub fn same_type(a: &Type, b: &Type) -> (same: bool)
    ensures
        same == (a@ == b@),
    decreases a,
{
    match (a, b) {
        (Type::I8, Type::I8) => true,
        (Type::I32, Type::I32) => true,
        (Type::I64, Type::I64) => true,
        (Type::U8, Type::U8) => true,
        (Type::U32, Type::U32) => true,
        (Type::U64, Type::U64) => true,
        (Type::Usize, Type::Usize) => true,
        (Type::F32, Type::F32) => true,
        (Type::F64, Type::F64) => true,
        (Type::Bool, Type::Bool) => true,
        (Type::Char, Type::Char) => true,
        (Type::Str, Type::Str) => true,
        (Type::String, Type::String) => true,
        (Type::Void, Type::Void) => true,
        (Type::Named(x), Type::Named(y)) => same_text(x.as_str(), y.as_str()),
        (Type::Enum(x), Type::Enum(y)) => same_text(x.as_str(), y.as_str()),
        (Type::Param(x), Type::Param(y)) => same_text(x.as_str(), y.as_str()),
        (Type::App { base: x, args: xs }, Type::App { base: y, args: ys }) => {
            same_text(x.as_str(), y.as_str()) && same_types(xs, ys)
        },
        (Type::Ref(x, m), Type::Ref(y, n)) => *m == *n && same_type(x, y),
        (Type::Array(x, m), Type::Array(y, n)) => *m == *n && same_type(x, y),
        (Type::Own(x), Type::Own(y)) => same_type(x, y),
        (Type::RawPtr(x), Type::RawPtr(y)) => same_type(x, y),
        (Type::Shared(x), Type::Shared(y)) => same_type(x, y),
        (Type::Atomic(x), Type::Atomic(y)) => *x == *y,
        (Type::Function { params: xs, ret: x }, Type::Function { params: ys, ret: y }) => {
            same_types(xs, ys) && same_type(x, y)
        },
        (
            Type::BorrowedFunction { kind: j, params: xs, ret: x },
            Type::BorrowedFunction { kind: k, params: ys, ret: y },
        ) => *j == *k && same_types(xs, ys) && same_type(x, y),
        (Type::Tuple(xs), Type::Tuple(ys)) => same_types(xs, ys),
        _ => false,
    }
}

pub fn same_types(a: &Vec<Type>, b: &Vec<Type>) -> (same: bool)
    ensures
        same == (types_view(a@) == types_view(b@)),
    decreases a,
{
    if a.len() != b.len() {
        assert(types_view(a@).len() != types_view(b@).len());
        return false;
    }
    let mut i: usize = 0;
    while i < a.len()
        invariant
            i <= a.len(),
            a.len() == b.len(),
            forall|j: int| 0 <= j < i ==> (#[trigger] a[j])@ == b[j]@,
        decreases a.len() - i,
    {
        if !same_type(&a[i], &b[i]) {
            assert(types_view(a@)[i as int] != types_view(b@)[i as int]);
            return false;
        }
        i += 1;
    }
    assert(types_view(a@) =~= types_view(b@));
    true
}

/// The argument of a one-argument application of `constructor`, if `ty` is one.
pub open spec fn canonical_argument(ty: TypeView, constructor: Seq<char>) -> Option<TypeView> {
    match ty {
        TypeView::App { base, args } => if base == constructor && args.len() == 1 {
            Some(args[0])
        } else {
            None
        },
        _ => None,
    }
}

/// The one-argument application of `constructor` to `inner`.
pub open spec fn canonical_application(constructor: Seq<char>, inner: TypeView) -> TypeView {
    TypeView::App { base: constructor, args: seq![inner] }
}

pub(crate) fn apply_constructor(constructor: &str, inner: Type) -> (ty: Type)
    ensures
        ty@ == canonical_application(constructor@, inner@),
{
    let mut args: Vec<Type> = Vec::new();
    args.push(inner);
    assert(types_view(args@) =~= seq![inner@]);
    Type::App { base: constructor.to_owned(), args }
}

pub(crate) fn constructor_argument<'t>(ty: &'t Type, constructor: &str) -> (inner: Option<&'t Type>)
    ensures
        type_ref_view(inner) == canonical_argument(ty@, constructor@),
{
    match ty {
        Type::App { base, args } => {
            proof {
                if args@.len() == 1 {
                    assert(types_view(args@)[0] == args@[0]@);
                }
                assert(types_view(args@).len() == args@.len());
            }
            if same_text(base.as_str(), constructor) && args.len() == 1 {
                Some(&args[0])
            } else {
                None
            }
        },
        _ => None,
    }
}

/// The built-in type that a source name denotes, if it denotes one.
pub open spec fn named_builtin(name: Seq<char>) -> Option<TypeView> {
    if name == "i8"@ {
        Some(TypeView::I8)
    } else if name == "i32"@ || name == "i"@ {
        Some(TypeView::I32)
    } else if name == "i64"@ {
        Some(TypeView::I64)
    } else if name == "u8"@ {
        Some(TypeView::U8)
    } else if name == "u32"@ || name == "u"@ {
        Some(TypeView::U32)
    } else if name == "u64"@ {
        Some(TypeView::U64)
    } else if name == "usize"@ {
        Some(TypeView::Usize)
    } else if name == "char"@ || name == "c"@ {
        Some(TypeView::Char)
    } else if name == "f32"@ {
        Some(TypeView::F32)
    } else if name == "f64"@ || name == "f"@ {
        Some(TypeView::F64)
    } else if name == "bool"@ || name == "b"@ {
        Some(TypeView::Bool)
    } else if name == "str"@ {
        Some(TypeView::Str)
    } else if name == "String"@ {
        Some(TypeView::String)
    } else if name == "AtomicBool"@ {
        Some(TypeView::Atomic(AtomicScalar::Bool))
    } else if name == "AtomicI32"@ {
        Some(TypeView::Atomic(AtomicScalar::I32))
    } else if name == "AtomicU32"@ {
        Some(TypeView::Atomic(AtomicScalar::U32))
    } else if name == "AtomicI64"@ {
        Some(TypeView::Atomic(AtomicScalar::I64))
    } else if name == "AtomicU64"@ {
        Some(TypeView::Atomic(AtomicScalar::U64))
    } else if name == "AtomicUsize"@ {
        Some(TypeView::Atomic(AtomicScalar::Usize))
    } else {
        None
    }
}

impl TypeView {
    pub open spec fn is_int(self) -> bool {
        self is I8 || self is I32 || self is I64 || self is U8 || self is U32 || self is U64
            || self is Usize || self is Char
    }

    pub open spec fn is_float(self) -> bool {
        self is F32 || self is F64
    }

    /// The parameters and result of either kind of callable.
    pub open spec fn callable_signature(self) -> Option<(Seq<TypeView>, TypeView)> {
        match self {
            TypeView::Function { params, ret } => Some((params, *ret)),
            TypeView::BorrowedFunction { params, ret, .. } => Some((params, *ret)),
            _ => None,
        }
    }

    pub open spec fn is_arc(self) -> bool {
        canonical_argument(self, ARC_TYPE_CONSTRUCTOR@) is Some
    }

    pub open spec fn is_mutex(self) -> bool {
        canonical_argument(self, MUTEX_TYPE_CONSTRUCTOR@) is Some
    }

    pub open spec fn is_mutex_guard(self) -> bool {
        canonical_argument(self, MUTEX_GUARD_TYPE_CONSTRUCTOR@) is Some
    }

    pub open spec fn is_spsc_sender(self) -> bool {
        canonical_argument(self, SPSC_SENDER_TYPE_CONSTRUCTOR@) is Some
    }

    pub open spec fn is_spsc_receiver(self) -> bool {
        canonical_argument(self, SPSC_RECEIVER_TYPE_CONSTRUCTOR@) is Some
    }
}

impl Type {
    pub fn arc(inner: Type) -> (ty: Type)
        ensures
            ty@ == canonical_application(ARC_TYPE_CONSTRUCTOR@, inner@),
    {
        apply_constructor(ARC_TYPE_CONSTRUCTOR, inner)
    }

    pub fn arc_inner_type(&self) -> (inner: Option<&Type>)
        ensures
            type_ref_view(inner) == canonical_argument(self@, ARC_TYPE_CONSTRUCTOR@),
    {
        constructor_argument(self, ARC_TYPE_CONSTRUCTOR)
    }

    pub fn is_arc(&self) -> (canonical: bool)
        ensures
            canonical == self@.is_arc(),
    {
        self.arc_inner_type().is_some()
    }

    pub fn mutex(inner: Type) -> (ty: Type)
        ensures
            ty@ == canonical_application(MUTEX_TYPE_CONSTRUCTOR@, inner@),
    {
        apply_constructor(MUTEX_TYPE_CONSTRUCTOR, inner)
    }

    pub fn mutex_guard(inner: Type) -> (ty: Type)
        ensures
            ty@ == canonical_application(MUTEX_GUARD_TYPE_CONSTRUCTOR@, inner@),
    {
        apply_constructor(MUTEX_GUARD_TYPE_CONSTRUCTOR, inner)
    }

    pub fn mutex_inner_type(&self) -> (inner: Option<&Type>)
        ensures
            type_ref_view(inner) == canonical_argument(self@, MUTEX_TYPE_CONSTRUCTOR@),
    {
        constructor_argument(self, MUTEX_TYPE_CONSTRUCTOR)
    }

    pub fn mutex_guard_inner_type(&self) -> (inner: Option<&Type>)
        ensures
            type_ref_view(inner) == canonical_argument(self@, MUTEX_GUARD_TYPE_CONSTRUCTOR@),
    {
        constructor_argument(self, MUTEX_GUARD_TYPE_CONSTRUCTOR)
    }

    pub fn is_mutex(&self) -> (canonical: bool)
        ensures
            canonical == self@.is_mutex(),
    {
        self.mutex_inner_type().is_some()
    }

    pub fn is_mutex_guard(&self) -> (canonical: bool)
        ensures
            canonical == self@.is_mutex_guard(),
    {
        self.mutex_guard_inner_type().is_some()
    }

    pub fn spsc_sender(inner: Type) -> (ty: Type)
        ensures
            ty@ == canonical_application(SPSC_SENDER_TYPE_CONSTRUCTOR@, inner@),
    {
        apply_constructor(SPSC_SENDER_TYPE_CONSTRUCTOR, inner)
    }

    pub fn spsc_receiver(inner: Type) -> (ty: Type)
        ensures
            ty@ == canonical_application(SPSC_RECEIVER_TYPE_CONSTRUCTOR@, inner@),
    {
        apply_constructor(SPSC_RECEIVER_TYPE_CONSTRUCTOR, inner)
    }

    pub fn spsc_sender_inner_type(&self) -> (inner: Option<&Type>)
        ensures
            type_ref_view(inner) == canonical_argument(self@, SPSC_SENDER_TYPE_CONSTRUCTOR@),
    {
        constructor_argument(self, SPSC_SENDER_TYPE_CONSTRUCTOR)
    }

    pub fn spsc_receiver_inner_type(&self) -> (inner: Option<&Type>)
        ensures
            type_ref_view(inner) == canonical_argument(self@, SPSC_RECEIVER_TYPE_CONSTRUCTOR@),
    {
        constructor_argument(self, SPSC_RECEIVER_TYPE_CONSTRUCTOR)
    }

    pub fn is_spsc_sender(&self) -> (canonical: bool)
        ensures
            canonical == self@.is_spsc_sender(),
    {
        self.spsc_sender_inner_type().is_some()
    }

    pub fn is_spsc_receiver(&self) -> (canonical: bool)
        ensures
            canonical == self@.is_spsc_receiver(),
    {
        self.spsc_receiver_inner_type().is_some()
    }

    pub fn from_name(name: &str) -> (ty: Option<Type>)
        ensures
            type_option_view(ty) == named_builtin(name@),
    {
        if same_text(name, "i8") {
            Some(Type::I8)
        } else if same_text(name, "i32") || same_text(name, "i") {
            Some(Type::I32)
        } else if same_text(name, "i64") {
            Some(Type::I64)
        } else if same_text(name, "u8") {
            Some(Type::U8)
        } else if same_text(name, "u32") || same_text(name, "u") {
            Some(Type::U32)
        } else if same_text(name, "u64") {
            Some(Type::U64)
        } else if same_text(name, "usize") {
            Some(Type::Usize)
        } else if same_text(name, "char") || same_text(name, "c") {
            Some(Type::Char)
        } else if same_text(name, "f32") {
            Some(Type::F32)
        } else if same_text(name, "f64") || same_text(name, "f") {
            Some(Type::F64)
        } else if same_text(name, "bool") || same_text(name, "b") {
            Some(Type::Bool)
        } else if same_text(name, "str") {
            Some(Type::Str)
        } else if same_text(name, "String") {
            Some(Type::String)
        } else if same_text(name, "AtomicBool") {
            Some(Type::Atomic(AtomicScalar::Bool))
        } else if same_text(name, "AtomicI32") {
            Some(Type::Atomic(AtomicScalar::I32))
        } else if same_text(name, "AtomicU32") {
            Some(Type::Atomic(AtomicScalar::U32))
        } else if same_text(name, "AtomicI64") {
            Some(Type::Atomic(AtomicScalar::I64))
        } else if same_text(name, "AtomicU64") {
            Some(Type::Atomic(AtomicScalar::U64))
        } else if same_text(name, "AtomicUsize") {
            Some(Type::Atomic(AtomicScalar::Usize))
        } else {
            None
        }
    }

    pub fn is_int(&self) -> (holds: bool)
        ensures
            holds == (self@.is_int()),
    {
        matches!(self, Type::I8 | Type::I32 | Type::I64 | Type::U8 | Type::U32 | Type::U64 | Type::Usize
            | Type::Char)
    }

    pub fn is_float(&self) -> (holds: bool)
        ensures
            holds == (self@.is_float()),
    {
        matches!(self, Type::F32 | Type::F64)
    }

    pub fn is_numeric(&self) -> (holds: bool)
        ensures
            holds == (self@.is_int() || self@.is_float()),
    {
        self.is_int() || self.is_float()
    }

    pub fn is_ref(&self) -> (holds: bool)
        ensures
            holds == (self@ is Ref),
    {
        matches!(self, Type::Ref(..))
    }

    pub fn is_param(&self) -> (holds: bool)
        ensures
            holds == (self@ is Param),
    {
        matches!(self, Type::Param(_))
    }

    pub fn is_mut_ref(&self) -> (holds: bool)
        ensures
            holds == (self@ matches TypeView::Ref(_, m) && m is Mutable),
    {
        matches!(self, Type::Ref(_, Mutability::Mutable))
    }

    pub fn is_array(&self) -> (holds: bool)
        ensures
            holds == (self@ is Array),
    {
        matches!(self, Type::Array(..))
    }

    pub fn is_own(&self) -> (holds: bool)
        ensures
            holds == (self@ is Own),
    {
        matches!(self, Type::Own(_))
    }

    pub fn is_raw_ptr(&self) -> (holds: bool)
        ensures
            holds == (self@ is RawPtr),
    {
        matches!(self, Type::RawPtr(_))
    }

    pub fn is_shared(&self) -> (holds: bool)
        ensures
            holds == (self@ is Shared),
    {
        matches!(self, Type::Shared(_))
    }

    pub fn inner_type(&self) -> (inner: Option<&Type>)
        ensures
            type_ref_view(inner) == match self@ {
                TypeView::Ref(inner, _) => Some(*inner),
                _ => None,
            },
    {
        match self {
            Type::Ref(inner, _) => Some(inner),
            _ => None,
        }
    }

    pub fn array_element_type(&self) -> (inner: Option<&Type>)
        ensures
            type_ref_view(inner) == match self@ {
                TypeView::Array(inner, _) => Some(*inner),
                _ => None,
            },
    {
        match self {
            Type::Array(inner, _) => Some(inner),
            _ => None,
        }
    }

    pub fn own_inner_type(&self) -> (inner: Option<&Type>)
        ensures
            type_ref_view(inner) == match self@ {
                TypeView::Own(inner) => Some(*inner),
                _ => None,
            },
    {
        match self {
            Type::Own(inner) => Some(inner),
            _ => None,
        }
    }

    pub fn raw_ptr_inner_type(&self) -> (inner: Option<&Type>)
        ensures
            type_ref_view(inner) == match self@ {
                TypeView::RawPtr(inner) => Some(*inner),
                _ => None,
            },
    {
        match self {
            Type::RawPtr(inner) => Some(inner),
            _ => None,
        }
    }

    pub fn shared_inner_type(&self) -> (inner: Option<&Type>)
        ensures
            type_ref_view(inner) == match self@ {
                TypeView::Shared(inner) => Some(*inner),
                _ => None,
            },
    {
        match self {
            Type::Shared(inner) => Some(inner),
            _ => None,
        }
    }

    pub fn array_size(&self) -> (size: Option<usize>)
        ensures
            size == match self@ {
                TypeView::Array(_, len) => Some(len),
                _ => None,
            },
    {
        match self {
            Type::Array(_, size) => Some(*size),
            _ => None,
        }
    }

    pub fn atomic_scalar(&self) -> (scalar: Option<AtomicScalar>)
        ensures
            scalar == match self@ {
                TypeView::Atomic(scalar) => Some(scalar),
                _ => None,
            },
    {
        match self {
            Type::Atomic(scalar) => Some(*scalar),
            _ => None,
        }
    }

    /// The parameters and result of a callable of either kind.
    pub fn function_signature(&self) -> (signature: Option<(&[Type], &Type)>)
        ensures
            match signature {
                Some((params, ret)) => self@.callable_signature() == Some(
                    (types_view(params@), ret@),
                ),
                None => self@.callable_signature() is None,
            },
    {
        match self {
            Type::Function { params, ret } => Some((params.as_slice(), ret)),
            Type::BorrowedFunction { params, ret, .. } => Some((params.as_slice(), ret)),
            _ => None,
        }
    }

    pub fn borrowed_callable_kind(&self) -> (kind: Option<BorrowedCallableKind>)
        ensures
            kind == match self@ {
                TypeView::BorrowedFunction { kind, .. } => Some(kind),
                _ => None,
            },
    {
        match self {
            Type::BorrowedFunction { kind, .. } => Some(*kind),
            _ => None,
        }
    }
}

#[derive(Debug, Clone, PartialEq, Eq, Hash)]
pub struct StructType {
    pub name: String,
    pub fields: Vec<(String, Type)>,
}

#[derive(Debug, Clone, PartialEq, Eq, Hash)]
pub struct EnumVariant {
    pub name: String,
    pub payload: Option<Type>,
}

#[derive(Debug, Clone, PartialEq, Eq, Hash)]
pub struct EnumType {
    pub name: String,
    pub variants: Vec<EnumVariant>,
}

/// The five canonical constructors are pairwise different, so that no type is
/// an application of two of them.
pub proof fn canonical_constructors_are_distinct()
    ensures
        ARC_TYPE_CONSTRUCTOR@ != MUTEX_TYPE_CONSTRUCTOR@,
        ARC_TYPE_CONSTRUCTOR@ != MUTEX_GUARD_TYPE_CONSTRUCTOR@,
        ARC_TYPE_CONSTRUCTOR@ != SPSC_SENDER_TYPE_CONSTRUCTOR@,
        ARC_TYPE_CONSTRUCTOR@ != SPSC_RECEIVER_TYPE_CONSTRUCTOR@,
        MUTEX_TYPE_CONSTRUCTOR@ != MUTEX_GUARD_TYPE_CONSTRUCTOR@,
        MUTEX_TYPE_CONSTRUCTOR@ != SPSC_SENDER_TYPE_CONSTRUCTOR@,
        MUTEX_TYPE_CONSTRUCTOR@ != SPSC_RECEIVER_TYPE_CONSTRUCTOR@,
        MUTEX_GUARD_TYPE_CONSTRUCTOR@ != SPSC_SENDER_TYPE_CONSTRUCTOR@,
        MUTEX_GUARD_TYPE_CONSTRUCTOR@ != SPSC_RECEIVER_TYPE_CONSTRUCTOR@,
        SPSC_SENDER_TYPE_CONSTRUCTOR@ != SPSC_RECEIVER_TYPE_CONSTRUCTOR@,
{
    reveal_strlit("std::sync::Arc");
    reveal_strlit("std::sync::Mutex");
    reveal_strlit("std::sync::MutexGuard");
    reveal_strlit("std::sync::spsc::Sender");
    reveal_strlit("std::sync::spsc::Receiver");
    assert(ARC_TYPE_CONSTRUCTOR@.len() == 14);
    assert(MUTEX_TYPE_CONSTRUCTOR@.len() == 16);
    assert(MUTEX_GUARD_TYPE_CONSTRUCTOR@.len() == 21);
    assert(SPSC_SENDER_TYPE_CONSTRUCTOR@.len() == 23);
    assert(SPSC_RECEIVER_TYPE_CONSTRUCTOR@.len() == 25);
}

/// Applying a canonical constructor is undone by its argument accessor, and no
/// other canonical accessor accepts the result.
pub proof fn canonical_application_has_one_reading(
    inner: TypeView,
    built: Seq<char>,
    read: Seq<char>,
)
    ensures
        canonical_argument(canonical_application(built, inner), built) == Some(inner),
        built != read ==> canonical_argument(canonical_application(built, inner), read) is None,
{
}

} // verus!
