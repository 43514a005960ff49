//! What name and type resolution found out about a module, as plain tables.

use vstd::prelude::*;

use crate::ast::{same_type_expr, Ident, Item, Module, TypeExpr, TypeExprView};
use crate::table::{value_of, NameMap};
use crate::text::{concat2, concat3, decimal, decimal_text, join, joined, same_text, texts_view};
use crate::types::{type_option_view, EnumType, Mutability, StructType, Type, TypeView};

verus! {

/// The declaration that a source name denotes: its module and its name there.
#[derive(Debug, Clone, PartialEq, Eq)]
pub enum ResolvedSymbol {
    Struct(String, String),
    Enum(String, String),
    Function(String, String),
    Const(String, String),
}

/// How a method takes its receiver.
#[derive(Debug, Clone, Copy, PartialEq, Eq, Structural)]
pub enum SelfKind {
    ByValue,
    Ref,
    MutRef,
}

/// The function behind a method.
#[derive(Debug, Clone, PartialEq, Eq)]
pub struct MethodInfo {
    pub function_name: String,
    pub self_kind: SelfKind,
}

/// All modules of a compilation by their identifier.
#[derive(Debug, PartialEq, Eq)]
pub struct ModuleSet {
    pub modules: NameMap<Module>,
}

/// The facts about one module that analyses and lowering look up.
#[derive(Debug, PartialEq, Eq)]
pub struct ResolverContext {
    pub struct_types: NameMap<StructType>,
    pub enum_types: NameMap<EnumType>,
    /// For each struct, for each interface it implements, the methods by name.
    pub interface_impls: NameMap<NameMap<NameMap<MethodInfo>>>,
    /// For each struct, its own methods by name.
    pub inherent_methods: NameMap<NameMap<MethodInfo>>,
    pub symbols: NameMap<ResolvedSymbol>,
    /// The type that each type expression of the module denotes, by occurrence.
    /// An expression that could not be resolved has no entry.
    pub resolved_types: Vec<(TypeExpr, Type)>,
    pub all_modules: Option<ModuleSet>,
    pub current_module: Option<String>,
}

impl Default for ResolverContext {
    fn default() -> (context: ResolverContext)
        ensures
            context@ == ResolverFacts::none(),
            context.struct_types@.len() == 0,
            context.enum_types@.len() == 0,
            context.interface_impls@.len() == 0,
            context.inherent_methods@.len() == 0,
            context.symbols@.len() == 0,
            context.resolved_types@.len() == 0,
            context.all_modules is None,
            context.current_module is None,
    {
        ResolverContext {
            struct_types: NameMap::new(),
            enum_types: NameMap::new(),
            interface_impls: NameMap::new(),
            inherent_methods: NameMap::new(),
            symbols: NameMap::new(),
            resolved_types: Vec::new(),
            all_modules: None,
            current_module: None,
        }
    }
}

/// The type found for `ty` from position `i` of the table on.
pub open spec fn resolved_from(
    entries: Seq<(TypeExpr, Type)>,
    ty: TypeExprView,
    i: int,
) -> Option<TypeView>
    decreases entries.len() - i,
{
    if i < 0 || i >= entries.len() {
        None
    } else if entries[i].0@ == ty {
        Some(entries[i].1@)
    } else {
        resolved_from(entries, ty, i + 1)
    }
}

/// The position of the first field called `name`, from position `i` on.
pub open spec fn field_position(fields: Seq<(String, Type)>, name: Seq<char>, i: int) -> Option<int>
    decreases fields.len() - i,
{
    if i < 0 || i >= fields.len() {
        None
    } else if fields[i].0@ == name {
        Some(i)
    } else {
        field_position(fields, name, i + 1)
    }
}

/// The mathematical model of the tables that analyses of one function read.
pub struct ResolverFacts {
    pub struct_types: Seq<(Seq<char>, StructType)>,
    pub enum_types: Seq<(Seq<char>, EnumType)>,
    pub symbols: Seq<(Seq<char>, ResolvedSymbol)>,
    pub resolved_types: Seq<(TypeExpr, Type)>,
}

impl View for ResolverContext {
    type V = ResolverFacts;

    open spec fn view(&self) -> ResolverFacts {
        ResolverFacts {
            struct_types: self.struct_types@,
            enum_types: self.enum_types@,
            symbols: self.symbols@,
            resolved_types: self.resolved_types@,
        }
    }
}

impl ResolverFacts {
    /// Nothing was resolved.
    pub open spec fn none() -> ResolverFacts {
        ResolverFacts {
            struct_types: Seq::empty(),
            enum_types: Seq::empty(),
            symbols: Seq::empty(),
            resolved_types: Seq::empty(),
        }
    }

    /// The type that a type expression denotes.
    pub open spec fn denoted_type(self, ty: TypeExprView) -> Option<TypeView> {
        resolved_from(self.resolved_types, ty, 0)
    }

    /// Whether a source name denotes the given struct.
    pub open spec fn names_struct(
        self,
        name: Seq<char>,
        module: Seq<char>,
        symbol: Seq<char>,
    ) -> bool {
        value_of(self.symbols, name) matches Some(ResolvedSymbol::Struct(m, s)) && m@ == module
            && s@ == symbol
    }

    /// Whether a source name denotes the given function.
    pub open spec fn names_function(
        self,
        name: Seq<char>,
        module: Seq<char>,
        symbol: Seq<char>,
    ) -> bool {
        value_of(self.symbols, name) matches Some(ResolvedSymbol::Function(m, s)) && m@ == module
            && s@ == symbol
    }

    /// The type of a struct's field.
    pub open spec fn field_type(self, structure: Seq<char>, field: Seq<char>) -> Option<TypeView> {
        match value_of(self.struct_types, structure) {
            Some(definition) => match field_position(definition.fields@, field, 0) {
                Some(i) => Some(definition.fields@[i].1@),
                None => None,
            },
            None => None,
        }
    }
}

impl ResolverContext {
    pub open spec fn denoted_type(self, ty: TypeExprView) -> Option<TypeView> {
        self@.denoted_type(ty)
    }

    pub open spec fn names_struct(
        self,
        name: Seq<char>,
        module: Seq<char>,
        symbol: Seq<char>,
    ) -> bool {
        self@.names_struct(name, module, symbol)
    }

    pub open spec fn names_function(
        self,
        name: Seq<char>,
        module: Seq<char>,
        symbol: Seq<char>,
    ) -> bool {
        self@.names_function(name, module, symbol)
    }

    pub open spec fn field_type(self, structure: Seq<char>, field: Seq<char>) -> Option<TypeView> {
        self@.field_type(structure, field)
    }

    pub fn resolve_symbol(&self, name: &str) -> (symbol: Option<&ResolvedSymbol>)
        ensures
            match symbol {
                Some(symbol) => value_of(self.symbols@, name@) == Some(*symbol),
                None => value_of(self.symbols@, name@) is None,
            },
    {
        self.symbols.get(name)
    }

    pub fn is_struct_symbol(&self, name: &str, module: &str, symbol: &str) -> (denoted: bool)
        ensures
            denoted == self.names_struct(name@, module@, symbol@),
    {
        match self.resolve_symbol(name) {
            Some(ResolvedSymbol::Struct(m, s)) => same_text(m.as_str(), module) && same_text(
                s.as_str(),
                symbol,
            ),
            _ => false,
        }
    }

    pub fn is_function_symbol(&self, name: &str, module: &str, symbol: &str) -> (denoted: bool)
        ensures
            denoted == self.names_function(name@, module@, symbol@),
    {
        match self.resolve_symbol(name) {
            Some(ResolvedSymbol::Function(m, s)) => same_text(m.as_str(), module) && same_text(
                s.as_str(),
                symbol,
            ),
            _ => false,
        }
    }

    pub fn get_struct(&self, name: &str) -> (definition: Option<&StructType>)
        ensures
            match definition {
                Some(definition) => value_of(self.struct_types@, name@) == Some(*definition),
                None => value_of(self.struct_types@, name@) is None,
            },
    {
        self.struct_types.get(name)
    }

    pub fn get_enum(&self, name: &str) -> (definition: Option<&EnumType>)
        ensures
            match definition {
                Some(definition) => value_of(self.enum_types@, name@) == Some(*definition),
                None => value_of(self.enum_types@, name@) is None,
            },
    {
        self.enum_types.get(name)
    }

    /// The type of a struct's field.
    pub fn get_field(&self, structure: &str, field: &str) -> (ty: Option<Type>)
        ensures
            type_option_view(ty) == self.field_type(structure@, field@),
    {
        match self.struct_types.get(structure) {
            Some(definition) => {
                let mut i: usize = 0;
                while i < definition.fields.len()
                    invariant
                        i <= definition.fields.len(),
                        field_position(definition.fields@, field@, i as int) == field_position(
                            definition.fields@,
                            field@,
                            0,
                        ),
                        value_of(self.struct_types@, structure@) == Some(*definition),
                    decreases definition.fields.len() - i,
                {
                    if same_text(definition.fields[i].0.as_str(), field) {
                        return Some(definition.fields[i].1.clone());
                    }
                    i += 1;
                }
                None
            },
            None => None,
        }
    }

    pub fn get_inherent_method(&self, structure: &str, method: &str) -> (info: Option<&MethodInfo>)
        ensures
            match (value_of(self.inherent_methods@, structure@), info) {
                (Some(methods), Some(info)) => value_of(methods@, method@) == Some(*info),
                (Some(methods), None) => value_of(methods@, method@) is None,
                (None, Some(_)) => false,
                (None, None) => true,
            },
    {
        match self.inherent_methods.get(structure) {
            Some(methods) => methods.get(method),
            None => None,
        }
    }
}

/// The type that a type expression denotes.
pub fn resolve_type_expr_to_type(ty: &TypeExpr, ctx: &ResolverContext) -> (resolved: Option<Type>)
    ensures
        type_option_view(resolved) == ctx.denoted_type(ty@),
{
    let mut i: usize = 0;
    while i < ctx.resolved_types.len()
        invariant
            i <= ctx.resolved_types.len(),
            resolved_from(ctx.resolved_types@, ty@, i as int) == ctx.denoted_type(ty@),
        decreases ctx.resolved_types.len() - i,
    {
        if same_type_expr(&ctx.resolved_types[i].0, ty) {
            return Some(ctx.resolved_types[i].1.clone());
        }
        i += 1;
    }
    None
}

/// The source text of a type expression.
pub open spec fn type_expr_text(ty: TypeExprView) -> Seq<char>
    decreases ty, 0nat,
{
    match ty {
        TypeExprView::Path { segments, .. } => joined(segments, "::"@),
        TypeExprView::App { base, args, .. } => type_expr_list_text(
            type_expr_text(*base) + "<"@,
            args,
            0,
        ) + ">"@,
        TypeExprView::Ref { inner, mutability, .. } => match mutability {
            Mutability::Immutable => "&"@ + type_expr_text(*inner),
            Mutability::Mutable => "&mut "@ + type_expr_text(*inner),
        },
        TypeExprView::Array { elem, size, .. } => "["@ + type_expr_text(*elem) + "; "@
            + decimal_text(size as nat) + "]"@,
        TypeExprView::Tuple { elements, .. } => type_expr_list_text("("@, elements, 0) + ")"@,
    }
}

/// The source texts from position `i` on, separated by commas, after `text`.
pub open spec fn type_expr_list_text(text: Seq<char>, types: Seq<TypeExprView>, i: int) -> Seq<char>
    decreases types, types.len() - i,
{
    if i < 0 || i >= types.len() {
        text
    } else {
        let separated = if i == 0 {
            text
        } else {
            text + ", "@
        };
        type_expr_list_text(separated + type_expr_text(types[i]), types, i + 1)
    }
}

/// Renders a type expression as source text.
pub fn type_expr_to_string(ty: &TypeExpr) -> (text: String)
    ensures
        text@ == type_expr_text(ty@),
    decreases ty, 0nat,
{
    match ty {
        TypeExpr::Path { segments, .. } => join(segments, "::"),
        TypeExpr::App { base, args, .. } => {
            let mut text = type_expr_to_string(base);
            text.append("<");
            let mut text = append_type_exprs(text, args);
            text.append(">");
            text
        },
        TypeExpr::Ref { inner, mutability, .. } => match mutability {
            Mutability::Immutable => concat2("&", type_expr_to_string(inner).as_str()),
            Mutability::Mutable => concat2("&mut ", type_expr_to_string(inner).as_str()),
        },
        TypeExpr::Array { elem, size, .. } => {
            let mut text = concat3("[", type_expr_to_string(elem).as_str(), "; ");
            text.append(decimal(*size as u64).as_str());
            text.append("]");
            text
        },
        TypeExpr::Tuple { elements, .. } => {
            let mut text = append_type_exprs("(".to_owned(), elements);
            text.append(")");
            text
        },
    }
}

fn append_type_exprs(start: String, types: &Vec<TypeExpr>) -> (text: String)
    ensures
        text@ == type_expr_list_text(start@, crate::ast::type_exprs_view(types@), 0),
    decreases types, 0nat,
{
    let ghost views = crate::ast::type_exprs_view(types@);
    let mut text = start;
    let mut i: usize = 0;
    while i < types.len()
        invariant
            i <= types.len(),
            views == crate::ast::type_exprs_view(types@),
            type_expr_list_text(text@, views, i as int) == type_expr_list_text(start@, views, 0),
        decreases types.len() - i,
    {
        assert(views[i as int] == types[i as int]@);
        if i > 0 {
            text.append(", ");
        }
        text.append(type_expr_to_string(&types[i]).as_str());
        i += 1;
    }
    text
}

/// The names of generic parameters.
pub open spec fn idents_view(idents: Seq<Ident>) -> Seq<Seq<char>> {
    Seq::new(idents.len(), |i: int| idents[i].0@)
}

/// The generic parameters of the first struct called `name`, from position `i`
/// of a module's items on.
pub open spec fn generic_params_from(items: Seq<Item>, name: Seq<char>, i: int) -> Option<
    Seq<Seq<char>>,
>
    decreases items.len() - i,
{
    if i < 0 || i >= items.len() {
        None
    } else {
        match items[i] {
            Item::Struct(definition) => if definition.name.0@ == name {
                Some(idents_view(definition.generic_params@))
            } else {
                generic_params_from(items, name, i + 1)
            },
            _ => generic_params_from(items, name, i + 1),
        }
    }
}

/// The module that declares the struct called `name`, if it is another one.
pub open spec fn declaring_module(ctx: ResolverContext, name: Seq<char>) -> Option<
    (Module, Seq<char>),
> {
    match (ctx.all_modules, value_of(ctx.symbols@, name)) {
        (Some(all), Some(ResolvedSymbol::Struct(module, symbol))) => match value_of(
            all.modules@,
            module@,
        ) {
            Some(target) => Some((target, symbol@)),
            None => None,
        },
        _ => None,
    }
}

/// The generic parameters of the struct called `name`: as declared in this
/// module, else in the module that its name denotes.
pub open spec fn generic_params_of(
    name: Seq<char>,
    module: Module,
    ctx: ResolverContext,
) -> Seq<Seq<char>> {
    match generic_params_from(module.items@, name, 0) {
        Some(params) => params,
        None => match declaring_module(ctx, name) {
            Some((target, symbol)) => match generic_params_from(target.items@, symbol, 0) {
                Some(params) => params,
                None => Seq::empty(),
            },
            None => Seq::empty(),
        },
    }
}

pub fn ident_names(idents: &Vec<Ident>) -> (names: Vec<String>)
    ensures
        texts_view(names@) == idents_view(idents@),
{
    let mut names: Vec<String> = Vec::new();
    let mut i: usize = 0;
    while i < idents.len()
        invariant
            i <= idents.len(),
            names.len() == i,
            forall|j: int| 0 <= j < i ==> (#[trigger] names[j])@ == idents[j].0@,
        decreases idents.len() - i,
    {
        names.push(idents[i].0.clone());
        i += 1;
    }
    assert(texts_view(names@) =~= idents_view(idents@));
    names
}

fn find_generic_params(module: &Module, name: &str) -> (params: Option<Vec<String>>)
    ensures
        match params {
            Some(params) => generic_params_from(module.items@, name@, 0) == Some(
                texts_view(params@),
            ),
            None => generic_params_from(module.items@, name@, 0) is None,
        },
{
    let mut i: usize = 0;
    while i < module.items.len()
        invariant
            i <= module.items.len(),
            generic_params_from(module.items@, name@, i as int) == generic_params_from(
                module.items@,
                name@,
                0,
            ),
        decreases module.items.len() - i,
    {
        match &module.items[i] {
            Item::Struct(definition) => {
                if same_text(definition.name.0.as_str(), name) {
                    return Some(ident_names(&definition.generic_params));
                }
            },
            _ => {},
        }
        i += 1;
    }
    None
}

/// The generic parameters that are in scope in an implementation for a struct.
pub fn struct_generic_params(name: &str, module: &Module, ctx: &ResolverContext) -> (params: Vec<
    String,
>)
    ensures
        texts_view(params@) == generic_params_of(name@, *module, *ctx),
{
    match find_generic_params(module, name) {
        Some(params) => {
            return params;
        },
        None => {},
    }
    let none: Vec<String> = Vec::new();
    assert(texts_view(none@) =~= Seq::empty());
    match &ctx.all_modules {
        Some(all) => match ctx.resolve_symbol(name) {
            Some(ResolvedSymbol::Struct(module_id, symbol)) => match all.modules.get(
                module_id.as_str(),
            ) {
                Some(target) => match find_generic_params(target, symbol.as_str()) {
                    Some(params) => params,
                    None => none,
                },
                None => none,
            },
            _ => none,
        },
        None => none,
    }
}

} // verus!
