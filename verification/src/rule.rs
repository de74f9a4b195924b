use vstd::prelude::*;

verus! {

/// The productions that leave a node in the syntax tree.
#[derive(Clone, Copy, Debug, PartialEq, Eq, Structural, Hash)]
pub enum Rule {
    /// `class Name[params] < Super ... end`
    ClassDecl,
    /// `module Name[params] : SelfType, ... end`
    ModuleDecl,
    /// `Name: Type`
    ConstDecl,
    /// The bracketed list of generic parameters of a declaration.
    TypeParams,
    /// One generic parameter with its modifiers and bound.
    TypeParam,
    /// The `unchecked` modifier of a generic parameter.
    Unchecked,
    /// The `out` (covariant) modifier of a generic parameter.
    VarianceOut,
    /// The `in` (contravariant) modifier of a generic parameter.
    VarianceIn,
    /// The identifier of a generic parameter.
    TypeParamName,
    /// The `< Super` clause of a class declaration.
    SuperClass,
    /// The `: SelfType, ...` clause of a module declaration.
    SelfTypes,
    /// `def name: (params) -> Type`
    MemberMethod,
    /// `alias new old`
    MemberAlias,
    /// `attr_reader name: Type` and its two siblings.
    MemberAttribute,
    /// `include Name[args]`
    MemberInclude,
    /// `extend Name[args]`
    MemberExtend,
    /// The `self.` receiver: a singleton method.
    ReceiverSelf,
    /// The `self?.` receiver: both an instance and a singleton method.
    ReceiverSelfOrInstance,
    /// A method name, with its optional `?`, `!` or `=` suffix.
    MethodName,
    /// `(params) -> Type`
    MethodType,
    /// The parenthesised, possibly empty, parameter list of a method type.
    Params,
    /// One operand of `alias`: a method name, optionally behind `self.`.
    MethodRef,
    /// The keyword `attr_reader`.
    AttrReader,
    /// The keyword `attr_writer`.
    AttrWriter,
    /// The keyword `attr_accessor`.
    AttrAccessor,
    /// The name of an attribute.
    AttributeName,
    /// The parenthesised instance-variable clause of an attribute.
    IvarClause,
    /// An instance-variable name, `@name`.
    IvarName,
    /// Any type expression.
    Type,
    /// A class name with its optional type arguments.
    TypeClassInstanceName,
    /// An interface name with its optional type arguments.
    TypeInterfaceName,
    /// An alias name with its optional type arguments.
    TypeAliasName,
    /// `singleton(Name)`
    TypeSingletonClassName,
    /// The bracketed list of type arguments behind a name.
    TypeArguments,
    /// A possibly namespaced name that ends in an upper-case segment.
    ClassName,
    /// A possibly namespaced name that ends in `_` and an upper-case segment.
    InterfaceName,
    /// A possibly namespaced name that ends in a lower-case segment.
    AliasName,
    /// The name that a constant declaration introduces.
    ConstName,
    /// A string, symbol or integer literal.
    Literal,
    /// A quoted string.
    LiteralString,
    /// `:name` or `:"quoted"`
    LiteralSymbol,
    /// An integer in decimal, hexadecimal, octal or binary notation.
    LiteralInteger,
    /// A string between single quotes.
    SingleQuotedString,
    /// A string between double quotes.
    DoubleQuotedString,
    /// A backslash and the byte it escapes.
    Escape,
    /// `true` or `false`.
    LiteralBoolean,
}

impl Rule {
    /// Whether a parse for this production may leave input behind it. That
    /// is so for the three declarations and for a type expression, which
    /// are read one after the other from a longer text; every other
    /// production has to match the whole input.
    pub open spec fn spec_allows_trailing(self) -> bool {
        self == Rule::ClassDecl || self == Rule::ModuleDecl || self == Rule::ConstDecl || self
            == Rule::Type
    }

    #[verifier::when_used_as_spec(spec_allows_trailing)]
    pub fn allows_trailing(self) -> (b: bool)
        ensures
            b == self.spec_allows_trailing(),
    {
        match self {
            Rule::ClassDecl | Rule::ModuleDecl | Rule::ConstDecl | Rule::Type => true,
            _ => false,
        }
    }
}

} // verus!
