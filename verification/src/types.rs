//! The types of values and of the operations on them.

use vstd::prelude::*;
use vstd::std_specs::cmp::PartialEqSpecImpl;

verus! {

/// The type of a value, of a variable or of a function.
#[derive(Debug, Eq)]
pub enum Type {
    Number,
    String,
    Bool,
    /// A function from parameters of the given types to a result.
    Function { parameters: Vec<Type>, return_type: Box<Type> },
    /// Every type; used only while types are being inferred.
    Any,
    /// Not yet known.
    Undefined,
}

/// The mathematical value of a [`Type`].
pub enum TypeView {
    Number,
    String,
    Bool,
    Function { parameters: Seq<TypeView>, return_type: Box<TypeView> },
    Any,
    Undefined,
}

/// The mathematical value of a type.
pub open spec fn type_view(ty: Type) -> TypeView
    decreases ty,
{
    match ty {
        Type::Number => TypeView::Number,
        Type::String => TypeView::String,
        Type::Bool => TypeView::Bool,
        Type::Function { parameters, return_type } => TypeView::Function {
            parameters: Seq::new(
                parameters@.len(),
                |i: int|
                    if 0 <= i < parameters@.len() {
                        type_view(parameters@[i])
                    } else {
                        TypeView::Undefined
                    },
            ),
            return_type: Box::new(type_view(*return_type)),
        },
        Type::Any => TypeView::Any,
        Type::Undefined => TypeView::Undefined,
    }
}

impl View for Type {
    type V = TypeView;

    open spec fn view(&self) -> TypeView {
        type_view(*self)
    }
}

impl DeepView for Type {
    type V = TypeView;

    open spec fn deep_view(&self) -> TypeView {
        type_view(*self)
    }
}

impl Type {
    /// A copy of the type.
    #[verifier::loop_isolation(false)]
    pub fn duplicate(&self) -> (r: Type)
        ensures
            r@ == self@,
        decreases self,
    {
        match self {
            Type::Number => Type::Number,
            Type::String => Type::String,
            Type::Bool => Type::Bool,
            Type::Function { parameters, return_type } => {
                let mut copies: Vec<Type> = Vec::new();
                let mut i: usize = 0;
                while i < parameters.len()
                    invariant
                        i <= parameters.len(),
                        copies.len() == i,
                        forall|j: int| 0 <= j < i ==> copies[j]@ == parameters[j]@,
                    decreases parameters.len() - i,
                {
                    proof {
                        vstd::std_specs::vec::axiom_vec_index_decreases(*parameters, i as int);
                    }
                    copies.push(parameters[i].duplicate());
                    i = i + 1;
                }
                let result = Type::Function {
                    parameters: copies,
                    return_type: Box::new(return_type.duplicate()),
                };
                proof {
                    assert(result@->parameters =~= self@->parameters);
                }
                result
            },
            Type::Any => Type::Any,
            Type::Undefined => Type::Undefined,
        }
    }

    /// Whether two types are the same. Equality of types is structural.
    #[verifier::loop_isolation(false)]
    pub fn same_as(&self, other: &Type) -> (r: bool)
        ensures
            r == (self@ == other@),
        decreases self,
    {
        match (self, other) {
            (Type::Number, Type::Number) => true,
            (Type::String, Type::String) => true,
            (Type::Bool, Type::Bool) => true,
            (Type::Any, Type::Any) => true,
            (Type::Undefined, Type::Undefined) => true,
            (
                Type::Function { parameters, return_type },
                Type::Function { parameters: other_parameters, return_type: other_return_type },
            ) => {
                if parameters.len() != other_parameters.len() {
                    proof {
                        assert(self@->parameters.len() != other@->parameters.len());
                    }
                    return false;
                }
                let mut i: usize = 0;
                while i < parameters.len()
                    invariant
                        i <= parameters.len(),
                        parameters.len() == other_parameters.len(),
                        forall|j: int| 0 <= j < i ==> parameters[j]@ == other_parameters[j]@,
                    decreases parameters.len() - i,
                {
                    proof {
                        vstd::std_specs::vec::axiom_vec_index_decreases(*parameters, i as int);
                    }
                    if !parameters[i].same_as(&other_parameters[i]) {
                        proof {
                            assert(self@->parameters[i as int] == parameters[i as int]@);
                            assert(other@->parameters[i as int] == other_parameters[i as int]@);
                        }
                        return false;
                    }
                    i = i + 1;
                }
                proof {
                    assert(self@->parameters =~= other@->parameters);
                }
                return_type.same_as(other_return_type)
            },
            _ => false,
        }
    }
}

impl Clone for Type {
    fn clone(&self) -> (r: Self)
        ensures
            r@ == self@,
    {
        self.duplicate()
    }
}

impl PartialEq for Type {
    fn eq(&self, other: &Self) -> (r: bool) {
        self.same_as(other)
    }
}

impl PartialEqSpecImpl for Type {
    open spec fn obeys_eq_spec() -> bool {
        true
    }

    open spec fn eq_spec(&self, other: &Self) -> bool {
        self@ == other@
    }
}

/// The operators of the language. Each is overloaded per operand type.
#[derive(Debug, Clone, Copy, PartialEq, Eq, Hash, Structural)]
pub enum Operator {
    LessThanOrEqualTo,
    GreaterThanOrEqualTo,
    LessThan,
    GreaterThan,
    EqualTo,
    NotEqualTo,
    Or,
    And,
    Xor,
    Not,
    UnarySubtract,
    Add,
    Subtract,
    Multiply,
    Divide,
    Modulo,
}

/// One entry of a type's dispatch table: an operator and the type of the
/// function that implements it for operands of that type.
#[derive(Debug, Clone, PartialEq, Eq)]
pub struct Method {
    pub operator: Operator,
    pub signature: Type,
}

/// The mathematical value of a [`Method`].
pub struct MethodView {
    pub operator: Operator,
    pub signature: TypeView,
}

impl View for Method {
    type V = MethodView;

    open spec fn view(&self) -> MethodView {
        MethodView { operator: self.operator, signature: self.signature@ }
    }
}

impl DeepView for Method {
    type V = MethodView;

    open spec fn deep_view(&self) -> MethodView {
        self@
    }
}

/// What is known of a type: its name and the operators defined on it.
#[derive(Debug, Clone, PartialEq, Eq)]
pub struct TypeProperties {
    pub name: String,
    pub methods: Vec<Method>,
}

/// The mathematical value of [`TypeProperties`].
pub struct TypePropertiesView {
    pub name: Seq<char>,
    pub methods: Seq<MethodView>,
}

impl View for TypeProperties {
    type V = TypePropertiesView;

    open spec fn view(&self) -> TypePropertiesView {
        TypePropertiesView { name: self.name@, methods: self.methods.deep_view() }
    }
}

/// The type of an operator that takes one operand.
pub open spec fn unary_signature(operand: TypeView, result: TypeView) -> TypeView {
    TypeView::Function { parameters: seq![operand], return_type: Box::new(result) }
}

/// The type of an operator that takes two operands of one type.
pub open spec fn binary_signature(operand: TypeView, result: TypeView) -> TypeView {
    TypeView::Function { parameters: seq![operand, operand], return_type: Box::new(result) }
}

/// A method on `Number` operands that takes two of them.
pub open spec fn binary_number_method(operator: Operator, result: TypeView) -> MethodView {
    MethodView { operator, signature: binary_signature(TypeView::Number, result) }
}

/// The operators defined on numbers: equality, the four arithmetic
/// operations with the remainder, negation, and the four comparisons.
pub open spec fn number_methods() -> Seq<MethodView> {
    seq![
        binary_number_method(Operator::EqualTo, TypeView::Bool),
        binary_number_method(Operator::NotEqualTo, TypeView::Bool),
        binary_number_method(Operator::Add, TypeView::Number),
        binary_number_method(Operator::Subtract, TypeView::Number),
        binary_number_method(Operator::Multiply, TypeView::Number),
        binary_number_method(Operator::Divide, TypeView::Number),
        binary_number_method(Operator::Modulo, TypeView::Number),
        MethodView {
            operator: Operator::UnarySubtract,
            signature: unary_signature(TypeView::Number, TypeView::Number),
        },
        binary_number_method(Operator::GreaterThan, TypeView::Bool),
        binary_number_method(Operator::GreaterThanOrEqualTo, TypeView::Bool),
        binary_number_method(Operator::LessThan, TypeView::Bool),
        binary_number_method(Operator::LessThanOrEqualTo, TypeView::Bool),
    ]
}

/// A method on `String` operands that takes two of them.
pub open spec fn binary_string_method(operator: Operator, result: TypeView) -> MethodView {
    MethodView { operator, signature: binary_signature(TypeView::String, result) }
}

/// The operators defined on strings: equality and concatenation.
pub open spec fn string_methods() -> Seq<MethodView> {
    seq![
        binary_string_method(Operator::EqualTo, TypeView::Bool),
        binary_string_method(Operator::NotEqualTo, TypeView::Bool),
        binary_string_method(Operator::Add, TypeView::String),
    ]
}

/// A method on `Bool` operands that takes two of them and gives a `Bool`.
pub open spec fn binary_bool_method(operator: Operator) -> MethodView {
    MethodView { operator, signature: binary_signature(TypeView::Bool, TypeView::Bool) }
}

/// The operators defined on truth values: equality and the connectives.
pub open spec fn bool_methods() -> Seq<MethodView> {
    seq![
        binary_bool_method(Operator::EqualTo),
        binary_bool_method(Operator::NotEqualTo),
        binary_bool_method(Operator::And),
        binary_bool_method(Operator::Or),
        binary_bool_method(Operator::Xor),
        MethodView {
            operator: Operator::Not,
            signature: unary_signature(TypeView::Bool, TypeView::Bool),
        },
    ]
}

impl Operator {
    /// The name of the operator.
    pub open spec fn spec_name(self) -> Seq<char> {
        match self {
            Operator::LessThanOrEqualTo => "LessThanOrEqualTo"@,
            Operator::GreaterThanOrEqualTo => "GreaterThanOrEqualTo"@,
            Operator::LessThan => "LessThan"@,
            Operator::GreaterThan => "GreaterThan"@,
            Operator::EqualTo => "EqualTo"@,
            Operator::NotEqualTo => "NotEqualTo"@,
            Operator::Or => "Or"@,
            Operator::And => "And"@,
            Operator::Xor => "Xor"@,
            Operator::Not => "Not"@,
            Operator::UnarySubtract => "UnarySubtract"@,
            Operator::Add => "Add"@,
            Operator::Subtract => "Subtract"@,
            Operator::Multiply => "Multiply"@,
            Operator::Divide => "Divide"@,
            Operator::Modulo => "Modulo"@,
        }
    }

    /// The name of the operator.
    pub fn name(self) -> (name: &'static str)
        ensures
            name@ == self.spec_name(),
    {
        match self {
            Operator::LessThanOrEqualTo => "LessThanOrEqualTo",
            Operator::GreaterThanOrEqualTo => "GreaterThanOrEqualTo",
            Operator::LessThan => "LessThan",
            Operator::GreaterThan => "GreaterThan",
            Operator::EqualTo => "EqualTo",
            Operator::NotEqualTo => "NotEqualTo",
            Operator::Or => "Or",
            Operator::And => "And",
            Operator::Xor => "Xor",
            Operator::Not => "Not",
            Operator::UnarySubtract => "UnarySubtract",
            Operator::Add => "Add",
            Operator::Subtract => "Subtract",
            Operator::Multiply => "Multiply",
            Operator::Divide => "Divide",
            Operator::Modulo => "Modulo",
        }
    }
}

impl Method {
    /// The entry for a unary operator.
    pub fn unary(operator: Operator, operand: Type, result: Type) -> (method: Method)
        ensures
            method@ == (MethodView { operator, signature: unary_signature(operand@, result@) }),
    {
        let mut parameters: Vec<Type> = Vec::new();
        parameters.push(operand);
        let signature = Type::Function { parameters, return_type: Box::new(result) };
        proof {
            assert(signature@->parameters =~= seq![operand@]);
        }
        Method { operator, signature }
    }

    /// The entry for a binary operator whose operands have one type.
    pub fn binary(operator: Operator, operand: Type, result: Type) -> (method: Method)
        ensures
            method@ == (MethodView { operator, signature: binary_signature(operand@, result@) }),
    {
        let mut parameters: Vec<Type> = Vec::new();
        parameters.push(operand.duplicate());
        parameters.push(operand);
        let signature = Type::Function { parameters, return_type: Box::new(result) };
        proof {
            assert(signature@->parameters =~= seq![operand@, operand@]);
        }
        Method { operator, signature }
    }
}

impl TypeProperties {
    /// The properties of a type of the given name on which no operator is
    /// defined.
    pub fn from_name(name: &str) -> (properties: TypeProperties)
        ensures
            properties@ == (TypePropertiesView { name: name@, methods: Seq::empty() }),
    {
        let properties = TypeProperties { name: name.to_owned(), methods: Vec::new() };
        proof {
            assert(properties.methods.deep_view() =~= Seq::<MethodView>::empty());
        }
        properties
    }

    /// The same properties with the given dispatch table.
    pub fn with_methods(self, methods: Vec<Method>) -> (properties: TypeProperties)
        ensures
            properties@ == (TypePropertiesView { name: self@.name, methods: methods.deep_view() }),
    {
        TypeProperties { name: self.name, methods }
    }
}

/// The properties of the type `Number`.
pub fn number_type_properties() -> (properties: TypeProperties)
    ensures
        properties@ == (TypePropertiesView { name: "Number"@, methods: number_methods() }),
{
    let mut methods: Vec<Method> = Vec::new();
    methods.push(Method::binary(Operator::EqualTo, Type::Number, Type::Bool));
    methods.push(Method::binary(Operator::NotEqualTo, Type::Number, Type::Bool));
    methods.push(Method::binary(Operator::Add, Type::Number, Type::Number));
    methods.push(Method::binary(Operator::Subtract, Type::Number, Type::Number));
    methods.push(Method::binary(Operator::Multiply, Type::Number, Type::Number));
    methods.push(Method::binary(Operator::Divide, Type::Number, Type::Number));
    methods.push(Method::binary(Operator::Modulo, Type::Number, Type::Number));
    methods.push(Method::unary(Operator::UnarySubtract, Type::Number, Type::Number));
    methods.push(Method::binary(Operator::GreaterThan, Type::Number, Type::Bool));
    methods.push(Method::binary(Operator::GreaterThanOrEqualTo, Type::Number, Type::Bool));
    methods.push(Method::binary(Operator::LessThan, Type::Number, Type::Bool));
    methods.push(Method::binary(Operator::LessThanOrEqualTo, Type::Number, Type::Bool));
    proof {
        assert(methods.deep_view() =~= number_methods());
    }
    TypeProperties::from_name("Number").with_methods(methods)
}

/// The properties of the type `String`.
pub fn string_type_properties() -> (properties: TypeProperties)
    ensures
        properties@ == (TypePropertiesView { name: "String"@, methods: string_methods() }),
{
    let mut methods: Vec<Method> = Vec::new();
    methods.push(Method::binary(Operator::EqualTo, Type::String, Type::Bool));
    methods.push(Method::binary(Operator::NotEqualTo, Type::String, Type::Bool));
    methods.push(Method::binary(Operator::Add, Type::String, Type::String));
    proof {
        assert(methods.deep_view() =~= string_methods());
    }
    TypeProperties::from_name("String").with_methods(methods)
}

/// The properties of the type `Bool`.
pub fn bool_type_properties() -> (properties: TypeProperties)
    ensures
        properties@ == (TypePropertiesView { name: "Bool"@, methods: bool_methods() }),
{
    let mut methods: Vec<Method> = Vec::new();
    methods.push(Method::binary(Operator::EqualTo, Type::Bool, Type::Bool));
    methods.push(Method::binary(Operator::NotEqualTo, Type::Bool, Type::Bool));
    methods.push(Method::binary(Operator::And, Type::Bool, Type::Bool));
    methods.push(Method::binary(Operator::Or, Type::Bool, Type::Bool));
    methods.push(Method::binary(Operator::Xor, Type::Bool, Type::Bool));
    methods.push(Method::unary(Operator::Not, Type::Bool, Type::Bool));
    proof {
        assert(methods.deep_view() =~= bool_methods());
    }
    TypeProperties::from_name("Bool").with_methods(methods)
}

} // verus!
