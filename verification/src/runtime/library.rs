//! The functions that a dialogue may call.

use crate::collections::{value_at, StringMap};
use crate::types::{
    bool_methods, bool_type_properties, number_methods, number_type_properties, string_methods,
    string_type_properties, MethodView, Type, TypeProperties, TypeView,
};
use crate::text::str_eq;
use crate::value::{YarnValue, YarnValueView};
use vstd::prelude::*;
use vstd::string::StringExecFns;

verus! {

/// The types of a function's parameters and of its result.
#[derive(Debug, PartialEq, Eq)]
pub struct FunctionSignature {
    pub parameters: Vec<Type>,
    pub return_type: Type,
}

/// The mathematical value of a [`FunctionSignature`].
pub struct FunctionSignatureView {
    pub parameters: Seq<TypeView>,
    pub return_type: TypeView,
}

impl View for FunctionSignature {
    type V = FunctionSignatureView;

    open spec fn view(&self) -> FunctionSignatureView {
        FunctionSignatureView {
            parameters: self.parameters.deep_view(),
            return_type: self.return_type@,
        }
    }
}

impl DeepView for FunctionSignature {
    type V = FunctionSignatureView;

    open spec fn deep_view(&self) -> FunctionSignatureView {
        self@
    }
}

/// The host's side of a function call. The library knows the signatures of
/// the functions; the functions themselves belong to the host.
pub trait FunctionHost {
    /// Calls the function of the given name. `None` says that the call
    /// failed.
    fn call(&mut self, name: &str, arguments: &Vec<YarnValue>) -> Option<YarnValue>;
}

/// A host without functions: every call fails.
#[derive(Debug, Clone, Copy, PartialEq, Eq, Structural)]
pub struct NoFunctions;

impl FunctionHost for NoFunctions {
    fn call(&mut self, name: &str, arguments: &Vec<YarnValue>) -> (answer: Option<YarnValue>)
        ensures
            answer is None,
    {
        None
    }
}

/// The name under which an operator of a type is registered: the name of
/// the type, a dot, and the name of the operator.
pub open spec fn method_name(owner: Seq<char>, method: MethodView) -> Seq<char> {
    owner.push('.') + method.operator.spec_name()
}

/// The functions of `functions` together with the operators of a type.
/// An entry of the dispatch table whose signature is no function type
/// registers nothing.
pub open spec fn with_methods(
    functions: Map<Seq<char>, FunctionSignatureView>,
    owner: Seq<char>,
    methods: Seq<MethodView>,
) -> Map<Seq<char>, FunctionSignatureView>
    decreases methods.len(),
{
    if methods.len() == 0 {
        functions
    } else {
        let before = with_methods(functions, owner, methods.drop_last());
        match methods.last().signature {
            TypeView::Function { parameters, return_type } => before.insert(
                method_name(owner, methods.last()),
                FunctionSignatureView { parameters, return_type: *return_type },
            ),
            _ => before,
        }
    }
}

/// The signature of a function from `arity` numbers to a number.
pub open spec fn numeric_function(arity: nat) -> FunctionSignatureView {
    FunctionSignatureView {
        parameters: Seq::new(arity, |i: int| TypeView::Number),
        return_type: TypeView::Number,
    }
}

/// The functions that every library starts with: the operators on numbers,
/// strings and truth values, and the numeric built-ins.
pub open spec fn standard_functions() -> Map<Seq<char>, FunctionSignatureView> {
    with_methods(
        with_methods(
            with_methods(Map::empty(), "Number"@, number_methods()),
            "String"@,
            string_methods(),
        ),
        "Bool"@,
        bool_methods(),
    ).insert("random"@, numeric_function(0)).insert("random_range"@, numeric_function(2)).insert(
        "dice"@,
        numeric_function(1),
    ).insert("round"@, numeric_function(1)).insert("floor"@, numeric_function(1)).insert(
        "ceil"@,
        numeric_function(1),
    ).insert("inc"@, numeric_function(1)).insert("dec"@, numeric_function(1)).insert(
        "decimal"@,
        numeric_function(1),
    ).insert("int"@, numeric_function(1))
}

/// The registry of the functions that scripts may call, operators included.
#[derive(Debug, PartialEq, Eq)]
pub struct Library {
    functions: StringMap<FunctionSignature>,
}

impl Library {
    /// The signatures of the registered functions, by name.
    pub closed spec fn functions(&self) -> Map<Seq<char>, FunctionSignatureView> {
        self.functions.map()
    }

    /// A library without functions.
    pub fn new() -> (library: Library)
        ensures
            library.functions() == Map::<Seq<char>, FunctionSignatureView>::empty(),
    {
        Library { functions: StringMap::new() }
    }

    /// Registers a function, in place of any that had its name.
    pub fn add_function(&mut self, name: String, parameters: Vec<Type>, return_type: Type)
        ensures
            final(self).functions() == old(self).functions().insert(
                name@,
                FunctionSignatureView {
                    parameters: parameters.deep_view(),
                    return_type: return_type@,
                },
            ),
    {
        self.functions.insert(name, FunctionSignature { parameters, return_type });
    }

    /// The library with one more function.
    pub fn with_function(self, name: &str, parameters: Vec<Type>, return_type: Type) -> (library:
        Library)
        ensures
            library.functions() == self.functions().insert(
                name@,
                FunctionSignatureView {
                    parameters: parameters.deep_view(),
                    return_type: return_type@,
                },
            ),
    {
        let mut library = self;
        library.add_function(name.to_owned(), parameters, return_type);
        library
    }

    /// The signature of a function, if it is registered.
    pub fn get(&self, name: &str) -> (signature: Option<&FunctionSignature>)
        ensures
            signature.deep_view() == value_at(self.functions(), name@),
    {
        self.functions.get(name)
    }

    /// Whether a function of the given name is registered.
    pub fn contains(&self, name: &str) -> (held: bool)
        ensures
            held == self.functions().contains_key(name@),
    {
        self.functions.contains_key(name)
    }

    /// Registers every function of another library. Where both have a
    /// function of one name, that of the other library stays.
    pub fn extend(&mut self, other: Library)
        ensures
            final(self).functions() == old(self).functions().union_prefer_right(
                other.functions(),
            ),
    {
        self.functions.extend(other.functions);
    }

    /// Registers the operators of a type.
    pub fn add_methods(&mut self, properties: &TypeProperties)
        ensures
            final(self).functions() == with_methods(
                old(self).functions(),
                properties@.name,
                properties@.methods,
            ),
    {
        let mut i: usize = 0;
        proof {
            assert(properties@.methods.take(0) =~= Seq::empty());
        }
        while i < properties.methods.len()
            invariant
                i <= properties.methods.len(),
                self.functions() == with_methods(
                    old(self).functions(),
                    properties@.name,
                    properties@.methods.take(i as int),
                ),
            decreases properties.methods.len() - i,
        {
            let method = &properties.methods[i];
            proof {
                assert(properties@.methods.take(i + 1).drop_last() =~= properties@.methods.take(
                    i as int,
                ));
                assert(properties@.methods.take(i + 1).last() == method@);
            }
            match &method.signature {
                Type::Function { parameters, return_type } => {
                    let mut name = properties.name.clone();
                    name.push('.');
                    name.append(method.operator.name());
                    let mut copies: Vec<Type> = Vec::new();
                    let mut k: usize = 0;
                    while k < parameters.len()
                        invariant
                            k <= parameters.len(),
                            copies.len() == k,
                            forall|j: int| 0 <= j < k ==> copies[j]@ == parameters[j]@,
                        decreases parameters.len() - k,
                    {
                        copies.push(parameters[k].duplicate());
                        k = k + 1;
                    }
                    proof {
                        assert(copies.deep_view() =~= method@.signature->parameters);
                    }
                    self.add_function(name, copies, return_type.duplicate());
                },
                _ => {},
            }
            i = i + 1;
        }
        proof {
            assert(properties@.methods.take(i as int) =~= properties@.methods);
        }
    }

    /// Registers a function from `arity` numbers to a number.
    pub fn add_numeric_function(&mut self, name: &str, arity: usize)
        ensures
            final(self).functions() == old(self).functions().insert(
                name@,
                numeric_function(arity as nat),
            ),
    {
        let mut parameters: Vec<Type> = Vec::new();
        let mut i: usize = 0;
        while i < arity
            invariant
                i <= arity,
                parameters.len() == i,
                forall|j: int| 0 <= j < i ==> parameters[j]@ == TypeView::Number,
            decreases arity - i,
        {
            parameters.push(Type::Number);
            i = i + 1;
        }
        proof {
            assert(parameters.deep_view() =~= numeric_function(arity as nat).parameters);
        }
        self.add_function(name.to_owned(), parameters, Type::Number);
    }

    /// The library that every dialogue starts with.
    pub fn standard_library() -> (library: Library)
        ensures
            library.functions() == standard_functions(),
    {
        let mut library = Library::new();
        library.add_methods(&number_type_properties());
        library.add_methods(&string_type_properties());
        library.add_methods(&bool_type_properties());
        library.add_numeric_function("random", 0);
        library.add_numeric_function("random_range", 2);
        library.add_numeric_function("dice", 1);
        library.add_numeric_function("round", 1);
        library.add_numeric_function("floor", 1);
        library.add_numeric_function("ceil", 1);
        library.add_numeric_function("inc", 1);
        library.add_numeric_function("dec", 1);
        library.add_numeric_function("decimal", 1);
        library.add_numeric_function("int", 1);
        library
    }
}

/// What an operator on strings or truth values makes of its arguments,
/// and what the conversion `bool` makes of a value; `None` for every
/// other function, and where the arguments are not what the function
/// works on.
///
/// `String.Add` joins two strings; `String.EqualTo` and
/// `String.NotEqualTo` compare two strings; `Bool.EqualTo`,
/// `Bool.NotEqualTo`, `Bool.And`, `Bool.Or` and `Bool.Xor` work on two
/// truth values and `Bool.Not` on one; `bool` gives the truth value that a
/// value stands for, if it stands for one.
pub open spec fn operator_result(name: Seq<char>, arguments: Seq<YarnValueView>) -> Option<
    YarnValueView,
> {
    if arguments.len() == 2 && arguments[0] is String && arguments[1] is String {
        let first = arguments[0]->String_0;
        let second = arguments[1]->String_0;
        if name == "String.Add"@ {
            Some(YarnValueView::String(first + second))
        } else if name == "String.EqualTo"@ {
            Some(YarnValueView::Bool(first == second))
        } else if name == "String.NotEqualTo"@ {
            Some(YarnValueView::Bool(first != second))
        } else {
            None
        }
    } else if arguments.len() == 2 && arguments[0] is Bool && arguments[1] is Bool {
        let first = arguments[0]->Bool_0;
        let second = arguments[1]->Bool_0;
        if name == "Bool.EqualTo"@ {
            Some(YarnValueView::Bool(first == second))
        } else if name == "Bool.NotEqualTo"@ {
            Some(YarnValueView::Bool(first != second))
        } else if name == "Bool.And"@ {
            Some(YarnValueView::Bool(first && second))
        } else if name == "Bool.Or"@ {
            Some(YarnValueView::Bool(first || second))
        } else if name == "Bool.Xor"@ {
            Some(YarnValueView::Bool(first != second))
        } else {
            None
        }
    } else if arguments.len() == 1 && arguments[0] is Bool && name == "Bool.Not"@ {
        Some(YarnValueView::Bool(!arguments[0]->Bool_0))
    } else if arguments.len() == 1 && name == "bool"@ {
        match arguments[0].as_bool() {
            Some(truth) => Some(YarnValueView::Bool(truth)),
            None => None,
        }
    } else {
        None
    }
}

/// The type of what [`operator_result`] gives for a function, if it gives
/// anything for it.
pub open spec fn operator_type(name: Seq<char>) -> Option<TypeView> {
    if name == "String.Add"@ {
        Some(TypeView::String)
    } else if name == "String.EqualTo"@ || name == "String.NotEqualTo"@ || name
        == "Bool.EqualTo"@ || name == "Bool.NotEqualTo"@ || name == "Bool.And"@ || name
        == "Bool.Or"@ || name == "Bool.Xor"@ || name == "Bool.Not"@ || name == "bool"@ {
        Some(TypeView::Bool)
    } else {
        None
    }
}

/// What an operator gives is of the type of the operator.
pub proof fn lemma_operator_type(name: Seq<char>, arguments: Seq<YarnValueView>)
    ensures
        match operator_result(name, arguments) {
            Some(value) => operator_type(name) == Some(value.type_of()),
            None => true,
        },
{
    reveal_strlit("String.Add");
    reveal_strlit("String.EqualTo");
    reveal_strlit("String.NotEqualTo");
    reveal_strlit("Bool.EqualTo");
    reveal_strlit("Bool.NotEqualTo");
    reveal_strlit("Bool.And");
    reveal_strlit("Bool.Or");
    reveal_strlit("Bool.Xor");
    reveal_strlit("Bool.Not");
    reveal_strlit("bool");
    assert("String.Add"@.len() == 10);
    assert("String.EqualTo"@.len() == 14);
    assert("String.NotEqualTo"@.len() == 17);
    assert("Bool.EqualTo"@.len() == 12);
    assert("Bool.NotEqualTo"@.len() == 15);
    assert("Bool.And"@.len() == 8);
    assert("Bool.Or"@.len() == 7);
    assert("Bool.Xor"@.len() == 8);
    assert("Bool.Not"@.len() == 8);
    assert("bool"@.len() == 4);
}

/// What an operator on strings or truth values makes of its arguments,
/// and what the conversion `bool` makes of a value.
pub fn builtin_operator(name: &str, arguments: &Vec<YarnValue>) -> (answer: Option<YarnValue>)
    ensures
        answer.deep_view() == operator_result(name@, arguments.deep_view()),
{
    proof {
        if arguments.len() > 0 {
            assert(arguments.deep_view()[0] == arguments[0]@);
        }
        if arguments.len() > 1 {
            assert(arguments.deep_view()[1] == arguments[1]@);
        }
    }
    if arguments.len() == 2 {
        match (&arguments[0], &arguments[1]) {
            (YarnValue::String(first), YarnValue::String(second)) => {
                if str_eq(name, "String.Add") {
                    let mut joined = first.clone();
                    joined.append(second.as_str());
                    Some(YarnValue::String(joined))
                } else if str_eq(name, "String.EqualTo") {
                    Some(YarnValue::Bool(str_eq(first.as_str(), second.as_str())))
                } else if str_eq(name, "String.NotEqualTo") {
                    Some(YarnValue::Bool(!str_eq(first.as_str(), second.as_str())))
                } else {
                    None
                }
            },
            (YarnValue::Bool(first), YarnValue::Bool(second)) => {
                if str_eq(name, "Bool.EqualTo") {
                    Some(YarnValue::Bool(*first == *second))
                } else if str_eq(name, "Bool.NotEqualTo") {
                    Some(YarnValue::Bool(*first != *second))
                } else if str_eq(name, "Bool.And") {
                    Some(YarnValue::Bool(*first && *second))
                } else if str_eq(name, "Bool.Or") {
                    Some(YarnValue::Bool(*first || *second))
                } else if str_eq(name, "Bool.Xor") {
                    Some(YarnValue::Bool(*first != *second))
                } else {
                    None
                }
            },
            _ => None,
        }
    } else if arguments.len() == 1 {
        match &arguments[0] {
            YarnValue::Bool(truth) => {
                if str_eq(name, "Bool.Not") {
                    Some(YarnValue::Bool(!*truth))
                } else if str_eq(name, "bool") {
                    Some(YarnValue::Bool(*truth))
                } else {
                    None
                }
            },
            value => {
                if str_eq(name, "bool") {
                    match value.as_bool() {
                        Some(truth) => Some(YarnValue::Bool(truth)),
                        None => None,
                    }
                } else {
                    None
                }
            },
        }
    } else {
        None
    }
}

} // verus!
