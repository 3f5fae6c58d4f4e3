use yarn_slinger::compiler::declaration::{
    column_of_last,
    Declaration, DeclarationSource, Position, RangeSource, TokenSpan,
};
use yarn_slinger::compiler::token::{Channel, Token, TokenKind};
use yarn_slinger::types::{
    bool_type_properties, number_type_properties, string_type_properties, Method, Operator, Type,
};
use yarn_slinger::value::{Number, YarnValue};

fn number(value: f32) -> YarnValue {
    YarnValue::Number(Number::from_bits(value.to_bits()))
}

fn position(line: usize, character: usize) -> Position {
    Position { line, character }
}

#[test]
fn declaration_source_defaults_to_external() {
    assert_eq!(DeclarationSource::default(), DeclarationSource::External);
    assert_eq!(DeclarationSource::External.to_string(), "(External)");
}

#[test]
fn declaration_source_from_file_name() {
    let source = DeclarationSource::from("story.yarn".to_owned());
    assert_eq!(source, DeclarationSource::File("story.yarn".to_owned()));
    assert_eq!(source.to_string(), "story.yarn");
    assert_ne!(source, DeclarationSource::File("other.yarn".to_owned()));
    assert_ne!(source, DeclarationSource::External);
}

#[test]
fn default_declaration_is_empty() {
    let declaration = Declaration::default();
    assert_eq!(declaration.name, "");
    assert_eq!(declaration.default_value, None);
    assert_eq!(declaration.description, None);
    assert_eq!(declaration.source_file_name, DeclarationSource::External);
    assert_eq!(declaration.source_node_name, None);
    assert!(!declaration.is_implicit);
    assert_eq!(declaration.ty, None);
    assert_eq!(declaration.range, None);
    assert_eq!(declaration.source_file_line(), None);
}

#[test]
fn builders_set_their_field_and_no_other() {
    let declaration = Declaration::default()
        .with_name("$x".to_owned())
        .with_type(Some(Type::Number))
        .with_default_value(number(3.0))
        .with_description("a counter".to_owned())
        .with_source_file_name(DeclarationSource::File("story.yarn".to_owned()))
        .with_source_node_name("Start".to_owned())
        .with_implicit()
        .with_range(position(4, 10)..=position(4, 12));
    assert_eq!(declaration.name, "$x");
    assert_eq!(declaration.ty, Some(Type::Number));
    assert_eq!(declaration.default_value, Some(number(3.0)));
    assert_eq!(declaration.description, Some("a counter".to_owned()));
    assert_eq!(
        declaration.source_file_name,
        DeclarationSource::File("story.yarn".to_owned())
    );
    assert_eq!(declaration.source_node_name, Some("Start".to_owned()));
    assert!(declaration.is_implicit);
    assert_eq!(declaration.range, Some(position(4, 10)..=position(4, 12)));
    assert_eq!(declaration.source_file_line(), Some(4));

    let cleared = declaration
        .clone()
        .with_description_optional(None)
        .with_source_node_name_optional(None)
        .with_type(None);
    assert_eq!(cleared.description, None);
    assert_eq!(cleared.source_node_name, None);
    assert_eq!(cleared.ty, None);
    assert_eq!(cleared.name, declaration.name);
    assert_eq!(cleared.default_value, declaration.default_value);
}

#[test]
fn declarations_agree_field_by_field() {
    let a = Declaration::default()
        .with_name("$x".to_owned())
        .with_type(Some(Type::Number))
        .with_default_value(number(3.0))
        .with_range(position(1, 2)..=position(1, 4));
    assert!(a.eq(&a.clone(), true));
    assert!(!a.eq(&a.clone().with_name("$y".to_owned()), true));
    assert!(!a.eq(&a.clone().with_description("x".to_owned()), true));
    assert!(!a.eq(
        &a.clone().with_source_file_name(DeclarationSource::File("f".to_owned())),
        true
    ));
    assert!(!a.eq(&a.clone().with_source_node_name("n".to_owned()), true));
    assert!(!a.eq(&a.clone().with_implicit(), true));
    assert!(!a.eq(&a.clone().with_type(Some(Type::String)), true));
    assert!(!a.eq(&a.clone().with_type(None), true));
    assert!(!a.eq(&a.clone().with_range(position(1, 2)..=position(1, 5)), true));
}

#[test]
fn numeric_defaults_agree_when_the_caller_finds_them_close() {
    let a = Declaration::default().with_default_value(number(3.0));
    let b = Declaration::default().with_default_value(number(3.0001));
    let epsilon = 0.001_f32;
    let close = (3.0_f32 - 3.0001_f32).abs() < epsilon;
    assert!(close);
    assert!(a.eq(&b, close));
    assert!(!a.eq(&b, false));
    // The verdict is read for two numbers only.
    let text = Declaration::default().with_default_value(YarnValue::String("3".to_owned()));
    assert!(text.eq(&text.clone(), false));
    assert!(!a.eq(&text, true));
    assert!(!a.eq(&Declaration::default(), true));
    assert!(Declaration::default().eq(&Declaration::default(), false));
}

fn token_at(line: usize, character: usize, text: &str) -> Token {
    Token {
        kind: TokenKind::Text,
        text: text.to_owned(),
        channel: Channel::Default,
        start: position(line, character),
        stop: position(line, character + text.len()),
    }
}

#[test]
fn range_of_a_span_of_tokens() {
    let span = TokenSpan {
        first: token_at(3, 10, "$x"),
        last: token_at(3, 15, "1"),
        text: "$x = 1".to_owned(),
    };
    let range = span.range();
    assert_eq!(*range.start(), position(3, 10));
    assert_eq!(*range.end(), position(3, 15));
}

#[test]
fn range_is_zero_indexed_and_includes_both_ends() {
    let span = TokenSpan {
        first: token_at(0, 0, "$x"),
        last: token_at(0, 0, "$x"),
        text: "$x".to_owned(),
    };
    assert_eq!(span.range(), position(0, 0)..=position(0, 1));
    let empty = TokenSpan {
        first: token_at(2, 7, ""),
        last: token_at(2, 7, ""),
        text: String::new(),
    };
    assert_eq!(empty.range(), position(2, 7)..=position(2, 7));
}

#[test]
fn range_ends_on_the_last_line() {
    let span = TokenSpan {
        first: token_at(0, 0, "a"),
        last: token_at(1, 0, "b"),
        text: "a\nb".to_owned(),
    };
    assert_eq!(span.range(), position(0, 0)..=position(1, 0));
    let span = TokenSpan {
        first: token_at(4, 6, "if"),
        last: token_at(6, 4, "endif"),
        text: "if $a\r\n  x\n  <<endif".to_owned(),
    };
    assert_eq!(span.range(), position(4, 6)..=position(6, 8));
    assert_eq!(column_of_last(3, "ab\n"), 5);
    assert_eq!(column_of_last(3, "ab\n\n"), 0);
}

#[test]
fn range_counts_characters() {
    let span = TokenSpan {
        first: token_at(0, 0, "é"),
        last: token_at(0, 0, "é"),
        text: "é".to_owned(),
    };
    assert_eq!(span.range(), position(0, 0)..=position(0, 0));
    let span = TokenSpan {
        first: token_at(1, 2, "héé"),
        last: token_at(1, 2, "héé"),
        text: "héé".to_owned(),
    };
    assert_eq!(span.range(), position(1, 2)..=position(1, 4));
}

#[test]
fn number_has_its_twelve_operators() {
    let properties = number_type_properties();
    assert_eq!(properties.name, "Number");
    let operators: Vec<Operator> = properties.methods.iter().map(|m| m.operator).collect();
    assert_eq!(
        operators,
        vec![
            Operator::EqualTo,
            Operator::NotEqualTo,
            Operator::Add,
            Operator::Subtract,
            Operator::Multiply,
            Operator::Divide,
            Operator::Modulo,
            Operator::UnarySubtract,
            Operator::GreaterThan,
            Operator::GreaterThanOrEqualTo,
            Operator::LessThan,
            Operator::LessThanOrEqualTo,
        ]
    );
    assert_eq!(
        properties.methods[0],
        Method::binary(Operator::EqualTo, Type::Number, Type::Bool)
    );
    assert_eq!(
        properties.methods[2].signature,
        Type::Function {
            parameters: vec![Type::Number, Type::Number],
            return_type: Box::new(Type::Number),
        }
    );
    assert_eq!(
        properties.methods[7].signature,
        Type::Function { parameters: vec![Type::Number], return_type: Box::new(Type::Number) }
    );
    assert_eq!(
        properties.methods[11].signature,
        Type::Function {
            parameters: vec![Type::Number, Type::Number],
            return_type: Box::new(Type::Bool),
        }
    );
}

#[test]
fn strings_and_truth_values_have_their_operators() {
    let strings = string_type_properties();
    assert_eq!(strings.name, "String");
    assert_eq!(strings.methods.len(), 3);
    assert_eq!(
        strings.methods[2],
        Method::binary(Operator::Add, Type::String, Type::String)
    );
    let truths = bool_type_properties();
    assert_eq!(truths.name, "Bool");
    assert_eq!(truths.methods.len(), 6);
    assert_eq!(truths.methods[5], Method::unary(Operator::Not, Type::Bool, Type::Bool));
    assert_eq!(Operator::GreaterThanOrEqualTo.name(), "GreaterThanOrEqualTo");
}

#[test]
fn equality_of_types_is_structural() {
    let function = |parameters: Vec<Type>, result: Type| Type::Function {
        parameters,
        return_type: Box::new(result),
    };
    let a = function(vec![Type::Number, function(vec![], Type::Bool)], Type::String);
    assert!(a.same_as(&a.duplicate()));
    assert_eq!(a, a.clone());
    assert!(!a.same_as(&function(vec![Type::Number], Type::String)));
    assert!(!a.same_as(&function(
        vec![Type::Number, function(vec![], Type::Number)],
        Type::String
    )));
    assert!(!a.same_as(&function(
        vec![Type::Number, function(vec![], Type::Bool)],
        Type::Any
    )));
    assert!(!Type::Any.same_as(&Type::Undefined));
    assert!(Type::Undefined.same_as(&Type::Undefined));
}

#[test]
fn numbers_are_tested_against_zero_as_floats_are() {
    let samples = [
        0.0_f32,
        -0.0,
        1.0,
        -1.0,
        f32::MIN_POSITIVE,
        1.0e-45,
        -1.0e-45,
        f32::MAX,
        f32::MIN,
        f32::INFINITY,
        f32::NEG_INFINITY,
        f32::NAN,
        -f32::NAN,
        3.5,
    ];
    for sample in samples {
        let number = Number::from_bits(sample.to_bits());
        assert_eq!(number.is_positive(), sample > 0.0, "{sample}");
        assert_eq!(number.is_zero(), sample == 0.0, "{sample}");
        assert_eq!(number.to_bits(), sample.to_bits());
    }
    assert_eq!(Number::zero().to_bits(), 0.0_f32.to_bits());
}

#[test]
fn values_convert_to_truth_values() {
    assert_eq!(YarnValue::Bool(true).as_bool(), Some(true));
    assert_eq!(YarnValue::Bool(false).as_bool(), Some(false));
    assert_eq!(number(0.0).as_bool(), Some(false));
    assert_eq!(number(-0.0).as_bool(), Some(false));
    assert_eq!(number(2.0).as_bool(), Some(true));
    assert_eq!(number(f32::NAN).as_bool(), Some(true));
    assert_eq!(YarnValue::String("true".to_owned()).as_bool(), Some(true));
    assert_eq!(YarnValue::String("false".to_owned()).as_bool(), Some(false));
    assert_eq!(YarnValue::String("True".to_owned()).as_bool(), None);
    assert_eq!(YarnValue::String(String::new()).as_bool(), None);
    assert_eq!(number(1.0).type_of(), Type::Number);
    assert_eq!(YarnValue::String("x".to_owned()).type_of(), Type::String);
    assert_eq!(YarnValue::Bool(true).type_of(), Type::Bool);
    assert_eq!(YarnValue::String("x".to_owned()).as_string(), Some(&"x".to_owned()));
    assert_eq!(number(1.0).as_string(), None);
}

#[test]
fn source_is_the_file_of_a_name() {
    assert_eq!(DeclarationSource::from("a.yarn"), DeclarationSource::File("a.yarn".to_owned()));
    assert_eq!(
        DeclarationSource::from("a.yarn".to_owned()),
        DeclarationSource::File("a.yarn".to_owned())
    );
    assert_eq!(DeclarationSource::from("").to_string(), "");
}
