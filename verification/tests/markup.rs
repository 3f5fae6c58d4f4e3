use yarn_slinger::runtime::localized_line::LocalizedLine;
use yarn_slinger::runtime::markup::{
    parse_markup, MarkupAttribute, MarkupProperty, PluralCase, PluralRequest,
};

fn attribute(name: &str, position: usize, length: usize, properties: &[(&str, &str)]) -> MarkupAttribute {
    MarkupAttribute {
        name: name.to_owned(),
        position,
        length,
        properties: properties
            .iter()
            .map(|(name, value)| MarkupProperty { name: name.to_string(), value: value.to_string() })
            .collect(),
    }
}

/// The text and the attributes of a text without plural markers.
fn read(text: &str) -> (String, Vec<MarkupAttribute>) {
    let markup = parse_markup(text, &Vec::new());
    assert_eq!(markup.requests, Vec::new());
    (markup.text, markup.attributes)
}

#[test]
fn text_without_markup_stays_as_it_is() {
    assert_eq!(read("Hello there"), ("Hello there".to_owned(), vec![]));
    assert_eq!(read(""), (String::new(), vec![]));
}

#[test]
fn tags_span_the_text_between_them() {
    assert_eq!(
        read("[b]bold[/b] plain"),
        ("bold plain".to_owned(), vec![attribute("b", 0, 4, &[])])
    );
    assert_eq!(
        read("a [wave size=2 style=\"big one\"]b[/wave]"),
        ("a b".to_owned(), vec![attribute("wave", 2, 1, &[("size", "2"), ("style", "big one")])])
    );
    assert_eq!(
        read("[ b ]x[/ b ]"),
        ("x".to_owned(), vec![attribute("b", 0, 1, &[])])
    );
}

#[test]
fn a_name_with_a_value_is_a_property_of_its_own() {
    assert_eq!(
        read("[color=red]x[/color]"),
        ("x".to_owned(), vec![attribute("color", 0, 1, &[("color", "red")])])
    );
    assert_eq!(
        read("[a flag b=\"\" c=]x"),
        ("x".to_owned(), vec![attribute("a", 0, 1, &[("flag", "true"), ("b", ""), ("c", "")])])
    );
}

#[test]
fn tags_that_close_themselves_span_nothing() {
    assert_eq!(read("x[br/]y"), ("xy".to_owned(), vec![attribute("br", 1, 0, &[])]));
    assert_eq!(
        read("x[img src=a.png /]y"),
        ("xy".to_owned(), vec![attribute("img", 1, 0, &[("src", "a.png")])])
    );
}

#[test]
fn tags_are_closed_by_name_all_at_once_or_at_the_end() {
    assert_eq!(
        read("[a]x[b]y[/a]z[/b]"),
        ("xyz".to_owned(), vec![attribute("a", 0, 2, &[]), attribute("b", 1, 2, &[])])
    );
    assert_eq!(
        read("[a][b]x[/]y"),
        ("xy".to_owned(), vec![attribute("a", 0, 1, &[]), attribute("b", 0, 1, &[])])
    );
    assert_eq!(read("[a]xy"), ("xy".to_owned(), vec![attribute("a", 0, 2, &[])]));
    assert_eq!(
        read("[a]x[a]y[/a]z"),
        ("xyz".to_owned(), vec![attribute("a", 0, 3, &[]), attribute("a", 1, 1, &[])])
    );
    assert_eq!(read("x[/q]y"), ("xy".to_owned(), vec![]));
}

#[test]
fn brackets_that_are_no_tags_are_text() {
    assert_eq!(read("\\[not a tag\\]"), ("[not a tag]".to_owned(), vec![]));
    assert_eq!(read("a [b"), ("a [b".to_owned(), vec![]));
    assert_eq!(read("[]"), ("[]".to_owned(), vec![]));
    assert_eq!(read("[=x]"), ("[=x]".to_owned(), vec![]));
    assert_eq!(read("a \\ b ]"), ("a \\ b ]".to_owned(), vec![]));
    assert_eq!(read("[a \"]\"]x"), ("x".to_owned(), vec![attribute("a", 0, 1, &[("\"]\"", "true")])]));
}

#[test]
fn the_speaker_is_an_attribute() {
    assert_eq!(
        read("Hag: Hello"),
        ("Hag: Hello".to_owned(), vec![attribute("character", 0, 5, &[("name", "Hag")])])
    );
    assert_eq!(
        read("Hag:\t [b]Boo[/b]: so"),
        (
            "Hag:\t Boo: so".to_owned(),
            vec![attribute("b", 6, 3, &[]), attribute("character", 0, 6, &[("name", "Hag")])]
        )
    );
    assert_eq!(read("abc:"), ("abc:".to_owned(), vec![attribute("character", 0, 4, &[("name", "abc")])]));
    assert_eq!(read(": x"), (": x".to_owned(), vec![]));
    assert_eq!(
        read("[character name=Bob/]Rob: hi"),
        ("Rob: hi".to_owned(), vec![attribute("character", 0, 0, &[("name", "Bob")])])
    );
}

#[test]
fn select_takes_the_text_of_its_value() {
    let (text, attributes) = read("[select value=f m=\"he\" f=\"she\"/] ran");
    assert_eq!(text, "she ran");
    assert_eq!(attributes, vec![]);
    assert_eq!(read("[select value=x m=he f=she/]!").0, "!");
    assert_eq!(read("[select value=m m=\"% is he\"/]").0, "m is he");
    assert_eq!(read("[select m=he]").0, "");
}

#[test]
fn plural_and_ordinal_take_the_text_of_the_case() {
    let text = "[plural value=3 one=\"% apple\" other=\"% apples\"/], the [ordinal value=2 two=\"%nd\" other=\"%th\"/]";
    let wanted = vec![
        PluralRequest { ordinal: false, value: "3".to_owned() },
        PluralRequest { ordinal: true, value: "2".to_owned() },
    ];
    let markup = parse_markup(text, &Vec::new());
    assert_eq!(markup.text, "3 apples, the 2th");
    assert_eq!(markup.requests, wanted);
    let markup = parse_markup(text, &vec![PluralCase::One, PluralCase::Two]);
    assert_eq!(markup.text, "3 apple, the 2nd");
    assert_eq!(markup.requests, wanted);
    assert_eq!(markup.attributes, vec![]);
    let markup = parse_markup(text, &vec![PluralCase::Few]);
    assert_eq!(markup.text, ", the 2th");
}

#[test]
fn attributes_behind_a_marker_start_behind_its_text() {
    let markup = parse_markup(
        "[plural value=1 one=\"a cat\" other=\"% cats\"/] [b]sat[/b]",
        &vec![PluralCase::One],
    );
    assert_eq!(markup.text, "a cat sat");
    assert_eq!(markup.attributes, vec![attribute("b", 6, 3, &[])]);
}

#[test]
fn cases_have_their_names() {
    let names: Vec<&str> = [
        PluralCase::Zero,
        PluralCase::One,
        PluralCase::Two,
        PluralCase::Few,
        PluralCase::Many,
        PluralCase::Other,
    ]
    .iter()
    .map(|case| case.name())
    .collect();
    assert_eq!(names, vec!["zero", "one", "two", "few", "many", "other"]);
}

#[test]
fn line_knows_its_speaker() {
    let line = LocalizedLine::new(
        "line:1".to_owned(),
        "Hag: [b]Boo[/b]",
        vec!["lastline".to_owned()],
        &Vec::new(),
    );
    assert_eq!(line.id, "line:1");
    assert_eq!(line.text, "Hag: Boo");
    assert_eq!(line.character_name(), Some("Hag"));
    assert_eq!(line.text_without_character_name(), "Boo");
    assert!(line.is_last_line_before_options());

    let line = LocalizedLine::new("line:2".to_owned(), "Boo", vec!["line:2".to_owned()], &Vec::new());
    assert_eq!(line.character_name(), None);
    assert_eq!(line.text_without_character_name(), "Boo");
    assert!(!line.is_last_line_before_options());
}

#[test]
fn speaker_is_cut_out_where_its_attribute_lies() {
    let line = LocalizedLine {
        id: "line:1".to_owned(),
        text: "Well, Hag: no".to_owned(),
        attributes: vec![
            attribute("b", 0, 4, &[]),
            attribute("character", 6, 5, &[("name", "Hag")]),
            attribute("character", 0, 1, &[("name", "Bob")]),
        ],
        metadata: Vec::new(),
    };
    assert_eq!(line.character_name(), Some("Hag"));
    assert_eq!(line.text_without_character_name(), "Well, no");
    let outside = LocalizedLine {
        attributes: vec![attribute("character", 10, 5, &[])],
        ..line.clone()
    };
    assert_eq!(outside.character_name(), None);
    assert_eq!(outside.text_without_character_name(), "Well, Hag: no");
}
