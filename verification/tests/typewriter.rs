use yarn_slinger::runtime::localized_line::LocalizedLine;
use yarn_slinger::typewriter::{has_just_finished, join, Typewriter, Writing, Written};

fn line(text: &str) -> LocalizedLine {
    LocalizedLine::new("line:1".to_owned(), text, Vec::new(), &Vec::new())
}

#[test]
fn new_typewriter_is_empty_and_unfinished() {
    let typewriter = Typewriter::default();
    assert_eq!(typewriter.character_name, None);
    assert_eq!(typewriter.current_text, "");
    assert!(typewriter.graphemes_left.is_empty());
    assert!(!typewriter.last_before_options);
    assert!(!typewriter.is_finished());
    assert_eq!(typewriter.graphemes_per_second(), 40);
}

#[test]
fn line_is_cut_into_grapheme_clusters() {
    let mut typewriter = Typewriter::default();
    typewriter.set_line(&LocalizedLine::new(
        "line:1".to_owned(),
        "Hag: a\u{310}e\u{301}o\u{308}\u{332}",
        vec!["lastline".to_owned()],
        &Vec::new(),
    ));
    assert_eq!(typewriter.character_name, Some("Hag".to_owned()));
    assert_eq!(typewriter.current_text, "");
    assert_eq!(
        typewriter.graphemes_left,
        vec!["a\u{310}", "e\u{301}", "o\u{308}\u{332}"]
    );
    assert!(typewriter.last_before_options);
    assert!(!typewriter.is_finished());

    typewriter.set_line(&line("a\r\nb🇷🇺🇸🇹"));
    assert_eq!(typewriter.graphemes_left, vec!["a", "\r\n", "b", "🇷🇺", "🇸🇹"]);
    assert_eq!(typewriter.character_name, None);
}

#[test]
fn text_is_shown_cluster_by_cluster() {
    let mut typewriter = Typewriter::default();
    typewriter.set_line(&line("Funny"));
    assert_eq!(typewriter.update_current_text(0), 0);
    assert_eq!(typewriter.current_text, "");
    assert_eq!(typewriter.update_current_text(2), 2);
    assert_eq!(typewriter.current_text, "Fu");
    assert_eq!(typewriter.graphemes_left, vec!["n", "n", "y"]);
    assert!(!typewriter.is_finished());
    // No more is shown than is left.
    assert_eq!(typewriter.update_current_text(10), 3);
    assert_eq!(typewriter.current_text, "Funny");
    assert!(typewriter.graphemes_left.is_empty());
    assert!(typewriter.is_finished());
    // A finished typewriter shows nothing more.
    assert_eq!(typewriter.update_current_text(10), 0);
    assert_eq!(typewriter.current_text, "Funny");
}

#[test]
fn taking_up_a_line_starts_over() {
    let mut typewriter = Typewriter::default();
    typewriter.set_line(&line("one"));
    typewriter.fast_forward();
    typewriter.update_current_text(3);
    assert!(typewriter.is_finished());
    assert_eq!(typewriter.graphemes_per_second(), 120);
    typewriter.set_line(&line("two"));
    assert!(!typewriter.is_finished());
    assert_eq!(typewriter.current_text, "");
    assert_eq!(typewriter.graphemes_per_second(), 40);
}

#[test]
fn empty_line_never_finishes() {
    let mut typewriter = Typewriter::default();
    typewriter.set_line(&line(""));
    assert!(typewriter.graphemes_left.is_empty());
    assert_eq!(typewriter.update_current_text(5), 0);
    assert!(!typewriter.is_finished());
}

#[test]
fn view_is_told_what_to_do_with_the_text() {
    let mut typewriter = Typewriter::default();
    typewriter.set_line(&LocalizedLine::new(
        "line:1".to_owned(),
        "Hag: Boo",
        vec!["lastline".to_owned()],
        &Vec::new(),
    ));
    assert_eq!(typewriter.writing(false), Writing::Clear);
    assert_eq!(typewriter.writing(true), Writing::Type { show_dialogue: false });
    assert!(!typewriter.shows_continue());
    assert_eq!(
        typewriter.written(),
        Written { silent_speaker: None, shown: String::new(), rest: "Boo".to_owned() }
    );
    assert_eq!(typewriter.update_current_text(2), 2);
    assert_eq!(
        typewriter.written(),
        Written { silent_speaker: None, shown: "Bo".to_owned(), rest: "o".to_owned() }
    );
    assert_eq!(typewriter.update_current_text(5), 1);
    assert_eq!(typewriter.writing(true), Writing::Rest);
    assert_eq!(typewriter.writing(false), Writing::Clear);
    assert_eq!(
        typewriter.written(),
        Written {
            silent_speaker: Some("Hag".to_owned()),
            shown: "Boo".to_owned(),
            rest: String::new()
        }
    );

    typewriter.set_line(&line("Boo"));
    assert_eq!(typewriter.writing(false), Writing::Type { show_dialogue: true });
    assert_eq!(typewriter.writing(true), Writing::Type { show_dialogue: true });
    assert!(typewriter.shows_continue());
    assert_eq!(typewriter.update_current_text(3), 3);
    assert_eq!(typewriter.writing(false), Writing::Rest);
    assert_eq!(typewriter.written().silent_speaker, None);
}

#[test]
fn typewriter_says_once_that_it_has_finished() {
    assert!(has_just_finished(true, false));
    assert!(!has_just_finished(true, true));
    assert!(!has_just_finished(false, false));
    assert!(!has_just_finished(false, true));
}

#[test]
fn strings_are_joined_in_their_order() {
    assert_eq!(join(&vec!["a\u{310}".to_owned(), String::new(), "bc".to_owned()]), "a\u{310}bc");
    assert_eq!(join(&Vec::new()), "");
}
