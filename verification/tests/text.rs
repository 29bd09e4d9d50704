use ec2_rs::ec2_utils::to_safe;
use ec2_rs::text::{
    clone_texts, concat_text, join_commas, same_text, split_commas, to_ascii_lower,
};

#[test]
fn to_safe_keeps_letters_digits_and_hyphens() {
    assert_eq!(to_safe("abc-XYZ-019"), "abc-XYZ-019");
}

#[test]
fn to_safe_replaces_everything_else() {
    assert_eq!(to_safe("type_m3.medium"), "type_m3_medium");
    assert_eq!(to_safe("Cost Center"), "Cost_Center");
    assert_eq!(to_safe("a=b/c:d"), "a_b_c_d");
    assert_eq!(to_safe("_"), "_");
}

#[test]
fn to_safe_replaces_each_character_by_one() {
    assert_eq!(to_safe("h\u{e9}llo \u{4e16}\u{754c}"), "h_llo___");
    assert_eq!(to_safe("a\nb"), "a_b");
}

#[test]
fn to_safe_of_nothing_is_nothing() {
    assert_eq!(to_safe(""), "");
}

#[test]
fn ascii_lower_touches_only_ascii_capitals() {
    assert_eq!(to_ascii_lower("EC2_Tag_Role-9"), "ec2_tag_role-9");
    assert_eq!(to_ascii_lower("\u{c9}T\u{c9}"), "\u{c9}t\u{c9}");
    assert_eq!(to_ascii_lower("AZ@[`{az"), "az@[`{az");
}

#[test]
fn split_commas_gives_every_piece() {
    assert_eq!(split_commas("a,b,c"), vec!["a", "b", "c"]);
    assert_eq!(split_commas("one"), vec!["one"]);
}

#[test]
fn split_commas_keeps_empty_pieces() {
    assert_eq!(split_commas(""), vec![""]);
    assert_eq!(split_commas(","), vec!["", ""]);
    assert_eq!(split_commas("a,,b,"), vec!["a", "", "b", ""]);
}

#[test]
fn split_commas_agrees_with_str_split() {
    for text in ["", "x", ",x", "x,", "a,b", ",,", "i-1,i-2,i-3"] {
        let expected: Vec<String> = text.split(',').map(|piece| piece.to_owned()).collect();
        assert_eq!(split_commas(text), expected);
    }
}

#[test]
fn join_commas_puts_commas_between() {
    assert_eq!(join_commas(&vec!["sg-1".to_owned(), "sg-2".to_owned()]), "sg-1,sg-2");
    assert_eq!(join_commas(&vec!["only".to_owned()]), "only");
    assert_eq!(join_commas(&Vec::new()), "");
    assert_eq!(join_commas(&vec!["".to_owned(), "".to_owned()]), ",");
}

#[test]
fn join_undoes_split() {
    for text in ["", "x", ",x", "x,", "a,b", ",,", "default,web"] {
        assert_eq!(join_commas(&split_commas(text)), text);
    }
}

#[test]
fn same_text_compares_characters() {
    assert!(same_text("Flags", "Flags"));
    assert!(!same_text("Flags", "flags"));
    assert!(!same_text("Flags", "Flag"));
    assert!(!same_text("", "x"));
    assert!(same_text("", ""));
    assert!(same_text("\u{e9}", "\u{e9}"));
    assert!(!same_text("\u{e9}", "\u{e8}"));
}

#[test]
fn concat_text_appends() {
    assert_eq!(concat_text("ec2_tag_", "Role"), "ec2_tag_Role");
    assert_eq!(concat_text("", ""), "");
}

#[test]
fn clone_texts_copies_in_order() {
    let texts = vec!["b".to_owned(), "a".to_owned()];
    assert_eq!(clone_texts(&texts), texts);
}

const SAMPLES: [&str; 12] = [
    "",
    "Role",
    "Cost Center",
    "aws:cloudformation:stack-name",
    "type_m3.medium",
    "tag_Role=Web",
    "a\nb\tc\r\n",
    "h\u{e9}llo w\u{f6}rld",
    "\u{4e16}\u{754c}-9",
    "\u{1f600}x\u{1f600}",
    "__--__",
    "\u{130}STANBUL \u{3a3}\u{391}\u{3a3}",
];

#[test]
fn to_safe_agrees_with_the_negated_character_class() {
    let unsafe_characters = regex::Regex::new("[^A-Za-z0-9-]").unwrap();
    for text in SAMPLES {
        assert_eq!(to_safe(text), unsafe_characters.replace_all(text, "_").into_owned());
    }
}

#[test]
fn on_safe_text_ascii_lowercase_is_lowercase() {
    for text in SAMPLES {
        let safe = to_safe(text);
        assert_eq!(to_ascii_lower(&safe), safe.to_lowercase());
    }
}
