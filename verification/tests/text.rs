use handrolled::split::until_char;
use handrolled::split::StrSplit;
use handrolled::tokens::strtok;

#[test]
fn until_char_test() {
    assert_eq!(until_char("Hello world", 'o'), "Hell");
}

#[test]
fn it_works() {
    let s = "a,b,c,d,e";
    let letters = StrSplit::new(s, ",").collect();
    println!("{:?}", letters);
    assert_eq!(letters, vec!["a", "b", "c", "d", "e"]);
}

#[test]
fn it_works2() {
    let s = "a,b,c,d,e,";
    let letters = StrSplit::new(s, ",").collect();
    println!("{:?}", letters);
    assert_eq!(letters, vec!["a", "b", "c", "d", "e", ""]);
}

#[test]
fn strtok_works() {
    let mut s = "hello world";
    let hello = strtok(&mut s, ' ');
    assert_eq!(hello, "hello");
    assert_eq!(s, "world");
}

#[test]
fn until_char_without_the_char_gives_all() {
    assert_eq!(until_char("Hello world", 'z'), "Hello world");
    assert_eq!(until_char("", 'z'), "");
    assert_eq!(until_char("zebra", 'z'), "");
}

#[test]
fn next_gives_piece_after_piece() {
    let mut split = StrSplit::new("one--two--", "--");
    assert_eq!(split.next(), Some("one"));
    assert_eq!(split.next(), Some("two"));
    assert_eq!(split.next(), Some(""));
    assert_eq!(split.next(), None);
    assert_eq!(split.next(), None);
}

#[test]
fn text_without_delimiter_is_one_piece() {
    assert_eq!(StrSplit::new("abc", ",").collect(), vec!["abc"]);
    assert_eq!(StrSplit::new("", ",").collect(), vec![""]);
}

#[test]
fn delimiters_side_by_side_give_empty_pieces() {
    assert_eq!(StrSplit::new(",,a,", ",").collect(), vec!["", "", "a", ""]);
}

#[test]
fn longer_delimiter_and_overlap() {
    // the first occurrence counts: "aaa" holds "aa" at 0 and at 1
    assert_eq!(StrSplit::new("aaa", "aa").collect(), vec!["", "a"]);
    assert_eq!(StrSplit::new("xabyabz", "ab").collect(), vec!["x", "y", "z"]);
}

#[test]
fn splits_text_beyond_ascii() {
    assert_eq!(StrSplit::new("grün→blau→rot", "→").collect(), vec!["grün", "blau", "rot"]);
    assert_eq!(until_char("naïve", 'ï'), "na");
}

#[test]
fn empty_delimiter_stands_before_everything() {
    let mut split = StrSplit::new("ab", "");
    assert_eq!(split.next(), Some(""));
    assert_eq!(split.next(), Some(""));
}

#[test]
fn strtok_token_by_token() {
    let mut s = "a b  c";
    assert_eq!(strtok(&mut s, ' '), "a");
    assert_eq!(s, "b  c");
    assert_eq!(strtok(&mut s, ' '), "b");
    assert_eq!(s, " c");
    assert_eq!(strtok(&mut s, ' '), "");
    assert_eq!(s, "c");
    assert_eq!(strtok(&mut s, ' '), "c");
    assert_eq!(s, "");
    assert_eq!(strtok(&mut s, ' '), "");
    assert_eq!(s, "");
}

#[test]
fn strtok_with_a_wide_delimiter() {
    let mut s = "links→rechts";
    assert_eq!(strtok(&mut s, '→'), "links");
    assert_eq!(s, "rechts");
}
