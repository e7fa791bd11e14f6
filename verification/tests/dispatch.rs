use handrolled::dispatch::bar;
use handrolled::dispatch::baz;
use handrolled::dispatch::bool_then;
use handrolled::dispatch::say_hello;
use handrolled::dispatch::strlen;
use handrolled::dispatch::strlen_dyn;
use handrolled::dispatch::vec_bar;
use handrolled::dispatch::Hello;

#[test]
fn strlen_counts_bytes() {
    assert_eq!(strlen("hello world"), 11);
    assert_eq!(strlen(String::from("hello from a")), 12);
    assert_eq!(strlen(""), 0);
    assert_eq!(strlen("grün"), 5);
}

#[test]
fn strlen_through_a_trait_object() {
    assert_eq!(strlen_dyn(&"hello world"), 11);
    assert_eq!(strlen_dyn(&String::from("→")), 3);
}

#[test]
fn bool_then_calls_only_when_true() {
    assert_eq!(bool_then(true, || 7), Some(7));
    let mut called = false;
    let r: Option<u8> = bool_then(false, || {
        called = true;
        7
    });
    assert_eq!(r, None);
    assert!(!called);
}

#[test]
fn greetings() {
    assert_eq!("A".hello(), "hello A");
    assert_eq!(String::from("B").hello(), "hello B");
    assert_eq!(bar("world"), "hello world");
    assert_eq!(bar(String::new()), "hello ");
    assert_eq!(say_hello(&"dyn"), "hello dyn");
    assert_eq!(say_hello(&String::from("boxed")), "hello boxed");
}

#[test]
fn greetings_of_a_slice() {
    assert_eq!(vec_bar(&["A", "B"]), vec!["hello A", "hello B"]);
    assert_eq!(vec_bar(&[String::from("A"), String::from("B")]), vec!["hello A", "hello B"]);
    assert_eq!(vec_bar::<&str>(&[]), Vec::<String>::new());
}

#[test]
fn greeting_and_length_together() {
    assert_eq!(baz(&"abc"), (String::from("hello abc"), 3));
    assert_eq!(baz(&String::from("é")), (String::from("hello é"), 2));
}
