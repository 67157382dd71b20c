use uniffi_dart::fixtures::proc_macro_pure::{
    create_person, greet, hash_data, status_to_string, Counter, Person, UserStatus,
};
use uniffi_dart::fixtures::trait_interfaces::{
    FriendlyGreeter, Greeter, ProcFriendlyGreeter, Registry, SharedGreeter,
};
use uniffi_dart::text::decimal_text;

#[test]
fn a_person_is_greeted_by_name_and_age() {
    let person = create_person("Ada".to_string(), 36);
    assert_eq!(person, Person { name: "Ada".to_string(), age: 36 });
    assert_eq!(greet(person), "Hello, Ada! You are 36 years old.");
    assert_eq!(
        greet(create_person(String::new(), u32::MAX)),
        "Hello, ! You are 4294967295 years old."
    );
    assert_eq!(greet(create_person("Z".to_string(), 0)), "Hello, Z! You are 0 years old.");
}

#[test]
fn numbers_are_written_in_decimal_digits() {
    assert_eq!(decimal_text(0), "0");
    assert_eq!(decimal_text(9), "9");
    assert_eq!(decimal_text(10), "10");
    assert_eq!(decimal_text(65535), "65535");
    assert_eq!(decimal_text(u64::MAX), "18446744073709551615");
}

#[test]
fn a_status_is_named() {
    assert_eq!(status_to_string(UserStatus::Active), "Active");
    assert_eq!(status_to_string(UserStatus::Inactive), "Inactive");
    assert_eq!(status_to_string(UserStatus::Pending), "Pending");
}

#[test]
fn the_mock_digest_takes_the_data_round_and_adds_the_place() {
    assert_eq!(hash_data(Some(vec![1, 2, 3]), 5, 8), vec![1, 3, 5, 4, 6, 0, 0, 0]);
    assert_eq!(hash_data(Some(vec![250]), 10000, 8), vec![250, 251, 252, 253, 254, 255, 0, 1]);
    assert_eq!(hash_data(None, 10000, 4), vec![0, 0, 0, 0]);
    assert_eq!(hash_data(Some(vec![]), 0, 3), vec![0, 0, 0]);
    assert_eq!(hash_data(Some(vec![]), 7, 0), Vec::<u8>::new());
    assert_eq!(hash_data(Some(vec![9]), 300, 300)[299], 9u8.wrapping_add(43));
}

#[test]
fn a_counter_counts_up() {
    let mut counter = Counter::new(41);
    assert_eq!(counter.get_value(), 41);
    counter.increment();
    assert_eq!(counter.get_value(), 42);
    let mut low = Counter::new(i32::MIN);
    low.increment();
    assert_eq!(low.get_value(), i32::MIN + 1);
}

#[test]
fn greeters_greet_behind_the_trait() {
    let friendly = FriendlyGreeter::new("Hello".to_string());
    assert_eq!(friendly.greet("Ada".to_string()), "Hello Ada");
    assert_eq!(friendly.describe(), "FriendlyGreeter(Hello)");
    let shared = friendly.to_trait();
    assert_eq!(Greeter::greet(&shared, "Bob".to_string()), "Hello Bob");

    let proc = ProcFriendlyGreeter::new("hello".to_string());
    assert_eq!(proc.greet("ada".to_string()), "HELLO ADA");
    assert_eq!(proc.greet("stra\u{df}e".to_string()), "HELLO STRASSE");
    assert_eq!(proc.describe(), "ProcFriendlyGreeter(hello)");
    assert_eq!(Greeter::greet(&proc.to_trait(), "bob".to_string()), "HELLO BOB");
}

#[test]
fn the_registry_hands_out_greeters() {
    let registry = Registry::new();
    let friendly = registry.make_friendly("Hi".to_string());
    assert!(matches!(friendly, SharedGreeter::Friendly(_)));
    assert_eq!(Greeter::greet(&friendly, "you".to_string()), "Hi you");
    let proc = registry.make_proc("Hi".to_string());
    assert!(matches!(proc, SharedGreeter::Proc(_)));
    assert_eq!(Greeter::greet(&proc, "you".to_string()), "HI YOU");
}
