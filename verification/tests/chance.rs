use idioms::email::EmailString;
use idioms::facts::{Fact, FACTS_FOR_VEC};
use idioms::random::Random;
use idioms::secrets::{generate_password, new_access_token, select_rand_val};

#[test]
fn password_has_the_length_and_the_alphabet() {
    let alphabet = ['a', 'b', 'c', 'ß', '7'];
    for len in [0u8, 1, 2, 17, 255] {
        let password = generate_password(&alphabet, len);
        assert_eq!(password.chars().count(), len as usize);
        assert!(password.chars().all(|c| alphabet.contains(&c)));
    }
}

#[test]
fn password_of_one_letter_is_that_letter() {
    assert_eq!(generate_password(&['x'], 5), "xxxxx");
}

#[test]
fn password_of_no_length_needs_no_alphabet() {
    assert_eq!(generate_password(&[], 0), "");
}

#[test]
fn passwords_differ() {
    let alphabet: Vec<char> = ('a'..='z').collect();
    let first = generate_password(&alphabet, 40);
    assert!((0..20).any(|_| generate_password(&alphabet, 40) != first));
}

#[test]
fn selected_value_is_one_of_the_slice() {
    let values = [3, 5, 8, 13];
    for _ in 0..50 {
        assert!(values.contains(select_rand_val(&values)));
    }
    assert_eq!(*select_rand_val(&["only"]), "only");
}

#[test]
fn every_value_is_selected_in_time() {
    let values = [1u8, 2, 3];
    for wanted in values {
        assert!((0..1000).any(|_| *select_rand_val(&values) == wanted));
    }
}

#[test]
fn access_token_has_sixty_four_plain_characters() {
    for _ in 0..20 {
        let token = new_access_token();
        assert_eq!(token.len(), 64);
        assert!(token.chars().all(|c| c.is_ascii_alphanumeric()));
    }
}

#[test]
fn access_tokens_differ() {
    assert_ne!(new_access_token(), new_access_token());
}

#[test]
fn a_fact_about_vec_is_one_of_the_three() {
    let f: Fact<Vec<u64>> = Fact::new();
    for _ in 0..20 {
        assert!(FACTS_FOR_VEC.contains(&f.fact()));
    }
}

#[test]
fn random_hands_out_one_of_its_values() {
    let r = Random([10, 20, 30]);
    for _ in 0..20 {
        assert!([10, 20, 30].contains(r.deref()));
    }
    assert_eq!(*Random([7, 7, 7]).deref(), 7);
}

#[test]
fn email_takes_what_has_the_shape() {
    for good in ["a@b.cd", "john.doe+tag@mail.example.org", "x_1@my-host.io", "a@b.cd and more"] {
        assert_eq!(EmailString::try_from(good).map(|e| e.as_str().to_string()), Ok(good.to_string()));
    }
}

#[test]
fn email_refuses_what_has_not() {
    for bad in ["", "a@b", "@b.cd", "a.@b.cd", ".a@b.cd", "A@b.cd", "a@b.c", "a b@c.de", " a@b.cd"] {
        assert_eq!(EmailString::try_from(bad).map(|e| e.as_str().to_string()), Err("bad format"));
    }
}
