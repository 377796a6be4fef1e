use wlm::{shrink_center, shrink_left, shrink_right};

#[test]
fn string_less_than_ellipsis() {
    let input = "He";
    let output = shrink_right(input, 2);
    assert_eq!("He", output);
}

#[test]
fn lib_string_less_than_ellipsis() {
    let input = "He";
    let output = shrink_left(input, 2);
    assert_eq!("He", output);
    let output = shrink_center(input, 2);
    assert_eq!("He", output);
}

#[test]
fn string_same_as_ellipsis() {
    let input = "Her";
    let output = shrink_right(input, 3);
    assert_eq!("Her", output);
}

#[test]
fn lib_string_same_as_ellipsis() {
    let input = "Her";
    let output = shrink_left(input, 3);
    assert_eq!("Her", output);
    let output = shrink_center(input, 3);
    assert_eq!("Her", output);
}

#[test]
fn long_string_with_max_same_as_ellipsis() {
    let input = "Hello, World!";
    let output = shrink_right(input, 3);
    assert_eq!("...", output);
}

#[test]
fn lib_long_string_with_max_same_as_ellipsis() {
    let input = "Hello, World!";
    let output = shrink_left(input, 3);
    assert_eq!("...", output);
    let output = shrink_center(input, 3);
    assert_eq!("...", output);
}

#[test]
fn long_string_with_max_less_than_ellipsis() {
    let input = "Hello, World!";
    let output = shrink_right(input, 1);
    assert_eq!(".", output);
}

#[test]
fn lib_long_string_with_max_less_than_ellipsis() {
    let input = "Hello, World!";
    let output = shrink_left(input, 1);
    assert_eq!(".", output);
    let output = shrink_center(input, 1);
    assert_eq!(".", output);
}

#[test]
fn string_less_than_max() {
    let input = "Hello, World!";
    let output = shrink_right(input, 20);
    assert_eq!("Hello, World!", output);
}

#[test]
fn lib_string_less_than_max() {
    let input = "Hello, World!";
    let output = shrink_left(input, 20);
    assert_eq!("Hello, World!", output);
    let output = shrink_center(input, 20);
    assert_eq!("Hello, World!", output);
}

#[test]
fn string_more_than_max() {
    let input = "Hello, World!";
    let output = shrink_right(input, 6);
    assert_eq!("Hel...", output);
}

#[test]
fn lib_string_more_than_max() {
    let input = "Hello, World!";
    let output = shrink_left(input, 6);
    assert_eq!("...ld!", output);
}

#[test]
fn string_more_than_even_max() {
    let input = "Hello, World!";
    let output = shrink_center(input, 6);
    assert_eq!("H...d!", output);
}

#[test]
fn string_more_than_odd_max() {
    let input = "Hello, World!";
    let output = shrink_center(input, 7);
    assert_eq!("He...d!", output);
}

#[test]
fn string_same_as_max() {
    let input = "Hello, World!";
    let output = shrink_right(input, input.len());
    assert_eq!("Hello, World!", output);
}

#[test]
fn lib_string_same_as_max() {
    let input = "Hello, World!";
    let output = shrink_left(input, input.len());
    assert_eq!("Hello, World!", output);
    let output = shrink_center(input, input.len());
    assert_eq!("Hello, World!", output);
}

#[test]
fn empty_string() {
    let input = "";
    let output = shrink_right(input, 5);
    assert_eq!("", output);
}

#[test]
fn lib_empty_string() {
    let input = "";
    let output = shrink_left(input, 5);
    assert_eq!("", output);
    let output = shrink_center(input, 5);
    assert_eq!("", output);
}

#[test]
fn to_zero_length() {
    let input = "Hello, World!";
    let output = shrink_right(input, 0);
    assert_eq!("", output);
}

#[test]
fn lib_to_zero_length() {
    let input = "Hello, World!";
    let output = shrink_left(input, 0);
    assert_eq!("", output);
    let output = shrink_center(input, 0);
    assert_eq!("", output);
}

#[test]
fn shrinking_keeps_whole_characters() {
    // "héllo wörld" holds two characters of two bytes each.
    assert_eq!("h...", shrink_right("héllo wörld", 5));
    assert_eq!("hé...", shrink_right("héllo wörld", 6));
    assert_eq!("...ld", shrink_left("héllo wörld", 5));
    assert_eq!("...rld", shrink_left("héllo wörld", 7));
    assert_eq!("h...ld", shrink_center("héllo wörld", 7));
}
