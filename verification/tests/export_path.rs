use ts_rs::path::{
    is_screaming_snake_case, is_snake_case, CustomPath, Delim, PathParseError, Token,
    PARSING_ERROR_MSG, PATH_CONVENTION_MSG,
};

// The tokens of an `export_to` value, as the derive hands them over: string
// literals already read into their values.

fn eq() -> Token {
    Token::Eq
}

fn word(w: &str) -> Token {
    Token::Ident(w.to_string())
}

fn text(v: &str) -> Token {
    Token::Str(v.to_string())
}

fn sep() -> Token {
    Token::PathSep
}

/// `= <w>`
fn assign_word(w: &str) -> Vec<Token> {
    vec![eq(), word(w)]
}

#[test]
fn test_str_literal() {
    // = "my/path"
    let input = vec![eq(), text("my/path")];
    let parsed: CustomPath = CustomPath::parse_tokens(&input).unwrap();

    if let CustomPath::Str(path) = parsed {
        assert_eq!(path, "my/path");
    } else {
        panic!("Expected CustomPath::Str variant");
    }
}

#[test]
fn test_static_variable_single() {
    // = MY_STATIC_PATH
    let input = assign_word("MY_STATIC_PATH");
    let parsed: CustomPath = CustomPath::parse_tokens(&input).unwrap();

    if let CustomPath::Static(path) = parsed {
        assert_eq!(path.segments.last().unwrap(), "MY_STATIC_PATH");
    } else {
        panic!("Expected CustomPath::Static variant");
    }
}

#[test]
fn test_static_variable_full_path() {
    // = crate::MY_STATIC_PATH
    let input = vec![eq(), word("crate"), sep(), word("MY_STATIC_PATH")];
    let parsed: CustomPath = CustomPath::parse_tokens(&input).unwrap();

    if let CustomPath::Static(path) = parsed {
        assert_eq!(path.segments.len(), 2);
        assert_eq!(path.segments[0], "crate");
        assert_eq!(path.segments[1], "MY_STATIC_PATH");
    } else {
        panic!("Expected CustomPath::Static variant");
    }
}

#[test]
fn test_function_name_single() {
    // = my_func_get_path
    let input = assign_word("my_func_get_path");
    let parsed: CustomPath = CustomPath::parse_tokens(&input).unwrap();

    if let CustomPath::Fn(path) = parsed {
        assert_eq!(path.segments.last().unwrap(), "my_func_get_path");
    } else {
        panic!("Expected CustomPath::Fn variant");
    }
}

#[test]
fn test_function_name_full_path() {
    // = crate::my_func_get_path
    let input = vec![eq(), word("crate"), sep(), word("my_func_get_path")];
    let parsed: CustomPath = CustomPath::parse_tokens(&input).unwrap();

    if let CustomPath::Fn(path) = parsed {
        assert_eq!(path.segments.len(), 2);
        assert_eq!(path.segments[0], "crate");
        assert_eq!(path.segments[1], "my_func_get_path");
    } else {
        panic!("Expected CustomPath::Fn variant");
    }
}

#[test]
fn test_env_variable() {
    // = env("MY_ENV_VAR_PATH")
    let input = vec![
        eq(),
        word("env"),
        Token::Open(Delim::Paren),
        text("MY_ENV_VAR_PATH"),
        Token::Close(Delim::Paren),
    ];
    let parsed: CustomPath = CustomPath::parse_tokens(&input).unwrap();

    if let CustomPath::Env(lit) = parsed {
        assert_eq!(lit, "MY_ENV_VAR_PATH");
    } else {
        panic!("Expected CustomPath::Env variant");
    }
}

#[test]
fn leading_colons_are_kept() {
    // = ::krate::OUT_DIR
    let input = vec![eq(), sep(), word("krate"), sep(), word("OUT_DIR")];
    match CustomPath::parse_tokens(&input).unwrap() {
        CustomPath::Static(path) => {
            assert!(path.leading_colon);
            assert_eq!(path.segments, vec!["krate".to_string(), "OUT_DIR".to_string()]);
        }
        _ => panic!("expected a static"),
    }
}

#[test]
fn string_values_are_kept_as_they_are() {
    // = "a\"b\\c/"
    match CustomPath::parse_tokens(&vec![eq(), text("a\"b\\c/")]).unwrap() {
        CustomPath::Str(s) => assert_eq!(s, "a\"b\\c/"),
        _ => panic!("expected a string"),
    }
}

#[test]
fn missing_equals_is_refused() {
    // "my/path"
    assert_eq!(CustomPath::parse_tokens(&vec![text("my/path")]).err(), Some(PathParseError::ExpectedEq));
}

#[test]
fn unbalanced_brackets_are_refused() {
    // = env("X"
    let input = vec![eq(), word("env"), Token::Open(Delim::Paren), text("X")];
    assert_eq!(CustomPath::parse_tokens(&input).err(), Some(PathParseError::Unbalanced));
}

#[test]
fn mixed_case_name_is_refused() {
    assert!(CustomPath::parse_tokens(&assign_word("MyPath")).is_err());
}

#[test]
fn env_needs_a_string() {
    // = env(MY_VAR)
    let input = vec![eq(), word("env"), Token::Open(Delim::Paren), word("MY_VAR"), Token::Close(Delim::Paren)];
    assert_eq!(CustomPath::parse_tokens(&input).err(), Some(PathParseError::ExpectedStringLiteral));
}

#[test]
fn trailing_tokens_are_refused() {
    // = "a" "b"
    let input = vec![eq(), text("a"), text("b")];
    assert_eq!(CustomPath::parse_tokens(&input).err(), Some(PathParseError::UnexpectedToken));
}

#[test]
fn directory_export_appends_the_type_name() {
    assert_eq!(CustomPath::str_path("crate1/", "Crate1"), "crate1/Crate1.ts");
    assert_eq!(CustomPath::str_path("bindings/file.ts", "User"), "bindings/file.ts");
    assert_eq!(CustomPath::str_path("", "User"), "");
}

#[test]
fn case_checks() {
    assert!(is_screaming_snake_case("MY_STATIC_PATH"));
    assert!(!is_screaming_snake_case("My_Path"));
    assert!(is_snake_case("my_func_get_path"));
    assert!(!is_snake_case("myFunc"));
}

#[test]
fn question_mark_gives_the_reminder() {
    // = ?
    let e = CustomPath::parse_tokens(&vec![eq(), Token::Question]).err().unwrap();
    assert_eq!(e, PathParseError::Reminder);
    assert_eq!(e.message(), format!("{PATH_CONVENTION_MSG}\n{PARSING_ERROR_MSG}"));
    assert!(e.message().contains("#[ts(export_to = \"..\")]"));
}

#[test]
fn bad_values_give_the_accepted_forms() {
    // = env, = MyPath, = my_path2, = 42
    let inputs = vec![
        assign_word("env"),
        assign_word("MyPath"),
        assign_word("my_path2"),
        vec![eq(), Token::Other],
    ];
    for input in inputs {
        let e = CustomPath::parse_tokens(&input).err().unwrap();
        assert_eq!(e.message(), PARSING_ERROR_MSG);
    }
    assert!(PARSING_ERROR_MSG.starts_with("`export_to` expects as arguments the following types:"));
}
