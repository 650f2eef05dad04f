use minigrep::filter_content;
use minigrep::Config;
use minigrep::Input;

fn args_of(words: &[&str]) -> Vec<String> {
    let mut args = Vec::new();
    for w in words {
        args.push(String::from(*w));
    }
    args
}

#[test]
fn config_sets_input_method() {
    let args = args_of(&["minigrep", "foo"]);
    let config = Config::build(&args, false).unwrap();
    assert_eq!(config.input, Input::Std);

    let args = args_of(&["minigrep", "foo", "-"]);
    let config = Config::build(&args, false).unwrap();
    assert_eq!(config.input, Input::Std);

    let args = args_of(&["minigrep", "foo", "path"]);
    let config = Config::build(&args, false).unwrap();
    assert_eq!(config.input, Input::File(String::from("path")));
}

#[test]
fn config_keeps_query_and_flag() {
    let args = args_of(&["minigrep", "needle", "haystack.txt"]);
    let config = Config::build(&args, true).unwrap();
    assert_eq!(config.query, "needle");
    assert!(config.ignore_case);
    let config = Config::build(&args, false).unwrap();
    assert!(!config.ignore_case);
}

#[test]
fn missing_query_is_a_usage_error() {
    let args = args_of(&["minigrep"]);
    let err = Config::build(&args, false).unwrap_err();
    assert_eq!(
        err,
        "Error parsing arguments: Usage: minigrep substring [file]\n\
         If file is - or absent, read from stdin."
    );
    let none: Vec<String> = Vec::new();
    assert!(Config::build(&none, false).is_err());
}

#[test]
fn filter_follows_the_case_flag() {
    let content = "Rust:\nsafe, fast, productive.\nPick three.\nTrust me.";
    let args = args_of(&["minigrep", "rUsT"]);

    let sensitive = Config::build(&args, false).unwrap();
    let empty: Vec<String> = Vec::new();
    assert_eq!(empty, filter_content(&sensitive, content));

    let insensitive = Config::build(&args, true).unwrap();
    assert_eq!(vec!["Rust:", "Trust me."], filter_content(&insensitive, content));
}
