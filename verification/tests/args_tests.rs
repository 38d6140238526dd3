use rmenu::args::Args;
use rmenu::errors::ArgsError;

fn argv(words: &[&str]) -> Vec<String> {
    words.iter().map(|w| w.to_string()).collect()
}

#[test]
fn no_options_leave_the_path_empty() {
    let a = Args::parse(&argv(&["rmenu"])).unwrap();
    assert_eq!(a.config_path, "");
}

#[test]
fn config_option_takes_the_next_word() {
    let a = Args::parse(&argv(&["rmenu", "-config", "/tmp/rc.toml"])).unwrap();
    assert_eq!(a.config_path, "/tmp/rc.toml");
}

#[test]
fn help_is_reported() {
    let r = Args::parse(&argv(&["rmenu", "-help"]));
    assert_eq!(r.unwrap_err(), ArgsError::HelpRequested);
}

#[test]
fn help_wins_even_after_other_words() {
    let r = Args::parse(&argv(&["rmenu", "stuff", "-help", "-config", "x"]));
    assert_eq!(r.unwrap_err(), ArgsError::HelpRequested);
}

#[test]
fn config_without_a_path_is_an_error() {
    let r = Args::parse(&argv(&["rmenu", "-config"]));
    assert_eq!(r.unwrap_err(), ArgsError::MissingConfigPath);
}

#[test]
fn last_config_path_wins() {
    let a = Args::parse(&argv(&["rmenu", "-config", "a", "-config", "b"])).unwrap();
    assert_eq!(a.config_path, "b");
}

#[test]
fn unknown_words_are_ignored() {
    let a = Args::parse(&argv(&["rmenu", "junk", "-config", "p", "tail"])).unwrap();
    assert_eq!(a.config_path, "p");
}

#[test]
fn a_config_path_is_taken_verbatim_even_if_it_looks_like_an_option() {
    let a = Args::parse(&argv(&["rmenu", "-config", "-help"])).unwrap();
    assert_eq!(a.config_path, "-help");
}
