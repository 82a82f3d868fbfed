use gitig::bash_completion;
use gitig::client::Reply;
use gitig::completion::BASH_COMPLETION_TEMPLATE;
use gitig::completion::FISH_COMPLETION_TEMPLATE;
use gitig::fish_completion;
use gitig::Error;
use gitig::Shell;

fn catalog_reply(status: u16, body: &str) -> Reply {
    Reply::Answer { status, body: Some(body.to_string()) }
}

#[test]
fn shell_iter_lists_the_names_as_typed() {
    assert_eq!(Shell::iter(), vec!["bash".to_string(), "fish".to_string()]);
}

#[test]
fn shell_iter_is_the_lowercase_of_the_titles() {
    let titles = [Shell::Bash.to_string(), Shell::Fish.to_string()];
    let lowered: Vec<String> = titles.iter().map(|t| t.to_lowercase()).collect();
    assert_eq!(Shell::iter(), lowered);
}

#[test]
fn shell_to_string_gives_the_title() {
    assert_eq!(Shell::Bash.to_string(), "Bash");
    assert_eq!(Shell::Fish.to_string(), "Fish");
}

#[test]
fn shells_are_ordered_as_declared() {
    assert!(Shell::Bash < Shell::Fish);
    assert_eq!(Shell::Bash, Shell::Bash);
    assert_ne!(Shell::Bash, Shell::Fish);
}

#[test]
fn bash_completion_offers_the_catalog() {
    let script = bash_completion(catalog_reply(200, "A,B\n\nC")).unwrap();
    assert_eq!(script, "#!/usr/bin/env bash\ncomplete -W \"A B C\" gi\n");
}

#[test]
fn bash_completion_of_an_empty_catalog() {
    let script = bash_completion(catalog_reply(200, "")).unwrap();
    assert_eq!(script, "#!/usr/bin/env bash\ncomplete -W \"\" gi\n");
}

#[test]
fn bash_completion_agrees_with_std_replace() {
    let script = bash_completion(catalog_reply(200, "Rust,Node\nGo\n")).unwrap();
    assert_eq!(script, BASH_COMPLETION_TEMPLATE.replace("{all_templates}", "Rust Node Go"));
}

#[test]
fn bash_completion_fails_where_the_catalog_does() {
    assert_eq!(bash_completion(Reply::Failed), Err(Error::fetch_templates_failed()));
    assert_eq!(bash_completion(catalog_reply(500, "A,B")), Err(Error::fetch_templates_failed()));
}

#[test]
fn fish_completion_offers_the_catalog_and_the_shells() {
    let script = fish_completion(catalog_reply(200, "A,B\nC\n")).unwrap();
    let expected = "\
complete -c gi -f
complete -c gi -a 'A B C'
complete -c gi -s h -l help -d 'Print a short help text and exit'
complete -c gi -s v -l version -d 'Print a short version string and exit'
complete -c gi -l no-pager -d 'Do not pipe output into a pager'
complete -c gi -l completion -a 'bash fish' -d 'Generate shell completion file'
";
    assert_eq!(script, expected);
}

#[test]
fn fish_completion_agrees_with_std_replace() {
    let script = fish_completion(catalog_reply(200, "Rust,Node\nGo\n")).unwrap();
    let expected = FISH_COMPLETION_TEMPLATE
        .replace("{all_templates}", "Rust Node Go")
        .replace("{all_shells}", "bash fish");
    assert_eq!(script, expected);
}

#[test]
fn fish_completion_fills_a_place_that_a_name_spells_out() {
    let script = fish_completion(catalog_reply(200, "{all_shells}")).unwrap();
    assert!(script.contains("complete -c gi -a 'bash fish'\n"));
    assert!(!script.contains("{all_shells}"));
}

#[test]
fn fish_completion_fails_where_the_catalog_does() {
    assert_eq!(fish_completion(Reply::Failed), Err(Error::fetch_templates_failed()));
    assert_eq!(
        fish_completion(Reply::Answer { status: 200, body: None }),
        Err(Error::fetch_templates_failed())
    );
}

#[test]
fn generate_completion_str_picks_the_script_of_the_shell() {
    let bash = Shell::Bash.generate_completion_str(catalog_reply(200, "A\nB")).unwrap();
    let fish = Shell::Fish.generate_completion_str(catalog_reply(200, "A\nB")).unwrap();
    assert_eq!(bash, bash_completion(catalog_reply(200, "A\nB")).unwrap());
    assert_eq!(fish, fish_completion(catalog_reply(200, "A\nB")).unwrap());
    assert_ne!(bash, fish);
}

#[test]
fn generate_completion_str_fails_where_the_catalog_does() {
    assert_eq!(
        Shell::Bash.generate_completion_str(catalog_reply(404, "")),
        Err(Error::fetch_templates_failed())
    );
    assert_eq!(
        Shell::Fish.generate_completion_str(Reply::Failed),
        Err(Error::fetch_templates_failed())
    );
}
