use cfb::error::Error;
use cfb::template::{format_command, format_outcome, is_well_formed};

#[test]
fn quoted_placeholders_are_shell_words() {
    let command = format_command("g++ {source} -o {output}", "/tmp/a b.cpp", "cfb-out/a b");
    assert_eq!(command, Ok("g++ '/tmp/a b.cpp' -o 'cfb-out/a b'".to_string()));
}

#[test]
fn path_with_a_space_is_one_token() {
    let command = format_command("{source}", "my file.c", "out").unwrap();
    assert_eq!(command, "'my file.c'");
    assert!(command.starts_with('\'') && command.ends_with('\''));
    assert_eq!(command.matches('\'').count(), 2);
}

#[test]
fn inert_paths_are_left_alone() {
    let command = format_command("cc {source} -o {output}", "src/main.c", "cfb-out/main");
    assert_eq!(command, Ok("cc src/main.c -o cfb-out/main".to_string()));
}

#[test]
fn unquoted_placeholders_are_raw() {
    let command = format_command(
        "echo {source_unquoted} {output_unquoted}",
        "/tmp/a b.cpp",
        "cfb-out/a b",
    );
    assert_eq!(command, Ok("echo /tmp/a b.cpp cfb-out/a b".to_string()));
}

#[test]
fn special_characters_are_escaped() {
    assert_eq!(format_command("{source}", "a$b", "o"), Ok("'a$b'".to_string()));
    assert_eq!(format_command("{source}", "it's", "o"), Ok("'it\\047s'".to_string()));
    assert_eq!(format_command("{output}", "s", ""), Ok("''".to_string()));
}

#[test]
fn template_without_placeholders_is_literal() {
    assert_eq!(format_command("echo hi", "a.x", "cfb-out/a"), Ok("echo hi".to_string()));
    assert_eq!(format_command("", "a.x", "cfb-out/a"), Ok(String::new()));
}

#[test]
fn a_placeholder_may_occur_twice() {
    assert_eq!(
        format_command("cp {output} {output}.bak", "a.x", "cfb-out/a"),
        Ok("cp cfb-out/a cfb-out/a.bak".to_string())
    );
}

#[test]
fn unknown_placeholder_is_a_format_error() {
    let result = format_command("run {binary}", "a.x", "cfb-out/a");
    assert_eq!(result, Err(Error::TemplateFormat { template: "run {binary}".to_string() }));
}

#[test]
fn placeholders_are_case_sensitive() {
    let result = format_command("run {Source}", "a.x", "cfb-out/a");
    assert_eq!(result, Err(Error::TemplateFormat { template: "run {Source}".to_string() }));
}

#[test]
fn positional_placeholders_are_format_errors() {
    assert_eq!(
        format_command("run {}", "a.x", "cfb-out/a"),
        Err(Error::TemplateFormat { template: "run {}".to_string() })
    );
    assert_eq!(
        format_command("run {0}", "a.x", "cfb-out/a"),
        Err(Error::TemplateFormat { template: "run {0}".to_string() })
    );
}

#[test]
fn formatting_twice_gives_the_same_command() {
    let first = format_command("g++ {source} -o {output}", "/tmp/a b.cpp", "cfb-out/a b");
    let second = format_command("g++ {source} -o {output}", "/tmp/a b.cpp", "cfb-out/a b");
    assert_eq!(first, second);
    let first = format_command("{nope}", "/tmp/a b.cpp", "cfb-out/a b");
    let second = format_command("{nope}", "/tmp/a b.cpp", "cfb-out/a b");
    assert_eq!(first, second);
}

#[test]
fn non_ascii_paths_survive_quoting() {
    let command = format_command("cat {source}", "día/ñ.txt", "o");
    assert_eq!(command, Ok("cat 'día/ñ.txt'".to_string()));
}

#[test]
fn format_outcome_names_the_template() {
    assert_eq!(format_outcome("t {x}", Some("t 1".to_string())), Ok("t 1".to_string()));
    assert_eq!(
        format_outcome("t {x}", None),
        Err(Error::TemplateFormat { template: "t {x}".to_string() })
    );
}

fn malformed(template: &str) -> Result<String, Error> {
    Err(Error::TemplateFormat { template: template.to_string() })
}

#[test]
fn unclosed_brace_is_a_format_error() {
    assert_eq!(format_command("echo {source", "a.c", "cfb-out/a"), malformed("echo {source"));
    assert_eq!(format_command("echo {", "a.c", "cfb-out/a"), malformed("echo {"));
    assert_eq!(format_command("{source} {output", "a.c", "o"), malformed("{source} {output"));
}

#[test]
fn lone_closing_brace_is_a_format_error() {
    assert_eq!(format_command("echo }", "a.c", "cfb-out/a"), malformed("echo }"));
    assert_eq!(format_command("echo source}", "a.c", "cfb-out/a"), malformed("echo source}"));
    assert_eq!(format_command("{source}}", "a.c", "cfb-out/a"), malformed("{source}}"));
}

#[test]
fn brace_around_something_else_than_a_name_is_a_format_error() {
    assert_eq!(format_command("{a-b}", "a.c", "o"), malformed("{a-b}"));
    assert_eq!(format_command("{ source }", "a.c", "o"), malformed("{ source }"));
    assert_eq!(format_command("{{source}}", "a.c", "o"), malformed("{{source}}"));
    assert_eq!(format_command("{sour{ce}", "a.c", "o"), malformed("{sour{ce}"));
    assert_eq!(format_command("awk '{print $1}'", "a.c", "o"), malformed("awk '{print $1}'"));
    assert_eq!(format_command("{\u{f1}}", "a.c", "o"), malformed("{\u{f1}}"));
}

#[test]
fn well_formed_templates_are_recognised() {
    assert!(is_well_formed(""));
    assert!(is_well_formed("echo hi"));
    assert!(is_well_formed("{source}"));
    assert!(is_well_formed("cc {source} -o {output}"));
    assert!(is_well_formed("{source}{output_unquoted}"));
    assert!(is_well_formed("{unknown_name_9}"));
    assert!(is_well_formed("{0}"));
    assert!(is_well_formed("d\u{ed}a {source}"));
}

#[test]
fn malformed_templates_are_recognised() {
    assert!(!is_well_formed("{"));
    assert!(!is_well_formed("}"));
    assert!(!is_well_formed("{}"));
    assert!(!is_well_formed("echo {source"));
    assert!(!is_well_formed("echo source}"));
    assert!(!is_well_formed("}{"));
    assert!(!is_well_formed("{a-b}"));
    assert!(!is_well_formed("{a b}"));
    assert!(!is_well_formed("{a{b}}"));
    assert!(!is_well_formed("{source}}"));
    assert!(!is_well_formed("{\u{e9}}"));
}

#[test]
fn values_with_braces_are_substituted_as_they_are() {
    assert_eq!(
        format_command("cat {source_unquoted}", "a{b}.c", "o"),
        Ok("cat a{b}.c".to_string())
    );
    assert_eq!(format_command("cat {source}", "a{b", "o"), Ok("cat 'a{b'".to_string()));
}
