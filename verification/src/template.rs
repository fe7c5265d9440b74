//! Command formatter: fills the placeholders of a command template with the
//! source and artifact paths, giving a literal shell command.
//!
//! Four placeholders are known, written in curly braces: `source` and
//! `output` stand for the shell-quoted paths, `source_unquoted` and
//! `output_unquoted` for the paths as they are.
//!
//! In a template every `{` opens a placeholder: a name of ASCII letters,
//! digits and underscores, closed by `}`. A brace that is no part of a
//! placeholder makes the template malformed.

use crate::error::{text_result, Error, ErrorView};
use crate::text::option_text;
use vstd::prelude::*;

verus! {

/// The text that quoting for `/bin/sh` makes of `text`: one shell word.
pub uninterp spec fn sh_quoted(text: Seq<char>) -> Seq<char>;

/// The text that curly-brace formatting makes of `template` when each name
/// in `arguments` stands for the value beside it, or `None` where the
/// template cannot be formatted with these arguments.
pub uninterp spec fn curly_formatted(
    template: Seq<char>,
    arguments: Seq<(Seq<char>, Seq<char>)>,
) -> Option<Seq<char>>;

/// The contents of a list of named values, in order.
pub open spec fn pair_texts(pairs: Seq<(String, String)>) -> Seq<(Seq<char>, Seq<char>)> {
    Seq::new(pairs.len(), |i: int| (pairs[i].0@, pairs[i].1@))
}

/// Quotes with `shell_quote::sh::quote`. The contract only gives the quoted
/// text its name; it claims nothing about which characters are escaped.
#[verifier::external_body]
fn sh_quote(text: &str) -> (quoted: String)
    ensures
        quoted@ == sh_quoted(text@),
{
    shell_quote::sh::quote(text).to_string_lossy().into_owned()
}

/// Formats with `dynfmt::SimpleCurlyFormat`, the arguments handed over as a
/// map from name to value. The contract gives the outcome its name: the
/// formatted text, or `None` where the formatter reports an error. It also
/// says that a template without an opening brace, in which the formatter
/// finds nothing to replace, comes back as it is.
#[verifier::external_body]
fn curly_format(template: &str, arguments: &Vec<(String, String)>) -> (formatted: Option<String>)
    ensures
        option_text(formatted) == curly_formatted(template@, pair_texts(arguments@)),
        !template@.contains('{') ==> option_text(formatted) == Some(template@),
{
    let mut named = std::collections::HashMap::new();
    for (name, value) in arguments.iter() {
        named.insert(name.as_str(), value.as_str());
    }
    match dynfmt::Format::format(&dynfmt::SimpleCurlyFormat, template, &named) {
        Ok(text) => Some(text.into_owned()),
        Err(_) => None,
    }
}

/// Whether `c` may stand in the name of a placeholder.
pub open spec fn is_name_char(c: char) -> bool {
    ('a' <= c && c <= 'z') || ('A' <= c && c <= 'Z') || ('0' <= c && c <= '9') || c == '_'
}

/// Whether the braces of `template` are in order from position `at` on.
/// `open` says that a placeholder was opened before `at` and not yet closed,
/// and `named` that its name has begun.
pub open spec fn braces_in_order(template: Seq<char>, at: int, open: bool, named: bool) -> bool
    decreases template.len() - at,
{
    if at >= template.len() {
        !open
    } else if open {
        if template[at] == '}' {
            named && braces_in_order(template, at + 1, false, false)
        } else {
            is_name_char(template[at]) && braces_in_order(template, at + 1, true, true)
        }
    } else {
        if template[at] == '{' {
            braces_in_order(template, at + 1, true, false)
        } else {
            template[at] != '}' && braces_in_order(template, at + 1, false, false)
        }
    }
}

/// Whether `template` is well formed: every `{` opens a name that a `}`
/// closes, and no `}` stands alone.
pub open spec fn well_formed(template: Seq<char>) -> bool {
    braces_in_order(template, 0, false, false)
}

/// Whether `template` holds no brace at all.
pub open spec fn brace_free(template: Seq<char>) -> bool {
    forall|i: int| 0 <= i < template.len() ==> template[i] != '{' && template[i] != '}'
}

/// The values of the four placeholders for one source and artifact path.
pub open spec fn placeholders(source: Seq<char>, output: Seq<char>) -> Seq<
    (Seq<char>, Seq<char>),
> {
    seq![
        ("source"@, sh_quoted(source)),
        ("output"@, sh_quoted(output)),
        ("source_unquoted"@, source),
        ("output_unquoted"@, output),
    ]
}

/// What a substitution means for the caller: the literal command, or a
/// formatting error that names the template.
pub open spec fn substitution_result(template: Seq<char>, substituted: Option<Seq<char>>) -> Result<
    Seq<char>,
    ErrorView,
> {
    match substituted {
        Some(command) => Ok(command),
        None => Err(ErrorView::TemplateFormat { template }),
    }
}

/// The literal command that `template` stands for, for one source and
/// artifact path. A malformed template stands for none, and neither does one
/// whose placeholders cannot all be filled in.
pub open spec fn formatted(template: Seq<char>, source: Seq<char>, output: Seq<char>) -> Result<
    Seq<char>,
    ErrorView,
> {
    if well_formed(template) {
        substitution_result(template, curly_formatted(template, placeholders(source, output)))
    } else {
        Err(ErrorView::TemplateFormat { template })
    }
}

/// The literal commands that a list of templates stands for, in order. The
/// first template that cannot be formatted fails the whole list.
pub open spec fn formatted_all(
    templates: Seq<Seq<char>>,
    source: Seq<char>,
    output: Seq<char>,
) -> Result<Seq<Seq<char>>, ErrorView>
    decreases templates.len(),
{
    if templates.len() == 0 {
        Ok(Seq::empty())
    } else {
        match formatted_all(templates.drop_last(), source, output) {
            Ok(commands) => match formatted(templates.last(), source, output) {
                Ok(command) => Ok(commands.push(command)),
                Err(e) => Err(e),
            },
            Err(e) => Err(e),
        }
    }
}

/// Turns the outcome of a substitution into the caller's result.
pub fn format_outcome(template: &str, substituted: Option<String>) -> (result: Result<
    String,
    Error,
>)
    ensures
        text_result(result) == substitution_result(template@, option_text(substituted)),
{
    match substituted {
        Some(command) => Ok(command),
        None => Err(Error::TemplateFormat { template: template.to_owned() }),
    }
}

/// Whether `c` may stand in the name of a placeholder.
fn name_char(c: char) -> (ok: bool)
    ensures
        ok == is_name_char(c),
{
    ('a' <= c && c <= 'z') || ('A' <= c && c <= 'Z') || ('0' <= c && c <= '9') || c == '_'
}

/// Decides whether every brace of `template` belongs to a placeholder.
pub fn is_well_formed(template: &str) -> (ok: bool)
    ensures
        ok == well_formed(template@),
{
    let length = template.unicode_len();
    let mut at: usize = 0;
    let mut open = false;
    let mut named = false;
    while at < length
        invariant
            at <= length,
            length == template@.len(),
            well_formed(template@) == braces_in_order(template@, at as int, open, named),
        decreases length - at,
    {
        let c = template.get_char(at);
        let ghost here = braces_in_order(template@, at as int, open, named);
        assert(c == template@[at as int]);
        if open {
            if c == '}' {
                if !named {
                    return false;
                }
                assert(here == braces_in_order(template@, at + 1, false, false));
                open = false;
                named = false;
            } else if name_char(c) {
                assert(here == braces_in_order(template@, at + 1, true, true));
                named = true;
            } else {
                return false;
            }
        } else {
            if c == '{' {
                assert(here == braces_in_order(template@, at + 1, true, false));
                open = true;
                named = false;
            } else if c == '}' {
                return false;
            } else {
                assert(here == braces_in_order(template@, at + 1, false, false));
            }
        }
        at += 1;
    }
    !open
}

/// A template without braces is well formed.
pub proof fn lemma_brace_free_is_well_formed(template: Seq<char>, at: int)
    requires
        brace_free(template),
        0 <= at,
    ensures
        braces_in_order(template, at, false, false),
        !template.contains('{'),
    decreases template.len() - at,
{
    if at < template.len() {
        lemma_brace_free_is_well_formed(template, at + 1);
    }
}

/// Substitutes the four placeholders of `command` for the given source and
/// artifact path.
///
/// The result is the literal command. A malformed template, an unknown
/// placeholder and a placeholder without a name give a formatting error that
/// names the template. A template without braces is its own command.
pub fn format_command(command: &str, source: &str, output: &str) -> (result: Result<String, Error>)
    ensures
        text_result(result) == formatted(command@, source@, output@),
        !well_formed(command@) ==> text_result(result) == Err::<Seq<char>, ErrorView>(
            ErrorView::TemplateFormat { template: command@ },
        ),
        well_formed(command@) ==> text_result(result) == substitution_result(
            command@,
            curly_formatted(command@, placeholders(source@, output@)),
        ),
        brace_free(command@) ==> text_result(result) == Ok::<Seq<char>, ErrorView>(command@),
{
    proof {
        if brace_free(command@) {
            lemma_brace_free_is_well_formed(command@, 0);
        }
    }
    if !is_well_formed(command) {
        return Err(Error::TemplateFormat { template: command.to_owned() });
    }
    let mut arguments: Vec<(String, String)> = Vec::new();
    arguments.push(("source".to_owned(), sh_quote(source)));
    arguments.push(("output".to_owned(), sh_quote(output)));
    arguments.push(("source_unquoted".to_owned(), source.to_owned()));
    arguments.push(("output_unquoted".to_owned(), output.to_owned()));
    assert(pair_texts(arguments@) =~= placeholders(source@, output@));
    let substituted = curly_format(command, &arguments);
    format_outcome(command, substituted)
}

/// Formatting is a function of the template and the two paths: whatever two
/// calls on the same three values return, it is the same.
pub proof fn lemma_formatting_is_deterministic(
    template: Seq<char>,
    source: Seq<char>,
    output: Seq<char>,
    first: Result<String, Error>,
    second: Result<String, Error>,
)
    requires
        text_result(first) == formatted(template, source, output),
        text_result(second) == formatted(template, source, output),
    ensures
        text_result(first) == text_result(second),
        first is Ok ==> second is Ok && first->Ok_0@ == second->Ok_0@,
        first is Err ==> second is Err && first->Err_0@ == (ErrorView::TemplateFormat { template }),
{
}

/// A list of templates is formatted exactly when each of them can be, and
/// then command by command; otherwise the failure is that of the first
/// template that cannot be formatted.
pub proof fn lemma_formatted_all(templates: Seq<Seq<char>>, source: Seq<char>, output: Seq<char>)
    ensures
        match formatted_all(templates, source, output) {
            Ok(commands) => commands.len() == templates.len() && forall|i: int|
                0 <= i < templates.len() ==> formatted(#[trigger] templates[i], source, output)
                    == Ok::<Seq<char>, ErrorView>(commands[i]),
            Err(e) => exists|at: int|
                0 <= at < templates.len() && formatted(#[trigger] templates[at], source, output)
                    == Err::<Seq<char>, ErrorView>(e) && forall|i: int|
                    0 <= i < at ==> formatted(#[trigger] templates[i], source, output) is Ok,
        },
    decreases templates.len(),
{
    if templates.len() > 0 {
        let shorter = templates.drop_last();
        let last = templates.len() - 1;
        lemma_formatted_all(shorter, source, output);
        assert forall|i: int| 0 <= i < shorter.len() implies shorter[i] == templates[i] by {}
        match formatted_all(shorter, source, output) {
            Ok(commands) => {
                match formatted(templates.last(), source, output) {
                    Ok(command) => {
                        let all = commands.push(command);
                        assert forall|i: int| 0 <= i < templates.len() implies formatted(
                            #[trigger] templates[i],
                            source,
                            output,
                        ) == Ok::<Seq<char>, ErrorView>(all[i]) by {
                            if i < last {
                                assert(templates[i] == shorter[i]);
                            }
                        }
                    },
                    Err(e) => {
                        assert forall|i: int| 0 <= i < last implies formatted(
                            #[trigger] templates[i],
                            source,
                            output,
                        ) is Ok by {
                            assert(templates[i] == shorter[i]);
                        }
                        assert(formatted(templates[last], source, output) == Err::<
                            Seq<char>,
                            ErrorView,
                        >(e));
                    },
                }
            },
            Err(e) => {
                let at = choose|at: int|
                    0 <= at < shorter.len() && formatted(#[trigger] shorter[at], source, output)
                        == Err::<Seq<char>, ErrorView>(e) && forall|i: int|
                        0 <= i < at ==> formatted(#[trigger] shorter[i], source, output) is Ok;
                assert(templates[at] == shorter[at]);
                assert forall|i: int| 0 <= i < at implies formatted(
                    #[trigger] templates[i],
                    source,
                    output,
                ) is Ok by {
                    assert(templates[i] == shorter[i]);
                }
            },
        }
    }
}

} // verus!
