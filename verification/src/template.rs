//! Texts with `{{ variable }}` tokens: checking, rendering, and handing values to scripts.

use crate::error::{invalid, AutomationError, ErrorModel};
use crate::model::AutomationEvent;
use crate::text;
use crate::text_map::TextMap;
use vstd::prelude::*;

verus! {

/// A variable token and the text that stands before it.
#[verifier::ext_equal]
pub struct Token {
    pub head: Seq<char>,
    pub key: Seq<char>,
}

/// A text as a list of tokens and what follows the last of them. It is not closed where an
/// opening tag has no closing one.
#[verifier::ext_equal]
pub struct Template {
    pub tokens: Seq<Token>,
    pub tail: Seq<char>,
    pub closed: bool,
}

/// Reads a text from left to right: each `{{` opens a token that the next `}}` closes.
pub open spec fn parse(source: Seq<char>) -> Template
    decreases source.len(),
{
    match text::split_first(source, "{{"@) {
        None => Template { tokens: Seq::empty(), tail: source, closed: true },
        Some((head, opened)) => match text::split_first(opened, "}}"@) {
            None => Template { tokens: Seq::empty(), tail: source, closed: false },
            Some((inner, next)) => {
                proof {
                    lemma_split_shrinks(source, head, opened, inner, next);
                }
                let rest = parse(next);
                Template {
                    tokens: seq![Token { head, key: text::trimmed(inner) }] + rest.tokens,
                    ..rest
                }
            },
        },
    }
}

/// The first variable of `tokens` that is not among `known`.
pub open spec fn first_unknown(tokens: Seq<Token>, known: Set<Seq<char>>) -> Option<Seq<char>>
    decreases tokens.len(),
{
    if tokens.len() == 0 {
        None
    } else if !known.contains(tokens[0].key) {
        Some(tokens[0].key)
    } else {
        first_unknown(tokens.drop_first(), known)
    }
}

/// The text with every token replaced by the value of its variable.
pub open spec fn filled(
    tokens: Seq<Token>,
    tail: Seq<char>,
    values: Map<Seq<char>, Seq<char>>,
) -> Seq<char>
    decreases tokens.len(),
{
    if tokens.len() == 0 {
        tail
    } else {
        tokens[0].head + values[tokens[0].key] + filled(tokens.drop_first(), tail, values)
    }
}

/// The environment variable that holds the value of token `i` of a script.
pub open spec fn variable_name(i: int) -> Seq<char> {
    "ARCRELAY_EVENT_"@ + text::decimal(i as nat)
}

/// How a script reads the environment variable of token `i`.
pub open spec fn variable_reference(i: int, powershell: bool) -> Seq<char> {
    if powershell {
        "$env:"@ + variable_name(i)
    } else {
        "${"@ + variable_name(i) + "}"@
    }
}

/// The script with every token replaced by a reference to its environment variable, the first
/// of them being number `i`.
pub open spec fn with_references(
    tokens: Seq<Token>,
    tail: Seq<char>,
    i: int,
    powershell: bool,
) -> Seq<char>
    decreases tokens.len(),
{
    if tokens.len() == 0 {
        tail
    } else {
        tokens[0].head + variable_reference(i, powershell) + with_references(
            tokens.drop_first(),
            tail,
            i + 1,
            powershell,
        )
    }
}

/// `environment` binds the variable of each token to the token's value, and nothing else.
pub open spec fn binds(
    environment: Map<Seq<char>, Seq<char>>,
    tokens: Seq<Token>,
    values: Map<Seq<char>, Seq<char>>,
) -> bool {
    &&& forall|i: int|
        0 <= i < tokens.len() ==> environment.contains_key(#[trigger] variable_name(i))
            && environment[variable_name(i)] == values[tokens[i].key]
    &&& forall|name: Seq<char>| #[trigger]
        environment.contains_key(name) ==> exists|i: int|
            0 <= i < tokens.len() && name == #[trigger] variable_name(i)
}

/// What checking `source` against the variables `known` comes to.
pub open spec fn checked(source: Seq<char>, known: Set<Seq<char>>) -> Result<(), ErrorModel> {
    let template = parse(source);
    match first_unknown(template.tokens, known) {
        Some(key) => Err(ErrorModel::Invalid("this trigger does not provide variable "@ + key)),
        None => if template.closed {
            Ok(())
        } else {
            Err(ErrorModel::Invalid("event variable is missing a closing tag"@))
        },
    }
}

/// What rendering `source` with `values` comes to.
pub open spec fn rendered(source: Seq<char>, values: Map<Seq<char>, Seq<char>>) -> Result<
    Seq<char>,
    ErrorModel,
> {
    let template = parse(source);
    match first_unknown(template.tokens, values.dom()) {
        Some(key) => Err(
            ErrorModel::Invalid(
                "the event does not provide variable "@ + key + "; test with a real event"@,
            ),
        ),
        None => if template.closed {
            Ok(filled(template.tokens, template.tail, values))
        } else {
            Err(ErrorModel::Invalid("invalid variable"@))
        },
    }
}

/// What preparing the script `source` comes to when the variables `known` have values. The
/// values themselves take no part in it.
pub open spec fn prepared(source: Seq<char>, known: Set<Seq<char>>, powershell: bool) -> Result<
    Seq<char>,
    ErrorModel,
> {
    let template = parse(source);
    match first_unknown(template.tokens, known) {
        Some(key) => Err(
            ErrorModel::Invalid(
                "the event does not provide variable "@ + key
                    + "; select a real activity when testing"@,
            ),
        ),
        None => if template.closed {
            Ok(with_references(template.tokens, template.tail, 0, powershell))
        } else {
            Err(ErrorModel::Invalid("invalid event variable"@))
        },
    }
}

/// What follows a token is shorter than the text that the token stands in.
pub proof fn lemma_split_shrinks(
    source: Seq<char>,
    head: Seq<char>,
    opened: Seq<char>,
    inner: Seq<char>,
    next: Seq<char>,
)
    requires
        text::split_first(source, "{{"@) == Some((head, opened)),
        text::split_first(opened, "}}"@) == Some((inner, next)),
    ensures
        next.len() < source.len(),
{
    reveal_strlit("{{");
    reveal_strlit("}}");
    let first = choose|at: int| text::first_at(source, "{{"@, at);
    assert(text::occurs_at(source, "{{"@, first));
    let second = choose|at: int| text::first_at(opened, "}}"@, at);
    assert(text::occurs_at(opened, "}}"@, second));
}

/// Reading on behind the first token of a text.
proof fn lemma_parse_step(
    source: Seq<char>,
    head: Seq<char>,
    opened: Seq<char>,
    inner: Seq<char>,
    next: Seq<char>,
)
    requires
        text::split_first(source, "{{"@) == Some((head, opened)),
        text::split_first(opened, "}}"@) == Some((inner, next)),
    ensures
        parse(source).tokens.len() > 0,
        parse(source).tokens[0] == (Token { head, key: text::trimmed(inner) }),
        parse(source).tokens.drop_first() == parse(next).tokens,
        parse(source).tail == parse(next).tail,
        parse(source).closed == parse(next).closed,
        next.len() < source.len(),
{
    lemma_split_shrinks(source, head, opened, inner, next);
    assert(parse(source).tokens.drop_first() =~= parse(next).tokens);
}

/// Different tokens have different environment variables.
proof fn lemma_variable_names(i: int, j: int)
    requires
        0 <= i,
        0 <= j,
        variable_name(i) == variable_name(j),
    ensures
        i == j,
{
    let prefix = "ARCRELAY_EVENT_"@;
    let n = prefix.len() as int;
    assert(variable_name(i).skip(n) =~= text::decimal(i as nat));
    assert(variable_name(j).skip(n) =~= text::decimal(j as nat));
    text::lemma_decimal_injective(i as nat, j as nat);
}

/// Binding the variable of the next token.
proof fn lemma_bind_next(
    bound: Map<Seq<char>, Seq<char>>,
    tokens: Seq<Token>,
    values: Map<Seq<char>, Seq<char>>,
    count: int,
    name: Seq<char>,
    value: Seq<char>,
)
    requires
        0 <= count < tokens.len(),
        binds(bound, tokens.take(count), values),
        name == variable_name(count),
        value == values[tokens[count].key],
    ensures
        !bound.contains_key(name),
        binds(bound.insert(name, value), tokens.take(count + 1), values),
{
    if bound.contains_key(name) {
        let i = choose|i: int| 0 <= i < tokens.take(count).len() && name == variable_name(i);
        lemma_variable_names(i, count);
    }
    let next = bound.insert(name, value);
    let more = tokens.take(count + 1);
    assert forall|i: int| 0 <= i < more.len() implies next.contains_key(#[trigger] variable_name(i))
        && next[variable_name(i)] == values[more[i].key] by {
        if i < count {
            assert(tokens.take(count)[i] == more[i]);
            assert(bound.contains_key(variable_name(i)));
            if variable_name(i) == name {
                lemma_variable_names(i, count);
            }
        }
    }
    assert forall|key: Seq<char>| #[trigger] next.contains_key(key) implies exists|i: int|
        0 <= i < more.len() && key == #[trigger] variable_name(i) by {
        if key == name {
            assert(key == variable_name(count));
        } else {
            assert(bound.contains_key(key));
            let i = choose|i: int| 0 <= i < tokens.take(count).len() && key == variable_name(i);
            assert(key == variable_name(i));
        }
    }
}

/// Checks that every variable in `source` is one of `known` and that every tag is closed.
pub(crate) fn check_variables(source: &str, known: &[&'static str]) -> (r: Result<
    (),
    AutomationError,
>)
    ensures
        match r {
            Ok(()) => checked(source@, text::views(known@).to_set()) is Ok,
            Err(e) => checked(source@, text::views(known@).to_set()) == Err::<(), ErrorModel>(e@),
        },
{
    let ghost set = text::views(known@).to_set();
    let mut rest = source;
    loop
        invariant
            set == text::views(known@).to_set(),
            first_unknown(parse(source@).tokens, set) == first_unknown(parse(rest@).tokens, set),
            parse(source@).closed == parse(rest@).closed,
        decreases rest@.len(),
    {
        match text::split_once(rest, "{{") {
            None => {
                return Ok(());
            },
            Some((head, opened)) => match text::split_once(opened, "}}") {
                None => {
                    return Err(invalid("event variable is missing a closing tag"));
                },
                Some((inner, next)) => {
                    proof {
                        lemma_parse_step(rest@, head@, opened@, inner@, next@);
                    }
                    let key = text::trim(inner);
                    if !text::contains_str(known, key) {
                        let mut message = "this trigger does not provide variable ".to_owned();
                        message.append(key);
                        return Err(AutomationError::Invalid(message));
                    }
                    rest = next;
                },
            },
        }
    }
}

/// Replaces every `{{ variable }}` token of `source` by the value that the event gives it.
pub fn render_text(source: &str, event: &AutomationEvent) -> (r: Result<String, AutomationError>)
    ensures
        match r {
            Ok(output) => rendered(source@, event@.variables) == Ok::<Seq<char>, ErrorModel>(
                output@,
            ),
            Err(e) => rendered(source@, event@.variables) == Err::<Seq<char>, ErrorModel>(e@),
        },
{
    let ghost values = event.variables@;
    let ghost whole = parse(source@);
    let mut output = String::new();
    let mut rest = source;
    assert(output@ + filled(whole.tokens, whole.tail, values) =~= filled(
        whole.tokens,
        whole.tail,
        values,
    ));
    loop
        invariant
            values == event.variables@,
            whole == parse(source@),
            first_unknown(whole.tokens, values.dom()) == first_unknown(
                parse(rest@).tokens,
                values.dom(),
            ),
            whole.closed == parse(rest@).closed,
            filled(whole.tokens, whole.tail, values) == output@ + filled(
                parse(rest@).tokens,
                parse(rest@).tail,
                values,
            ),
        decreases rest@.len(),
    {
        match text::split_once(rest, "{{") {
            None => {
                output.append(rest);
                return Ok(output);
            },
            Some((head, opened)) => match text::split_once(opened, "}}") {
                None => {
                    return Err(invalid("invalid variable"));
                },
                Some((inner, next)) => {
                    proof {
                        lemma_parse_step(rest@, head@, opened@, inner@, next@);
                    }
                    let key = text::trim(inner);
                    match event.variables.get(key) {
                        None => {
                            let mut message = "the event does not provide variable ".to_owned();
                            message.append(key);
                            message.append("; test with a real event");
                            return Err(AutomationError::Invalid(message));
                        },
                        Some(value) => {
                            let ghost before = output@;
                            let ghost after = filled(parse(next@).tokens, parse(next@).tail, values);
                            output.append(head);
                            output.append(value.as_str());
                            assert(before + (head@ + value@ + after) =~= output@ + after);
                        },
                    }
                    rest = next;
                },
            },
        }
    }
}

/// Appends how a script reads an environment variable.
fn append_reference(output: &mut String, name: &str, powershell: bool)
    ensures
        final(output)@ == old(output)@ + if powershell {
            "$env:"@ + name@
        } else {
            "${"@ + name@ + "}"@
        },
{
    let ghost before = output@;
    if powershell {
        output.append("$env:");
        output.append(name);
        assert(output@ =~= before + ("$env:"@ + name@));
    } else {
        output.append("${");
        output.append(name);
        output.append("}");
        assert(output@ =~= before + ("${"@ + name@ + "}"@));
    }
}

/// Replaces every `{{ variable }}` token of a script by a reference to an environment variable
/// that holds the value. Event data is never pasted into executable code.
#[verifier::spinoff_prover]
#[verifier::rlimit(40)]
pub fn prepare_script(script: &str, event: &AutomationEvent, powershell: bool) -> (r: Result<
    (String, TextMap),
    AutomationError,
>)
    ensures
        match r {
            Ok((output, environment)) => {
                &&& prepared(script@, event@.variables.dom(), powershell) == Ok::<
                    Seq<char>,
                    ErrorModel,
                >(output@)
                &&& binds(environment@, parse(script@).tokens, event@.variables)
            },
            Err(e) => prepared(script@, event@.variables.dom(), powershell) == Err::<
                Seq<char>,
                ErrorModel,
            >(e@),
        },
{
    let ghost values = event.variables@;
    let ghost whole = parse(script@);
    let ghost all = with_references(whole.tokens, whole.tail, 0, powershell);
    let mut output = String::new();
    let mut environment = TextMap::new();
    let ghost mut count: int = 0;
    let mut rest = script;
    assert(output@ + all =~= all);
    assert(whole.tokens.skip(0) =~= whole.tokens);
    assert(whole.tokens.take(0) =~= Seq::<Token>::empty());
    loop
        invariant
            values == event.variables@,
            whole == parse(script@),
            all == with_references(whole.tokens, whole.tail, 0, powershell),
            0 <= count <= whole.tokens.len(),
            environment@.dom().finite(),
            environment@.dom().len() == count,
            parse(rest@).tokens == whole.tokens.skip(count),
            parse(rest@).tail == whole.tail,
            parse(rest@).closed == whole.closed,
            first_unknown(whole.tokens, values.dom()) == first_unknown(
                parse(rest@).tokens,
                values.dom(),
            ),
            all == output@ + with_references(
                parse(rest@).tokens,
                whole.tail,
                count,
                powershell,
            ),
            binds(environment@, whole.tokens.take(count), values),
        decreases rest@.len(),
    {
        match text::split_once(rest, "{{") {
            None => {
                output.append(rest);
                assert(whole.tokens.take(count) =~= whole.tokens);
                return Ok((output, environment));
            },
            Some((head, opened)) => match text::split_once(opened, "}}") {
                None => {
                    return Err(invalid("invalid event variable"));
                },
                Some((inner, next)) => {
                    proof {
                        lemma_parse_step(rest@, head@, opened@, inner@, next@);
                        assert(whole.tokens[count] == parse(rest@).tokens[0]);
                        assert(whole.tokens.skip(count).drop_first() =~= whole.tokens.skip(
                            count + 1,
                        ));
                    }
                    let key = text::trim(inner);
                    match event.variables.get(key) {
                        None => {
                            let mut message = "the event does not provide variable ".to_owned();
                            message.append(key);
                            message.append("; select a real activity when testing");
                            return Err(AutomationError::Invalid(message));
                        },
                        Some(value) => {
                            let ghost before = output@;
                            let ghost after = with_references(
                                parse(next@).tokens,
                                whole.tail,
                                count + 1,
                                powershell,
                            );
                            let mut name = "ARCRELAY_EVENT_".to_owned();
                            name.append(text::decimal_text(environment.len() as u64).as_str());
                            output.append(head);
                            append_reference(&mut output, name.as_str(), powershell);
                            assert(before + (head@ + variable_reference(count, powershell)
                                + after) =~= output@ + after);
                            let ghost bound = environment@;
                            proof {
                                lemma_bind_next(
                                    bound,
                                    whole.tokens,
                                    values,
                                    count,
                                    name@,
                                    value@,
                                );
                            }
                            environment.insert(name, value.clone());
                            proof {
                                count = count + 1;
                            }
                        },
                    }
                    rest = next;
                },
            },
        }
    }
}

/// A text without an opening tag is rendered as it stands.
pub proof fn law_plain_text_is_kept(source: Seq<char>, values: Map<Seq<char>, Seq<char>>)
    requires
        forall|at: int| !#[trigger] text::occurs_at(source, "{{"@, at),
    ensures
        rendered(source, values) == Ok::<Seq<char>, ErrorModel>(source),
{
    assert(forall|at: int| !text::first_at(source, "{{"@, at));
    assert(text::split_first(source, "{{"@) is None);
}

/// A script without an opening tag is run as it stands, with an empty environment.
pub proof fn law_plain_script_is_kept(
    script: Seq<char>,
    known: Set<Seq<char>>,
    powershell: bool,
    environment: Map<Seq<char>, Seq<char>>,
    values: Map<Seq<char>, Seq<char>>,
)
    requires
        forall|at: int| !#[trigger] text::occurs_at(script, "{{"@, at),
        binds(environment, parse(script).tokens, values),
    ensures
        prepared(script, known, powershell) == Ok::<Seq<char>, ErrorModel>(script),
        environment == Map::<Seq<char>, Seq<char>>::empty(),
{
    assert(forall|at: int| !text::first_at(script, "{{"@, at));
    assert(text::split_first(script, "{{"@) is None);
    assert(environment =~= Map::<Seq<char>, Seq<char>>::empty());
}

/// A text that was checked against a set of variables renders for every event that provides at
/// least those variables.
pub proof fn law_checked_text_renders(
    source: Seq<char>,
    known: Set<Seq<char>>,
    values: Map<Seq<char>, Seq<char>>,
)
    requires
        checked(source, known) is Ok,
        known.subset_of(values.dom()),
    ensures
        rendered(source, values) is Ok,
        prepared(source, values.dom(), true) is Ok,
        prepared(source, values.dom(), false) is Ok,
{
    lemma_known_in_more(parse(source).tokens, known, values.dom());
}

proof fn lemma_known_in_more(tokens: Seq<Token>, known: Set<Seq<char>>, more: Set<Seq<char>>)
    requires
        first_unknown(tokens, known) is None,
        known.subset_of(more),
    ensures
        first_unknown(tokens, more) is None,
    decreases tokens.len(),
{
    if tokens.len() > 0 {
        lemma_known_in_more(tokens.drop_first(), known, more);
    }
}

/// The values of an event never take part in the code of a script: all events for which a script
/// can be prepared run the same code, and events that provide the same variables fare the same.
pub proof fn law_event_data_is_not_code(
    script: Seq<char>,
    powershell: bool,
    values: Map<Seq<char>, Seq<char>>,
    others: Map<Seq<char>, Seq<char>>,
)
    ensures
        prepared(script, values.dom(), powershell) is Ok && prepared(
            script,
            others.dom(),
            powershell,
        ) is Ok || values.dom() == others.dom() ==> prepared(script, values.dom(), powershell)
            == prepared(script, others.dom(), powershell),
{
}

/// A prepared script's environment gives each variable the value that the event gives it.
pub proof fn law_environment_holds_the_values(
    script: Seq<char>,
    environment: Map<Seq<char>, Seq<char>>,
    values: Map<Seq<char>, Seq<char>>,
    i: int,
)
    requires
        binds(environment, parse(script).tokens, values),
        0 <= i < parse(script).tokens.len(),
    ensures
        environment.contains_key(variable_name(i)),
        environment[variable_name(i)] == values[parse(script).tokens[i].key],
{
}

/// `mark` does not stand in `text` before the position `at`.
pub open spec fn absent_before(text: Seq<char>, mark: Seq<char>, at: int) -> bool {
    forall|before: Seq<char>, after: Seq<char>|
        text == #[trigger] (before + mark + after) ==> before.len() >= at
}

proof fn lemma_split_here(text: Seq<char>, mark: Seq<char>, head: Seq<char>, tail: Seq<char>)
    requires
        text == head + mark + tail,
        absent_before(text, mark, head.len() as int),
    ensures
        text::split_first(text, mark) == Some((head, tail)),
{
    text::law_split_at_the_first(text, mark, head, tail);
    let (h, t) = text::split_first(text, mark)->0;
    assert(text == h + mark + t);
    assert(h.len() == head.len());
    assert(h =~= text.take(head.len() as int));
    assert(head =~= text.take(head.len() as int));
    assert(t =~= text.skip((head.len() + mark.len()) as int));
    assert(tail =~= text.skip((head.len() + mark.len()) as int));
}

proof fn lemma_parse_token(source: Seq<char>, head: Seq<char>, inner: Seq<char>, next: Seq<char>)
    requires
        source == head + "{{"@ + (inner + "}}"@ + next),
        absent_before(source, "{{"@, head.len() as int),
        absent_before(inner + "}}"@ + next, "}}"@, inner.len() as int),
    ensures
        parse(source).tokens == seq![Token { head, key: text::trimmed(inner) }] + parse(next).tokens,
        parse(source).tail == parse(next).tail,
        parse(source).closed == parse(next).closed,
{
    let opened = inner + "}}"@ + next;
    lemma_split_here(source, "{{"@, head, opened);
    lemma_split_here(opened, "}}"@, inner, next);
    lemma_split_shrinks(source, head, opened, inner, next);
}

/// Rendering goes from token to token: the text in front of the first token is kept, the token gives
/// way to the value of its variable, and what follows is rendered as if it stood alone. A variable
/// that the event does not provide is the error, and so is what is wrong behind the token.
pub proof fn law_rendering_replaces_tokens(
    head: Seq<char>,
    inner: Seq<char>,
    next: Seq<char>,
    values: Map<Seq<char>, Seq<char>>,
)
    requires
        absent_before(head + "{{"@ + (inner + "}}"@ + next), "{{"@, head.len() as int),
        absent_before(inner + "}}"@ + next, "}}"@, inner.len() as int),
    ensures
        ({
            let r = rendered(head + "{{"@ + (inner + "}}"@ + next), values);
            let key = text::trimmed(inner);
            &&& !values.contains_key(key) ==> r == Err::<Seq<char>, ErrorModel>(
                ErrorModel::Invalid(
                    "the event does not provide variable "@ + key + "; test with a real event"@,
                ),
            )
            &&& values.contains_key(key) && rendered(next, values) is Err ==> r == rendered(
                next,
                values,
            )
            &&& values.contains_key(key) && rendered(next, values) is Ok ==> r == Ok::<
                Seq<char>,
                ErrorModel,
            >(head + values[key] + rendered(next, values)->Ok_0)
        }),
{
    let source = head + "{{"@ + (inner + "}}"@ + next);
    lemma_parse_token(source, head, inner, next);
    let tokens = parse(source).tokens;
    assert(tokens.drop_first() =~= parse(next).tokens);
    assert(tokens[0] == (Token { head, key: text::trimmed(inner) }));
}

/// Checking goes from token to token too: the first variable that the trigger does not provide is the
/// error, and else what is wrong behind the token.
pub proof fn law_checking_finds_unknown_variables(
    head: Seq<char>,
    inner: Seq<char>,
    next: Seq<char>,
    known: Set<Seq<char>>,
)
    requires
        absent_before(head + "{{"@ + (inner + "}}"@ + next), "{{"@, head.len() as int),
        absent_before(inner + "}}"@ + next, "}}"@, inner.len() as int),
    ensures
        ({
            let r = checked(head + "{{"@ + (inner + "}}"@ + next), known);
            let key = text::trimmed(inner);
            &&& !known.contains(key) ==> r == Err::<(), ErrorModel>(
                ErrorModel::Invalid("this trigger does not provide variable "@ + key),
            )
            &&& known.contains(key) ==> r == checked(next, known)
        }),
{
    let source = head + "{{"@ + (inner + "}}"@ + next);
    lemma_parse_token(source, head, inner, next);
    let tokens = parse(source).tokens;
    assert(tokens.drop_first() =~= parse(next).tokens);
    assert(tokens[0] == (Token { head, key: text::trimmed(inner) }));
}

/// A tag that is opened and not closed is an error, wherever a text is used.
pub proof fn law_unclosed_tags_are_errors(
    head: Seq<char>,
    rest: Seq<char>,
    values: Map<Seq<char>, Seq<char>>,
    powershell: bool,
)
    requires
        absent_before(head + "{{"@ + rest, "{{"@, head.len() as int),
        forall|before: Seq<char>, after: Seq<char>| rest != #[trigger] (before + "}}"@ + after),
    ensures
        ({
            let source = head + "{{"@ + rest;
            &&& rendered(source, values) == Err::<Seq<char>, ErrorModel>(
                ErrorModel::Invalid("invalid variable"@),
            )
            &&& checked(source, values.dom()) == Err::<(), ErrorModel>(
                ErrorModel::Invalid("event variable is missing a closing tag"@),
            )
            &&& prepared(source, values.dom(), powershell) == Err::<Seq<char>, ErrorModel>(
                ErrorModel::Invalid("invalid event variable"@),
            )
        }),
{
    let source = head + "{{"@ + rest;
    lemma_split_here(source, "{{"@, head, rest);
    if text::split_first(rest, "}}"@) is Some {
        let at = choose|at: int| text::first_at(rest, "}}"@, at);
        assert(text::occurs_at(rest, "}}"@, at));
        assert(rest =~= rest.take(at) + "}}"@ + rest.skip(at + "}}"@.len())) by {
            assert(rest.subrange(at, at + "}}"@.len()) == "}}"@);
            assert(rest =~= rest.take(at) + rest.subrange(at, at + "}}"@.len()) + rest.skip(
                at + "}}"@.len(),
            ));
        }
    }
}

/// A text without an opening tag uses no variable, so that it is right for every trigger.
pub proof fn law_plain_text_is_right(source: Seq<char>, known: Set<Seq<char>>)
    requires
        forall|before: Seq<char>, after: Seq<char>| source != #[trigger] (before + "{{"@ + after),
    ensures
        checked(source, known) is Ok,
        forall|values: Map<Seq<char>, Seq<char>>| #[trigger]
            rendered(source, values) == Ok::<Seq<char>, ErrorModel>(source),
        forall|powershell: bool| #[trigger]
            prepared(source, known, powershell) == Ok::<Seq<char>, ErrorModel>(source),
{
    if text::split_first(source, "{{"@) is Some {
        let at = choose|at: int| text::first_at(source, "{{"@, at);
        assert(text::occurs_at(source, "{{"@, at));
        assert(source =~= source.take(at) + source.subrange(at, at + "{{"@.len()) + source.skip(
            at + "{{"@.len(),
        ));
    }
}

proof fn lemma_reference_behind(
    tokens: Seq<Token>,
    last: Token,
    tail: Seq<char>,
    i: int,
    powershell: bool,
)
    ensures
        with_references(tokens.push(last), tail, i, powershell) == with_references(
            tokens,
            last.head + variable_reference(i + tokens.len(), powershell) + tail,
            i,
            powershell,
        ),
    decreases tokens.len(),
{
    reveal_with_fuel(with_references, 2);
    let all = tokens.push(last);
    if tokens.len() == 0 {
        assert(all.drop_first() =~= Seq::<Token>::empty());
    } else {
        let rest = tokens.drop_first();
        assert(all.drop_first() =~= rest.push(last));
        assert(all[0] == tokens[0]);
        assert((i + 1) + rest.len() == i + tokens.len());
        lemma_reference_behind(rest, last, tail, i + 1, powershell);
    }
}

/// The tokens of a script give way to references to environment variables that are numbered from
/// zero on, in the way that the shell at hand reads them; all other text is kept.
pub proof fn law_references_are_numbered(
    tokens: Seq<Token>,
    last: Token,
    tail: Seq<char>,
    powershell: bool,
)
    ensures
        with_references(Seq::empty(), tail, 0, powershell) == tail,
        ({
            let name = "ARCRELAY_EVENT_"@ + text::decimal(tokens.len());
            let reference = if powershell {
                "$env:"@ + name
            } else {
                "${"@ + name + "}"@
            };
            with_references(tokens.push(last), tail, 0, powershell) == with_references(
                tokens,
                last.head + reference + tail,
                0,
                powershell,
            )
        }),
{
    lemma_reference_behind(tokens, last, tail, 0, powershell);
}

/// A script is prepared exactly where its tags are closed and the event provides each of its
/// variables; the first that it does not provide is the error.
pub proof fn law_preparing_replaces_tokens(
    head: Seq<char>,
    inner: Seq<char>,
    next: Seq<char>,
    known: Set<Seq<char>>,
    powershell: bool,
)
    requires
        absent_before(head + "{{"@ + (inner + "}}"@ + next), "{{"@, head.len() as int),
        absent_before(inner + "}}"@ + next, "}}"@, inner.len() as int),
    ensures
        ({
            let source = head + "{{"@ + (inner + "}}"@ + next);
            let r = prepared(source, known, powershell);
            let key = text::trimmed(inner);
            let rest = parse(next);
            &&& !known.contains(key) ==> r == Err::<Seq<char>, ErrorModel>(
                ErrorModel::Invalid(
                    "the event does not provide variable "@ + key
                        + "; select a real activity when testing"@,
                ),
            )
            &&& known.contains(key) && prepared(next, known, powershell) is Err ==> r == prepared(
                next,
                known,
                powershell,
            )
            &&& known.contains(key) && prepared(next, known, powershell) is Ok ==> {
                &&& r == Ok::<Seq<char>, ErrorModel>(
                    with_references(
                        seq![Token { head, key }] + rest.tokens,
                        rest.tail,
                        0,
                        powershell,
                    ),
                )
                &&& prepared(next, known, powershell)->Ok_0 == with_references(
                    rest.tokens,
                    rest.tail,
                    0,
                    powershell,
                )
            }
        }),
{
    let source = head + "{{"@ + (inner + "}}"@ + next);
    lemma_parse_token(source, head, inner, next);
    let tokens = parse(source).tokens;
    assert(tokens.drop_first() =~= parse(next).tokens);
    assert(tokens[0] == (Token { head, key: text::trimmed(inner) }));
}

/// The environment of a prepared script holds one variable for each token, numbered from zero on, with
/// the value that the event gives to the token's variable, and holds nothing else.
pub proof fn law_environment_of_a_script(
    environment: Map<Seq<char>, Seq<char>>,
    tokens: Seq<Token>,
    values: Map<Seq<char>, Seq<char>>,
    i: int,
    name: Seq<char>,
)
    requires
        binds(environment, tokens, values),
        0 <= i < tokens.len(),
    ensures
        environment.contains_key("ARCRELAY_EVENT_"@ + text::decimal(i as nat)),
        environment["ARCRELAY_EVENT_"@ + text::decimal(i as nat)] == values[tokens[i].key],
        environment.contains_key(name) ==> exists|j: nat|
            j < tokens.len() && name == "ARCRELAY_EVENT_"@ + #[trigger] text::decimal(j),
{
    assert(environment.contains_key(variable_name(i)));
    if environment.contains_key(name) {
        let j = choose|j: int| 0 <= j < tokens.len() && name == #[trigger] variable_name(j);
        assert(name == "ARCRELAY_EVENT_"@ + text::decimal(j as nat));
    }
}

} // verus!
