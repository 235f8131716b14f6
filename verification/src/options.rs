//! Options and positional arguments: what the arguments of a command
//! give to it.
//!
//! An option is written `--name value`, `--name=value` or, where it has a
//! short form, `-n value`; a flag is written `--name` or `-n`. No option
//! may be given twice. Every other argument is a positional one.

use vstd::prelude::*;
use crate::state::{first_match, lemma_first_match_is};
use crate::text::{opt_text, texts};

verus! {

/// Why arguments are refused.
#[derive(Debug, PartialEq, Eq)]
pub enum CliError {
    /// No command is named.
    MissingCommand,
    /// The command, or the subcommand, is not known.
    UnknownCommand(String),
    /// The option is not one of the command.
    UnknownArgument(String),
    /// The option is the last argument, and has no value.
    MissingValue(String),
    /// The option is given twice.
    DuplicateArgument(String),
    /// The flag is given a value.
    UnexpectedValue(String),
    /// The command needs this argument, and it is not given.
    MissingArgument(String),
    /// The command takes no such positional argument.
    UnexpectedArgument(String),
    /// The value of the option is not what the option takes.
    InvalidValue(String, String),
    /// Help is asked for.
    HelpRequested,
    /// The version is asked for.
    VersionRequested,
}

/// The view of [`CliError`]: the same, with every string as a `Seq<char>`.
pub enum CliErrorView {
    MissingCommand,
    UnknownCommand(Seq<char>),
    UnknownArgument(Seq<char>),
    MissingValue(Seq<char>),
    DuplicateArgument(Seq<char>),
    UnexpectedValue(Seq<char>),
    MissingArgument(Seq<char>),
    UnexpectedArgument(Seq<char>),
    InvalidValue(Seq<char>, Seq<char>),
    HelpRequested,
    VersionRequested,
}

impl View for CliError {
    type V = CliErrorView;

    open spec fn view(&self) -> CliErrorView {
        match self {
            CliError::MissingCommand => CliErrorView::MissingCommand,
            CliError::UnknownCommand(t) => CliErrorView::UnknownCommand(t@),
            CliError::UnknownArgument(t) => CliErrorView::UnknownArgument(t@),
            CliError::MissingValue(t) => CliErrorView::MissingValue(t@),
            CliError::DuplicateArgument(t) => CliErrorView::DuplicateArgument(t@),
            CliError::UnexpectedValue(t) => CliErrorView::UnexpectedValue(t@),
            CliError::MissingArgument(t) => CliErrorView::MissingArgument(t@),
            CliError::UnexpectedArgument(t) => CliErrorView::UnexpectedArgument(t@),
            CliError::InvalidValue(n, v) => CliErrorView::InvalidValue(n@, v@),
            CliError::HelpRequested => CliErrorView::HelpRequested,
            CliError::VersionRequested => CliErrorView::VersionRequested,
        }
    }
}

/// The sentence that describes `e`.
pub open spec fn cli_message_of(e: CliErrorView) -> Seq<char> {
    match e {
        CliErrorView::MissingCommand => "a command is required"@,
        CliErrorView::UnknownCommand(t) => "unrecognized command '"@ + t + "'"@,
        CliErrorView::UnknownArgument(t) => "unexpected argument '"@ + t + "'"@,
        CliErrorView::MissingValue(t) => "a value is required for '--"@ + t + "'"@,
        CliErrorView::DuplicateArgument(t) => "the argument '--"@ + t
            + "' cannot be used multiple times"@,
        CliErrorView::UnexpectedValue(t) => "the flag '--"@ + t + "' takes no value"@,
        CliErrorView::MissingArgument(t) => "the argument '"@ + t + "' is required"@,
        CliErrorView::UnexpectedArgument(t) => "unexpected argument '"@ + t + "'"@,
        CliErrorView::InvalidValue(n, v) => "invalid value '"@ + v + "' for '--"@ + n + "'"@,
        CliErrorView::HelpRequested => "help requested"@,
        CliErrorView::VersionRequested => "version requested"@,
    }
}

impl CliError {
    /// The sentence that describes this error.
    pub fn message(&self) -> (r: String)
        ensures
            r@ == cli_message_of(self@),
    {
        match self {
            CliError::MissingCommand => String::from_str("a command is required"),
            CliError::UnknownCommand(t) => {
                String::from_str("unrecognized command '").concat(t.as_str()).concat("'")
            },
            CliError::UnknownArgument(t) => {
                String::from_str("unexpected argument '").concat(t.as_str()).concat("'")
            },
            CliError::MissingValue(t) => {
                String::from_str("a value is required for '--").concat(t.as_str()).concat("'")
            },
            CliError::DuplicateArgument(t) => {
                String::from_str("the argument '--").concat(t.as_str()).concat(
                    "' cannot be used multiple times",
                )
            },
            CliError::UnexpectedValue(t) => {
                String::from_str("the flag '--").concat(t.as_str()).concat("' takes no value")
            },
            CliError::MissingArgument(t) => {
                String::from_str("the argument '").concat(t.as_str()).concat("' is required")
            },
            CliError::UnexpectedArgument(t) => {
                String::from_str("unexpected argument '").concat(t.as_str()).concat("'")
            },
            CliError::InvalidValue(n, v) => {
                String::from_str("invalid value '").concat(v.as_str()).concat("' for '--").concat(
                    n.as_str(),
                ).concat("'")
            },
            CliError::HelpRequested => String::from_str("help requested"),
            CliError::VersionRequested => String::from_str("version requested"),
        }
    }
}

/// An option of a command: its name, its short form where it has one,
/// and whether it takes a value or is a flag.
pub struct OptionRule {
    pub name: &'static str,
    pub short: Option<char>,
    pub takes_value: bool,
}

/// The view of [`OptionRule`]: the same, with every string as a `Seq<char>`.
pub struct OptionRuleView {
    pub name: Seq<char>,
    pub short: Option<char>,
    pub takes_value: bool,
}

impl View for OptionRule {
    type V = OptionRuleView;

    open spec fn view(&self) -> OptionRuleView {
        OptionRuleView { name: self.name@, short: self.short, takes_value: self.takes_value }
    }
}

/// The options of a command, as texts.
pub open spec fn rule_views(rules: Seq<OptionRule>) -> Seq<OptionRuleView> {
    Seq::new(rules.len(), |i: int| rules[i]@)
}

/// What an argument is by its form: an option by its name, with the
/// value that is written after `=` where there is one; an option by its
/// short form; or a plain text.
pub enum Token {
    Long(Seq<char>, Option<Seq<char>>),
    Short(char),
    Plain(Seq<char>),
}

/// The place of the first `=` of `s`, or its length where it has none.
pub open spec fn first_equals(s: Seq<char>) -> int
    decreases s.len(),
{
    if s.len() == 0 || s[0] == '=' {
        0
    } else {
        1 + first_equals(s.drop_first())
    }
}

/// What the argument `arg` is by its form. Two dashes start an option's
/// name; one dash and one more character are a short form; all else is
/// plain text.
pub open spec fn token(arg: Seq<char>) -> Token {
    if arg.len() >= 2 && arg[0] == '-' && arg[1] == '-' {
        let body = arg.skip(2);
        let cut = first_equals(body);
        if cut < body.len() {
            Token::Long(body.take(cut), Some(body.skip(cut + 1)))
        } else {
            Token::Long(body, None)
        }
    } else if arg.len() == 2 && arg[0] == '-' {
        Token::Short(arg[1])
    } else {
        Token::Plain(arg)
    }
}

/// Selects the option named `name`.
pub open spec fn rule_named(name: Seq<char>) -> spec_fn(OptionRuleView) -> bool {
    |r: OptionRuleView| r.name == name
}

/// Selects the option with the short form `c`.
pub open spec fn rule_short(c: char) -> spec_fn(OptionRuleView) -> bool {
    |r: OptionRuleView| r.short == Some(c)
}

/// Selects the value of the option named `name`.
pub open spec fn bound_to(name: Seq<char>) -> spec_fn((Seq<char>, Seq<char>)) -> bool {
    |b: (Seq<char>, Seq<char>)| b.0 == name
}

/// What arguments give: the options that are given, each by its name
/// with its value, a flag with an empty one, and the positional
/// arguments, in order.
pub struct BoundView {
    pub values: Seq<(Seq<char>, Seq<char>)>,
    pub positionals: Seq<Seq<char>>,
}

/// The value that `bound` gives to the option named `name`.
pub open spec fn value_of(bound: BoundView, name: Seq<char>) -> Option<Seq<char>> {
    let i = first_match(bound.values, bound_to(name));
    if i < bound.values.len() {
        Some(bound.values[i].1)
    } else {
        None
    }
}

/// What the arguments `args` from the place `from` on give, after what
/// came before gave `so_far`: each option of `rules` once at most, with
/// the value written after `=` or the argument that follows; a flag
/// without a value; every plain text a positional argument.
pub open spec fn bound_from(
    rules: Seq<OptionRuleView>,
    args: Seq<Seq<char>>,
    from: int,
    so_far: BoundView,
) -> Result<BoundView, CliErrorView>
    decreases args.len() - from,
{
    if from < 0 || from >= args.len() {
        Ok(so_far)
    } else {
        let arg = args[from];
        match token(arg) {
            Token::Plain(t) => bound_from(
                rules,
                args,
                from + 1,
                BoundView { positionals: so_far.positionals.push(t), ..so_far },
            ),
            Token::Long(name, inline) => {
                let i = first_match(rules, rule_named(name));
                if i >= rules.len() {
                    Err(CliErrorView::UnknownArgument(arg))
                } else {
                    given(rules, args, from, so_far, rules[i], inline)
                }
            },
            Token::Short(c) => {
                let i = first_match(rules, rule_short(c));
                if i >= rules.len() {
                    Err(CliErrorView::UnknownArgument(arg))
                } else {
                    given(rules, args, from, so_far, rules[i], None)
                }
            },
        }
    }
}

/// What the arguments give from the place `from` on, where the argument
/// there is the option `rule`, with the value `inline` written in it.
pub open spec fn given(
    rules: Seq<OptionRuleView>,
    args: Seq<Seq<char>>,
    from: int,
    so_far: BoundView,
    rule: OptionRuleView,
    inline: Option<Seq<char>>,
) -> Result<BoundView, CliErrorView>
    decreases args.len() - from, 0int,
{
    if from < 0 || from >= args.len() {
        Ok(so_far)
    } else if value_of(so_far, rule.name) is Some {
        Err(CliErrorView::DuplicateArgument(rule.name))
    } else if !rule.takes_value {
        if inline is Some {
            Err(CliErrorView::UnexpectedValue(rule.name))
        } else {
            bound_from(
                rules,
                args,
                from + 1,
                BoundView { values: so_far.values.push((rule.name, Seq::empty())), ..so_far },
            )
        }
    } else if inline is Some {
        bound_from(
            rules,
            args,
            from + 1,
            BoundView { values: so_far.values.push((rule.name, inline->0)), ..so_far },
        )
    } else if from + 1 < args.len() {
        bound_from(
            rules,
            args,
            from + 2,
            BoundView { values: so_far.values.push((rule.name, args[from + 1])), ..so_far },
        )
    } else {
        Err(CliErrorView::MissingValue(rule.name))
    }
}

/// What arguments give: the options that are given, each by its name
/// with its value, and the positional arguments.
pub struct Bound {
    pub given: Vec<(String, String)>,
    pub positionals: Vec<String>,
}

impl View for Bound {
    type V = BoundView;

    open spec fn view(&self) -> BoundView {
        BoundView {
            values: Seq::new(self.given@.len(), |i: int| (self.given@[i].0@, self.given@[i].1@)),
            positionals: texts(self.positionals@),
        }
    }
}

/// An argument by its form, with what it holds.
enum Form {
    Long(String, Option<String>),
    Short(char),
    Plain,
}

/// What the argument `arg` is by its form.
fn form_of(arg: &str) -> (r: Form)
    ensures
        match token(arg@) {
            Token::Long(name, inline) => r matches Form::Long(n, v) && n@ == name && opt_text(v)
                == inline,
            Token::Short(c) => r == Form::Short(c),
            Token::Plain(t) => r == Form::Plain && t == arg@,
        },
{
    let n = arg.unicode_len();
    if n >= 2 && arg.get_char(0) == '-' && arg.get_char(1) == '-' {
        let ghost body = arg@.skip(2);
        let mut cut: usize = 2;
        proof {
            assert(body.skip(0) =~= body);
        }
        while cut < n && arg.get_char(cut) != '='
            invariant
                2 <= cut <= n,
                n == arg@.len(),
                body == arg@.skip(2),
                first_equals(body) == (cut - 2) + first_equals(body.skip(cut - 2)),
            decreases n - cut,
        {
            assert(body.skip(cut - 2).drop_first() =~= body.skip(cut - 1));
            cut += 1;
        }
        assert(first_equals(body) == cut - 2);
        if cut < n {
            let name = String::from_str(arg.substring_char(2, cut));
            let value = String::from_str(arg.substring_char(cut + 1, n));
            assert(name@ =~= body.take(cut - 2));
            assert(value@ =~= body.skip(cut - 2 + 1));
            Form::Long(name, Some(value))
        } else {
            let name = String::from_str(arg.substring_char(2, n));
            assert(name@ =~= body);
            Form::Long(name, None)
        }
    } else if n == 2 && arg.get_char(0) == '-' {
        Form::Short(arg.get_char(1))
    } else {
        Form::Plain
    }
}

/// The place of the option named `name`.
fn find_named(rules: &Vec<OptionRule>, name: &str) -> (r: usize)
    ensures
        r == first_match(rule_views(rules@), rule_named(name@)),
        r <= rules@.len(),
{
    let mut i: usize = 0;
    while i < rules.len() && !rules[i].name.eq(name)
        invariant
            i <= rules@.len(),
            forall|j: int| 0 <= j < i ==> rules@[j].name@ != name@,
        decreases rules@.len() - i,
    {
        i += 1;
    }
    proof {
        let all = rule_views(rules@);
        assert forall|j: int| 0 <= j < i implies !rule_named(name@)(#[trigger] all[j]) by {
            assert(all[j].name == rules@[j].name@);
        }
        if i < rules@.len() {
            assert(all[i as int].name == rules@[i as int].name@);
        }
        lemma_first_match_is(all, rule_named(name@), i as int);
    }
    i
}

/// Whether `rule` has the short form `c`.
fn has_short(rule: &OptionRule, c: char) -> (r: bool)
    ensures
        r == (rule.short == Some(c)),
{
    match rule.short {
        Some(s) => s == c,
        None => false,
    }
}

/// The place of the option with the short form `c`.
fn find_short(rules: &Vec<OptionRule>, c: char) -> (r: usize)
    ensures
        r == first_match(rule_views(rules@), rule_short(c)),
        r <= rules@.len(),
{
    let mut i: usize = 0;
    while i < rules.len() && !has_short(&rules[i], c)
        invariant
            i <= rules@.len(),
            forall|j: int| 0 <= j < i ==> rules@[j].short != Some(c),
        decreases rules@.len() - i,
    {
        i += 1;
    }
    proof {
        let all = rule_views(rules@);
        assert forall|j: int| 0 <= j < i implies !rule_short(c)(#[trigger] all[j]) by {
            assert(all[j].short == rules@[j].short);
        }
        if i < rules@.len() {
            assert(all[i as int].short == rules@[i as int].short);
        }
        lemma_first_match_is(all, rule_short(c), i as int);
    }
    i
}

impl Bound {
    /// The value of the option named `name`, where it is given.
    pub fn value(&self, name: &str) -> (r: Option<String>)
        ensures
            opt_text(r) == value_of(self@, name@),
    {
        let mut i: usize = 0;
        while i < self.given.len() && !self.given[i].0.as_str().eq(name)
            invariant
                i <= self.given@.len(),
                forall|j: int| 0 <= j < i ==> self.given@[j].0@ != name@,
            decreases self.given@.len() - i,
        {
            i += 1;
        }
        proof {
            let all = self@.values;
            assert forall|j: int| 0 <= j < i implies !bound_to(name@)(#[trigger] all[j]) by {
                assert(all[j].0 == self.given@[j].0@);
            }
            if i < self.given@.len() {
                assert(all[i as int] == (self.given@[i as int].0@, self.given@[i as int].1@));
            }
            lemma_first_match_is(all, bound_to(name@), i as int);
        }
        if i < self.given.len() {
            Some(self.given[i].1.clone())
        } else {
            None
        }
    }
}

/// What the arguments `args` from the place `start` on give to a
/// command with the options `rules`.
pub fn bind(rules: &Vec<OptionRule>, args: &Vec<String>, start: usize) -> (r: Result<
    Bound,
    CliError,
>)
    ensures
        match bound_from(
            rule_views(rules@),
            texts(args@),
            start as int,
            BoundView { values: Seq::empty(), positionals: Seq::empty() },
        ) {
            Ok(b) => r is Ok && r->Ok_0@ == b,
            Err(e) => r is Err && r->Err_0@ == e,
        },
{
    let ghost all = texts(args@);
    let ghost table = rule_views(rules@);
    let ghost whole = bound_from(
        table,
        all,
        start as int,
        BoundView { values: Seq::empty(), positionals: Seq::empty() },
    );
    let mut bound = Bound { given: Vec::new(), positionals: Vec::new() };
    assert(bound@.values =~= Seq::empty());
    assert(bound@.positionals =~= Seq::empty());
    let mut i: usize = start;
    while i < args.len()
        invariant
            all == texts(args@),
            table == rule_views(rules@),
            whole == bound_from(
                table,
                all,
                start as int,
                BoundView { values: Seq::empty(), positionals: Seq::empty() },
            ),
            whole == bound_from(table, all, i as int, bound@),
        decreases args@.len() - i,
    {
        let arg = args[i].as_str();
        let ghost before = bound@;
        assert(all[i as int] == arg@);
        let found = match form_of(arg) {
            Form::Plain => {
                bound.positionals.push(args[i].clone());
                assert(bound@.positionals =~= before.positionals.push(arg@));
                assert(bound@.values =~= before.values);
                i += 1;
                continue ;
            },
            Form::Long(name, inline) => {
                let at = find_named(rules, name.as_str());
                if at >= rules.len() {
                    return Err(CliError::UnknownArgument(args[i].clone()));
                }
                (at, inline)
            },
            Form::Short(c) => {
                let at = find_short(rules, c);
                if at >= rules.len() {
                    return Err(CliError::UnknownArgument(args[i].clone()));
                }
                (at, None)
            },
        };
        let rule = &rules[found.0];
        let inline = found.1;
        assert(table[found.0 as int] == rule@);
        assert(whole == given(table, all, i as int, before, rule@, opt_text(inline)));
        if bound.value(rule.name).is_some() {
            return Err(CliError::DuplicateArgument(String::from_str(rule.name)));
        }
        if !rule.takes_value {
            if inline.is_some() {
                return Err(CliError::UnexpectedValue(String::from_str(rule.name)));
            }
            bound.given.push((String::from_str(rule.name), String::new()));
            assert(bound@.values =~= before.values.push((rule@.name, Seq::empty())));
            assert(bound@.positionals =~= before.positionals);
            i += 1;
        } else {
            match inline {
                Some(v) => {
                    bound.given.push((String::from_str(rule.name), v));
                    assert(bound@.values =~= before.values.push((rule@.name, v@)));
                    assert(bound@.positionals =~= before.positionals);
                    i += 1;
                },
                None => {
                    if i + 1 < args.len() {
                        bound.given.push((String::from_str(rule.name), args[i + 1].clone()));
                        assert(all[i + 1] == args@[i + 1]@);
                        assert(bound@.values =~= before.values.push((rule@.name, all[i + 1])));
                        assert(bound@.positionals =~= before.positionals);
                        i += 2;
                    } else {
                        return Err(CliError::MissingValue(String::from_str(rule.name)));
                    }
                },
            }
        }
    }
    Ok(bound)
}

/// The value of the digit `c`.
pub open spec fn digit_value(c: char) -> nat {
    if c == '1' {
        1
    } else if c == '2' {
        2
    } else if c == '3' {
        3
    } else if c == '4' {
        4
    } else if c == '5' {
        5
    } else if c == '6' {
        6
    } else if c == '7' {
        7
    } else if c == '8' {
        8
    } else if c == '9' {
        9
    } else {
        0
    }
}

/// Whether `s` holds digits only.
pub open spec fn all_digits(s: Seq<char>) -> bool {
    forall|i: int| 0 <= i < s.len() ==> '0' <= #[trigger] s[i] <= '9'
}

/// The number that the digits `s` write.
pub open spec fn digits_value(s: Seq<char>) -> nat
    decreases s.len(),
{
    if s.len() == 0 {
        0
    } else {
        digits_value(s.drop_last()) * 10 + digit_value(s.last())
    }
}

/// The number from 0 to 255 that `s` writes in digits, where it writes
/// one.
pub open spec fn small_number(s: Seq<char>) -> Option<u8> {
    if s.len() > 0 && all_digits(s) && digits_value(s) <= 255 {
        Some(digits_value(s) as u8)
    } else {
        None
    }
}

/// The digits at the start of a number write no more than the number.
pub proof fn lemma_digits_prefix(s: Seq<char>, n: int)
    requires
        0 <= n <= s.len(),
    ensures
        digits_value(s.take(n)) <= digits_value(s),
    decreases s.len(),
{
    if n == s.len() {
        assert(s.take(n) =~= s);
    } else {
        assert(s.drop_last().take(n) =~= s.take(n));
        lemma_digits_prefix(s.drop_last(), n);
    }
}

/// The value of the digit `c`, where it is one.
fn digit_of(c: char) -> (r: Option<u32>)
    ensures
        r is Some <==> '0' <= c <= '9',
        r is Some ==> r->0 == digit_value(c) && r->0 <= 9,
{
    if c == '0' {
        Some(0)
    } else if c == '1' {
        Some(1)
    } else if c == '2' {
        Some(2)
    } else if c == '3' {
        Some(3)
    } else if c == '4' {
        Some(4)
    } else if c == '5' {
        Some(5)
    } else if c == '6' {
        Some(6)
    } else if c == '7' {
        Some(7)
    } else if c == '8' {
        Some(8)
    } else if c == '9' {
        Some(9)
    } else {
        None
    }
}

/// The number from 0 to 255 that `text` writes in digits, where it
/// writes one.
pub fn parse_small_number(text: &str) -> (r: Option<u8>)
    ensures
        r == small_number(text@),
{
    let n = text.unicode_len();
    if n == 0 {
        return None;
    }
    let mut value: u32 = 0;
    let mut i: usize = 0;
    while i < n
        invariant
            i <= n,
            n == text@.len(),
            all_digits(text@.take(i as int)),
            value == digits_value(text@.take(i as int)),
            value <= 255,
        decreases n - i,
    {
        let c = text.get_char(i);
        proof {
            assert(text@.take(i + 1).drop_last() =~= text@.take(i as int));
            assert(text@.take(i + 1).last() == c);
        }
        match digit_of(c) {
            Some(d) => {
                value = value * 10 + d;
                if value > 255 {
                    proof {
                        lemma_digits_prefix(text@, i + 1);
                    }
                    return None;
                }
                assert forall|j: int| 0 <= j < i + 1 implies '0' <= #[trigger] text@.take(
                    i + 1,
                )[j] <= '9' by {
                    if j < i {
                        assert(text@.take(i + 1)[j] == text@.take(i as int)[j]);
                    }
                }
            },
            None => {
                assert(!('0' <= text@[i as int] <= '9'));
                return None;
            },
        }
        i += 1;
    }
    assert(text@.take(n as int) =~= text@);
    Some(value as u8)
}

} // verus!
