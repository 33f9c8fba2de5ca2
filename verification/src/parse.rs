use vstd::prelude::*;
use vstd::string::StringExecFns;

use twilight_model::application::interaction::application_command::CommandOptionValue;

verus! {

/// twilight_model's combined value-and-type of a supplied command option.
/// Opaque here: the lookup below reads only the option's name; the value is
/// handed on to the caller's parser untouched.
#[verifier::external_type_specification]
#[verifier::external_body]
pub struct ExCommandOptionValue(CommandOptionValue);

/// One option supplied with a command invocation: its name, and the value
/// the user provided for it.
pub struct NamedOption {
    /// The option's name.
    pub name: String,
    /// The value the user provided.
    pub value: CommandOptionValue,
}

/// Why an argument could not be obtained from an invocation's options.
#[derive(Debug)]
pub enum ParseError {
    /// The invocation's structure did not match the command: a required
    /// option was absent. Carries a message naming the missing option.
    StructureMismatch(String),
    /// A supplied value could not be parsed, with the name of the argument
    /// it was supplied for.
    Parsing {
        /// The argument whose value failed to parse.
        argument_name: String,
        /// What went wrong.
        detail: String,
    },
}

/// The index of the first option of `s` named `name`, if any is.
pub open spec fn first_named(s: Seq<NamedOption>, name: Seq<char>) -> Option<int>
    decreases s.len(),
{
    if s.len() == 0 {
        None
    } else if s[0].name@ == name {
        Some(0int)
    } else {
        match first_named(s.drop_first(), name) {
            Some(i) => Some(i + 1),
            None => None,
        }
    }
}

/// Skipping options with other names does not change which option a lookup
/// by name finds.
pub proof fn lemma_first_named_skip(s: Seq<NamedOption>, name: Seq<char>, i: int)
    requires
        0 <= i <= s.len(),
        forall|j: int| 0 <= j < i ==> #[trigger] s[j].name@ != name,
    ensures
        first_named(s, name) == match first_named(s.subrange(i, s.len() as int), name) {
            Some(m) => Some(m + i),
            None => None,
        },
    decreases i,
{
    if i == 0 {
        assert(s.subrange(0, s.len() as int) =~= s);
    } else {
        let t = s.drop_first();
        assert forall|j: int| 0 <= j < i - 1 implies #[trigger] t[j].name@ != name by {
            assert(t[j] == s[j + 1]);
        }
        lemma_first_named_skip(t, name, i - 1);
        assert(t.subrange(i - 1, t.len() as int) =~= s.subrange(i, s.len() as int));
    }
}

/// Looks the argument `name` up among the invocation's options, as parsing
/// an argument by name does. The first option so named is found and its
/// index returned; when none is and the argument is required, the
/// structure-mismatch error reports the name; when none is and the
/// argument is optional, there is nothing to parse and no error.
#[verifier::loop_isolation(false)]
pub fn resolve_named(options: &Vec<NamedOption>, name: &String, required: bool) -> (r: Result<
    Option<usize>,
    ParseError,
>)
    ensures
        match first_named(options@, name@) {
            Some(i) => r == Result::<Option<usize>, ParseError>::Ok(Some(i as usize)),
            None => {
                if required {
                    match r {
                        Err(ParseError::StructureMismatch(m)) => m@ == name@ + " not found"@,
                        _ => false,
                    }
                } else {
                    r == Result::<Option<usize>, ParseError>::Ok(None::<usize>)
                }
            },
        },
{
    let mut i: usize = 0;
    while i < options.len()
        invariant
            i <= options@.len(),
            forall|j: int| 0 <= j < i ==> #[trigger] options@[j].name@ != name@,
        decreases options@.len() - i,
    {
        if options[i].name == *name {
            proof {
                lemma_first_named_skip(options@, name@, i as int);
                assert(options@.subrange(i as int, options@.len() as int)[0]
                    == options@[i as int]);
                assert(first_named(options@, name@) == Some(i as int));
            }
            return Ok(Some(i));
        }
        i = i + 1;
    }
    proof {
        lemma_first_named_skip(options@, name@, options@.len() as int);
    }
    if required {
        let mut message = name.clone();
        message.append(" not found");
        Err(ParseError::StructureMismatch(message))
    } else {
        Ok(None)
    }
}

/// Rewrites a failed parse to carry the name of the argument it was for,
/// as the caller-facing error reports it; any other error passes through
/// unchanged.
pub fn with_argument_name(err: ParseError, name: String) -> (r: ParseError)
    ensures
        match err {
            ParseError::Parsing { argument_name: _, detail } => r == (ParseError::Parsing {
                argument_name: name,
                detail,
            }),
            ParseError::StructureMismatch(_) => r == err,
        },
{
    match err {
        ParseError::Parsing { argument_name: _, detail } => ParseError::Parsing {
            argument_name: name,
            detail,
        },
        other => other,
    }
}

} // verus!
