use twilight_http::Client;
use twilight_model::application::command::CommandOptionType;
use twilight_model::application::interaction::application_command::CommandOptionValue;
use twilight_model::id::Id;

use zephyrus::context::{AutocompleteContext, Focused, SlashContext, WrappedClient};
use zephyrus::event::InteractionEvent;
use zephyrus::parse::{resolve_named, with_argument_name, NamedOption, ParseError};
use zephyrus::predicate::AuthorPredicate;
use zephyrus::registry::{WaiterOutcome, WaiterRegistry};

#[test]
fn autocomplete_context_carries_its_parts() {
    let client = WrappedClient::new(Client::new(String::from("example")));
    let data: u32 = 7;
    let focused = Focused { input: String::from("par"), kind: CommandOptionType::String };
    let kept = focused.clone();
    assert_eq!(kept.input, "par");
    assert!(matches!(kept.kind, CommandOptionType::String));
    let interaction = InteractionEvent { id: 5, author_id: 9 };
    let ctx = AutocompleteContext::new(&client, &data, focused, interaction);
    assert_eq!(ctx.user_input.input, "par");
    assert!(matches!(ctx.user_input.kind, CommandOptionType::String));
    assert_eq!(ctx.interaction.id, 5);
    assert_eq!(ctx.interaction.author_id, 9);
    assert_eq!(*ctx.data, 7);
    // The getter hands back the wrapped twilight client.
    let _http = ctx.http_client();
}

#[test]
fn slash_context_waits_and_delivers() {
    let client = WrappedClient::new(Client::new(String::from("example")));
    let data: u32 = 0;
    let interaction = InteractionEvent { id: 1, author_id: 3 };
    let waiters = WaiterRegistry::<AuthorPredicate>::new();
    let mut ctx = SlashContext::new(&client, Id::new(17), &data, waiters, interaction);
    let _http = ctx.http_client();
    let w = ctx.wait_interaction(AuthorPredicate { author_id: 42 }).unwrap();
    assert!(ctx.waiters.is_pending(w));
    let followup = InteractionEvent { id: 2, author_id: 42 };
    assert_eq!(ctx.waiters.deliver(&followup), Some(w));
    assert_eq!(ctx.waiters.outcome_of(w), Some(WaiterOutcome::Resolved(followup)));
}

#[test]
fn resolve_named_finds_the_first_option_so_named() {
    let options = vec![
        NamedOption { name: String::from("count"), value: CommandOptionValue::Integer(3) },
        NamedOption { name: String::from("user"), value: CommandOptionValue::Boolean(true) },
        NamedOption { name: String::from("user"), value: CommandOptionValue::Boolean(false) },
    ];
    let found = resolve_named(&options, &String::from("user"), true);
    assert!(matches!(found, Ok(Some(1))));
    let optional = resolve_named(&options, &String::from("count"), false);
    assert!(matches!(optional, Ok(Some(0))));
}

#[test]
fn resolve_named_missing_required_reports_the_name() {
    let options = vec![NamedOption {
        name: String::from("count"),
        value: CommandOptionValue::Integer(3),
    }];
    match resolve_named(&options, &String::from("user"), true) {
        Err(ParseError::StructureMismatch(message)) => {
            assert_eq!(message, "user not found");
        }
        _ => panic!("a missing required option must be a structure mismatch"),
    }
}

#[test]
fn resolve_named_missing_optional_is_no_error() {
    let options: Vec<NamedOption> = Vec::new();
    let outcome = resolve_named(&options, &String::from("user"), false);
    assert!(matches!(outcome, Ok(None)));
}

#[test]
fn with_argument_name_renames_only_parsing_errors() {
    let err = ParseError::Parsing {
        argument_name: String::new(),
        detail: String::from("not an integer"),
    };
    match with_argument_name(err, String::from("count")) {
        ParseError::Parsing { argument_name, detail } => {
            assert_eq!(argument_name, "count");
            assert_eq!(detail, "not an integer");
        }
        _ => panic!("a parsing error must stay a parsing error"),
    }
    let other = ParseError::StructureMismatch(String::from("user not found"));
    match with_argument_name(other, String::from("count")) {
        ParseError::StructureMismatch(message) => assert_eq!(message, "user not found"),
        _ => panic!("a structure mismatch must pass through unchanged"),
    }
}
