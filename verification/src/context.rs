use vstd::prelude::*;

use twilight_http::client::InteractionClient;
use twilight_http::Client;
use twilight_model::application::command::CommandOptionType;
use twilight_model::id::marker::ApplicationMarker;
use twilight_model::id::Id;

use crate::event::InteractionEvent;
use crate::predicate::EventPredicate;
use crate::registry::PendingWaiter;
use crate::registry::RegistrationError;
use crate::registry::WaiterRegistry;

verus! {

/// twilight_http's HTTP client. Carried through the contexts as an opaque
/// handle; every request made with it happens outside this library.
#[verifier::external_type_specification]
#[verifier::external_body]
pub struct ExClient(Client);

/// twilight_http's interaction client, borrowing the HTTP client. Opaque
/// here; the requests it builds happen outside this library.
#[verifier::external_type_specification]
#[verifier::external_body]
pub struct ExInteractionClient<'a>(InteractionClient<'a>);

/// twilight_model's typed snowflake id, opaque here.
#[verifier::external_type_specification]
#[verifier::external_body]
#[verifier::reject_recursive_types(T)]
pub struct ExId<T>(Id<T>);

/// twilight_model's marker for application ids.
#[verifier::external_type_specification]
#[verifier::external_body]
pub struct ExApplicationMarker(ApplicationMarker);

/// twilight_model's type of a command option, opaque here: the contexts
/// carry it, nothing in this library inspects it.
#[verifier::external_type_specification]
#[verifier::external_body]
pub struct ExCommandOptionType(CommandOptionType);

/// Relies on twilight_model's derived Clone for CommandOptionType: the
/// type is Copy, so cloning hands the value itself back.
pub assume_specification[ <CommandOptionType as Clone>::clone ](
    v: &CommandOptionType,
) -> (r: CommandOptionType)
    ensures
        r == *v,
;

/// Relies on twilight_http's Client::interaction: builds the interaction
/// client for an application id, borrowing the HTTP client. Nothing is
/// promised of the opaque result.
pub assume_specification<'a>[ Client::interaction ](
    client: &'a Client,
    application_id: Id<ApplicationMarker>,
) -> InteractionClient<'a>;

/// The HTTP client used by the framework, wrapped so that contexts can
/// borrow one shared handle.
pub struct WrappedClient {
    client: Client,
}

impl WrappedClient {
    /// The wrapped client, as contracts see it.
    pub closed spec fn spec_inner(self) -> Client {
        self.client
    }

    /// Wraps an HTTP client.
    pub fn new(client: Client) -> (r: Self)
        ensures
            r.spec_inner() == client,
    {
        WrappedClient { client }
    }

    /// Gets the wrapped client.
    pub fn inner(&self) -> (r: &Client)
        ensures
            *r == self.spec_inner(),
    {
        &self.client
    }
}

/// The value the user is providing to the argument.
#[derive(Clone, Debug)]
pub struct Focused {
    /// The user's raw input.
    pub input: String,
    /// The type of the option being completed.
    pub kind: CommandOptionType,
}

/// Context given to all functions used to autocomplete arguments.
pub struct AutocompleteContext<'a, D> {
    /// The http client used by the framework.
    pub http_client: &'a WrappedClient,
    /// The data shared across the framework.
    pub data: &'a D,
    /// The user input.
    pub user_input: Focused,
    /// The interaction itself.
    pub interaction: InteractionEvent,
}

impl<'a, D> AutocompleteContext<'a, D> {
    /// Creates a new context.
    pub fn new(
        http_client: &'a WrappedClient,
        data: &'a D,
        user_input: Focused,
        interaction: InteractionEvent,
    ) -> (r: Self)
        ensures
            r.http_client == http_client,
            r.data == data,
            r.user_input == user_input,
            r.interaction == interaction,
    {
        AutocompleteContext { http_client, data, user_input, interaction }
    }

    /// Gets the http client used by the framework.
    pub fn http_client(&self) -> (r: &Client)
        ensures
            *r == self.http_client.spec_inner(),
    {
        self.http_client.inner()
    }
}

/// Framework context given to all command functions: what is needed to
/// respond to the interaction, reach shared data, and wait for follow-up
/// interaction events.
pub struct SlashContext<'a, D, P> {
    /// The http client used by the framework.
    pub http_client: &'a WrappedClient,
    /// The application id provided to the framework.
    pub application_id: Id<ApplicationMarker>,
    /// An interaction client made out of the framework's http client.
    pub interaction_client: InteractionClient<'a>,
    /// The data shared across the framework.
    pub data: &'a D,
    /// Waiters pending for a follow-up interaction in this session.
    pub waiters: WaiterRegistry<P>,
    /// The interaction itself.
    pub interaction: InteractionEvent,
}

impl<'a, D, P: EventPredicate> SlashContext<'a, D, P> {
    /// Creates a new context.
    pub fn new(
        http_client: &'a WrappedClient,
        application_id: Id<ApplicationMarker>,
        data: &'a D,
        waiters: WaiterRegistry<P>,
        interaction: InteractionEvent,
    ) -> (r: Self)
        ensures
            r.http_client == http_client,
            r.application_id == application_id,
            r.data == data,
            r.waiters == waiters,
            r.interaction == interaction,
    {
        let interaction_client = http_client.inner().interaction(application_id);
        SlashContext { http_client, application_id, interaction_client, data, waiters, interaction }
    }

    /// Gets the http client used by the framework.
    pub fn http_client(&self) -> (r: &Client)
        ensures
            *r == self.http_client.spec_inner(),
    {
        self.http_client.inner()
    }

    /// Registers a waiter for the first future interaction event that
    /// satisfies `predicate`, and returns the waiter's id; on a torn-down
    /// session it fails fast instead. Everything else in the context, and
    /// every other pending waiter, is left unchanged.
    pub fn wait_interaction(&mut self, predicate: P) -> (r: Result<u64, RegistrationError>)
        requires
            old(self).waiters.wf(),
            old(self).waiters.next_waiter_id() < u64::MAX,
        ensures
            final(self).waiters.wf(),
            match r {
                Ok(id) => {
                    &&& old(self).waiters.is_live()
                    &&& final(self).waiters.is_live()
                    &&& id == old(self).waiters.next_waiter_id()
                    &&& final(self).waiters.waiting() == old(self).waiters.waiting().push(
                        (PendingWaiter { id, predicate }),
                    )
                    &&& final(self).waiters.completed() == old(self).waiters.completed()
                    &&& final(self).waiters.next_waiter_id() == old(self).waiters.next_waiter_id()
                        + 1
                },
                Err(e) => {
                    &&& !old(self).waiters.is_live()
                    &&& e == RegistrationError::TornDown
                    &&& final(self).waiters.is_live() == old(self).waiters.is_live()
                    &&& final(self).waiters.waiting() == old(self).waiters.waiting()
                    &&& final(self).waiters.completed() == old(self).waiters.completed()
                    &&& final(self).waiters.next_waiter_id() == old(self).waiters.next_waiter_id()
                },
            },
            final(self).http_client == old(self).http_client,
            final(self).application_id == old(self).application_id,
            final(self).interaction_client == old(self).interaction_client,
            final(self).data == old(self).data,
            final(self).interaction == old(self).interaction,
    {
        self.waiters.register(predicate)
    }
}

} // verus!
