use vstd::prelude::*;

use vstd::string::StringSliceAdditionalSpecFns;

use crate::cache::{LruCache, after_put, lookup, without};
use crate::permissions::{
    ADMINISTRATOR,
    Guild,
    Overwrite,
    Role,
    effective_permissions,
    resolve_permissions,
    satisfies,
};

verus! {

/// The reply sent in place of a command that the member may not run.
pub const DENIAL_MESSAGE: &'static str = "You are missing the required permissions for running this command";

/// Interaction type of a slash command invocation.
pub const INTERACTION_APPLICATION_COMMAND: u32 = 2;

/// Interaction type of an autocomplete request.
pub const INTERACTION_AUTOCOMPLETE: u32 = 4;

/// The events the dispatcher knows.
pub enum Event {
    Ready,
    MessageCreate,
    MessageUpdate,
    MessageDelete,
    MessageDeleteRaw,
    Reconnect,
    GuildRoleCreate,
    GuildRoleUpdate,
    GuildRoleDelete,
    MessageReactionAdd,
    GuildCreate,
    InteractionCreate,
}

/// A message as the dispatcher keeps it.
pub struct Message {
    pub id: u64,
    pub channel_id: u64,
    pub author_id: Option<u64>,
    pub member_roles: Option<Vec<u64>>,
    pub content: String,
}

/// The little that a delete notification carries.
pub struct DeletedMessage {
    pub id: u64,
    pub channel_id: u64,
}

/// Where a message deletion goes.
pub enum DeleteRoute {
    /// The message was cached: the delete handler gets it, and the raw-delete
    /// handler, when `also_raw`, gets `raw` on its own.
    Enriched { cached: Message, raw: DeletedMessage, also_raw: bool },
    /// Nothing was cached: only the raw-delete handler gets `raw`.
    RawOnly { raw: DeletedMessage },
}

/// Whether a matched command runs or is refused with a single denial reply.
pub enum CommandAction {
    Run,
    Deny,
}

/// What an interaction asks for.
pub enum InteractionRoute {
    Command,
    Autocomplete,
    Other,
}

/// One autocomplete suggestion.
pub struct Choice {
    pub name: String,
    pub value: String,
}

/// The route of a delete of `id` in `channel_id` against cached `entries`.
pub open spec fn delete_route(
    entries: Seq<(u64, Message)>,
    id: u64,
    channel_id: u64,
    raw_registered: bool,
) -> DeleteRoute {
    let raw = DeletedMessage { id, channel_id };
    match lookup(entries, id) {
        Some(m) => DeleteRoute::Enriched { cached: m, raw, also_raw: raw_registered },
        None => DeleteRoute::RawOnly { raw },
    }
}

/// Whether permissions `have` allow what `required` asks: the administrator
/// bit allows everything; otherwise every required bit must be held.
pub open spec fn permits(have: u64, required: u64) -> bool {
    have & ADMINISTRATOR == ADMINISTRATOR || satisfies(have, required)
}

/// Whether a command that needs `required` runs for a member holding `have`.
pub open spec fn command_gate(required: u64, have: u64) -> CommandAction {
    if required == 0 || permits(have, required) {
        CommandAction::Run
    } else {
        CommandAction::Deny
    }
}

/// The route of an interaction of type `kind`.
pub open spec fn interaction_route(kind: u32) -> InteractionRoute {
    if kind == INTERACTION_APPLICATION_COMMAND {
        InteractionRoute::Command
    } else if kind == INTERACTION_AUTOCOMPLETE {
        InteractionRoute::Autocomplete
    } else {
        InteractionRoute::Other
    }
}

/// The positions of the options flagged focused, in order.
pub open spec fn focused_positions(flags: Seq<bool>) -> Seq<usize>
    decreases flags.len(),
{
    if flags.len() == 0 {
        Seq::empty()
    } else {
        let rest = focused_positions(flags.drop_last());
        if flags.last() {
            rest.push((flags.len() - 1) as usize)
        } else {
            rest
        }
    }
}

/// Whether `choices` are `values`, one for one, each with that value as both
/// its name and its value.
pub open spec fn choices_of(choices: Seq<Choice>, values: Seq<String>) -> bool {
    &&& choices.len() == values.len()
    &&& forall|i: int|
        0 <= i < values.len() ==> (#[trigger] choices[i]).name == values[i] && choices[i].value
            == values[i]
}

/// The caches the dispatcher keeps up to date.
pub struct Dispatcher {
    pub messages: LruCache<Message>,
    pub roles: LruCache<Role>,
}

impl Dispatcher {
    pub open spec fn wf(&self) -> bool {
        self.messages.wf() && self.roles.wf()
    }

    /// A dispatcher with empty caches of the given sizes.
    pub fn new(message_capacity: usize, role_capacity: usize) -> (r: Self)
        requires
            message_capacity > 0,
            role_capacity > 0,
        ensures
            r.wf(),
            r.messages.entries() == Seq::<(u64, Message)>::empty(),
            r.roles.entries() == Seq::<(u64, Role)>::empty(),
            r.messages.capacity() == message_capacity,
            r.roles.capacity() == role_capacity,
    {
        Dispatcher { messages: LruCache::new(message_capacity), roles: LruCache::new(role_capacity) }
    }

    /// Caches a created or edited message under its id.
    pub fn on_message_write(&mut self, msg: Message)
        requires
            old(self).wf(),
        ensures
            final(self).wf(),
            final(self).roles == old(self).roles,
            final(self).messages.capacity() == old(self).messages.capacity(),
            final(self).messages.entries() == after_put(
                old(self).messages.entries(),
                old(self).messages.capacity(),
                msg.id,
                msg,
            ),
    {
        let id = msg.id;
        self.messages.put(id, msg);
    }

    /// Takes a deleted message out of the cache and says where the deletion goes.
    pub fn on_message_delete(&mut self, id: u64, channel_id: u64, raw_registered: bool) -> (r:
        DeleteRoute)
        requires
            old(self).wf(),
        ensures
            final(self).wf(),
            final(self).roles == old(self).roles,
            final(self).messages.capacity() == old(self).messages.capacity(),
            final(self).messages.entries() == without(old(self).messages.entries(), id),
            r == delete_route(old(self).messages.entries(), id, channel_id, raw_registered),
    {
        let raw = DeletedMessage { id, channel_id };
        match self.messages.pop(id) {
            Some(m) => DeleteRoute::Enriched { cached: m, raw, also_raw: raw_registered },
            None => DeleteRoute::RawOnly { raw },
        }
    }

    /// Caches a created or updated role under its id.
    pub fn on_role_write(&mut self, role: Role)
        requires
            old(self).wf(),
        ensures
            final(self).wf(),
            final(self).messages == old(self).messages,
            final(self).roles.capacity() == old(self).roles.capacity(),
            final(self).roles.entries() == after_put(
                old(self).roles.entries(),
                old(self).roles.capacity(),
                role.id,
                role,
            ),
    {
        let id = role.id;
        self.roles.put(id, role);
    }

    /// Forgets a deleted role.
    pub fn on_role_delete(&mut self, id: u64)
        requires
            old(self).wf(),
        ensures
            final(self).wf(),
            final(self).messages == old(self).messages,
            final(self).roles.capacity() == old(self).roles.capacity(),
            final(self).roles.entries() == without(old(self).roles.entries(), id),
    {
        let _ = self.roles.pop(id);
    }
}

/// The length of the first space-delimited token of `content`: the index of
/// its first space, or its whole length when it has none.
pub open spec fn token_len(content: Seq<u8>) -> nat
    decreases content.len(),
{
    if content.len() == 0 {
        0
    } else if content[0] == 32 {
        0
    } else {
        1 + token_len(content.drop_first())
    }
}

/// The length in bytes of the candidate command name that opens `content`.
pub fn command_token_len(content: &str) -> (r: usize)
    ensures
        r == token_len(content.spec_bytes()),
        r <= content.spec_bytes().len(),
{
    let b = content.as_bytes();
    let mut i: usize = 0;
    assert(b@.skip(0) =~= b@);
    while i < b.len()
        invariant
            i <= b@.len(),
            b@ == content.spec_bytes(),
            token_len(b@) == i + token_len(b@.skip(i as int)),
        decreases b@.len() - i,
    {
        assert(b@.skip(i as int).drop_first() =~= b@.skip(i as int + 1));
        assert(b@.skip(i as int)[0] == b@[i as int]);
        if b[i] == 32 {
            return i;
        }
        i += 1;
    }
    assert(b@.skip(i as int) =~= Seq::<u8>::empty());
    i
}

/// The event whose handler a deletion is handed to: the delete handler for a
/// cached message, the raw-delete handler otherwise.
pub fn delete_event(route: &DeleteRoute) -> (r: Event)
    ensures
        r == match route {
            DeleteRoute::Enriched { .. } => Event::MessageDelete,
            DeleteRoute::RawOnly { .. } => Event::MessageDeleteRaw,
        },
{
    match route {
        DeleteRoute::Enriched { .. } => Event::MessageDelete,
        DeleteRoute::RawOnly { .. } => Event::MessageDeleteRaw,
    }
}

/// The event whose generic handler is invoked after `event` was handled: none
/// for a message that a command handled, the event itself otherwise.
pub open spec fn generic_handler_for(event: Event, command_matched: bool) -> Option<Event> {
    if event is MessageCreate && command_matched {
        None
    } else {
        Some(event)
    }
}

/// Says which generic handler, if any, an event reaches once its own work is
/// done; a message that matched a command reaches none.
pub fn generic_handler(event: Event, command_matched: bool) -> (r: Option<Event>)
    ensures
        r == generic_handler_for(event, command_matched),
{
    match event {
        Event::MessageCreate => if command_matched {
            None
        } else {
            Some(Event::MessageCreate)
        },
        other => Some(other),
    }
}

/// The event a dispatch frame's type name names, if the dispatcher knows it.
pub open spec fn event_named(name: Seq<char>) -> Option<Event> {
    if name == "READY"@ {
        Some(Event::Ready)
    } else if name == "MESSAGE_CREATE"@ {
        Some(Event::MessageCreate)
    } else if name == "MESSAGE_UPDATE"@ {
        Some(Event::MessageUpdate)
    } else if name == "MESSAGE_DELETE"@ {
        Some(Event::MessageDelete)
    } else if name == "RECONNECT"@ {
        Some(Event::Reconnect)
    } else if name == "GUILD_ROLE_CREATE"@ {
        Some(Event::GuildRoleCreate)
    } else if name == "GUILD_ROLE_UPDATE"@ {
        Some(Event::GuildRoleUpdate)
    } else if name == "GUILD_ROLE_DELETE"@ {
        Some(Event::GuildRoleDelete)
    } else if name == "MESSAGE_REACTION_ADD"@ {
        Some(Event::MessageReactionAdd)
    } else if name == "GUILD_CREATE"@ {
        Some(Event::GuildCreate)
    } else if name == "INTERACTION_CREATE"@ {
        Some(Event::InteractionCreate)
    } else {
        None
    }
}

/// Resolves a dispatch frame's type name to the event it names; unknown names
/// give `None`.
pub fn event_from_name(name: &String) -> (r: Option<Event>)
    ensures
        r == event_named(name@),
{
    if *name == "READY".to_owned() {
        Some(Event::Ready)
    } else if *name == "MESSAGE_CREATE".to_owned() {
        Some(Event::MessageCreate)
    } else if *name == "MESSAGE_UPDATE".to_owned() {
        Some(Event::MessageUpdate)
    } else if *name == "MESSAGE_DELETE".to_owned() {
        Some(Event::MessageDelete)
    } else if *name == "RECONNECT".to_owned() {
        Some(Event::Reconnect)
    } else if *name == "GUILD_ROLE_CREATE".to_owned() {
        Some(Event::GuildRoleCreate)
    } else if *name == "GUILD_ROLE_UPDATE".to_owned() {
        Some(Event::GuildRoleUpdate)
    } else if *name == "GUILD_ROLE_DELETE".to_owned() {
        Some(Event::GuildRoleDelete)
    } else if *name == "MESSAGE_REACTION_ADD".to_owned() {
        Some(Event::MessageReactionAdd)
    } else if *name == "GUILD_CREATE".to_owned() {
        Some(Event::GuildCreate)
    } else if *name == "INTERACTION_CREATE".to_owned() {
        Some(Event::InteractionCreate)
    } else {
        None
    }
}

/// Whether a command needing `required` runs for a member holding `have`.
pub fn gate_command(required: u64, have: u64) -> (r: CommandAction)
    ensures
        r == command_gate(required, have),
{
    if required == 0 || have & ADMINISTRATOR == ADMINISTRATOR || have & required == required {
        CommandAction::Run
    } else {
        CommandAction::Deny
    }
}

/// Whether a command needing `required` runs for member `member_id` holding
/// roles `held`, in `guild` and in a channel with `overwrites` when given.
pub fn authorize_command(
    required: u64,
    held: &Vec<u64>,
    member_id: u64,
    guild: &Guild,
    overwrites: Option<&Vec<Overwrite>>,
) -> (r: CommandAction)
    ensures
        r == command_gate(
            required,
            effective_permissions(
                held@,
                member_id,
                *guild,
                match overwrites {
                    Some(v) => Some(v@),
                    None => None,
                },
            ),
        ),
{
    if required == 0 {
        return CommandAction::Run;
    }
    let have = resolve_permissions(held, member_id, guild, overwrites);
    gate_command(required, have)
}

/// Says what an interaction of type `kind` asks for.
pub fn route_interaction(kind: u32) -> (r: InteractionRoute)
    ensures
        r == interaction_route(kind),
{
    if kind == INTERACTION_APPLICATION_COMMAND {
        InteractionRoute::Command
    } else if kind == INTERACTION_AUTOCOMPLETE {
        InteractionRoute::Autocomplete
    } else {
        InteractionRoute::Other
    }
}

/// The positions of the focused options; each gets one autocomplete callback.
pub fn focused_options(flags: &Vec<bool>) -> (r: Vec<usize>)
    ensures
        r@ == focused_positions(flags@),
{
    let mut r: Vec<usize> = Vec::new();
    let mut i: usize = 0;
    while i < flags.len()
        invariant
            i <= flags@.len(),
            r@ == focused_positions(flags@.take(i as int)),
        decreases flags@.len() - i,
    {
        assert(flags@.take(i as int + 1).drop_last() =~= flags@.take(i as int));
        if flags[i] {
            r.push(i);
        }
        i += 1;
    }
    assert(flags@.take(i as int) =~= flags@);
    r
}

/// Turns the suggestions of an autocomplete provider into choices, one each,
/// with the suggestion as name and value.
pub fn autocomplete_choices(values: Vec<String>) -> (r: Vec<Choice>)
    ensures
        choices_of(r@, values@),
{
    let mut r: Vec<Choice> = Vec::new();
    let mut i: usize = 0;
    while i < values.len()
        invariant
            i <= values@.len(),
            choices_of(r@, values@.take(i as int)),
        decreases values@.len() - i,
    {
        let v = values[i].clone();
        r.push(Choice { name: v.clone(), value: v });
        i += 1;
    }
    assert(values@.take(i as int) =~= values@);
    r
}

/// A message cached under its id and then deleted reaches the delete handler
/// with its cached content, and the raw-delete handler on its own when one is
/// registered; deleting an id that is not cached reaches only the raw-delete
/// handler.
pub proof fn lemma_delete_after_cache(
    entries: Seq<(u64, Message)>,
    cap: nat,
    msg: Message,
    other: u64,
    channel_id: u64,
    raw_registered: bool,
)
    requires
        cap > 0,
        entries.len() <= cap,
    ensures
        delete_route(after_put(entries, cap, msg.id, msg), msg.id, channel_id, raw_registered)
            == (DeleteRoute::Enriched {
            cached: msg,
            raw: DeletedMessage { id: msg.id, channel_id },
            also_raw: raw_registered,
        }),
        lookup(entries, other) is None ==> delete_route(entries, other, channel_id, raw_registered)
            == (DeleteRoute::RawOnly { raw: DeletedMessage { id: other, channel_id } }),
{
    crate::cache::lemma_put_then_pop(entries, cap, msg.id, msg);
}

/// A command whose required bits the member's permissions lack, without the
/// administrator bit, is denied, and so never runs.
pub proof fn lemma_missing_permissions_deny(required: u64, have: u64)
    requires
        !permits(have, required),
    ensures
        command_gate(required, have) == CommandAction::Deny,
{
    assert(required != 0) by (bit_vector)
        requires
            have & required != required,
    ;
}

/// An autocomplete request with exactly one option flagged focused makes
/// exactly one callback, for that option.
pub proof fn lemma_one_focused_one_callback(flags: Seq<bool>, k: int)
    requires
        0 <= k < flags.len(),
        flags[k],
        forall|i: int| 0 <= i < flags.len() && i != k ==> !flags[i],
    ensures
        focused_positions(flags) == seq![k as usize],
    decreases flags.len(),
{
    let init = flags.drop_last();
    if k == flags.len() - 1 {
        lemma_none_focused(init);
    } else {
        lemma_one_focused_one_callback(init, k);
    }
}

proof fn lemma_none_focused(flags: Seq<bool>)
    requires
        forall|i: int| 0 <= i < flags.len() ==> !flags[i],
    ensures
        focused_positions(flags) == Seq::<usize>::empty(),
    decreases flags.len(),
{
    if flags.len() > 0 {
        lemma_none_focused(flags.drop_last());
    }
}

} // verus!
