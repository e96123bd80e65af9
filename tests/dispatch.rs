use descord::cache::LruCache;
use descord::dispatch::{
    authorize_command, autocomplete_choices, command_token_len, delete_event, focused_options,
    event_from_name, gate_command, generic_handler, route_interaction, CommandAction, DeleteRoute, Dispatcher, Event,
    InteractionRoute, Message, DENIAL_MESSAGE,
};
use descord::permissions::{Guild, Overwrite, Role, OVERWRITE_ROLE};

fn message(id: u64, content: &str) -> Message {
    Message {
        id,
        channel_id: 500,
        author_id: Some(2),
        member_roles: Some(vec![10]),
        content: content.to_string(),
    }
}

#[test]
fn cached_delete_is_enriched() {
    let mut d = Dispatcher::new(8, 8);
    d.on_message_write(message(1, "hello"));
    match d.on_message_delete(1, 500, true) {
        DeleteRoute::Enriched { cached, raw, also_raw } => {
            assert_eq!(cached.content, "hello");
            assert_eq!(raw.id, 1);
            assert_eq!(raw.channel_id, 500);
            assert!(also_raw);
        }
        DeleteRoute::RawOnly { .. } => panic!("expected the cached message"),
    }
    assert_eq!(d.messages.len(), 0);
}

#[test]
fn uncached_delete_is_raw_only() {
    let mut d = Dispatcher::new(8, 8);
    d.on_message_write(message(1, "hello"));
    let r = d.on_message_delete(2, 501, true);
    assert!(matches!(delete_event(&r), Event::MessageDeleteRaw));
    match r {
        DeleteRoute::RawOnly { raw } => {
            assert_eq!(raw.id, 2);
            assert_eq!(raw.channel_id, 501);
        }
        DeleteRoute::Enriched { .. } => panic!("nothing was cached under 2"),
    }
    assert_eq!(d.messages.len(), 1);
}

#[test]
fn delete_twice_second_is_raw() {
    let mut d = Dispatcher::new(8, 8);
    d.on_message_write(message(1, "a"));
    let first = d.on_message_delete(1, 500, false);
    assert!(matches!(delete_event(&first), Event::MessageDelete));
    assert!(matches!(first, DeleteRoute::Enriched { also_raw: false, .. }));
    assert!(matches!(d.on_message_delete(1, 500, false), DeleteRoute::RawOnly { .. }));
}

#[test]
fn update_overwrites_cached_message() {
    let mut d = Dispatcher::new(8, 8);
    d.on_message_write(message(1, "old"));
    d.on_message_write(message(1, "new"));
    assert_eq!(d.messages.len(), 1);
    assert_eq!(d.messages.peek(1).unwrap().content, "new");
}

#[test]
fn cache_evicts_least_recent() {
    let mut c: LruCache<u32> = LruCache::new(2);
    c.put(1, 10);
    c.put(2, 20);
    c.put(1, 11);
    c.put(3, 30);
    assert_eq!(c.len(), 2);
    assert!(c.peek(2).is_none());
    assert_eq!(c.peek(1), Some(&11));
    assert_eq!(c.pop(3), Some(30));
    assert_eq!(c.pop(3), None);
}

#[test]
fn role_cache_follows_events() {
    let mut d = Dispatcher::new(4, 4);
    d.on_role_write(Role { id: 10, permissions: 1 });
    d.on_role_write(Role { id: 10, permissions: 3 });
    assert_eq!(d.roles.peek(10).unwrap().permissions, 3);
    d.on_role_delete(10);
    assert!(d.roles.peek(10).is_none());
    assert_eq!(d.roles.len(), 0);
}

#[test]
fn missing_permissions_deny_once() {
    let g = Guild { owner_id: 1, default_permissions: 0x1, roles: vec![Role { id: 10, permissions: 0x2 }] };
    assert!(matches!(authorize_command(0x4, &vec![10], 2, &g, None), CommandAction::Deny));
    assert!(matches!(authorize_command(0x3, &vec![10], 2, &g, None), CommandAction::Run));
    assert!(matches!(authorize_command(0x4, &vec![10], 1, &g, None), CommandAction::Run));
    assert!(matches!(authorize_command(0x8, &vec![], 1, &g, None), CommandAction::Run));
    assert!(matches!(authorize_command(0, &vec![], 2, &g, None), CommandAction::Run));
    let ows = vec![Overwrite { id: 10, overwrite_type: OVERWRITE_ROLE, allow: 0, deny: 0x2 }];
    assert!(matches!(authorize_command(0x2, &vec![10], 2, &g, Some(&ows)), CommandAction::Deny));
    assert!(DENIAL_MESSAGE.starts_with("You are missing"));
}

#[test]
fn gate_compares_bits() {
    assert!(matches!(gate_command(0x6, 0x7), CommandAction::Run));
    assert!(matches!(gate_command(0x6, 0x4), CommandAction::Deny));
    assert!(matches!(gate_command(0, 0), CommandAction::Run));
    assert!(matches!(gate_command(0x6, 0x8), CommandAction::Run));
}

#[test]
fn matched_command_skips_generic_handler() {
    assert!(generic_handler(Event::MessageCreate, true).is_none());
    assert!(matches!(generic_handler(Event::MessageCreate, false), Some(Event::MessageCreate)));
    assert!(matches!(generic_handler(Event::GuildCreate, true), Some(Event::GuildCreate)));
}

#[test]
fn one_focused_option_one_callback() {
    assert_eq!(focused_options(&vec![false, true, false]), vec![1]);
    assert_eq!(focused_options(&vec![true, false, true]), vec![0, 2]);
    assert!(focused_options(&vec![]).is_empty());
    let choices = autocomplete_choices(vec!["red".to_string(), "green".to_string()]);
    assert_eq!(choices.len(), 2);
    assert_eq!(choices[0].name, "red");
    assert_eq!(choices[0].value, "red");
    assert_eq!(choices[1].name, "green");
    assert_eq!(choices[1].value, "green");
    assert!(autocomplete_choices(vec![]).is_empty());
}

#[test]
fn interaction_types_route() {
    assert!(matches!(route_interaction(2), InteractionRoute::Command));
    assert!(matches!(route_interaction(4), InteractionRoute::Autocomplete));
    assert!(matches!(route_interaction(1), InteractionRoute::Other));
}

#[test]
fn command_token_is_first_word() {
    assert_eq!(command_token_len("!ping now"), 5);
    assert_eq!(command_token_len("!ping"), 5);
    assert_eq!(command_token_len(""), 0);
    assert_eq!(command_token_len(" lead"), 0);
}

#[test]
fn event_names_resolve() {
    assert!(matches!(event_from_name(&"READY".to_string()), Some(Event::Ready)));
    assert!(matches!(event_from_name(&"MESSAGE_DELETE".to_string()), Some(Event::MessageDelete)));
    assert!(matches!(event_from_name(&"INTERACTION_CREATE".to_string()), Some(Event::InteractionCreate)));
    assert!(matches!(event_from_name(&"GUILD_ROLE_DELETE".to_string()), Some(Event::GuildRoleDelete)));
    assert!(event_from_name(&"TYPING_START".to_string()).is_none());
    assert!(event_from_name(&"ready".to_string()).is_none());
    assert!(event_from_name(&String::new()).is_none());
}
