use chainbot::chains::{Chain, ChainCounter, ChainHandler, Message, Outcome};
use chainbot::guild_settings::{GuildSettings, GuildSettingsCache, SettingsError};
use chainbot::points::points_per_user;
use chainbot::styles::{
    announcement_members, classic_style, create_chain_response, embed_style, needs_permission_probe, text_style,
    ResponseStyle,
};
use chainbot::text::{join, to_decimal};

fn msg(id: u64, author: u64, content: &str) -> Message {
    Message { id, author, bot: false, content: content.to_string(), channel_id: 1, guild_id: Some(2) }
}

fn chain_of(authors: &[u64], breaker: u64) -> Chain {
    let h = ChainHandler;
    let mut store = ChainCounter::new();
    h.message(&mut store, msg(2, authors[1], "x"), Some(msg(1, authors[0], "x")));
    for (i, a) in authors.iter().enumerate().skip(2) {
        h.message(&mut store, msg(i as u64 + 1, *a, "x"), None);
    }
    match h.message(&mut store, msg(99, breaker, "y"), None) {
        Outcome::Broken(c) => c,
        _ => panic!("expected the chain to break"),
    }
}

fn settings(style: &str, threshold: u16) -> GuildSettings {
    let mut s = GuildSettings::dm_settings();
    s.style = style.to_string();
    s.chain_threshold = threshold;
    s
}

#[test]
fn auto_style_without_embed_permission_is_text() {
    let chain = chain_of(&[1, 2, 1, 2], 3);
    assert!(needs_permission_probe(&"auto".to_string()));
    assert_eq!(create_chain_response(&chain, &settings("auto", 2), false), Some(ResponseStyle::Text));
    assert_eq!(create_chain_response(&chain, &settings("auto", 2), true), Some(ResponseStyle::Embed));
    assert_eq!(create_chain_response(&chain, &settings("fancy", 2), false), Some(ResponseStyle::Text));
}

#[test]
fn fixed_styles_ignore_permissions() {
    let chain = chain_of(&[1, 2, 1], 3);
    assert!(!needs_permission_probe(&"embed".to_string()));
    assert_eq!(create_chain_response(&chain, &settings("embed", 1), false), Some(ResponseStyle::Embed));
    assert_eq!(create_chain_response(&chain, &settings("text", 1), true), Some(ResponseStyle::Text));
    assert_eq!(create_chain_response(&chain, &settings("classic", 1), true), Some(ResponseStyle::Classic));
}

#[test]
fn short_chains_are_not_announced() {
    let chain = chain_of(&[1, 2, 1], 3);
    assert_eq!(create_chain_response(&chain, &settings("embed", 3), true), None);
    assert_eq!(create_chain_response(&chain, &GuildSettings::dm_settings(), true), None);
    assert_eq!(create_chain_response(&chain, &settings("embed", 2), true), Some(ResponseStyle::Embed));
}

#[test]
fn announcement_renders_every_part() {
    let chain = chain_of(&[1, 2, 1], 3);
    let points = points_per_user(&chain, 3);
    let members = announcement_members(&chain, 3);
    assert_eq!(members, vec![1, 2, 3]);
    let names = vec!["ann".to_string(), "bob".to_string(), "cy".to_string()];
    let e = embed_style(&chain, &points, &members, &names, &"ann".to_string(), &"cy".to_string());
    assert_eq!(e.title, "3 chain!");
    assert_eq!(e.description, "ann, bob, cy made a chain of 3");
    assert_eq!(e.starter, "ann");
    assert_eq!(e.breaker, "cy");
    assert_eq!(e.points, "ann: 2 points\nbob: 1 points");
    let t = text_style(&chain, &points, &members, &names, &"ann".to_string(), &"cy".to_string());
    assert_eq!(
        t,
        "3 chain!\nann, bob, cy made a chain of 3\nStarter: ann\nBreaker: cy\nPoints:\nann: 2 points\nbob: 1 points"
    );
    assert_eq!(classic_style(&chain), "That was a 3 chain! <:booby:633112900382359555>");
}

#[test]
fn breaker_among_chainers_is_not_listed_twice() {
    let chain = chain_of(&[1, 2, 1], 2);
    assert_eq!(announcement_members(&chain, 2), vec![1, 2]);
    assert_eq!(points_per_user(&chain, 2), vec![(1, 2)]);
}

#[test]
fn decimal_and_join() {
    assert_eq!(to_decimal(0), "0");
    assert_eq!(to_decimal(7), "7");
    assert_eq!(to_decimal(1234567890), "1234567890");
    assert_eq!(to_decimal(u64::MAX), u64::MAX.to_string());
    assert_eq!(join(&vec![], ", "), "");
    assert_eq!(join(&vec!["a".to_string()], ", "), "a");
    assert_eq!(join(&vec!["a".to_string(), "b".to_string(), "c".to_string()], "; "), "a; b; c");
}

#[test]
fn unknown_guild_gets_defaults() {
    let cache = GuildSettingsCache::new(vec![42]);
    assert!(cache.get(5).is_none());
    let s = cache.get_or_default(5);
    assert_eq!(s.prefixes, vec!["cb.".to_string()]);
    assert_eq!(s.style, "embed");
    assert_eq!(s.chain_threshold, u16::MAX);
    assert!(s.remove_messages && s.alternate_member && !s.blacklist);
    assert!(s.channel_filters.is_empty());
    assert_eq!(cache.prefixes(5), None);
    assert_eq!(cache.default_prefixes(), vec!["cb.".to_string()]);
    assert_eq!(cache.auto_register_guilds(), vec![42]);
}

#[test]
fn prefixes_add_remove_reset() {
    let mut cache = GuildSettingsCache::new(vec![]);
    assert!(matches!(cache.remove_prefix(5, &"cb.".to_string()), Err(SettingsError::LastPrefix)));
    assert!(cache.get(5).is_none());
    cache.add_prefix(5, "!".to_string());
    assert_eq!(cache.prefixes(5), Some(vec!["cb.".to_string(), "!".to_string()]));
    assert!(cache.remove_prefix(5, &"cb.".to_string()).is_ok());
    assert_eq!(cache.prefixes(5), Some(vec!["!".to_string()]));
    assert!(matches!(cache.remove_prefix(5, &"!".to_string()), Err(SettingsError::LastPrefix)));
    cache.add_prefix(5, "!".to_string());
    assert!(matches!(cache.remove_prefix(5, &"!".to_string()), Err(SettingsError::LastPrefix)));
    assert_eq!(cache.prefixes(5), Some(vec!["!".to_string(), "!".to_string()]));
    cache.reset_prefix(5);
    assert_eq!(cache.prefixes(5), Some(vec!["cb.".to_string()]));
}

#[test]
fn prefix_and_filter_commands() {
    let mut cache = GuildSettingsCache::new(vec![]);
    assert!(matches!(cache.set_prefix(5, &"swap".to_string(), None), Err(SettingsError::UnknownAction)));
    assert!(matches!(cache.set_prefix(5, &"add".to_string(), None), Err(SettingsError::MissingPrefix)));
    assert!(cache.get(5).is_none());
    assert!(cache.set_prefix(5, &"add".to_string(), Some("?".to_string())).is_ok());
    assert_eq!(cache.prefixes(5), Some(vec!["cb.".to_string(), "?".to_string()]));
    assert!(matches!(cache.set_filters(5, &"add".to_string(), None), Err(SettingsError::MissingChannel)));
    assert!(matches!(cache.set_filters(5, &"nope".to_string(), Some(1)), Err(SettingsError::UnknownAction)));
    assert!(cache.set_filters(5, &"add".to_string(), Some(10)).is_ok());
    assert!(cache.set_filters(5, &"add".to_string(), Some(11)).is_ok());
    assert!(cache.set_filters(5, &"add".to_string(), Some(10)).is_ok());
    assert_eq!(cache.get(5).unwrap().channel_filters, vec![10, 11, 10]);
    assert!(cache.set_filters(5, &"remove".to_string(), Some(10)).is_ok());
    assert_eq!(cache.get(5).unwrap().channel_filters, vec![11]);
    assert!(cache.set_filters(5, &"clear".to_string(), None).is_ok());
    assert!(cache.get(5).unwrap().channel_filters.is_empty());
}

#[test]
fn flags_style_and_threshold() {
    let mut cache = GuildSettingsCache::new(vec![]);
    assert!(cache.set_blacklist(5));
    assert!(!cache.set_blacklist(5));
    assert!(!cache.set_remove(5));
    assert!(!cache.set_alternate(5));
    cache.set_style(5, "classic".to_string());
    cache.set_threshold(5, 4);
    let s = cache.get_or_default(5);
    assert!(!s.blacklist && !s.remove_messages && !s.alternate_member);
    assert_eq!(s.style, "classic");
    assert_eq!(s.chain_threshold, 4);
    assert!(cache.get(6).is_none());
}

#[test]
fn load_guilds_replaces_and_last_row_wins() {
    let mut cache = GuildSettingsCache::new(vec![]);
    cache.set_threshold(1, 9);
    cache.load_guilds(vec![(2, settings("text", 3)), (3, settings("embed", 4)), (2, settings("classic", 5))]);
    assert!(cache.get(1).is_none());
    assert_eq!(cache.get(2).unwrap().style, "classic");
    assert_eq!(cache.get(2).unwrap().chain_threshold, 5);
    assert_eq!(cache.get(3).unwrap().chain_threshold, 4);
    assert_eq!(cache.guild_map().len(), 2);
}
