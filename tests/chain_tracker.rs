use chainbot::chains::{ChainCounter, ChainHandler, Message, Outcome};
use chainbot::cleanup::{cleanup_chain, delete_batches, deletion_report};
use chainbot::points::points_per_user;

const A: u64 = 11;
const B: u64 = 22;
const C: u64 = 33;
const CHANNEL: u64 = 500;

fn msg(id: u64, author: u64, content: &str) -> Message {
    Message {
        id,
        author,
        bot: false,
        content: content.to_string(),
        channel_id: CHANNEL,
        guild_id: Some(9),
    }
}

/// Feeds `m`, handing in `prev` when the tracker asks for the message before.
fn feed(h: &ChainHandler, store: &mut ChainCounter, m: Message, prev: &Message) -> Outcome {
    let again = msg(m.id, m.author, &m.content);
    match h.message(store, m, None) {
        Outcome::NeedsHistory => h.message(store, again, Some(msg(prev.id, prev.author, &prev.content))),
        other => other,
    }
}

fn is_formed(o: &Outcome) -> bool {
    matches!(o, Outcome::Formed)
}

fn is_extended(o: &Outcome) -> bool {
    matches!(o, Outcome::Extended)
}

#[test]
fn hi_hi_hi_forms_then_extends() {
    let h = ChainHandler;
    let mut store = ChainCounter::new();
    let m1 = msg(1, A, "hi");
    let m2 = msg(2, B, "hi");
    let m3 = msg(3, A, "hi");
    let before = msg(0, C, "hello");
    let o1 = feed(&h, &mut store, msg(1, A, "hi"), &before);
    assert!(matches!(o1, Outcome::NoChain));
    let o2 = feed(&h, &mut store, m2, &m1);
    assert!(is_formed(&o2));
    {
        let c = store.get(CHANNEL).unwrap();
        assert_eq!(c.chainers, vec![A, B]);
        assert_eq!(c.num_messages.get(&A), Some(&1));
        assert_eq!(c.num_messages.get(&B), Some(&1));
        assert_eq!(c.length, 2);
        assert_eq!(c.starter, A);
    }
    let o3 = feed(&h, &mut store, m3, &msg(2, B, "hi"));
    assert!(is_extended(&o3));
    let c = store.get(CHANNEL).unwrap();
    assert_eq!(c.length, 3);
    assert_eq!(c.chainers, vec![A, B]);
    assert_eq!(c.num_messages.get(&A), Some(&2));
    assert_eq!(c.num_messages.get(&B), Some(&1));
}

#[test]
fn run_length_and_participants_in_first_seen_order() {
    let h = ChainHandler;
    let mut store = ChainCounter::new();
    let authors = [C, A, C, B, A, B, C];
    let mut prev = msg(100, A, "other");
    for (i, a) in authors.iter().enumerate() {
        let m = msg(i as u64 + 1, *a, "same");
        feed(&h, &mut store, msg(m.id, m.author, "same"), &prev);
        prev = m;
    }
    let c = store.get(CHANNEL).unwrap();
    assert_eq!(c.length, 7);
    assert_eq!(c.msg_cache.len(), 7);
    assert_eq!(c.chainers, vec![C, A, B]);
    let total: usize = c.num_messages.values().sum();
    assert_eq!(total, 7);
}

#[test]
fn same_author_twice_forms_chain_with_count_two() {
    let h = ChainHandler;
    let mut store = ChainCounter::new();
    let o = h.message(&mut store, msg(2, A, "x"), Some(msg(1, A, "x")));
    assert!(is_formed(&o));
    let c = store.get(CHANNEL).unwrap();
    assert_eq!(c.chainers, vec![A]);
    assert_eq!(c.num_messages.get(&A), Some(&2));
    assert_eq!(c.num_messages.len(), 1);
}

#[test]
fn differing_message_breaks_and_clears() {
    let h = ChainHandler;
    let mut store = ChainCounter::new();
    h.message(&mut store, msg(2, B, "x"), Some(msg(1, A, "x")));
    assert!(store.contains(CHANNEL));
    let o = h.message(&mut store, msg(3, C, "y"), None);
    match o {
        Outcome::Broken(chain) => {
            assert_eq!(chain.length, 2);
            assert_eq!(chain.message, "x");
            assert_eq!(chain.chainers, vec![A, B]);
        }
        _ => panic!("expected the chain to break"),
    }
    assert!(!store.contains(CHANNEL));
    let next = h.message(&mut store, msg(4, A, "y"), None);
    assert!(matches!(next, Outcome::NeedsHistory));
}

#[test]
fn bot_and_guildless_messages_are_ignored() {
    let h = ChainHandler;
    let mut store = ChainCounter::new();
    h.message(&mut store, msg(2, B, "x"), Some(msg(1, A, "x")));
    let mut bot = msg(3, C, "y");
    bot.bot = true;
    assert!(matches!(h.message(&mut store, bot, None), Outcome::Ignored));
    let mut dm = msg(4, C, "y");
    dm.guild_id = None;
    assert!(matches!(h.message(&mut store, dm, None), Outcome::Ignored));
    assert!(store.contains(CHANNEL));
    assert_eq!(store.get(CHANNEL).unwrap().length, 2);
}

#[test]
fn bot_history_does_not_start_a_chain() {
    let h = ChainHandler;
    let mut store = ChainCounter::new();
    let mut prev = msg(1, A, "x");
    prev.bot = true;
    assert!(matches!(h.message(&mut store, msg(2, B, "x"), Some(prev)), Outcome::NoChain));
    assert!(matches!(h.message(&mut store, msg(3, B, "x"), Some(msg(2, B, "z"))), Outcome::NoChain));
    assert!(!store.contains(CHANNEL));
}

#[test]
fn chains_in_other_channels_are_untouched() {
    let h = ChainHandler;
    let mut store = ChainCounter::new();
    h.message(&mut store, msg(2, B, "x"), Some(msg(1, A, "x")));
    let mut other = msg(3, A, "q");
    other.channel_id = CHANNEL + 1;
    let mut other_prev = msg(2, C, "q");
    other_prev.channel_id = CHANNEL + 1;
    assert!(is_formed(&h.message(&mut store, other, Some(other_prev))));
    assert_eq!(store.get(CHANNEL).unwrap().chainers, vec![A, B]);
    assert_eq!(store.get(CHANNEL + 1).unwrap().chainers, vec![C, A]);
}

fn broken_chain(authors: &[u64]) -> chainbot::chains::Chain {
    let h = ChainHandler;
    let mut store = ChainCounter::new();
    h.message(&mut store, msg(2, authors[1], "x"), Some(msg(1, authors[0], "x")));
    for (i, a) in authors.iter().enumerate().skip(2) {
        h.message(&mut store, msg(i as u64 + 1, *a, "x"), None);
    }
    match h.message(&mut store, msg(999, C, "break"), None) {
        Outcome::Broken(c) => c,
        _ => panic!("expected the chain to break"),
    }
}

#[test]
fn cleanup_of_six_by_two_deletes_four() {
    let chain = broken_chain(&[A, B, A, B, A, A]);
    assert_eq!(chain.length, 6);
    let ids = cleanup_chain(&chain);
    assert_eq!(ids, vec![3, 4, 5, 6]);
    assert_eq!(chain.length - ids.len(), 2);
}

#[test]
fn cleanup_skips_short_chains() {
    let chain = broken_chain(&[A, A, A, A]);
    assert_eq!(cleanup_chain(&chain), Vec::<u64>::new());
    let chain = broken_chain(&[A, A, A, A, A]);
    assert_eq!(cleanup_chain(&chain), vec![2, 3, 4, 5]);
}

#[test]
fn delete_batches_sizes() {
    assert!(delete_batches(&Vec::new()).is_empty());
    let ids: Vec<u64> = (0..250).collect();
    let batches = delete_batches(&ids);
    assert_eq!(batches.len(), 3);
    assert_eq!(batches[0].len(), 100);
    assert_eq!(batches[1].len(), 100);
    assert_eq!(batches[2].len(), 50);
    let flat: Vec<u64> = batches.concat();
    assert_eq!(flat, ids);
    let hundred: Vec<u64> = (0..100).collect();
    assert_eq!(delete_batches(&hundred).len(), 1);
    let hundred_one: Vec<u64> = (0..101).collect();
    let b = delete_batches(&hundred_one);
    assert_eq!(b.len(), 2);
    assert_eq!(b[1], vec![100]);
}

#[test]
fn deletion_report_counts_failed_ids() {
    let ids: Vec<u64> = (0..250).collect();
    let batches = delete_batches(&ids);
    assert!(deletion_report(&batches, &vec![true, true, true]).is_ok());
    let e = deletion_report(&batches, &vec![true, false, false]).err().unwrap();
    assert_eq!(e.undeleted, 150);
}

#[test]
fn points_exclude_breaker_and_stay_within_length() {
    let chain = broken_chain(&[A, B, A, C, A]);
    let pts = points_per_user(&chain, C);
    assert_eq!(pts, vec![(A, 3), (B, 1)]);
    let sum: u64 = pts.iter().map(|p| p.1).sum();
    assert!(sum <= chain.length as u64);
    let all = points_per_user(&chain, 777);
    assert_eq!(all, vec![(A, 3), (B, 1), (C, 1)]);
    let total: u64 = all.iter().map(|p| p.1).sum();
    assert_eq!(total, 5);
}
