use std::collections::HashMap;
use vstd::prelude::*;

use crate::tally::{
    contains_id, count_of, distinct, lemma_count, lemma_count_push, lemma_distinct, lemma_distinct_push,
    lemma_push_contains, lemma_sum_counts_distinct, sum_counts,
};

verus! {

broadcast use vstd::std_specs::hash::group_hash_axioms;

/// A message as the chain tracker sees it.
#[derive(Debug)]
pub struct Message {
    pub id: u64,
    pub author: u64,
    /// Whether the author is an automated account.
    pub bot: bool,
    pub content: String,
    pub channel_id: u64,
    pub guild_id: Option<u64>,
}

pub ghost struct MessageView {
    pub id: u64,
    pub author: u64,
    pub bot: bool,
    pub content: Seq<char>,
    pub channel_id: u64,
    pub guild_id: Option<u64>,
}

impl View for Message {
    type V = MessageView;

    open spec fn view(&self) -> MessageView {
        MessageView {
            id: self.id,
            author: self.author,
            bot: self.bot,
            content: self.content@,
            channel_id: self.channel_id,
            guild_id: self.guild_id,
        }
    }
}

pub open spec fn opt_view(m: Option<Message>) -> Option<MessageView> {
    match m {
        Some(m) => Some(m@),
        None => None,
    }
}

/// The authors of `msgs`, in order.
pub open spec fn authors(msgs: Seq<MessageView>) -> Seq<u64> {
    msgs.map_values(|m: MessageView| m.author)
}

/// An active chain: the shared content and every message of the run, oldest first.
pub ghost struct ChainView {
    pub content: Seq<char>,
    pub messages: Seq<MessageView>,
}

impl ChainView {
    pub open spec fn length(self) -> nat {
        self.messages.len()
    }

    /// The distinct authors, in the order in which they first joined.
    pub open spec fn participants(self) -> Seq<u64> {
        distinct(authors(self.messages))
    }

    /// How many messages `a` contributed.
    pub open spec fn count(self, a: u64) -> nat {
        count_of(authors(self.messages), a)
    }

    pub open spec fn starter(self) -> u64 {
        self.messages[0].author
    }
}

/// An event that the tracker leaves alone: from an automated account or outside a guild.
pub open spec fn ignored(m: MessageView) -> bool {
    m.bot || m.guild_id is None
}

/// What a channel's active chain becomes on message `m`; `prev` is the message before `m`,
/// which only matters while no chain is active.
pub open spec fn next_chain(
    active: Option<ChainView>,
    m: MessageView,
    prev: Option<MessageView>,
) -> Option<ChainView> {
    match active {
        None => match prev {
            Some(p) => if p.content == m.content && !p.bot {
                Some(ChainView { content: m.content, messages: seq![p, m] })
            } else {
                None
            },
            None => None,
        },
        Some(c) => if c.content == m.content {
            Some(ChainView { content: c.content, messages: c.messages.push(m) })
        } else {
            None
        },
    }
}

/// The chain that a channel holds after `msgs`, each handed in with the one before it,
/// where the first of them started nothing.
pub open spec fn replay(msgs: Seq<MessageView>) -> Option<ChainView>
    decreases msgs.len(),
{
    if msgs.len() <= 1 {
        None
    } else {
        next_chain(replay(msgs.drop_last()), msgs.last(), Some(msgs[msgs.len() - 2]))
    }
}

/// A run of n >= 2 messages of one content from accounts that are not automated makes a
/// chain of length n, whose participants are the distinct authors in the order in which
/// they first posted.
pub proof fn lemma_run_makes_chain(msgs: Seq<MessageView>)
    requires
        msgs.len() >= 2,
        forall|i: int| 0 <= i < msgs.len() ==> #[trigger] msgs[i].content == msgs[0].content,
        forall|i: int| 0 <= i < msgs.len() ==> !(#[trigger] msgs[i].bot),
    ensures
        replay(msgs) == Some(ChainView { content: msgs[0].content, messages: msgs }),
        replay(msgs)->Some_0.length() == msgs.len(),
        replay(msgs)->Some_0.participants() == distinct(authors(msgs)),
    decreases msgs.len(),
{
    let p = msgs.drop_last();
    if msgs.len() == 2 {
        assert(p.len() == 1);
        assert(msgs =~= seq![msgs[0], msgs[1]]);
    } else {
        assert forall|i: int| 0 <= i < p.len() implies #[trigger] p[i].content == p[0].content by {
            assert(msgs[i].content == msgs[0].content);
        }
        assert forall|i: int| 0 <= i < p.len() implies !(#[trigger] p[i].bot) by {
            assert(!msgs[i].bot);
        }
        lemma_run_makes_chain(p);
        assert(msgs[msgs.len() - 1].content == msgs[0].content);
        assert(p.push(msgs.last()) =~= msgs);
    }
}

/// A run of identical messages in one channel.
#[derive(Debug)]
pub struct Chain {
    pub message: String,
    pub msg_cache: Vec<Message>,
    pub chainers: Vec<u64>,
    pub num_messages: HashMap<u64, usize>,
    pub starter: u64,
    pub length: usize,
}

impl View for Chain {
    type V = ChainView;

    open spec fn view(&self) -> ChainView {
        ChainView { content: self.message@, messages: self.msg_cache@.map_values(|m: Message| m@) }
    }
}

impl Chain {
    /// The fields agree with the run of messages they describe.
    pub open spec fn wf(&self) -> bool {
        let v = self@;
        &&& self.length == self.msg_cache@.len()
        &&& self.length >= 2
        &&& forall|i: int| 0 <= i < v.messages.len() ==> #[trigger] v.messages[i].content == v.content
        &&& self.chainers@ == v.participants()
        &&& forall|a: u64| #[trigger]
            self.num_messages@.contains_key(a) <==> self.chainers@.contains(a)
        &&& forall|a: u64| #[trigger]
            self.num_messages@.contains_key(a) ==> self.num_messages@[a] == v.count(a)
        &&& self.starter == v.starter()
    }
}

/// A chain's participants contributed, together, exactly its length in messages.
pub proof fn lemma_counts_sum_to_length(chain: Chain)
    requires
        chain.wf(),
    ensures
        sum_counts(chain.chainers@, authors(chain@.messages)) == chain.length,
{
    lemma_sum_counts_distinct(authors(chain@.messages));
}

/// The active chains, one at most per channel.
#[derive(Debug)]
pub struct ChainCounter {
    chains: HashMap<u64, Chain>,
}

impl ChainCounter {
    pub closed spec fn wf(&self) -> bool {
        forall|c: u64| #[trigger] self.chains@.contains_key(c) ==> self.chains@[c].wf()
    }

    /// The chain active in `channel`, if any.
    pub closed spec fn active(&self, channel: u64) -> Option<ChainView> {
        if self.chains@.contains_key(channel) {
            Some(self.chains@[channel]@)
        } else {
            None
        }
    }

    /// No chain is active anywhere.
    pub fn new() -> (r: ChainCounter)
        ensures
            r.wf(),
            forall|c: u64| #[trigger] r.active(c) is None,
    {
        ChainCounter { chains: HashMap::new() }
    }

    /// The chain active in `channel`, if any.
    pub fn get(&self, channel: u64) -> (r: Option<&Chain>)
        requires
            self.wf(),
        ensures
            match r {
                Some(c) => c.wf() && self.active(channel) == Some(c@),
                None => self.active(channel) is None,
            },
    {
        self.chains.get(&channel)
    }

    pub fn contains(&self, channel: u64) -> (r: bool)
        ensures
            r == self.active(channel) is Some,
    {
        self.chains.contains_key(&channel)
    }
}

/// What one message did to its channel.
#[derive(Debug)]
pub enum Outcome {
    /// The message comes from an automated account or from outside a guild.
    Ignored,
    /// No chain is active in the channel: hand in the message before this one.
    NeedsHistory,
    /// No chain is active, and the message before does not start one.
    NoChain,
    /// The message and the one before it started a chain.
    Formed,
    /// The message joined the active chain.
    Extended,
    /// The message differs from the active chain, which ended and is handed back.
    Broken(Chain),
}

/// Decides what each incoming message does to the active chains.
#[derive(Debug, Clone, Copy)]
pub struct ChainHandler;

impl ChainHandler {
    /// Feeds `message` to the tracker. `previous` is the message before it in its channel,
    /// where the caller has fetched it; it is read only when no chain is active there.
    pub fn message(&self, chains: &mut ChainCounter, message: Message, previous: Option<Message>) -> (r: Outcome)
        requires
            old(chains).wf(),
        ensures
            final(chains).wf(),
            ({
                let m = message@;
                let ch = m.channel_id;
                let before = old(chains).active(ch);
                let after = final(chains).active(ch);
                &&& r is Ignored <==> ignored(m)
                &&& r is NeedsHistory <==> (!ignored(m) && before is None && previous is None)
                &&& (r is Ignored || r is NeedsHistory) ==> after == before
                &&& !(r is Ignored || r is NeedsHistory) ==> after == next_chain(before, m, opt_view(previous))
                &&& r is NoChain <==> (!(r is Ignored || r is NeedsHistory) && before is None && after is None)
                &&& r is Formed <==> (!(r is Ignored || r is NeedsHistory) && before is None && after is Some)
                &&& r is Extended <==> (before is Some && after is Some && !(r is Ignored))
                &&& r is Broken <==> (before is Some && after is None && !(r is Ignored))
                &&& r matches Outcome::Broken(c) ==> c.wf() && before == Some(c@)
                &&& (!ignored(m) && before is Some && before->Some_0.content != m.content)
                    ==> (r is Broken && after is None)
                &&& forall|c: u64| c != ch ==> #[trigger] final(chains).active(c) == old(chains).active(c)
            }),
    {
        if message.bot || message.guild_id.is_none() {
            return Outcome::Ignored;
        }
        let channel_id = message.channel_id;
        match chains.chains.remove(&channel_id) {
            None => {
                match previous {
                    None => Outcome::NeedsHistory,
                    Some(prev) => {
                        let formed = create_chain(message, prev);
                        match formed {
                            Some(chain) => {
                                chains.chains.insert(channel_id, chain);
                                Outcome::Formed
                            },
                            None => Outcome::NoChain,
                        }
                    },
                }
            },
            Some(chain) => {
                if chain.message == message.content {
                    let chain = extend_chain(chain, message);
                    chains.chains.insert(channel_id, chain);
                    Outcome::Extended
                } else {
                    Outcome::Broken(chain)
                }
            },
        }
    }
}

/// The chain that `previous` and `message` start, where they match.
fn create_chain(message: Message, previous: Message) -> (r: Option<Chain>)
    ensures
        match r {
            Some(c) => c.wf() && next_chain(None, message@, Some(previous@)) == Some(c@),
            None => next_chain(None, message@, Some(previous@)) is None,
        },
{
    if message.content != previous.content || previous.bot {
        return None;
    }
    let ghost pv = previous@;
    let ghost mv = message@;
    let author = message.author;
    let first = previous.author;
    let mut num_messages: HashMap<u64, usize> = HashMap::new();
    let mut chainers: Vec<u64> = Vec::new();
    chainers.push(first);
    if first == author {
        num_messages.insert(author, 2);
    } else {
        chainers.push(author);
        num_messages.insert(first, 1);
        num_messages.insert(author, 1);
    }
    let content = message.content.clone();
    let mut msg_cache: Vec<Message> = Vec::new();
    msg_cache.push(previous);
    msg_cache.push(message);
    let chain = Chain { message: content, msg_cache, chainers, num_messages, starter: first, length: 2 };
    proof {
        let v = chain@;
        assert(v.messages =~= seq![pv, mv]);
        let s = authors(v.messages);
        assert(s =~= seq![pv.author].push(mv.author));
        assert(seq![pv.author] =~= Seq::<u64>::empty().push(pv.author));
        lemma_distinct_push(Seq::empty(), pv.author);
        lemma_distinct_push(seq![pv.author], mv.author);
        assert(distinct(Seq::<u64>::empty()) =~= Seq::<u64>::empty());
        assert forall|a: u64| #[trigger] v.count(a) == count_of(s, a) by {}
        assert forall|a: u64| count_of(s, a) == (if a == pv.author { 1nat } else { 0nat }) + (if a == mv.author { 1nat } else { 0nat }) by {
            lemma_count_push(Seq::empty(), pv.author, a);
            lemma_count_push(seq![pv.author], mv.author, a);
        }
        if first == author {
            assert(chain.chainers@ =~= seq![first]);
            assert(distinct(seq![pv.author]) =~= seq![first]);
        } else {
            assert(chain.chainers@ =~= seq![first, author]);
            assert(distinct(seq![pv.author]) =~= seq![first]);
        }
        assert(next_chain(None, mv, Some(pv)) == Some(v));
    }
    Some(chain)
}

/// `chain` with `message` added at its end.
fn extend_chain(chain: Chain, message: Message) -> (r: Chain)
    requires
        chain.wf(),
        message.content@ == chain.message@,
    ensures
        r.wf(),
        r@ == (ChainView { content: chain@.content, messages: chain@.messages.push(message@) }),
{
    let ghost old_chain = chain;
    let ghost s = authors(chain@.messages);
    let author = message.author;
    let mut chain = chain;
    chain.msg_cache.push(message);
    chain.length = chain.msg_cache.len();
    proof {
        lemma_distinct(s);
        lemma_count(s, author);
        assert(chain@.messages =~= old_chain@.messages.push(message@));
        assert(authors(chain@.messages) =~= s.push(author));
        lemma_distinct_push(s, author);
    }
    if !contains_id(&chain.chainers, author) {
        chain.chainers.push(author);
        chain.num_messages.insert(author, 1);
    } else {
        let count = match chain.num_messages.get(&author) {
            Some(c) => *c,
            None => 0,
        };
        chain.num_messages.insert(author, count + 1);
    }
    proof {
        let v = chain@;
        assert forall|a: u64| #[trigger] chain.num_messages@.contains_key(a) implies chain.num_messages@[a] == v.count(a) by {
            lemma_count_push(s, author, a);
            lemma_count(s, a);
        }
        assert forall|i: int| 0 <= i < v.messages.len() implies #[trigger] v.messages[i].content == v.content by {
            if i < old_chain@.messages.len() {
                assert(v.messages[i] == old_chain@.messages[i]);
            }
        }
        assert forall|a: u64| #[trigger]
            chain.num_messages@.contains_key(a) <==> chain.chainers@.contains(a) by {
            lemma_push_contains(old_chain.chainers@, author, a);
        }
    }
    chain
}

} // verus!
