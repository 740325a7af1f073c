use vstd::prelude::*;

use crate::chains::{Chain, ChainView};
use crate::guild_settings::GuildSettings;
use crate::tally::contains_id;
use crate::text::{decimal, join, joined, to_decimal};

verus! {

/// How a chain's end is announced.
#[derive(Debug, Clone, Copy, PartialEq, Eq, Structural)]
pub enum ResponseStyle {
    Embed,
    Text,
    Classic,
}

/// The style that a guild's style setting names outright; none for "auto" or anything
/// unknown, which go by what the channel allows.
pub open spec fn fixed_style(style: Seq<char>) -> Option<ResponseStyle> {
    if style == "embed"@ {
        Some(ResponseStyle::Embed)
    } else if style == "text"@ {
        Some(ResponseStyle::Text)
    } else if style == "classic"@ {
        Some(ResponseStyle::Classic)
    } else {
        None
    }
}

/// The style of the announcement of a chain of `length`, where `embed_allowed` tells
/// whether the channel takes embeds; none where the chain is too short to announce.
pub open spec fn response_style(length: nat, style: Seq<char>, threshold: u16, embed_allowed: bool) -> Option<ResponseStyle> {
    if length <= threshold {
        None
    } else {
        match fixed_style(style) {
            Some(s) => Some(s),
            None => if embed_allowed {
                Some(ResponseStyle::Embed)
            } else {
                Some(ResponseStyle::Text)
            },
        }
    }
}

/// Whether the style setting leaves the choice to the channel's permissions, so that they
/// must be looked up.
pub fn needs_permission_probe(style: &String) -> (r: bool)
    ensures
        r == (fixed_style(style@) is None),
{
    proof {
        reveal_strlit("embed");
        reveal_strlit("text");
        reveal_strlit("classic");
    }
    let embed = String::from_str("embed");
    let text = String::from_str("text");
    let classic = String::from_str("classic");
    !(*style == embed || *style == text || *style == classic)
}

/// How the end of `chain` is announced under `settings`, if at all; `embed_allowed` is
/// whether the bot may post embeds in the channel, and is read only where the style
/// setting leaves the choice open.
pub fn create_chain_response(chain: &Chain, settings: &GuildSettings, embed_allowed: bool) -> (r: Option<ResponseStyle>)
    requires
        chain.wf(),
    ensures
        r == response_style(chain@.length(), settings.style@, settings.chain_threshold, embed_allowed),
{
    if chain.length <= settings.chain_threshold as usize {
        return None;
    }
    proof {
        reveal_strlit("embed");
        reveal_strlit("text");
        reveal_strlit("classic");
        assert("embed"@.len() == 5 && "text"@.len() == 4 && "classic"@.len() == 7);
    }
    let embed = String::from_str("embed");
    let text = String::from_str("text");
    let classic = String::from_str("classic");
    if settings.style == classic {
        Some(ResponseStyle::Classic)
    } else if settings.style == embed {
        Some(ResponseStyle::Embed)
    } else if settings.style == text {
        Some(ResponseStyle::Text)
    } else if embed_allowed {
        Some(ResponseStyle::Embed)
    } else {
        Some(ResponseStyle::Text)
    }
}

/// Whom an announcement names: the participants in the order in which they joined, then
/// the breaker where they were not one of them.
pub open spec fn members_of(c: ChainView, breaker: u64) -> Seq<u64> {
    if c.participants().contains(breaker) {
        c.participants()
    } else {
        c.participants().push(breaker)
    }
}

/// The members whose names an announcement of `chain`, broken by `breaker`, shows.
pub fn announcement_members(chain: &Chain, breaker: u64) -> (r: Vec<u64>)
    requires
        chain.wf(),
    ensures
        r@ == members_of(chain@, breaker),
{
    let mut r: Vec<u64> = Vec::new();
    let mut i: usize = 0;
    while i < chain.chainers.len()
        invariant
            i <= chain.chainers.len(),
            r@ == chain.chainers@.take(i as int),
        decreases chain.chainers.len() - i,
    {
        r.push(chain.chainers[i]);
        proof {
            assert(chain.chainers@.take(i + 1) =~= chain.chainers@.take(i as int).push(chain.chainers@[i as int]));
        }
        i = i + 1;
    }
    proof {
        assert(chain.chainers@.take(i as int) =~= chain.chainers@);
    }
    if !contains_id(&chain.chainers, breaker) {
        r.push(breaker);
    }
    r
}

/// Where `x` first stands in `s`.
pub open spec fn position(s: Seq<u64>, x: u64) -> int
    decreases s.len(),
{
    if s.len() == 0 {
        0
    } else if s[0] == x {
        0
    } else {
        1 + position(s.drop_first(), x)
    }
}

proof fn lemma_position(s: Seq<u64>, x: u64, i: int)
    requires
        0 <= i < s.len(),
        s[i] == x,
        forall|j: int| 0 <= j < i ==> s[j] != x,
    ensures
        position(s, x) == i,
    decreases i,
{
    if i > 0 {
        lemma_position(s.drop_first(), x, i - 1);
    }
}

/// The name shown for member `id`: the one given with its first place among `members`.
pub open spec fn name_of(members: Seq<u64>, names: Seq<Seq<char>>, id: u64) -> Seq<char> {
    names[position(members, id)]
}

pub open spec fn points_line(name: Seq<char>, p: u64) -> Seq<char> {
    name + ": "@ + decimal(p as nat) + " points"@
}

/// One line per entry of `points`, in order.
pub open spec fn points_lines(points: Seq<(u64, u64)>, members: Seq<u64>, names: Seq<Seq<char>>) -> Seq<Seq<char>> {
    points.map_values(|p: (u64, u64)| points_line(name_of(members, names, p.0), p.1))
}

pub open spec fn title_text(length: nat) -> Seq<char> {
    decimal(length) + " chain!"@
}

pub open spec fn description_text(names: Seq<Seq<char>>, length: nat) -> Seq<char> {
    joined(names, ", "@) + " made a chain of "@ + decimal(length)
}

pub open spec fn points_text(points: Seq<(u64, u64)>, members: Seq<u64>, names: Seq<Seq<char>>) -> Seq<char> {
    joined(points_lines(points, members, names), "\n"@)
}

pub open spec fn classic_text(length: nat) -> Seq<char> {
    "That was a "@ + decimal(length) + " chain! <:booby:633112900382359555>"@
}

pub open spec fn text_message(
    length: nat,
    members: Seq<u64>,
    names: Seq<Seq<char>>,
    starter: Seq<char>,
    breaker: Seq<char>,
    points: Seq<(u64, u64)>,
) -> Seq<char> {
    title_text(length) + "\n"@ + description_text(names, length) + "\nStarter: "@ + starter + "\nBreaker: "@
        + breaker + "\nPoints:\n"@ + points_text(points, members, names)
}

pub open spec fn string_views(v: Seq<String>) -> Seq<Seq<char>> {
    v.map_values(|s: String| s@)
}

/// The parts of an embedded announcement.
#[derive(Debug)]
pub struct ChainEmbed {
    pub title: String,
    pub description: String,
    pub starter: String,
    pub breaker: String,
    pub points: String,
}

fn find_position(members: &Vec<u64>, id: u64) -> (r: usize)
    requires
        members@.contains(id),
    ensures
        r == position(members@, id),
        r < members@.len(),
{
    let mut i: usize = 0;
    while i < members.len()
        invariant
            i <= members.len(),
            members@.contains(id),
            forall|j: int| 0 <= j < i ==> members@[j] != id,
        decreases members.len() - i,
    {
        if members[i] == id {
            proof {
                lemma_position(members@, id, i as int);
            }
            return i;
        }
        i = i + 1;
    }
    proof {
        let k = choose|k: int| 0 <= k < members@.len() && members@[k] == id;
        assert(members@[k] != id);
    }
    0
}

fn render_points(points: &Vec<(u64, u64)>, members: &Vec<u64>, names: &Vec<String>) -> (r: String)
    requires
        names.len() == members.len(),
        forall|i: int| 0 <= i < points.len() ==> members@.contains(#[trigger] points@[i].0),
    ensures
        r@ == points_text(points@, members@, string_views(names@)),
{
    let ghost nv = string_views(names@);
    let mut lines: Vec<String> = Vec::new();
    let mut i: usize = 0;
    while i < points.len()
        invariant
            i <= points.len(),
            names.len() == members.len(),
            nv == string_views(names@),
            forall|k: int| 0 <= k < points.len() ==> members@.contains(#[trigger] points@[k].0),
            lines.len() == i,
            forall|k: int| 0 <= k < i ==> (#[trigger] lines@[k])@ == points_line(name_of(members@, nv, points@[k].0), points@[k].1),
        decreases points.len() - i,
    {
        let (id, p) = points[i];
        let at = find_position(members, id);
        let mut line = names[at].clone();
        line.append(": ");
        let digits = to_decimal(p);
        line.append(digits.as_str());
        line.append(" points");
        lines.push(line);
        i = i + 1;
    }
    proof {
        assert(string_views(lines@) =~= points_lines(points@, members@, nv));
    }
    join(&lines, "\n")
}

/// The embedded announcement of the end of `chain`. `members` is what
/// `announcement_members` gives and `names` their display names, in the same order;
/// `points` is what the chain awarded.
pub fn embed_style(
    chain: &Chain,
    points: &Vec<(u64, u64)>,
    members: &Vec<u64>,
    names: &Vec<String>,
    starter: &String,
    breaker: &String,
) -> (r: ChainEmbed)
    requires
        chain.wf(),
        names.len() == members.len(),
        forall|i: int| 0 <= i < points.len() ==> members@.contains(#[trigger] points@[i].0),
    ensures
        r.title@ == title_text(chain@.length()),
        r.description@ == description_text(string_views(names@), chain@.length()),
        r.starter@ == starter@,
        r.breaker@ == breaker@,
        r.points@ == points_text(points@, members@, string_views(names@)),
{
    let length = chain.length as u64;
    let mut title = to_decimal(length);
    title.append(" chain!");
    let mut description = join(names, ", ");
    description.append(" made a chain of ");
    let digits = to_decimal(length);
    description.append(digits.as_str());
    ChainEmbed {
        title,
        description,
        starter: starter.clone(),
        breaker: breaker.clone(),
        points: render_points(points, members, names),
    }
}

/// The plain text announcement of the end of `chain`, with the same parts as
/// `embed_style` gives, one after another.
pub fn text_style(
    chain: &Chain,
    points: &Vec<(u64, u64)>,
    members: &Vec<u64>,
    names: &Vec<String>,
    starter: &String,
    breaker: &String,
) -> (r: String)
    requires
        chain.wf(),
        names.len() == members.len(),
        forall|i: int| 0 <= i < points.len() ==> members@.contains(#[trigger] points@[i].0),
    ensures
        r@ == text_message(chain@.length(), members@, string_views(names@), starter@, breaker@, points@),
{
    let e = embed_style(chain, points, members, names, starter, breaker);
    let mut r = e.title;
    r.append("\n");
    r.append(e.description.as_str());
    r.append("\nStarter: ");
    r.append(starter.as_str());
    r.append("\nBreaker: ");
    r.append(breaker.as_str());
    r.append("\nPoints:\n");
    r.append(e.points.as_str());
    r
}

/// The one-line announcement of the end of `chain`: its length only.
pub fn classic_style(chain: &Chain) -> (r: String)
    requires
        chain.wf(),
    ensures
        r@ == classic_text(chain@.length()),
{
    let mut r = String::from_str("That was a ");
    let digits = to_decimal(chain.length as u64);
    r.append(digits.as_str());
    r.append(" chain! <:booby:633112900382359555>");
    r
}

} // verus!
