use std::collections::HashMap;
use vstd::prelude::*;

verus! {

broadcast use vstd::std_specs::hash::group_hash_axioms;

/// How one guild wants chains handled.
#[derive(Debug)]
pub struct GuildSettings {
    pub prefixes: Vec<String>,
    pub channel_filters: Vec<u64>,
    /// Whether `channel_filters` lists the channels to skip rather than the ones to watch.
    pub blacklist: bool,
    /// "embed", "text" or "classic"; anything else picks by the channel's permissions.
    pub style: String,
    /// Whether the guild asked for the repeated messages of a chain to be removed.
    pub remove_messages: bool,
    /// A chain is announced once it is longer than this.
    pub chain_threshold: u16,
    /// Whether members must take turns to extend a chain. It is stored and toggled; the
    /// tracker does not consult it.
    pub alternate_member: bool,
}

pub ghost struct SettingsView {
    pub prefixes: Seq<Seq<char>>,
    pub channel_filters: Seq<u64>,
    pub blacklist: bool,
    pub style: Seq<char>,
    pub remove_messages: bool,
    pub chain_threshold: u16,
    pub alternate_member: bool,
}

impl View for GuildSettings {
    type V = SettingsView;

    open spec fn view(&self) -> SettingsView {
        SettingsView {
            prefixes: self.prefixes@.map_values(|p: String| p@),
            channel_filters: self.channel_filters@,
            blacklist: self.blacklist,
            style: self.style@,
            remove_messages: self.remove_messages,
            chain_threshold: self.chain_threshold,
            alternate_member: self.alternate_member,
        }
    }
}

/// The prefixes that a guild starts with, and that a reset restores.
pub open spec fn default_prefixes_view() -> Seq<Seq<char>> {
    seq!["cb."@]
}

/// The settings of a guild that has none stored, and of direct messages.
pub open spec fn dm_view() -> SettingsView {
    SettingsView {
        prefixes: default_prefixes_view(),
        channel_filters: Seq::empty(),
        blacklist: false,
        style: "embed"@,
        remove_messages: true,
        chain_threshold: u16::MAX,
        alternate_member: true,
    }
}

/// `s` without the entries equal to `p`.
pub open spec fn without(s: Seq<Seq<char>>, p: Seq<char>) -> Seq<Seq<char>>
    decreases s.len(),
{
    if s.len() == 0 {
        s
    } else if s.last() == p {
        without(s.drop_last(), p)
    } else {
        without(s.drop_last(), p).push(s.last())
    }
}

/// `s` without the entries equal to `c`.
pub open spec fn without_id(s: Seq<u64>, c: u64) -> Seq<u64>
    decreases s.len(),
{
    if s.len() == 0 {
        s
    } else if s.last() == c {
        without_id(s.drop_last(), c)
    } else {
        without_id(s.drop_last(), c).push(s.last())
    }
}

/// The prefixes a guild starts with.
pub fn default_prefixes() -> (r: Vec<String>)
    ensures
        r@.map_values(|p: String| p@) == default_prefixes_view(),
{
    let mut r: Vec<String> = Vec::new();
    r.push(String::from_str("cb."));
    proof {
        assert(r@.map_values(|p: String| p@) =~= default_prefixes_view());
    }
    r
}

fn copy_strings(v: &Vec<String>) -> (r: Vec<String>)
    ensures
        r@.map_values(|p: String| p@) == v@.map_values(|p: String| p@),
{
    let mut r: Vec<String> = Vec::new();
    let mut i: usize = 0;
    while i < v.len()
        invariant
            i <= v.len(),
            r.len() == i,
            forall|j: int| 0 <= j < i ==> (#[trigger] r@[j])@ == v@[j]@,
        decreases v.len() - i,
    {
        let s = v[i].clone();
        r.push(s);
        i = i + 1;
    }
    proof {
        assert(r@.map_values(|p: String| p@) =~= v@.map_values(|p: String| p@));
    }
    r
}

fn copy_ids(v: &Vec<u64>) -> (r: Vec<u64>)
    ensures
        r@ == v@,
{
    let mut r: Vec<u64> = Vec::new();
    let mut i: usize = 0;
    while i < v.len()
        invariant
            i <= v.len(),
            r@ == v@.take(i as int),
        decreases v.len() - i,
    {
        r.push(v[i]);
        proof {
            assert(v@.take(i + 1) =~= v@.take(i as int).push(v@[i as int]));
        }
        i = i + 1;
    }
    proof {
        assert(v@.take(i as int) =~= v@);
    }
    r
}

impl GuildSettings {
    /// The settings of a guild that has none stored, and of direct messages.
    pub fn dm_settings() -> (r: GuildSettings)
        ensures
            r@ == dm_view(),
    {
        GuildSettings {
            prefixes: default_prefixes(),
            channel_filters: Vec::new(),
            blacklist: false,
            style: String::from_str("embed"),
            remove_messages: true,
            chain_threshold: u16::MAX,
            alternate_member: true,
        }
    }

    /// A copy of these settings.
    pub fn duplicate(&self) -> (r: GuildSettings)
        ensures
            r@ == self@,
    {
        GuildSettings {
            prefixes: copy_strings(&self.prefixes),
            channel_filters: copy_ids(&self.channel_filters),
            blacklist: self.blacklist,
            style: self.style.clone(),
            remove_messages: self.remove_messages,
            chain_threshold: self.chain_threshold,
            alternate_member: self.alternate_member,
        }
    }
}

/// Why a settings change was turned down.
#[derive(Debug, Clone, Copy, PartialEq, Eq, Structural)]
pub enum SettingsError {
    /// The action word is none of those that the command knows.
    UnknownAction,
    /// The action needs a prefix and none was given.
    MissingPrefix,
    /// The action needs a channel and none was given.
    MissingChannel,
    /// The change would leave the guild without a prefix.
    LastPrefix,
}

#[derive(Debug, Clone, Copy, PartialEq, Eq, Structural)]
pub enum PrefixAction {
    Add,
    Reset,
    Remove,
}

#[derive(Debug, Clone, Copy, PartialEq, Eq, Structural)]
pub enum FilterAction {
    Add,
    Clear,
    Remove,
}

/// Reads the action word of a prefix command.
pub fn parse_prefix_action(action: &String) -> (r: Result<PrefixAction, SettingsError>)
    ensures
        r matches Ok(PrefixAction::Add) <==> action@ == "add"@,
        r matches Ok(PrefixAction::Reset) <==> action@ == "reset"@,
        r matches Ok(PrefixAction::Remove) <==> action@ == "remove"@,
        r is Err ==> r matches Err(SettingsError::UnknownAction),
{
    proof {
        reveal_strlit("add");
        reveal_strlit("reset");
        reveal_strlit("remove");
        assert("add"@.len() == 3 && "reset"@.len() == 5 && "remove"@.len() == 6);
    }
    let add = String::from_str("add");
    let reset = String::from_str("reset");
    let remove = String::from_str("remove");
    if *action == add {
        Ok(PrefixAction::Add)
    } else if *action == reset {
        Ok(PrefixAction::Reset)
    } else if *action == remove {
        Ok(PrefixAction::Remove)
    } else {
        Err(SettingsError::UnknownAction)
    }
}

/// Reads the action word of a channel filter command.
pub fn parse_filter_action(action: &String) -> (r: Result<FilterAction, SettingsError>)
    ensures
        r matches Ok(FilterAction::Add) <==> action@ == "add"@,
        r matches Ok(FilterAction::Clear) <==> action@ == "clear"@,
        r matches Ok(FilterAction::Remove) <==> action@ == "remove"@,
        r is Err ==> r matches Err(SettingsError::UnknownAction),
{
    proof {
        reveal_strlit("add");
        reveal_strlit("clear");
        reveal_strlit("remove");
        assert("add"@.len() == 3 && "clear"@.len() == 5 && "remove"@.len() == 6);
    }
    let add = String::from_str("add");
    let clear = String::from_str("clear");
    let remove = String::from_str("remove");
    if *action == add {
        Ok(FilterAction::Add)
    } else if *action == clear {
        Ok(FilterAction::Clear)
    } else if *action == remove {
        Ok(FilterAction::Remove)
    } else {
        Err(SettingsError::UnknownAction)
    }
}

fn strings_without(v: &Vec<String>, p: &String) -> (r: Vec<String>)
    ensures
        r@.map_values(|x: String| x@) == without(v@.map_values(|x: String| x@), p@),
{
    let mut r: Vec<String> = Vec::new();
    let mut i: usize = 0;
    while i < v.len()
        invariant
            i <= v.len(),
            r@.map_values(|x: String| x@) == without(v@.take(i as int).map_values(|x: String| x@), p@),
        decreases v.len() - i,
    {
        let ghost pre = v@.take(i as int).map_values(|x: String| x@);
        let ghost next = v@.take(i + 1).map_values(|x: String| x@);
        proof {
            assert(next.drop_last() =~= pre);
            assert(next.last() == v@[i as int]@);
        }
        if v[i] != *p {
            let ghost before = r@;
            r.push(v[i].clone());
            proof {
                assert(r@.map_values(|x: String| x@) =~= before.map_values(|x: String| x@).push(v@[i as int]@));
            }
        }
        i = i + 1;
    }
    proof {
        assert(v@.take(i as int) =~= v@);
    }
    r
}

fn ids_without(v: &Vec<u64>, c: u64) -> (r: Vec<u64>)
    ensures
        r@ == without_id(v@, c),
{
    let mut r: Vec<u64> = Vec::new();
    let mut i: usize = 0;
    while i < v.len()
        invariant
            i <= v.len(),
            r@ == without_id(v@.take(i as int), c),
        decreases v.len() - i,
    {
        proof {
            assert(v@.take(i + 1).drop_last() =~= v@.take(i as int));
        }
        if v[i] != c {
            r.push(v[i]);
        }
        i = i + 1;
    }
    proof {
        assert(v@.take(i as int) =~= v@);
    }
    r
}

/// The settings of every guild that has its own, and the guilds that commands are
/// registered in directly.
#[derive(Debug)]
pub struct GuildSettingsCache {
    guild_map: HashMap<u64, GuildSettings>,
    testing_guilds: Vec<u64>,
}

/// The settings that `rows` give guild `g`: those of the last row for it.
pub open spec fn row_settings(rows: Seq<(u64, SettingsView)>, g: u64) -> Option<SettingsView>
    decreases rows.len(),
{
    if rows.len() == 0 {
        None
    } else if rows.last().0 == g {
        Some(rows.last().1)
    } else {
        row_settings(rows.drop_last(), g)
    }
}

pub open spec fn row_views(rows: Seq<(u64, GuildSettings)>) -> Seq<(u64, SettingsView)> {
    rows.map_values(|r: (u64, GuildSettings)| (r.0, r.1@))
}

impl GuildSettingsCache {
    /// The settings stored for guild `g`, if any.
    pub closed spec fn stored(&self, g: u64) -> Option<SettingsView> {
        if self.guild_map@.contains_key(g) {
            Some(self.guild_map@[g]@)
        } else {
            None
        }
    }

    pub closed spec fn testing(&self) -> Seq<u64> {
        self.testing_guilds@
    }

    /// The settings that apply in guild `g`.
    pub open spec fn effective(&self, g: u64) -> SettingsView {
        match self.stored(g) {
            Some(s) => s,
            None => dm_view(),
        }
    }

    /// `self` holds what `old` held but for guild `g`, which now has `s`.
    pub open spec fn changed_to(&self, old: &GuildSettingsCache, g: u64, s: SettingsView) -> bool {
        &&& self.stored(g) == Some(s)
        &&& forall|h: u64| h != g ==> #[trigger] self.stored(h) == old.stored(h)
        &&& self.testing() == old.testing()
    }

    pub fn new(testing_guilds: Vec<u64>) -> (r: GuildSettingsCache)
        ensures
            forall|g: u64| #[trigger] r.stored(g) is None,
            r.testing() == testing_guilds@,
    {
        GuildSettingsCache { guild_map: HashMap::new(), testing_guilds }
    }

    /// Replaces what is stored by the settings that `rows` give each guild.
    pub fn load_guilds(&mut self, rows: Vec<(u64, GuildSettings)>)
        ensures
            forall|g: u64| #[trigger] final(self).stored(g) == row_settings(row_views(rows@), g),
            final(self).testing() == old(self).testing(),
    {
        let ghost all = row_views(rows@);
        let mut map: HashMap<u64, GuildSettings> = HashMap::new();
        let mut i: usize = 0;
        while i < rows.len()
            invariant
                i <= rows.len(),
                all == row_views(rows@),
                forall|g: u64| #[trigger] map@.contains_key(g) ==> row_settings(all.take(i as int), g) == Some(map@[g]@),
                forall|g: u64| !#[trigger] map@.contains_key(g) ==> row_settings(all.take(i as int), g) is None,
            decreases rows.len() - i,
        {
            let id = rows[i].0;
            let settings = rows[i].1.duplicate();
            proof {
                assert(all.take(i + 1).drop_last() =~= all.take(i as int));
                assert(all.take(i + 1).last() == all[i as int]);
            }
            map.insert(id, settings);
            i = i + 1;
        }
        proof {
            assert(all.take(i as int) =~= all);
        }
        self.guild_map = map;
    }

    /// The settings stored for guild `guild_id`, if any.
    pub fn get(&self, guild_id: u64) -> (r: Option<&GuildSettings>)
        ensures
            match r {
                Some(s) => self.stored(guild_id) == Some(s@),
                None => self.stored(guild_id) is None,
            },
    {
        self.guild_map.get(&guild_id)
    }

    /// A copy of the settings that apply in guild `guild_id`.
    pub fn get_or_default(&self, guild_id: u64) -> (r: GuildSettings)
        ensures
            r@ == self.effective(guild_id),
    {
        match self.guild_map.get(&guild_id) {
            Some(s) => s.duplicate(),
            None => GuildSettings::dm_settings(),
        }
    }

    /// Stores `settings` for guild `guild_id`.
    pub fn insert(&mut self, guild_id: u64, settings: GuildSettings)
        ensures
            final(self).changed_to(old(self), guild_id, settings@),
    {
        self.guild_map.insert(guild_id, settings);
    }

    /// Every guild with settings of its own.
    pub fn guild_map(&self) -> (r: &HashMap<u64, GuildSettings>)
        ensures
            forall|g: u64| #[trigger] r@.contains_key(g) <==> self.stored(g) is Some,
            forall|g: u64| #[trigger] r@.contains_key(g) ==> self.stored(g) == Some(r@[g]@),
    {
        &self.guild_map
    }

    /// The prefixes of a guild without settings of its own.
    pub fn default_prefixes(&self) -> (r: Vec<String>)
        ensures
            r@.map_values(|p: String| p@) == default_prefixes_view(),
    {
        default_prefixes()
    }

    /// The prefixes of guild `guild_id`, where it has settings of its own.
    pub fn prefixes(&self, guild_id: u64) -> (r: Option<Vec<String>>)
        ensures
            match r {
                Some(v) => self.stored(guild_id) matches Some(s) && v@.map_values(|p: String| p@) == s.prefixes,
                None => self.stored(guild_id) is None,
            },
    {
        match self.guild_map.get(&guild_id) {
            Some(s) => Some(copy_strings(&s.prefixes)),
            None => None,
        }
    }

    /// The guilds that commands are registered in directly.
    pub fn auto_register_guilds(&self) -> (r: Vec<u64>)
        ensures
            r@ == self.testing(),
    {
        copy_ids(&self.testing_guilds)
    }

    /// Takes out the settings of guild `g`, or the defaults where it has none.
    fn take_or_default(&mut self, g: u64) -> (r: GuildSettings)
        ensures
            r@ == old(self).effective(g),
            final(self).guild_map@ == old(self).guild_map@.remove(g),
            final(self).testing_guilds@ == old(self).testing_guilds@,
    {
        match self.guild_map.remove(&g) {
            Some(s) => s,
            None => GuildSettings::dm_settings(),
        }
    }

    pub fn add_prefix(&mut self, guild_id: u64, prefix: String)
        ensures
            ({
                let s = old(self).effective(guild_id);
                final(self).changed_to(old(self), guild_id, SettingsView { prefixes: s.prefixes.push(prefix@), ..s })
            }),
    {
        let mut s = self.take_or_default(guild_id);
        let ghost before = s.prefixes@;
        s.prefixes.push(prefix);
        proof {
            assert(s.prefixes@.map_values(|p: String| p@) =~= before.map_values(|p: String| p@).push(prefix@));
        }
        self.guild_map.insert(guild_id, s);
    }

    /// Puts back the default prefixes.
    pub fn reset_prefix(&mut self, guild_id: u64)
        ensures
            ({
                let s = old(self).effective(guild_id);
                final(self).changed_to(old(self), guild_id, SettingsView { prefixes: default_prefixes_view(), ..s })
            }),
    {
        let mut s = self.take_or_default(guild_id);
        s.prefixes = default_prefixes();
        self.guild_map.insert(guild_id, s);
    }

    /// Removes every copy of `prefix`, unless that would leave no prefix or there is only
    /// one: then nothing changes.
    pub fn remove_prefix(&mut self, guild_id: u64, prefix: &String) -> (r: Result<(), SettingsError>)
        ensures
            ({
                let s = old(self).effective(guild_id);
                let rest = without(s.prefixes, prefix@);
                &&& r is Err <==> (s.prefixes.len() <= 1 || rest.len() == 0)
                &&& r is Err ==> ((r matches Err(SettingsError::LastPrefix)) && *final(self) == *old(self))
                &&& r is Ok ==> final(self).changed_to(old(self), guild_id, SettingsView { prefixes: rest, ..s })
            }),
    {
        let current = match self.guild_map.get(&guild_id) {
            Some(s) => strings_without(&s.prefixes, prefix),
            None => {
                let d = default_prefixes();
                strings_without(&d, prefix)
            },
        };
        let count = match self.guild_map.get(&guild_id) {
            Some(s) => s.prefixes.len(),
            None => 1,
        };
        if count <= 1 || current.len() == 0 {
            return Err(SettingsError::LastPrefix);
        }
        let mut s = self.take_or_default(guild_id);
        s.prefixes = current;
        self.guild_map.insert(guild_id, s);
        Ok(())
    }

    /// Carries out a prefix command: `action` is "add", "reset" or "remove".
    pub fn set_prefix(&mut self, guild_id: u64, action: &String, prefix: Option<String>) -> (r: Result<(), SettingsError>)
        ensures
            ({
                let s = old(self).effective(guild_id);
                &&& action@ == "add"@ ==> match prefix {
                    Some(p) => r is Ok && final(self).changed_to(old(self), guild_id, SettingsView { prefixes: s.prefixes.push(p@), ..s }),
                    None => (r matches Err(SettingsError::MissingPrefix)) && *final(self) == *old(self),
                }
                &&& action@ == "reset"@ ==> r is Ok && final(self).changed_to(old(self), guild_id, SettingsView { prefixes: default_prefixes_view(), ..s })
                &&& action@ == "remove"@ ==> match prefix {
                    Some(p) => {
                        let rest = without(s.prefixes, p@);
                        &&& r is Err <==> (s.prefixes.len() <= 1 || rest.len() == 0)
                        &&& r is Err ==> ((r matches Err(SettingsError::LastPrefix)) && *final(self) == *old(self))
                        &&& r is Ok ==> final(self).changed_to(old(self), guild_id, SettingsView { prefixes: rest, ..s })
                    },
                    None => (r matches Err(SettingsError::MissingPrefix)) && *final(self) == *old(self),
                }
                &&& (action@ != "add"@ && action@ != "reset"@ && action@ != "remove"@) ==> ((r matches Err(SettingsError::UnknownAction)) && *final(self) == *old(self))
            }),
    {
        match parse_prefix_action(action) {
            Ok(PrefixAction::Add) => match prefix {
                Some(p) => {
                    self.add_prefix(guild_id, p);
                    Ok(())
                },
                None => Err(SettingsError::MissingPrefix),
            },
            Ok(PrefixAction::Reset) => {
                self.reset_prefix(guild_id);
                Ok(())
            },
            Ok(PrefixAction::Remove) => match prefix {
                Some(p) => self.remove_prefix(guild_id, &p),
                None => Err(SettingsError::MissingPrefix),
            },
            Err(e) => Err(e),
        }
    }

    pub fn add_filter(&mut self, guild_id: u64, channel_id: u64)
        ensures
            ({
                let s = old(self).effective(guild_id);
                final(self).changed_to(old(self), guild_id, SettingsView { channel_filters: s.channel_filters.push(channel_id), ..s })
            }),
    {
        let mut s = self.take_or_default(guild_id);
        s.channel_filters.push(channel_id);
        self.guild_map.insert(guild_id, s);
    }

    pub fn clear_filters(&mut self, guild_id: u64)
        ensures
            ({
                let s = old(self).effective(guild_id);
                final(self).changed_to(old(self), guild_id, SettingsView { channel_filters: Seq::empty(), ..s })
            }),
    {
        let mut s = self.take_or_default(guild_id);
        s.channel_filters = Vec::new();
        self.guild_map.insert(guild_id, s);
    }

    /// Removes every copy of `channel_id` from the channel filter.
    pub fn remove_filter(&mut self, guild_id: u64, channel_id: u64)
        ensures
            ({
                let s = old(self).effective(guild_id);
                final(self).changed_to(old(self), guild_id, SettingsView { channel_filters: without_id(s.channel_filters, channel_id), ..s })
            }),
    {
        let mut s = self.take_or_default(guild_id);
        s.channel_filters = ids_without(&s.channel_filters, channel_id);
        self.guild_map.insert(guild_id, s);
    }

    /// Carries out a channel filter command: `action` is "add", "clear" or "remove".
    pub fn set_filters(&mut self, guild_id: u64, action: &String, channel_id: Option<u64>) -> (r: Result<(), SettingsError>)
        ensures
            ({
                let s = old(self).effective(guild_id);
                &&& action@ == "add"@ ==> match channel_id {
                    Some(c) => r is Ok && final(self).changed_to(old(self), guild_id, SettingsView { channel_filters: s.channel_filters.push(c), ..s }),
                    None => (r matches Err(SettingsError::MissingChannel)) && *final(self) == *old(self),
                }
                &&& action@ == "clear"@ ==> r is Ok && final(self).changed_to(old(self), guild_id, SettingsView { channel_filters: Seq::empty(), ..s })
                &&& action@ == "remove"@ ==> match channel_id {
                    Some(c) => r is Ok && final(self).changed_to(old(self), guild_id, SettingsView { channel_filters: without_id(s.channel_filters, c), ..s }),
                    None => (r matches Err(SettingsError::MissingChannel)) && *final(self) == *old(self),
                }
                &&& (action@ != "add"@ && action@ != "clear"@ && action@ != "remove"@) ==> ((r matches Err(SettingsError::UnknownAction)) && *final(self) == *old(self))
            }),
    {
        match parse_filter_action(action) {
            Ok(FilterAction::Add) => match channel_id {
                Some(c) => {
                    self.add_filter(guild_id, c);
                    Ok(())
                },
                None => Err(SettingsError::MissingChannel),
            },
            Ok(FilterAction::Clear) => {
                self.clear_filters(guild_id);
                Ok(())
            },
            Ok(FilterAction::Remove) => match channel_id {
                Some(c) => {
                    self.remove_filter(guild_id, c);
                    Ok(())
                },
                None => Err(SettingsError::MissingChannel),
            },
            Err(e) => Err(e),
        }
    }

    /// Flips whether the channel filter is a blacklist; returns the new value.
    pub fn set_blacklist(&mut self, guild_id: u64) -> (r: bool)
        ensures
            ({
                let s = old(self).effective(guild_id);
                &&& r == !s.blacklist
                &&& final(self).changed_to(old(self), guild_id, SettingsView { blacklist: !s.blacklist, ..s })
            }),
    {
        let mut s = self.take_or_default(guild_id);
        s.blacklist = !s.blacklist;
        let r = s.blacklist;
        self.guild_map.insert(guild_id, s);
        r
    }

    /// Flips whether chain messages are removed; returns the new value.
    pub fn set_remove(&mut self, guild_id: u64) -> (r: bool)
        ensures
            ({
                let s = old(self).effective(guild_id);
                &&& r == !s.remove_messages
                &&& final(self).changed_to(old(self), guild_id, SettingsView { remove_messages: !s.remove_messages, ..s })
            }),
    {
        let mut s = self.take_or_default(guild_id);
        s.remove_messages = !s.remove_messages;
        let r = s.remove_messages;
        self.guild_map.insert(guild_id, s);
        r
    }

    /// Flips whether members must alternate; returns the new value.
    pub fn set_alternate(&mut self, guild_id: u64) -> (r: bool)
        ensures
            ({
                let s = old(self).effective(guild_id);
                &&& r == !s.alternate_member
                &&& final(self).changed_to(old(self), guild_id, SettingsView { alternate_member: !s.alternate_member, ..s })
            }),
    {
        let mut s = self.take_or_default(guild_id);
        s.alternate_member = !s.alternate_member;
        let r = s.alternate_member;
        self.guild_map.insert(guild_id, s);
        r
    }

    pub fn set_style(&mut self, guild_id: u64, style: String)
        ensures
            ({
                let s = old(self).effective(guild_id);
                final(self).changed_to(old(self), guild_id, SettingsView { style: style@, ..s })
            }),
    {
        let mut s = self.take_or_default(guild_id);
        s.style = style;
        self.guild_map.insert(guild_id, s);
    }

    pub fn set_threshold(&mut self, guild_id: u64, threshold: u16)
        ensures
            ({
                let s = old(self).effective(guild_id);
                final(self).changed_to(old(self), guild_id, SettingsView { chain_threshold: threshold, ..s })
            }),
    {
        let mut s = self.take_or_default(guild_id);
        s.chain_threshold = threshold;
        self.guild_map.insert(guild_id, s);
    }
}

} // verus!
