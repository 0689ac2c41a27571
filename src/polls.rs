//! Readiness polls before a listening party: the pending polls, who has
//! declared themselves ready, and what a reaction on a poll leads to.
use vstd::prelude::*;
use std::collections::VecDeque;

use crate::numbers::{decimal, push_decimal};
use crate::text::{build_message, names_view, ready_message};

verus! {

/// The bot's own emotes: ready, not ready, start, countdown and go.
pub const YES: &'static str = "<:FeelsGoodCrab:988509541069127780>";
pub const NO: &'static str = "<:FeelsBadCrab:988508541499342918>";
pub const START: &'static str = "<a:CrabRave:988508208240922635>";
pub const COUNT: &'static str = "🦀";
pub const GO: &'static str = "<a:CrabRave:988508208240922635>";

/// How many polls are kept pending; opening one more drops the oldest.
pub const MAX_POLLS: usize = 20;

/// A poll as the contracts see it: its interaction, its countdown and go
/// emotes if chosen, and the users ready so far.
pub type PollView = (u64, Option<Seq<char>>, Option<Seq<char>>, Seq<Seq<char>>);

pub open spec fn opt_view(o: Option<String>) -> Option<Seq<char>> {
    match o {
        Some(s) => Some(s@),
        None => None,
    }
}

/// One pending poll.
#[derive(Debug)]
pub struct Poll {
    pub id: u64,
    pub count_emote: Option<String>,
    pub go_emote: Option<String>,
    pub ready: Vec<String>,
}

impl View for Poll {
    type V = PollView;

    open spec fn view(&self) -> PollView {
        (self.id, opt_view(self.count_emote), opt_view(self.go_emote), names_view(self.ready@))
    }
}

pub open spec fn polls_view(ps: Seq<Poll>) -> Seq<PollView> {
    ps.map_values(|p: Poll| p@)
}

/// Position of the first poll from `i` on that belongs to interaction `id`,
/// or `ps.len()` when none does.
pub open spec fn find_from(ps: Seq<PollView>, id: u64, i: int) -> int
    decreases ps.len() - i,
{
    if i < 0 || i >= ps.len() {
        ps.len() as int
    } else if ps[i].0 == id {
        i
    } else {
        find_from(ps, id, i + 1)
    }
}

/// How a user is mentioned in a poll.
pub open spec fn mention(user: u64) -> Seq<char> {
    "<@"@ + decimal(user as nat) + ">"@
}

/// `names` with `name` added at the end, unless it is there already.
pub open spec fn with_ready(names: Seq<Seq<char>>, name: Seq<char>) -> Seq<Seq<char>> {
    if names.contains(name) {
        names
    } else {
        names.push(name)
    }
}

/// What a reaction on a poll leads to.
#[derive(Debug)]
pub enum PollAction {
    /// Edit the poll's message to this text.
    Edit(String),
    /// Run the countdown with these emotes (the module's own where absent).
    Countdown(Option<String>, Option<String>),
    /// Nothing to do.
    Ignore,
}

/// The polls after a reaction has looked up the poll of interaction `id`:
/// unchanged when it is pending, otherwise with a fresh poll in front.
pub open spec fn with_poll(ps: Seq<PollView>, id: u64) -> Seq<PollView> {
    if find_from(ps, id, 0) < ps.len() {
        ps
    } else {
        seq![(id, None::<Seq<char>>, None::<Seq<char>>, Seq::<Seq<char>>::empty())] + ps
    }
}

/// The position of the poll of interaction `id` in `with_poll(ps, id)`.
pub open spec fn poll_at(ps: Seq<PollView>, id: u64) -> int {
    if find_from(ps, id, 0) < ps.len() {
        find_from(ps, id, 0)
    } else {
        0
    }
}

/// The poll module: its emotes, and the polls pending, newest first.
pub struct ModPoll {
    pub yes: String,
    pub no: String,
    pub start: String,
    pub count: String,
    pub go: String,
    pub ready_polls: VecDeque<Poll>,
}

fn or_default(s: Option<&str>, default: &str) -> (r: String)
    ensures
        r@ == match s {
            Some(v) => v@,
            None => default@,
        },
{
    match s {
        Some(v) => v.to_string(),
        None => default.to_string(),
    }
}

fn contains_name(names: &Vec<String>, name: &String) -> (r: Option<usize>)
    ensures
        match r {
            Some(j) => j < names@.len() && names@[j as int]@ == name@
                && forall|k: int| 0 <= k < j ==> (#[trigger] names@[k])@ != name@,
            None => !names_view(names@).contains(name@),
        },
{
    let mut j: usize = 0;
    while j < names.len()
        invariant
            j <= names@.len(),
            forall|k: int| 0 <= k < j ==> (#[trigger] names@[k])@ != name@,
        decreases names@.len() - j,
    {
        if names[j] == *name {
            return Some(j);
        }
        j = j + 1;
    }
    proof {
        if names_view(names@).contains(name@) {
            let k = choose|k: int| 0 <= k < names@.len() && names_view(names@)[k] == name@;
            assert(names@[k]@ == name@);
        }
    }
    None
}

/// `e` written `k` times, separated by spaces.
pub open spec fn repeated(e: Seq<char>, k: nat) -> Seq<char>
    decreases k,
{
    if k <= 1 {
        e
    } else {
        repeated(e, (k - 1) as nat) + " "@ + e
    }
}

fn repeat_emote(e: &String, k: usize) -> (r: String)
    requires
        k >= 1,
    ensures
        r@ == repeated(e@, k as nat),
{
    let mut r = e.clone();
    let mut i: usize = 1;
    while i < k
        invariant
            1 <= i <= k,
            r@ == repeated(e@, i as nat),
        decreases k - i,
    {
        r.append(" ");
        r.append(e.as_str());
        i = i + 1;
    }
    r
}

/// The mention of `user`, as poll messages list it.
pub fn mention_of(user: u64) -> (s: String)
    ensures
        s@ == mention(user),
{
    let mut s = String::from_str("<@");
    push_decimal(&mut s, user);
    s.append(">");
    s
}

impl ModPoll {
    /// The pending polls, newest first.
    pub open spec fn polls(&self) -> Seq<PollView> {
        polls_view(self.ready_polls@)
    }

    /// A poll module with the given emotes, each defaulting to the bot's own.
    pub fn new(yes: Option<&str>, no: Option<&str>, start: Option<&str>, count: Option<&str>, go: Option<&str>) -> (m: ModPoll)
        ensures
            m.polls() == Seq::<PollView>::empty(),
            m.yes@ == match yes { Some(v) => v@, None => YES@ },
            m.no@ == match no { Some(v) => v@, None => NO@ },
            m.start@ == match start { Some(v) => v@, None => START@ },
            m.count@ == match count { Some(v) => v@, None => COUNT@ },
            m.go@ == match go { Some(v) => v@, None => GO@ },
    {
        let m = ModPoll {
            yes: or_default(yes, YES),
            no: or_default(no, NO),
            start: or_default(start, START),
            count: or_default(count, COUNT),
            go: or_default(go, GO),
            ready_polls: VecDeque::new(),
        };
        assert(m.polls() =~= Seq::<PollView>::empty());
        m
    }

    /// The position of the poll of interaction `id`, if it is pending.
    fn find(&self, id: u64) -> (r: Option<usize>)
        ensures
            match r {
                Some(k) => k == find_from(self.polls(), id, 0) && k < self.polls().len(),
                None => find_from(self.polls(), id, 0) == self.polls().len(),
            },
    {
        let ghost ps = self.polls();
        let mut i: usize = 0;
        while i < self.ready_polls.len()
            invariant
                ps == self.polls(),
                ps.len() == self.ready_polls@.len(),
                i <= ps.len(),
                find_from(ps, id, 0) == find_from(ps, id, i as int),
            decreases ps.len() - i,
        {
            assert(ps[i as int].0 == self.ready_polls@[i as int].id);
            if self.ready_polls[i].id == id {
                return Some(i);
            }
            i = i + 1;
        }
        None
    }

    /// Opens a poll for interaction `id`, dropping the oldest polls so that
    /// at most `MAX_POLLS` stay pending.
    pub fn create_poll(&mut self, id: u64, count_emote: Option<String>, go_emote: Option<String>)
        ensures
            final(self).polls() == seq![(id, opt_view(count_emote), opt_view(go_emote), Seq::<Seq<char>>::empty())]
                + old(self).polls().take(
                if old(self).polls().len() < MAX_POLLS { old(self).polls().len() as int } else { MAX_POLLS - 1 },
            ),
            final(self).yes == old(self).yes && final(self).start == old(self).start,
    {
        let ghost ps0 = old(self).ready_polls@;
        while self.ready_polls.len() >= MAX_POLLS
            invariant
                self.ready_polls@.len() <= ps0.len(),
                self.ready_polls@ == ps0.take(self.ready_polls@.len() as int),
                ps0.len() >= MAX_POLLS ==> self.ready_polls@.len() >= MAX_POLLS - 1,
                ps0.len() < MAX_POLLS ==> self.ready_polls@.len() == ps0.len(),
                self.yes == old(self).yes && self.start == old(self).start,
            decreases self.ready_polls@.len(),
        {
            let _ = self.ready_polls.pop_back();
            assert(self.ready_polls@ =~= ps0.take(self.ready_polls@.len() as int));
        }
        let poll = Poll { id, count_emote, go_emote, ready: Vec::new() };
        assert(poll@ == (id, opt_view(count_emote), opt_view(go_emote), Seq::<Seq<char>>::empty())) by {
            assert(names_view(poll.ready@) =~= Seq::<Seq<char>>::empty());
        }
        let ghost kept = self.ready_polls@;
        self.ready_polls.push_front(poll);
        assert(self.polls() =~= seq![poll@] + polls_view(kept));
        assert(polls_view(kept) =~= polls_view(ps0).take(kept.len() as int));
    }

    /// Makes the poll of interaction `id` pending, if it is not, and
    /// returns its position.
    fn poll_for(&mut self, id: u64) -> (k: usize)
        ensures
            final(self).polls() == with_poll(old(self).polls(), id),
            k == poll_at(old(self).polls(), id),
            k < final(self).polls().len(),
            final(self).yes == old(self).yes && final(self).start == old(self).start,
    {
        match self.find(id) {
            Some(k) => k,
            None => {
                let poll = Poll { id, count_emote: None, go_emote: None, ready: Vec::new() };
                assert(names_view(poll.ready@) =~= Seq::<Seq<char>>::empty());
                let ghost before = self.ready_polls@;
                self.ready_polls.push_front(poll);
                assert(self.polls() =~= seq![poll@] + polls_view(before));
                0
            },
        }
    }

    /// A reaction by `reactor` with `emoji` on the poll of interaction `id`,
    /// which `owner` started; `bot` is the bot's own user. The poll is made
    /// pending if it was not. The ready emote from anyone but the bot marks
    /// the reactor ready; the start emote from the owner ends the poll and
    /// starts the countdown; anything else is ignored.
    pub fn handle_ready_poll(&mut self, id: u64, owner: u64, reactor: u64, bot: Option<u64>, emoji: &String) -> (r: PollAction)
        ensures
            final(self).yes == old(self).yes,
            final(self).start == old(self).start,
            ({
                let ps = with_poll(old(self).polls(), id);
                let k = poll_at(old(self).polls(), id);
                let p = ps[k];
                if emoji@ == old(self).yes@ && bot != Some(reactor) {
                    let names = with_ready(p.3, mention(reactor));
                    &&& final(self).polls() == ps.update(k, (p.0, p.1, p.2, names))
                    &&& r is Edit
                    &&& r->Edit_0@ == ready_message(names)
                } else if owner != reactor || emoji@ != old(self).start@ {
                    &&& final(self).polls() == ps
                    &&& r is Ignore
                } else {
                    &&& final(self).polls() == ps.remove(k)
                    &&& r is Countdown
                    &&& opt_view(r->Countdown_0) == p.1
                    &&& opt_view(r->Countdown_1) == p.2
                }
            }),
    {
        let k = self.poll_for(id);
        let ghost ps = self.ready_polls@;
        let not_bot = match bot {
            Some(b) => b != reactor,
            None => true,
        };
        if *emoji == self.yes && not_bot {
            let name = mention_of(reactor);
            let mut poll = match self.ready_polls.remove(k) {
                Some(p) => p,
                None => return PollAction::Ignore,
            };
            let ghost before = poll.ready@;
            assert(poll@ == polls_view(ps)[k as int]);
            match contains_name(&poll.ready, &name) {
                None => {
                    poll.ready.push(name);
                    assert(names_view(poll.ready@) =~= names_view(before).push(name@));
                },
                Some(j) => {
                    assert(names_view(before)[j as int] == name@);
                    assert(names_view(before).contains(name@));
                },
            }
            assert(names_view(poll.ready@) == with_ready(names_view(before), name@));
            let message = build_message(poll.ready.as_slice());
            let ghost newp = poll@;
            self.ready_polls.insert(k, poll);
            assert(self.ready_polls@ =~= ps.update(k as int, self.ready_polls@[k as int]));
            assert(self.polls() =~= polls_view(ps).update(k as int, newp));
            return PollAction::Edit(message);
        }
        if owner != reactor || *emoji != self.start {
            return PollAction::Ignore;
        }
        match self.ready_polls.remove(k) {
            Some(poll) => {
                assert(self.polls() =~= polls_view(ps).remove(k as int));
                PollAction::Countdown(poll.count_emote, poll.go_emote)
            },
            None => PollAction::Ignore,
        }
    }

    /// A reaction by `reactor` with `emoji` removed from the poll of
    /// interaction `id`. Taking back the ready emote takes the reactor off
    /// the ready list; returns the poll's new text when that changed it.
    pub fn handle_remove_react(&mut self, id: u64, reactor: u64, emoji: &String) -> (r: Option<String>)
        ensures
            final(self).yes == old(self).yes,
            final(self).start == old(self).start,
            ({
                let ps = old(self).polls();
                let k = find_from(ps, id, 0);
                if emoji@ == old(self).yes@ && k < ps.len() && ps[k].3.contains(mention(reactor)) {
                    let j = ps[k].3.index_of_first(mention(reactor)).unwrap();
                    let names = ps[k].3.remove(j);
                    &&& final(self).polls() == ps.update(k, (ps[k].0, ps[k].1, ps[k].2, names))
                    &&& r is Some
                    &&& r->Some_0@ == ready_message(names)
                } else {
                    &&& final(self).polls() == ps
                    &&& r is None
                }
            }),
    {
        if *emoji != self.yes {
            return None;
        }
        let k = match self.find(id) {
            Some(k) => k,
            None => return None,
        };
        let ghost ps = self.ready_polls@;
        let name = mention_of(reactor);
        let j = match contains_name(&self.ready_polls[k].ready, &name) {
            Some(j) => j,
            None => return None,
        };
        let ghost names0 = names_view(ps[k as int].ready@);
        proof {
            assert(names0[j as int] == name@);
            assert(names0.contains(name@));
            names0.index_of_first_ensures(name@);
            let first = names0.index_of_first(name@).unwrap();
            if first < j {
                assert(names0[first] == ps[k as int].ready@[first]@);
            }
            if j < first {
                assert(names0[j as int] == name@);
            }
            assert(first == j as int);
        }
        let mut poll = match self.ready_polls.remove(k) {
            Some(p) => p,
            None => return None,
        };
        let _ = poll.ready.remove(j);
        assert(names_view(poll.ready@) =~= names0.remove(j as int));
        let message = build_message(poll.ready.as_slice());
        let ghost newp = poll@;
        self.ready_polls.insert(k, poll);
        assert(self.ready_polls@ =~= ps.update(k as int, self.ready_polls@[k as int]));
        assert(self.polls() =~= polls_view(ps).update(k as int, newp));
        Some(message)
    }

    /// The countdown's messages, in order: an announcement, the count emote
    /// three, two and one times, then the go emote. Emotes not given are
    /// the module's own.
    pub fn countdown(&self, count_emote: &Option<String>, go_emote: &Option<String>) -> (r: Vec<String>)
        ensures
            ({
                let c = match count_emote { Some(e) => e@, None => self.count@ };
                let g = match go_emote { Some(e) => e@, None => self.go@ };
                r@.len() == 5 && r@[0]@ == "Starting 3s countdown"@ && r@[1]@ == repeated(c, 3)
                    && r@[2]@ == repeated(c, 2) && r@[3]@ == repeated(c, 1) && r@[4]@ == g
            }),
    {
        let count = match count_emote {
            Some(e) => e,
            None => &self.count,
        };
        let go = match go_emote {
            Some(e) => e,
            None => &self.go,
        };
        let mut r: Vec<String> = Vec::new();
        r.push(String::from_str("Starting 3s countdown"));
        r.push(repeat_emote(count, 3));
        r.push(repeat_emote(count, 2));
        r.push(repeat_emote(count, 1));
        r.push(go.clone());
        r
    }
}

} // verus!
