//! The shared chat session: a membership set of users and an append-only
//! message history. Membership names are unique and trimmed; history is
//! strictly insertion-ordered and survives a user's departure. The glue
//! that owns the session behind a lock calls the helper functions at the
//! bottom, one call per critical section.

use vstd::prelude::*;
use crate::text::{is_trimmed, spec_trim, trim_str};
use chrono::{Datelike, Timelike};

verus! {

/// A chat participant, identified solely by a trimmed username.
#[derive(Debug)]
pub struct User(String);

impl View for User {
    type V = Seq<char>;

    closed spec fn view(&self) -> Seq<char> {
        self.0@
    }
}

impl Clone for User {
    fn clone(&self) -> (r: Self)
        ensures
            r == *self,
    {
        User(self.0.clone())
    }
}

impl User {
    /// Makes a user out of a username, trimming it first.
    pub fn new_user(username: &str) -> (u: User)
        ensures
            u@ == spec_trim(username@),
            is_trimmed(u@),
    {
        User(trim_str(username))
    }

    /// Consumes the user value; membership itself is governed by [`Chat`].
    pub fn delete_user(self) {
    }

    pub fn get_username(&self) -> (r: &str)
        ensures
            r@ == self@,
    {
        self.0.as_str()
    }
}

/// The wall-clock instant a message was created, split into plain fields
/// so that receivers can walk them: hour, minute, second and day, month,
/// year.
#[derive(Debug, Clone, Copy)]
pub struct Clock {
    pub time: (i32, i32, i32),
    pub date: (i32, i32, i32),
}

impl Clock {
    /// The component ranges of a calendar clock reading.
    pub open spec fn wf(&self) -> bool {
        &&& 0 <= self.time.0 <= 23
        &&& 0 <= self.time.1 <= 59
        &&& 0 <= self.time.2 <= 59
        &&& 1 <= self.date.0 <= 31
        &&& 1 <= self.date.1 <= 12
    }
}

/// Relies on chrono's `Utc::now` converted to chrono-tz's Sao Paulo zone:
/// one wall-clock reading, handed back as its documented components (hour
/// 0-23, minute 0-59, second 0-59, day 1-31, month 1-12). The reading
/// depends on the moment of the call, so nothing beyond those ranges is
/// promised.
#[verifier::external_body]
fn clock_now() -> (c: Clock)
    ensures
        c.wf(),
{
    let t = chrono::Utc::now().with_timezone(&chrono_tz::America::Sao_Paulo);
    Clock {
        time: (t.hour() as i32, t.minute() as i32, t.second() as i32),
        date: (t.day() as i32, t.month() as i32, t.year()),
    }
}

/// A history entry: its author, the clock reading captured once at
/// creation, and the trimmed text. Immutable once created.
#[derive(Debug)]
pub struct Message {
    user: User,
    clock: Clock,
    message: String,
}

impl Clone for Message {
    fn clone(&self) -> (r: Self)
        ensures
            r == *self,
    {
        Message { user: self.user.clone(), clock: self.clock, message: self.message.clone() }
    }
}

impl Message {
    pub closed spec fn spec_author(&self) -> Seq<char> {
        self.user@
    }

    pub closed spec fn spec_text(&self) -> Seq<char> {
        self.message@
    }

    pub closed spec fn spec_clock(&self) -> Clock {
        self.clock
    }

    /// Builds a message from its author and raw text, capturing the wall
    /// clock once; the text is trimmed before storage.
    pub fn new_message(user: User, message: &str) -> (m: Message)
        ensures
            m.spec_author() == user@,
            m.spec_text() == spec_trim(message@),
            is_trimmed(m.spec_text()),
            m.spec_clock().wf(),
    {
        let clock = clock_now();
        let process_msg = trim_str(message);
        Message { user, clock, message: process_msg }
    }

    pub fn author(&self) -> (r: &User)
        ensures
            r@ == self.spec_author(),
    {
        &self.user
    }

    pub fn text(&self) -> (r: &str)
        ensures
            r@ == self.spec_text(),
    {
        self.message.as_str()
    }

    pub fn clock(&self) -> (c: Clock)
        ensures
            c == self.spec_clock(),
    {
        self.clock
    }
}

/// The session aggregate: the currently joined users and the ordered
/// message history.
#[derive(Debug)]
pub struct Chat {
    users: Vec<User>,
    messages: Vec<Message>,
}

impl Chat {
    /// The membership, as the sequence of stored usernames.
    pub closed spec fn spec_users(&self) -> Seq<Seq<char>> {
        self.users@.map_values(|u: User| u@)
    }

    /// The history, oldest first.
    pub closed spec fn spec_messages(&self) -> Seq<Message> {
        self.messages@
    }

    /// The session invariant: usernames are pairwise distinct and trimmed.
    pub open spec fn wf(&self) -> bool {
        &&& (forall|i: int, j: int|
            0 <= i < j < self.spec_users().len() ==> self.spec_users()[i] != self.spec_users()[j])
        &&& (forall|i: int|
            0 <= i < self.spec_users().len() ==> is_trimmed(#[trigger] self.spec_users()[i]))
    }

    /// An empty session.
    pub fn new() -> (c: Chat)
        ensures
            c.spec_users() == Seq::<Seq<char>>::empty(),
            c.spec_messages() == Seq::<Message>::empty(),
            c.wf(),
    {
        let c = Chat::new_chat(Vec::new(), Vec::new());
        proof {
            assert(c.spec_users() =~= Seq::<Seq<char>>::empty());
        }
        c
    }

    fn new_chat(users: Vec<User>, messages: Vec<Message>) -> (c: Chat)
        ensures
            c.spec_users() == users@.map_values(|u: User| u@),
            c.spec_messages() == messages@,
    {
        Chat { users, messages }
    }

    /// Whether a user with this (trimmed) name is currently joined.
    pub fn check_user_exists(&self, username: &str) -> (b: bool)
        ensures
            b == self.spec_users().contains(spec_trim(username@)),
    {
        let t = trim_str(username);
        let n = self.users.len();
        let mut k: usize = 0;
        while k < n
            invariant
                0 <= k <= n,
                n == self.users.len(),
                t@ == spec_trim(username@),
                forall|m: int| 0 <= m < k ==> self.spec_users()[m] != t@,
            decreases n - k,
        {
            if self.users[k].0 == t {
                assert(self.spec_users()[k as int] == t@);
                return true;
            }
            k = k + 1;
        }
        proof {
            if self.spec_users().contains(t@) {
                let i = choose|i: int| 0 <= i < self.spec_users().len() && self.spec_users()[i] == t@;
                assert(self.spec_users()[i] != t@);
            }
        }
        false
    }

    /// Inserts a user that is not yet a member; the membership grows by
    /// exactly that name.
    pub fn user_join(&mut self, new_user: &User)
        requires
            old(self).wf(),
            is_trimmed(new_user@),
            !old(self).spec_users().contains(new_user@),
        ensures
            final(self).wf(),
            final(self).spec_users() == old(self).spec_users().push(new_user@),
            final(self).spec_messages() == old(self).spec_messages(),
    {
        self.users.push(new_user.clone());
        proof {
            assert(self.spec_users() =~= old(self).spec_users().push(new_user@));
            assert forall|i: int, j: int|
                0 <= i < j < self.spec_users().len() implies self.spec_users()[i]
                != self.spec_users()[j] by {
                if j == self.spec_users().len() - 1 {
                    if old(self).spec_users()[i] == new_user@ {
                        assert(old(self).spec_users().contains(new_user@));
                    }
                }
            }
        }
    }

    /// Removes the user with this name from membership, if present; the
    /// history is untouched either way.
    pub fn user_leave(&mut self, removed_user: &User)
        requires
            old(self).wf(),
        ensures
            final(self).wf(),
            final(self).spec_messages() == old(self).spec_messages(),
            !final(self).spec_users().contains(removed_user@),
            old(self).spec_users().contains(removed_user@) ==> final(self).spec_users()
                == old(self).spec_users().remove(
                user_index(old(self).spec_users(), removed_user@),
            ),
            !old(self).spec_users().contains(removed_user@) ==> final(self).spec_users() == old(
                self,
            ).spec_users(),
    {
        let n = self.users.len();
        let mut k: usize = 0;
        while k < n
            invariant
                0 <= k <= n,
                n == self.users.len(),
                *self == *old(self),
                old(self).wf(),
                forall|m: int| 0 <= m < k ==> self.spec_users()[m] != removed_user@,
            decreases n - k,
        {
            if self.users[k].0 == removed_user.0 {
                assert(old(self).spec_users()[k as int] == removed_user@);
                self.users.remove(k);
                proof {
                    let olds = old(self).spec_users();
                    assert(olds.contains(removed_user@));
                    let i = user_index(olds, removed_user@);
                    assert(olds[i] == removed_user@);
                    assert(i == k) by {
                        if i != k {
                            assert(olds[i] != olds[k as int]);
                        }
                    }
                    assert(self.spec_users() =~= olds.remove(k as int));
                    assert forall|m: int|
                        0 <= m < self.spec_users().len() implies self.spec_users()[m]
                        != removed_user@ by {
                        if m < k {
                            assert(olds[m] != olds[k as int]);
                        } else {
                            assert(self.spec_users()[m] == olds[m + 1]);
                            assert(olds[m + 1] != olds[k as int]);
                        }
                    }
                    if self.spec_users().contains(removed_user@) {
                        let w = choose|w: int|
                            0 <= w < self.spec_users().len() && self.spec_users()[w]
                                == removed_user@;
                        assert(self.spec_users()[w] != removed_user@);
                    }
                }
                return ;
            }
            k = k + 1;
        }
        proof {
            if old(self).spec_users().contains(removed_user@) {
                let i = choose|i: int|
                    0 <= i < old(self).spec_users().len() && old(self).spec_users()[i]
                        == removed_user@;
                assert(self.spec_users()[i] != removed_user@);
            }
            if self.spec_users().contains(removed_user@) {
                let i = choose|i: int|
                    0 <= i < self.spec_users().len() && self.spec_users()[i] == removed_user@;
                assert(self.spec_users()[i] != removed_user@);
            }
        }
    }

    /// Appends a message to the history; nothing else moves.
    pub fn add_to_history(&mut self, msg: Message)
        ensures
            final(self).spec_users() == old(self).spec_users(),
            final(self).spec_messages() == old(self).spec_messages().push(msg),
    {
        self.messages.push(msg);
    }

    /// The entire history in chronological order, first to last.
    pub fn get_history(&self) -> (h: &Vec<Message>)
        ensures
            h@ == self.spec_messages(),
    {
        &self.messages
    }

    /// The most recently appended message, if the history is not empty.
    pub fn get_last_message(&self) -> (m: Option<&Message>)
        ensures
            match m {
                Option::None => self.spec_messages().len() == 0,
                Option::Some(x) => self.spec_messages().len() > 0 && *x
                    == self.spec_messages().last(),
            },
    {
        if self.messages.len() == 0 {
            None
        } else {
            Some(&self.messages[self.messages.len() - 1])
        }
    }

    /// Creates a message from this author and text and appends it; the
    /// appended entry is echoed back.
    pub fn send_msg(&mut self, user: &User, msg: &str) -> (m: Message)
        ensures
            final(self).spec_users() == old(self).spec_users(),
            final(self).spec_messages() == old(self).spec_messages().push(m),
            m.spec_author() == user@,
            m.spec_text() == spec_trim(msg@),
            m.spec_clock().wf(),
    {
        let message = Message::new_message(user.clone(), msg);
        let m = message.clone();
        self.add_to_history(message);
        m
    }

    /// The users currently in the chat, for display by the caller.
    pub fn get_users(&self) -> (us: &Vec<User>)
        ensures
            us@.map_values(|u: User| u@) == self.spec_users(),
    {
        &self.users
    }

    /// Looks up the member with this (trimmed) name.
    pub fn get_your_user(&self, username: &str) -> (r: Option<&User>)
        ensures
            match r {
                Option::Some(u) => u@ == spec_trim(username@) && self.spec_users().contains(
                    spec_trim(username@),
                ),
                Option::None => !self.spec_users().contains(spec_trim(username@)),
            },
    {
        let t = trim_str(username);
        let n = self.users.len();
        let mut k: usize = 0;
        while k < n
            invariant
                0 <= k <= n,
                n == self.users.len(),
                t@ == spec_trim(username@),
                forall|m: int| 0 <= m < k ==> self.spec_users()[m] != t@,
            decreases n - k,
        {
            if self.users[k].0 == t {
                assert(self.spec_users()[k as int] == t@);
                return Some(&self.users[k]);
            }
            k = k + 1;
        }
        proof {
            if self.spec_users().contains(t@) {
                let i = choose|i: int| 0 <= i < self.spec_users().len() && self.spec_users()[i] == t@;
                assert(self.spec_users()[i] != t@);
            }
        }
        None
    }
}

/// The index of `name` in a membership sequence that contains it; under
/// the session invariant this index is unique.
pub open spec fn user_index(users: Seq<Seq<char>>, name: Seq<char>) -> int {
    choose|i: int| 0 <= i < users.len() && users[i] == name
}

/// A membership after one join attempt: unchanged when the name is taken,
/// grown by the name otherwise.
pub open spec fn join_one(users: Seq<Seq<char>>, name: Seq<char>) -> Seq<Seq<char>> {
    if users.contains(name) {
        users
    } else {
        users.push(name)
    }
}

/// A membership after a batch of join attempts, one after the other.
/// Every operation on a session holds exclusive access for its full
/// duration, so any concurrent burst of joins acts as some such serial
/// order.
pub open spec fn join_all(users: Seq<Seq<char>>, names: Seq<Seq<char>>) -> Seq<Seq<char>>
    decreases names.len(),
{
    if names.len() == 0 {
        users
    } else {
        join_all(join_one(users, names[0]), names.drop_first())
    }
}

/// Uniqueness law: in any session that satisfies the invariant — and
/// every operation of this module preserves it — no two membership slots
/// carry the same username.
pub proof fn lemma_usernames_unique(c: Chat, i: int, j: int)
    requires
        c.wf(),
        0 <= i < c.spec_users().len(),
        0 <= j < c.spec_users().len(),
        i != j,
    ensures
        c.spec_users()[i] != c.spec_users()[j],
{
}

/// Concurrent-joins law: joining any batch of pairwise-distinct names,
/// none of them taken, succeeds for every name in every serial order —
/// `join_one` never takes its unchanged branch — and the final
/// membership is exactly the old one followed by the batch: nothing is
/// lost and nothing is inserted twice.
pub proof fn lemma_concurrent_joins(users: Seq<Seq<char>>, names: Seq<Seq<char>>)
    requires
        forall|i: int, j: int| 0 <= i < j < users.len() ==> users[i] != users[j],
        forall|i: int, j: int| 0 <= i < j < names.len() ==> names[i] != names[j],
        forall|i: int| 0 <= i < names.len() ==> !users.contains(#[trigger] names[i]),
    ensures
        join_all(users, names) == users + names,
        forall|i: int, j: int|
            0 <= i < j < users.len() + names.len() ==> (users + names)[i] != (users + names)[j],
    decreases names.len(),
{
    if names.len() == 0 {
        assert(join_all(users, names) =~= users + names);
    } else {
        let first = names[0];
        assert(!users.contains(first));
        let grown = users.push(first);
        let rest = names.drop_first();
        assert forall|i: int, j: int| 0 <= i < j < grown.len() implies grown[i] != grown[j] by {
            if j == grown.len() - 1 {
                if grown[i] == first {
                    assert(users.contains(first));
                }
            }
        }
        assert forall|i: int, j: int| 0 <= i < j < rest.len() implies rest[i] != rest[j] by {
            assert(names[i + 1] != names[j + 1]);
        }
        assert forall|i: int| 0 <= i < rest.len() implies !grown.contains(#[trigger] rest[i]) by {
            assert(rest[i] == names[i + 1]);
            assert(names[0] != names[i + 1]);
            if grown.contains(rest[i]) {
                let w = choose|w: int| 0 <= w < grown.len() && grown[w] == rest[i];
                if w < users.len() {
                    assert(users.contains(names[i + 1]));
                } else {
                    assert(grown[w] == first);
                }
            }
        }
        lemma_concurrent_joins(grown, rest);
        assert(join_all(users, names) == join_all(grown, rest));
        assert(grown + rest =~= users + names);
    }
    assert forall|i: int, j: int|
        0 <= i < j < users.len() + names.len() implies (users + names)[i] != (users + names)[j] by {
        let all = users + names;
        if j < users.len() {
            assert(all[i] == users[i] && all[j] == users[j]);
        } else if i < users.len() {
            assert(all[j] == names[j - users.len()]);
            if all[i] == all[j] {
                assert(users.contains(names[j - users.len()]));
            }
        } else {
            assert(all[i] == names[i - users.len()] && all[j] == names[j - users.len()]);
        }
    }
}

/// The failure modes of the session operations.
#[derive(Debug, Clone, Copy, PartialEq, Eq, Structural)]
pub enum ChatError {
    AlreadyJoined,
    NotFound,
}

/// One join request against the session: fails with `AlreadyJoined` and
/// changes nothing when the trimmed name is taken, otherwise inserts it.
pub fn join_helper(username: &str, chat: &mut Chat) -> (r: Result<(), ChatError>)
    requires
        old(chat).wf(),
    ensures
        final(chat).wf(),
        final(chat).spec_messages() == old(chat).spec_messages(),
        old(chat).spec_messages().is_prefix_of(final(chat).spec_messages()),
        final(chat).spec_users() == join_one(old(chat).spec_users(), spec_trim(username@)),
        r == (if old(chat).spec_users().contains(spec_trim(username@)) {
            Result::<(), ChatError>::Err(ChatError::AlreadyJoined)
        } else {
            Result::<(), ChatError>::Ok(())
        }),
{
    if chat.check_user_exists(username) {
        Err(ChatError::AlreadyJoined)
    } else {
        let new_user = User::new_user(username);
        chat.user_join(&new_user);
        Ok(())
    }
}

/// One leave request against the session: removes the member with the
/// trimmed name, or fails with `NotFound`; the history is untouched in
/// both cases.
pub fn leave_helper(username: &str, chat: &mut Chat) -> (r: Result<(), ChatError>)
    requires
        old(chat).wf(),
    ensures
        final(chat).wf(),
        final(chat).spec_messages() == old(chat).spec_messages(),
        old(chat).spec_messages().is_prefix_of(final(chat).spec_messages()),
        old(chat).spec_users().contains(spec_trim(username@)) ==> {
            &&& r == Result::<(), ChatError>::Ok(())
            &&& final(chat).spec_users() == old(chat).spec_users().remove(
                user_index(old(chat).spec_users(), spec_trim(username@)),
            )
            &&& !final(chat).spec_users().contains(spec_trim(username@))
        },
        !old(chat).spec_users().contains(spec_trim(username@)) ==> {
            &&& r == Result::<(), ChatError>::Err(ChatError::NotFound)
            &&& *final(chat) == *old(chat)
        },
{
    if chat.check_user_exists(username) {
        let user = User::new_user(username);
        chat.user_leave(&user);
        Ok(())
    } else {
        Err(ChatError::NotFound)
    }
}

/// One send request against the session. A sender who is not a member is
/// joined first (the documented fallback: sending from an unknown user
/// implicitly joins them); the message is then appended and echoed back.
pub fn send_message_helper(username: &str, message: &str, chat: &mut Chat) -> (m: Message)
    requires
        old(chat).wf(),
    ensures
        final(chat).wf(),
        final(chat).spec_users() == join_one(old(chat).spec_users(), spec_trim(username@)),
        final(chat).spec_messages() == old(chat).spec_messages().push(m),
        old(chat).spec_messages().is_prefix_of(final(chat).spec_messages()),
        m.spec_author() == spec_trim(username@),
        m.spec_text() == spec_trim(message@),
        m.spec_clock().wf(),
{
    let user = User::new_user(username);
    if !chat.check_user_exists(username) {
        chat.user_join(&user);
    }
    chat.send_msg(&user, message)
}

} // verus!
