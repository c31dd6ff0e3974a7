use crate::registry::AccountId;
use std::collections::HashMap;
use vstd::prelude::*;

verus! {

broadcast use vstd::std_specs::hash::group_hash_axioms;

/// The longest membership name, in bytes, that `alter_membership` reads.
pub const MAX_MEMBERSHIP_NAME: usize = 50;

/// What kind of membership a member has.
#[derive(Clone, Copy, Debug, PartialEq, Eq, Structural)]
pub enum Membership {
    Platinum,
    Gold,
    Standard,
}

/// A member: how often it greeted, its membership and its account.
#[derive(Clone, Copy, Debug, PartialEq, Eq, Structural)]
pub struct Member {
    pub greet_count: u8,
    pub member_type: Membership,
    pub id: AccountId,
}

#[derive(Clone, Copy, Debug, PartialEq, Eq, Structural)]
pub enum Event {
    Greeted { user: AccountId },
    AccountInitialized { user: AccountId },
    MembershipUpgraded { user: AccountId, new_membership: Membership },
}

#[derive(Clone, Copy, Debug, PartialEq, Eq, Structural)]
pub enum Error {
    /// The member has greeted as often as its membership allows.
    QuotaExceeded,
    /// The membership named is not one of the three.
    InvalidUpgrade,
}

/// `s` in upper case.
pub uninterp spec fn upper_of(s: Seq<char>) -> Seq<char>;

/// Relies on str::to_uppercase: the upper-case form of the text, which
/// depends on the text alone.
#[verifier::external_body]
fn uppercase(s: &str) -> (r: String)
    ensures
        r@ == upper_of(s@),
{
    s.to_uppercase()
}

/// Relies on String::from_utf8: the text that the bytes encode, or an error
/// when they are not UTF-8.
#[verifier::external_body]
fn string_from_utf8(bytes: Vec<u8>) -> (r: Option<String>)
    ensures
        r is Some <==> vstd::utf8::valid_utf8(bytes@),
        r is Some ==> r->Some_0@ == vstd::utf8::decode_utf8(bytes@),
{
    String::from_utf8(bytes).ok()
}

/// The membership that an upper-case name stands for.
pub open spec fn membership_named(s: Seq<char>) -> Option<Membership> {
    if s == "PLATINUM"@ {
        Some(Membership::Platinum)
    } else if s == "GOLD"@ {
        Some(Membership::Gold)
    } else if s == "STANDARD"@ {
        Some(Membership::Standard)
    } else {
        None
    }
}

impl Membership {
    /// How many greetings beyond the first this membership allows.
    pub open spec fn quota(self) -> u8 {
        match self {
            Membership::Platinum => 10,
            Membership::Gold => 5,
            Membership::Standard => 1,
        }
    }

    /// The quota of this membership.
    pub fn get_quota(&self) -> (r: u8)
        ensures
            r == self.quota(),
    {
        match *self {
            Membership::Platinum => 10,
            Membership::Gold => 5,
            Membership::Standard => 1,
        }
    }

    /// The membership that an upper-case name stands for.
    pub fn from_upper(s: &String) -> (r: Option<Membership>)
        ensures
            r == membership_named(s@),
    {
        if s.eq(&"PLATINUM".to_owned()) {
            Some(Membership::Platinum)
        } else if s.eq(&"GOLD".to_owned()) {
            Some(Membership::Gold)
        } else if s.eq(&"STANDARD".to_owned()) {
            Some(Membership::Standard)
        } else {
            None
        }
    }

    /// The membership that `s` names, in any case.
    pub fn from_str(s: &str) -> (r: Result<Membership, String>)
        ensures
            match membership_named(upper_of(s@)) {
                Some(m) => r == Ok::<Membership, String>(m),
                None => r is Err && r->Err_0@ == "Invalid membership specified"@,
            },
    {
        let upper = uppercase(s);
        match Membership::from_upper(&upper) {
            Some(m) => Ok(m),
            None => Err("Invalid membership specified".to_owned()),
        }
    }
}

/// The members by account, and the events deposited so far.
pub struct Pallet {
    members: HashMap<AccountId, Member>,
    events: Vec<Event>,
}

impl Pallet {
    pub closed spec fn member_map(&self) -> Map<AccountId, Member> {
        self.members@
    }

    pub closed spec fn event_log(&self) -> Seq<Event> {
        self.events@
    }

    /// A greeter with no members.
    pub fn new() -> (r: Self)
        ensures
            r.member_map() == Map::<AccountId, Member>::empty(),
            r.event_log() == Seq::<Event>::empty(),
    {
        Pallet { members: HashMap::new(), events: Vec::new() }
    }

    /// The member of account `user`, if there is one.
    pub fn member(&self, user: AccountId) -> (r: Option<Member>)
        ensures
            r == (if self.member_map().contains_key(user) {
                Some(self.member_map()[user])
            } else {
                None::<Member>
            }),
    {
        match self.members.get(&user) {
            Some(m) => Some(*m),
            None => None,
        }
    }

    /// The events deposited so far, oldest first.
    pub fn events(&self) -> (r: &Vec<Event>)
        ensures
            r@ == self.event_log(),
    {
        &self.events
    }

    /// `user` greets. A newcomer becomes a standard member with one greeting
    /// (events `AccountInitialized`, `Greeted`). A standard member may not
    /// greet again; a gold or platinum member may while its count does not
    /// exceed its quota, and the count grows by one (event `Greeted`). A
    /// refused greeting fails with `QuotaExceeded` and changes nothing.
    pub fn greet(&mut self, user: AccountId) -> (r: Result<(), Error>)
        ensures
            !old(self).member_map().contains_key(user) ==> {
                &&& r is Ok
                &&& final(self).member_map() == old(self).member_map().insert(
                    user,
                    Member { greet_count: 1, member_type: Membership::Standard, id: user },
                )
                &&& final(self).event_log() == old(self).event_log().push(
                    Event::AccountInitialized { user },
                ).push(Event::Greeted { user })
            },
            old(self).member_map().contains_key(user) ==> ({
                let m = old(self).member_map()[user];
                if m.member_type == Membership::Standard || m.greet_count > m.member_type.quota() {
                    r == Err::<(), Error>(Error::QuotaExceeded) && *final(self) == *old(self)
                } else {
                    &&& r is Ok
                    &&& final(self).member_map() == old(self).member_map().insert(
                        user,
                        Member { greet_count: (m.greet_count + 1) as u8, ..m },
                    )
                    &&& final(self).event_log() == old(self).event_log().push(Event::Greeted { user })
                }
            }),
    {
        match self.members.get(&user) {
            Some(found) => {
                let member = *found;
                if member.member_type == Membership::Standard
                    || member.greet_count > member.member_type.get_quota() {
                    return Err(Error::QuotaExceeded);
                }
                self.members.insert(user, Member { greet_count: member.greet_count + 1, ..member });
                self.events.push(Event::Greeted { user });
            },
            None => {
                self.members.insert(
                    user,
                    Member { greet_count: 1, member_type: Membership::Standard, id: user },
                );
                self.events.push(Event::AccountInitialized { user });
                self.events.push(Event::Greeted { user });
            },
        }
        Ok(())
    }

    /// Gives `user` the membership named by `membership` (in any case): a
    /// member keeps its count, a newcomer starts at zero; event
    /// `MembershipUpgraded`. An unknown name fails with `InvalidUpgrade` and
    /// changes nothing.
    pub fn do_alter_membership(&mut self, user: AccountId, membership: &str) -> (r: Result<(), Error>)
        ensures
            Self::altered(*old(self), *final(self), user, upper_of(membership@), r),
    {
        let mem = match Membership::from_str(membership) {
            Ok(m) => m,
            Err(_) => return Err(Error::InvalidUpgrade),
        };
        self.set_membership(user, mem);
        Ok(())
    }

    /// The outcome of giving `user` the membership named `upper` (in upper
    /// case) on greeter `pre`, as result `r` and greeter `post`.
    pub open spec fn altered(pre: Self, post: Self, user: AccountId, upper: Seq<char>, r: Result<(), Error>) -> bool {
        match membership_named(upper) {
            None => r == Err::<(), Error>(Error::InvalidUpgrade) && post == pre,
            Some(mem) => {
                &&& r is Ok
                &&& post.member_map() == pre.member_map().insert(
                    user,
                    if pre.member_map().contains_key(user) {
                        Member { member_type: mem, ..pre.member_map()[user] }
                    } else {
                        Member { greet_count: 0, member_type: mem, id: user }
                    },
                )
                &&& post.event_log() == pre.event_log().push(
                    Event::MembershipUpgraded { user, new_membership: mem },
                )
            },
        }
    }

    /// Sets the membership of `user`, creating the member if needed.
    fn set_membership(&mut self, user: AccountId, mem: Membership)
        ensures
            final(self).member_map() == old(self).member_map().insert(
                user,
                if old(self).member_map().contains_key(user) {
                    Member { member_type: mem, ..old(self).member_map()[user] }
                } else {
                    Member { greet_count: 0, member_type: mem, id: user }
                },
            ),
            final(self).event_log() == old(self).event_log().push(
                Event::MembershipUpgraded { user, new_membership: mem },
            ),
    {
        let updated = match self.members.get(&user) {
            Some(found) => Member { member_type: mem, ..*found },
            None => Member { greet_count: 0, member_type: mem, id: user },
        };
        self.members.insert(user, updated);
        self.events.push(Event::MembershipUpgraded { user, new_membership: mem });
    }

    /// Gives `user` the membership named by the bytes `membership`: as
    /// `do_alter_membership`, after failing with `InvalidUpgrade` on more
    /// than fifty bytes or on bytes that are not UTF-8.
    pub fn alter_membership(&mut self, user: AccountId, membership: Vec<u8>) -> (r: Result<(), Error>)
        ensures
            membership@.len() > MAX_MEMBERSHIP_NAME ==> r == Err::<(), Error>(Error::InvalidUpgrade)
                && *final(self) == *old(self),
            membership@.len() <= MAX_MEMBERSHIP_NAME && !vstd::utf8::valid_utf8(membership@)
                ==> r == Err::<(), Error>(Error::InvalidUpgrade) && *final(self) == *old(self),
            membership@.len() <= MAX_MEMBERSHIP_NAME && vstd::utf8::valid_utf8(membership@)
                ==> Self::altered(
                *old(self),
                *final(self),
                user,
                upper_of(vstd::utf8::decode_utf8(membership@)),
                r,
            ),
    {
        if membership.len() > MAX_MEMBERSHIP_NAME {
            return Err(Error::InvalidUpgrade);
        }
        let text = match string_from_utf8(membership) {
            Some(t) => t,
            None => return Err(Error::InvalidUpgrade),
        };
        self.do_alter_membership(user, text.as_str())
    }
}

} // verus!
