//! Edits to a save: each remembers the value it sets and the value it
//! replaced, so that it can be applied and taken back.

use vstd::prelude::*;
use vstd::std_specs::convert::IntoSpec;

pub mod basic_items;
pub mod main_story;

use crate::edits::basic_items::{
    CatfoodEdit, InquiryCodeEdit, LeadershipEdit, LegendTicketEdit, NPEdit, NormalTicketEdit,
    PlatinumTicketEdit, RareTicketEdit, XPEdit,
};
use crate::edits::main_story::StoryChaptersEdit;

verus! {

/// A value to set (`new`) beside the value it replaces (`old`).
#[derive(Debug, Clone, Copy, PartialEq, Eq)]
pub struct EditMemory<N, O> {
    pub new: N,
    pub old: O,
}

/// An edit of `i32` values.
pub type EditMemoryi32 = EditMemory<i32, i32>;

impl<N, O> EditMemory<N, O> {
    pub fn new(new: N, old: O) -> (e: Self)
        ensures
            e.new == new,
            e.old == old,
    {
        Self { new, old }
    }

    /// An edit that sets the value it found: `new` is a clone of `val` and
    /// `old` is `val` converted.
    pub fn init_same(val: N) -> (e: Self)
        where
            N: Into<O> + Clone,
        ensures
            vstd::pervasive::cloned(val, e.new),
            <N as IntoSpec<O>>::obeys_into_spec() ==> e.old == val.into_spec(),
    {
        Self::new(val.clone(), val.into())
    }

    /// The edit that takes this one back: the old value becomes the new one
    /// and the reverse.
    pub fn swap(self) -> (e: Self)
        where
            N: Into<O>,
            O: Into<N>,
        ensures
            <O as IntoSpec<N>>::obeys_into_spec() ==> e.new == self.old.into_spec(),
            <N as IntoSpec<O>>::obeys_into_spec() ==> e.old == self.new.into_spec(),
    {
        let tmp = self.new;
        Self { new: self.old.into(), old: tmp.into() }
    }
}

/// The edit that takes `m` back: its old value set, in place of its new one.
pub open spec fn reversed<T>(m: EditMemory<T, T>) -> EditMemory<T, T> {
    EditMemory { new: m.old, old: m.new }
}

/// Taking back the edit that takes an edit back gives the edit again.
pub proof fn lemma_reversed_twice<T>(m: EditMemory<T, T>)
    ensures
        reversed(reversed(m)) == m,
{
}

impl<T> EditMemory<T, T> {
    /// The edit that takes this one back, where both values have one type.
    pub fn swapped(self) -> (e: Self)
        ensures
            e == reversed(self),
    {
        Self { new: self.old, old: self.new }
    }
}

/// Any one edit.
#[derive(Debug, Clone)]
pub enum Edit {
    Catfood(CatfoodEdit),
    XP(XPEdit),
    InquiryCode(InquiryCodeEdit),
    NormalTickets(NormalTicketEdit),
    RareTickets(RareTicketEdit),
    MainStory(StoryChaptersEdit),
    PlatinumTickets(PlatinumTicketEdit),
    LegendTickets(LegendTicketEdit),
    NP(NPEdit),
    Leadership(LeadershipEdit),
}

/// The name of the kind of an edit.
pub open spec fn edit_name(e: Edit) -> Seq<char> {
    match e {
        Edit::Catfood(_) => "catfood"@,
        Edit::XP(_) => "xp"@,
        Edit::MainStory(_) => "main-story"@,
        Edit::InquiryCode(_) => "inquiry-code"@,
        Edit::NormalTickets(_) => "normal-tickets"@,
        Edit::RareTickets(_) => "rare-tickets"@,
        Edit::PlatinumTickets(_) => "platinum-tickets"@,
        Edit::LegendTickets(_) => "legend-tickets"@,
        Edit::NP(_) => "np"@,
        Edit::Leadership(_) => "leadership"@,
    }
}

impl Edit {
    pub fn get_name(&self) -> (s: String)
        ensures
            s@ == edit_name(*self),
    {
        let name: &str = match self {
            Edit::Catfood(_) => "catfood",
            Edit::XP(_) => "xp",
            Edit::MainStory(_) => "main-story",
            Edit::InquiryCode(_) => "inquiry-code",
            Edit::NormalTickets(_) => "normal-tickets",
            Edit::RareTickets(_) => "rare-tickets",
            Edit::PlatinumTickets(_) => "platinum-tickets",
            Edit::LegendTickets(_) => "legend-tickets",
            Edit::NP(_) => "np",
            Edit::Leadership(_) => "leadership",
        };
        name.to_owned()
    }
}

} // verus!
