//! Edits of single values of a save: counts of items and the inquiry code.

use vstd::prelude::*;
use crate::edits::{Edit, EditMemory};

verus! {

#[derive(Debug, Clone, PartialEq)]
pub struct CatfoodEdit(pub EditMemory<i32, i32>);

impl From<CatfoodEdit> for Edit {
    fn from(value: CatfoodEdit) -> (e: Edit) {
        Edit::Catfood(value)
    }
}

impl vstd::std_specs::convert::FromSpecImpl<CatfoodEdit> for Edit {
    open spec fn obeys_from_spec() -> bool {
        true
    }

    open spec fn from_spec(v: CatfoodEdit) -> Edit {
        Edit::Catfood(v)
    }
}

#[derive(Debug, Clone, PartialEq)]
pub struct XPEdit(pub EditMemory<i32, i32>);

impl From<XPEdit> for Edit {
    fn from(value: XPEdit) -> (e: Edit) {
        Edit::XP(value)
    }
}

impl vstd::std_specs::convert::FromSpecImpl<XPEdit> for Edit {
    open spec fn obeys_from_spec() -> bool {
        true
    }

    open spec fn from_spec(v: XPEdit) -> Edit {
        Edit::XP(v)
    }
}

#[derive(Debug, Clone, PartialEq)]
pub struct NormalTicketEdit(pub EditMemory<i32, i32>);

impl From<NormalTicketEdit> for Edit {
    fn from(value: NormalTicketEdit) -> (e: Edit) {
        Edit::NormalTickets(value)
    }
}

impl vstd::std_specs::convert::FromSpecImpl<NormalTicketEdit> for Edit {
    open spec fn obeys_from_spec() -> bool {
        true
    }

    open spec fn from_spec(v: NormalTicketEdit) -> Edit {
        Edit::NormalTickets(v)
    }
}

#[derive(Debug, Clone, PartialEq)]
pub struct RareTicketEdit(pub EditMemory<i32, i32>);

impl From<RareTicketEdit> for Edit {
    fn from(value: RareTicketEdit) -> (e: Edit) {
        Edit::RareTickets(value)
    }
}

impl vstd::std_specs::convert::FromSpecImpl<RareTicketEdit> for Edit {
    open spec fn obeys_from_spec() -> bool {
        true
    }

    open spec fn from_spec(v: RareTicketEdit) -> Edit {
        Edit::RareTickets(v)
    }
}

#[derive(Debug, Clone, PartialEq)]
pub struct InquiryCodeEdit(pub EditMemory<String, String>);

impl From<InquiryCodeEdit> for Edit {
    fn from(value: InquiryCodeEdit) -> (e: Edit) {
        Edit::InquiryCode(value)
    }
}

impl vstd::std_specs::convert::FromSpecImpl<InquiryCodeEdit> for Edit {
    open spec fn obeys_from_spec() -> bool {
        true
    }

    open spec fn from_spec(v: InquiryCodeEdit) -> Edit {
        Edit::InquiryCode(v)
    }
}

#[derive(Debug, Clone, PartialEq)]
pub struct PlatinumTicketEdit(pub EditMemory<i32, i32>);

impl From<PlatinumTicketEdit> for Edit {
    fn from(value: PlatinumTicketEdit) -> (e: Edit) {
        Edit::PlatinumTickets(value)
    }
}

impl vstd::std_specs::convert::FromSpecImpl<PlatinumTicketEdit> for Edit {
    open spec fn obeys_from_spec() -> bool {
        true
    }

    open spec fn from_spec(v: PlatinumTicketEdit) -> Edit {
        Edit::PlatinumTickets(v)
    }
}

#[derive(Debug, Clone, PartialEq)]
pub struct LegendTicketEdit(pub EditMemory<i32, i32>);

impl From<LegendTicketEdit> for Edit {
    fn from(value: LegendTicketEdit) -> (e: Edit) {
        Edit::LegendTickets(value)
    }
}

impl vstd::std_specs::convert::FromSpecImpl<LegendTicketEdit> for Edit {
    open spec fn obeys_from_spec() -> bool {
        true
    }

    open spec fn from_spec(v: LegendTicketEdit) -> Edit {
        Edit::LegendTickets(v)
    }
}

#[derive(Debug, Clone, PartialEq)]
pub struct NPEdit(pub EditMemory<i32, i32>);

impl From<NPEdit> for Edit {
    fn from(value: NPEdit) -> (e: Edit) {
        Edit::NP(value)
    }
}

impl vstd::std_specs::convert::FromSpecImpl<NPEdit> for Edit {
    open spec fn obeys_from_spec() -> bool {
        true
    }

    open spec fn from_spec(v: NPEdit) -> Edit {
        Edit::NP(v)
    }
}

#[derive(Debug, Clone, PartialEq)]
pub struct LeadershipEdit(pub EditMemory<i32, i32>);

impl From<LeadershipEdit> for Edit {
    fn from(value: LeadershipEdit) -> (e: Edit) {
        Edit::Leadership(value)
    }
}

impl vstd::std_specs::convert::FromSpecImpl<LeadershipEdit> for Edit {
    open spec fn obeys_from_spec() -> bool {
        true
    }

    open spec fn from_spec(v: LeadershipEdit) -> Edit {
        Edit::Leadership(v)
    }
}

} // verus!
