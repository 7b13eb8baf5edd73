//! The gold pass and the talents of cats, added in version 8.0.

use vstd::prelude::*;
use crate::blocks::marker::{read_marker, spec_read_marker};
use crate::save::GVCC;
use crate::stream::{Codec, Reader, StreamResult, Writer, Readable, Writable};
use crate::stream::compound::{Assertable, HashMapLength, spec_read_map};
use crate::stream::lists::{
    lemma_vec_reader_bounded, read_result_view, spec_read_vec, spec_write_vec, vec_reader, vec_writable,
    VecArgsLength,
};
use crate::stream::modeled::{spec_read_model_map, spec_write_models, FixedCodec, I32List, ModelMap};

verus! {

/// A talent of a cat and its level.
#[derive(Debug, Clone, Copy, PartialEq, Eq, Structural)]
pub struct Talent {
    pub id: i32,
    pub level: i32,
}

impl Readable for Talent {
    open spec fn spec_read(bytes: Seq<u8>) -> Option<(Talent, int)> {
        match <(i32, i32)>::spec_read(bytes) {
            Some((t, k)) => Some((Talent { id: t.0, level: t.1 }, k)),
            None => None,
        }
    }

    proof fn lemma_read_bounds(bytes: Seq<u8>) {
        <(i32, i32)>::lemma_read_bounds(bytes);
    }

    fn read(r: &mut Reader) -> (res: StreamResult<Talent>) {
        let (id, level) = <(i32, i32)>::read(r)?;
        Ok(Talent { id, level })
    }
}

impl Writable for Talent {
    open spec fn spec_write(&self) -> Seq<u8> {
        (self.id, self.level).spec_write()
    }

    open spec fn can_write(&self) -> bool {
        true
    }

    open spec fn spec_default() -> Talent {
        Talent { id: 0, level: 0 }
    }

    fn write(&self, w: &mut Writer) {
        (self.id, self.level).write(w);
    }

    fn default_value() -> (d: Talent) {
        Talent { id: 0, level: 0 }
    }

    proof fn lemma_default_writable() {
    }
}

impl Codec for Talent {
    proof fn lemma_roundtrip(v: Talent, rest: Seq<u8>) {
        <(i32, i32)>::lemma_roundtrip((v.id, v.level), rest);
    }
}

impl FixedCodec for Talent {
    proof fn lemma_always_writable(v: Self) {
    }
}

/// The first numbers of the gold pass: the officer, the number of renewals,
/// seven timestamps (start and end of the current, next and total periods,
/// and the end of a time error), the number of state updates and the date of
/// the login bonus. Timestamps are the bits of the `f64` each is stored as.
pub type GoldPassHead = (i32, (i32, (u64, (u64, (u64, (u64, (u64, (u64, (u64, (i32, u64))))))))));

/// The gold pass.
#[derive(Debug, Clone)]
pub struct GoldPass {
    pub officer_id: i32,
    pub total_renewal_times: i32,
    pub start_date_now: u64,
    pub end_date_now: u64,
    pub start_date_next: u64,
    pub end_date_next: u64,
    pub start_date_total: u64,
    pub end_date_total: u64,
    pub time_error_end: u64,
    pub total_state_updates: i32,
    pub login_bonus_date: u64,
    pub claimed_rewards: HashMapLength<i32, i32>,
    pub remaining_days_popup: u64,
    pub first_popup_flag: bool,
    pub badge_flag: bool,
}

/// The gold pass as values: its first numbers, the claimed rewards, the
/// popup timestamp and flag, and the badge flag.
pub type GoldPassModel = (GoldPassHead, Seq<(i32, i32)>, (u64, bool), bool);

pub open spec fn gold_pass_model(g: GoldPass) -> GoldPassModel {
    (
        (g.officer_id, (g.total_renewal_times, (g.start_date_now, (g.end_date_now, (g.start_date_next, (
            g.end_date_next,
            (g.start_date_total, (g.end_date_total, (g.time_error_end, (g.total_state_updates, g.login_bonus_date)))),
        )))))),
        g.claimed_rewards.0@,
        (g.remaining_days_popup, g.first_popup_flag),
        g.badge_flag,
    )
}

/// The badge flag is stored from version 8.1 on; before, it reads as unset.
pub open spec fn spec_read_gold_pass(g: GVCC, bytes: Seq<u8>) -> Option<(GoldPassModel, int)> {
    match GoldPassHead::spec_read(bytes) {
        Some((h, k1)) => match spec_read_map::<i32, i32>(VecArgsLength::I32, bytes.skip(k1)) {
            Some((c, k2)) => match <(u64, bool)>::spec_read(bytes.skip(k1 + k2)) {
                Some((t, k3)) => if g.gv.0 >= 80100 {
                    match bool::spec_read(bytes.skip(k1 + k2 + k3)) {
                        Some((b, k4)) => Some(((h, c, t, b), k1 + k2 + k3 + k4)),
                        None => None,
                    }
                } else {
                    Some(((h, c, t, false), k1 + k2 + k3))
                },
                None => None,
            },
            None => None,
        },
        None => None,
    }
}

/// The badge flag is written from version 8.1 on.
pub open spec fn spec_write_gold_pass(g: GVCC, m: GoldPassModel) -> Seq<u8> {
    m.0.spec_write() + spec_write_vec::<(i32, i32)>(VecArgsLength::I32, m.1) + m.2.spec_write() + if g.gv.0 >= 80100 {
        m.3.spec_write()
    } else {
        Seq::empty()
    }
}

impl GoldPass {
    #[verifier::rlimit(40)]
    pub fn read(r: &mut Reader, args: GVCC) -> (res: StreamResult<Self>)
        ensures
            read_result_view(*old(r), *final(r), res, spec_read_gold_pass(args, old(r).rest()), |g: Self| gold_pass_model(g)),
            res is Ok ==> old(r).position() <= final(r).position(),
    {
        let ghost start = *old(r);
        let _ = r.remaining();
        let (officer_id, (total_renewal_times, (start_date_now, (end_date_now, (start_date_next, (end_date_next, (
            start_date_total,
            (end_date_total, (time_error_end, (total_state_updates, login_bonus_date))),
        ))))))) = GoldPassHead::read(r)?;
        let ghost p1 = *r;
        proof {
            GoldPassHead::lemma_read_bounds(start.rest());
            Reader::lemma_rest_skip(start, p1);
        }
        let claimed_rewards = HashMapLength::<i32, i32>::read(r, VecArgsLength::I32)?;
        let ghost p2 = *r;
        proof {
            lemma_vec_reader_bounded::<(i32, i32)>(VecArgsLength::I32);
            assert(vec_reader::<(i32, i32)>(VecArgsLength::I32)(p1.rest()) == spec_read_vec::<(i32, i32)>(
                VecArgsLength::I32,
                p1.rest(),
            ));
            Reader::lemma_rest_skip(p1, p2);
            Reader::lemma_rest_skip(start, p2);
            let k1 = p1.position() - start.position();
            let k2 = p2.position() - p1.position();
            assert(start.rest().skip(k1).skip(k2) =~= start.rest().skip(k1 + k2));
        }
        let (remaining_days_popup, first_popup_flag) = <(u64, bool)>::read(r)?;
        let ghost p3 = *r;
        proof {
            <(u64, bool)>::lemma_read_bounds(p2.rest());
            Reader::lemma_rest_skip(p2, p3);
            Reader::lemma_rest_skip(start, p3);
            let k12 = p2.position() - start.position();
            let k3 = p3.position() - p2.position();
            assert(start.rest().skip(k12).skip(k3) =~= start.rest().skip(k12 + k3));
        }
        let badge_flag = if args.gv.0 >= 80100 {
            let b = bool::read(r)?;
            proof {
                bool::lemma_read_bounds(p3.rest());
            }
            b
        } else {
            false
        };
        Ok(GoldPass {
            officer_id,
            total_renewal_times,
            start_date_now,
            end_date_now,
            start_date_next,
            end_date_next,
            start_date_total,
            end_date_total,
            time_error_end,
            total_state_updates,
            login_bonus_date,
            claimed_rewards,
            remaining_days_popup,
            first_popup_flag,
            badge_flag,
        })
    }

    pub fn write(&self, w: &mut Writer, args: GVCC)
        ensures
            final(w).bytes() == old(w).bytes() + spec_write_gold_pass(args, gold_pass_model(*self)),
    {
        let head = (self.officer_id, (self.total_renewal_times, (self.start_date_now, (self.end_date_now, (
            self.start_date_next,
            (self.end_date_next, (self.start_date_total, (self.end_date_total, (self.time_error_end, (
                self.total_state_updates,
                self.login_bonus_date,
            ))))),
        )))));
        assert(head.can_write());
        head.write(w);
        assert(vec_writable(VecArgsLength::I32, self.claimed_rewards.0@));
        self.claimed_rewards.write(w, VecArgsLength::I32);
        (self.remaining_days_popup, self.first_popup_flag).write(w);
        if args.gv.0 >= 80100 {
            self.badge_flag.write(w);
        }
        assert(w.bytes() =~= old(w).bytes() + spec_write_gold_pass(args, gold_pass_model(*self)));
    }
}

/// The gold pass, talents by cat (each cat's list counted by an `i32`), NP,
/// a flag, then the marker 80000.
#[derive(Debug, Clone)]
pub struct GV80000Block {
    pub gold_pass: GoldPass,
    pub cat_talents: ModelMap<i32, I32List<Talent>>,
    pub np: i32,
    pub unknown: bool,
}

pub type GV80000Model = (GoldPassModel, Seq<(i32, Seq<Talent>)>, (i32, bool));

pub open spec fn gv80000_model(b: GV80000Block) -> GV80000Model {
    (gold_pass_model(b.gold_pass), b.cat_talents.entries(), (b.np, b.unknown))
}

pub open spec fn spec_read_gv80000(g: GVCC, bytes: Seq<u8>) -> Option<(GV80000Model, int)> {
    match spec_read_gold_pass(g, bytes) {
        Some((p, k1)) => match spec_read_model_map::<i32, I32List<Talent>>(VecArgsLength::I32, bytes.skip(k1)) {
            Some((t, k2)) => match <(i32, bool)>::spec_read(bytes.skip(k1 + k2)) {
                Some((n, k3)) => match spec_read_marker(80000, bytes.skip(k1 + k2 + k3)) {
                    Some(k4) => Some(((p, t, n), k1 + k2 + k3 + k4)),
                    None => None,
                },
                None => None,
            },
            None => None,
        },
        None => None,
    }
}

pub open spec fn spec_write_gv80000(g: GVCC, m: GV80000Model) -> Seq<u8> {
    spec_write_gold_pass(g, m.0) + spec_write_models::<(i32, I32List<Talent>)>(VecArgsLength::I32, m.1)
        + m.2.spec_write() + 80000i32.spec_write()
}

impl GV80000Block {
    pub fn read(r: &mut Reader, args: GVCC) -> (res: StreamResult<Self>)
        ensures
            read_result_view(*old(r), *final(r), res, spec_read_gv80000(args, old(r).rest()), |b: Self| gv80000_model(b)),
    {
        let ghost start = *old(r);
        let _ = r.remaining();
        let gold_pass = GoldPass::read(r, args)?;
        let ghost p1 = *r;
        proof {
            Reader::lemma_rest_skip(start, p1);
        }
        let cat_talents = ModelMap::<i32, I32List<Talent>>::read(r, VecArgsLength::I32)?;
        let ghost p2 = *r;
        proof {
            Reader::lemma_rest_skip(p1, p2);
            Reader::lemma_rest_skip(start, p2);
            let k1 = p1.position() - start.position();
            let k2 = p2.position() - p1.position();
            assert(start.rest().skip(k1).skip(k2) =~= start.rest().skip(k1 + k2));
        }
        let (np, unknown) = <(i32, bool)>::read(r)?;
        let ghost p3 = *r;
        proof {
            <(i32, bool)>::lemma_read_bounds(p2.rest());
            Reader::lemma_rest_skip(p2, p3);
            Reader::lemma_rest_skip(start, p3);
            let k12 = p2.position() - start.position();
            let k3 = p3.position() - p2.position();
            assert(start.rest().skip(k12).skip(k3) =~= start.rest().skip(k12 + k3));
        }
        read_marker(r, 80000)?;
        Ok(GV80000Block { gold_pass, cat_talents, np, unknown })
    }

    pub fn write(&self, w: &mut Writer, args: GVCC)
        ensures
            final(w).bytes() == old(w).bytes() + spec_write_gv80000(args, gv80000_model(*self)),
    {
        self.gold_pass.write(w, args);
        self.cat_talents.write(w, VecArgsLength::I32);
        (self.np, self.unknown).write(w);
        let marker = Assertable;
        marker.write(w, 80000);
        assert(w.bytes() =~= old(w).bytes() + spec_write_gv80000(args, gv80000_model(*self)));
    }
}

} // verus!
